//! Text shaping for plugin output posted to Discord.

use vstd::prelude::*;
use crate::text::{
    append_chars, append_decimal, append_str, byte_prefix, byte_take, chars_of, copy_range,
    count_words_chars, cut_chars, dec, is_boundary, lemma_cut_chars_bound, lines, lines_of,
    lower_eq, lower_eq_chars, string_of, string_views, strings_of, trim, trim_chars, utf8_len,
    utf8_len_wide, views, word_count, alphanumeric, is_alphanumeric, lowercase, to_lowercase,
    lemma_cut_chars_unique, lemma_utf8_len_concat,
};

verus! {

/// Characters that `escape_markdown` prefixes with a backslash.
pub open spec fn is_markdown_special(c: char) -> bool {
    c == '*' || c == '_' || c == '`' || c == '[' || c == ']' || c == '(' || c == ')' || c == '~'
        || c == '>' || c == '#'
}

/// `s` with a backslash before every markdown special character.
pub open spec fn escaped(s: Seq<char>) -> Seq<char>
    decreases s.len(),
{
    if s.len() == 0 {
        seq![]
    } else {
        escaped(s.drop_last()) + if is_markdown_special(s.last()) {
            seq!['\\', s.last()]
        } else {
            seq![s.last()]
        }
    }
}

/// Escapes markdown special characters in text.
///
/// Characters escaped: * _ ` [ ] ( ) ~ > #
pub fn escape_markdown(text: &str) -> (out: String)
    ensures
        out@ == escaped(text@),
{
    let cs = chars_of(text);
    let mut v: Vec<char> = Vec::new();
    let mut i: usize = 0;
    assert(cs@.take(0) =~= Seq::<char>::empty());
    while i < cs.len()
        invariant
            i <= cs@.len(),
            v@ == escaped(cs@.take(i as int)),
        decreases cs@.len() - i,
    {
        let c = cs[i];
        assert(cs@.take(i + 1).drop_last() =~= cs@.take(i as int));
        if c == '*' || c == '_' || c == '`' || c == '[' || c == ']' || c == '(' || c == ')' || c
            == '~' || c == '>' || c == '#' {
            v.push('\\');
            v.push(c);
        } else {
            v.push(c);
        }
        i = i + 1;
        assert(v@ =~= escaped(cs@.take(i as int)));
    }
    assert(cs@.take(cs@.len() as int) =~= cs@);
    string_of(v.as_slice())
}

/// The cut that `truncate_str` makes panics unless it lands on a character boundary.
pub open spec fn truncate_ok(s: Seq<char>, max: nat) -> bool {
    utf8_len(s) <= max || is_boundary(s, if max >= 3 { max - 3 } else { 0 })
}

/// `s` cut to `max` bytes with an ellipsis when it is longer.
pub open spec fn truncated(s: Seq<char>, max: nat) -> Seq<char> {
    if utf8_len(s) <= max {
        s
    } else {
        byte_take(s, (if max >= 3 { max - 3 } else { 0 }) as nat) + "..."@
    }
}

/// Law: a cut string fits in `max` bytes, ellipsis included, whenever
/// `max` leaves room for the ellipsis.
pub proof fn lemma_truncated_fits(s: Seq<char>, max: nat)
    requires
        truncate_ok(s, max),
        max >= 3,
    ensures
        utf8_len(truncated(s, max)) <= max,
{
    if utf8_len(s) > max {
        let n = (max - 3) as nat;
        let k = choose|k: int| 0 <= k <= s.len() && utf8_len(#[trigger] s.take(k)) == n;
        lemma_cut_chars_unique(s, k, n);
        reveal_strlit("...");
        assert(utf8_len("..."@) == 3) by {
            reveal_with_fuel(utf8_len, 4);
            assert("..."@.drop_first() =~= seq!['.', '.']);
            assert("..."@.drop_first().drop_first() =~= seq!['.']);
            assert("..."@.drop_first().drop_first().drop_first() =~= Seq::<char>::empty());
        }
        lemma_utf8_len_concat(byte_take(s, n), "..."@);
    }
}

/// Truncates a string to `max_len` bytes, adding an ellipsis if needed.
pub fn truncate_str(s: &str, max_len: usize) -> (out: String)
    requires
        truncate_ok(s@, max_len as nat),
    ensures
        out@ == truncated(s@, max_len as nat),
        utf8_len(s@) <= max_len ==> out@ == s@,
        utf8_len(s@) > max_len ==> out@ == byte_take(
            s@,
            (if max_len >= 3 { max_len - 3 } else { 0 }) as nat,
        ) + "..."@,
{
    let cs = chars_of(s);
    let n = crate::text::byte_len(s);
    if n <= max_len {
        return string_of(cs.as_slice());
    }
    let keep = max_len.saturating_sub(3);
    let mut v = byte_prefix(cs.as_slice(), keep);
    append_str(&mut v, "...");
    string_of(v.as_slice())
}

/// A line longer than `max` bytes cut into `max`-byte pieces, and what is left.
pub open spec fn hard_split(s: Seq<char>, max: nat) -> (Seq<Seq<char>>, Seq<char>)
    decreases s.len(),
{
    let k = cut_chars(s, max);
    if utf8_len(s) > max && 0 < k && k <= s.len() {
        let r = hard_split(s.skip(k as int), max);
        (seq![s.take(k as int)] + r.0, r.1)
    } else {
        (seq![], s)
    }
}

/// Every cut of the hard split lands on a character boundary (`&s[..max]`
/// panics otherwise, and with `max == 0` the split never ends).
pub open spec fn hard_split_ok(s: Seq<char>, max: nat) -> bool
    decreases s.len(),
{
    let k = cut_chars(s, max);
    utf8_len(s) <= max || (0 < k && k <= s.len() && utf8_len(s.take(k as int)) == max
        && hard_split_ok(s.skip(k as int), max))
}

/// One line of `split_message`: close the current chunk when the line does not
/// fit, hard-splitting lines longer than a chunk; otherwise join it with `\n`.
pub open spec fn split_step(chunks: Seq<Seq<char>>, cur: Seq<char>, line: Seq<char>, max: nat) -> (
    Seq<Seq<char>>,
    Seq<char>,
) {
    if utf8_len(cur) + utf8_len(line) + 1 > max {
        let closed = if cur.len() > 0 {
            chunks.push(cur)
        } else {
            chunks
        };
        if utf8_len(line) > max {
            let h = hard_split(line, max);
            (closed + h.0, h.1)
        } else {
            (closed, line)
        }
    } else {
        (chunks, if cur.len() > 0 {
            cur + seq!['\n'] + line
        } else {
            line
        })
    }
}

/// The chunks and the open chunk after the lines `ls`.
pub open spec fn split_fold(ls: Seq<Seq<char>>, max: nat) -> (Seq<Seq<char>>, Seq<char>)
    decreases ls.len(),
{
    if ls.len() == 0 {
        (seq![], seq![])
    } else {
        let st = split_fold(ls.drop_last(), max);
        split_step(st.0, st.1, ls.last(), max)
    }
}

/// `split_message(content, max)`: the whole content when it fits, otherwise
/// its lines packed into chunks of at most `max` bytes.
pub open spec fn split_message_spec(content: Seq<char>, max: nat) -> Seq<Seq<char>> {
    if utf8_len(content) <= max {
        seq![content]
    } else {
        let st = split_fold(lines(content), max);
        if st.1.len() > 0 {
            st.0.push(st.1)
        } else {
            st.0
        }
    }
}

/// `split_message` neither panics nor loops forever on `content`.
pub open spec fn split_message_ok(content: Seq<char>, max: nat) -> bool {
    utf8_len(content) <= max || forall|i: int|
        0 <= i < lines(content).len() ==> hard_split_ok(#[trigger] lines(content)[i], max)
}

/// Every piece of a hard split takes `max` bytes, and what is left fits.
proof fn lemma_hard_split_fits(s: Seq<char>, max: nat)
    requires
        hard_split_ok(s, max),
    ensures
        forall|i: int| 0 <= i < hard_split(s, max).0.len() ==> utf8_len(#[trigger] hard_split(s, max).0[i]) <= max,
        utf8_len(hard_split(s, max).1) <= max,
    decreases s.len(),
{
    let k = cut_chars(s, max);
    if utf8_len(s) > max {
        let rest = s.skip(k as int);
        lemma_hard_split_fits(rest, max);
        let h = hard_split(s, max);
        assert forall|i: int| 0 <= i < h.0.len() implies utf8_len(#[trigger] h.0[i]) <= max by {
            if i > 0 {
                assert(h.0[i] == hard_split(rest, max).0[i - 1]);
            }
        }
    }
}

/// After any lines whose hard splits are sound, every closed chunk and the
/// open one fit in `max` bytes.
proof fn lemma_split_fold_fits(ls: Seq<Seq<char>>, max: nat)
    requires
        forall|i: int| 0 <= i < ls.len() ==> hard_split_ok(#[trigger] ls[i], max),
    ensures
        forall|i: int| 0 <= i < split_fold(ls, max).0.len() ==> utf8_len(#[trigger] split_fold(ls, max).0[i]) <= max,
        utf8_len(split_fold(ls, max).1) <= max,
    decreases ls.len(),
{
    if ls.len() > 0 {
        let prev = ls.drop_last();
        assert forall|i: int| 0 <= i < prev.len() implies hard_split_ok(#[trigger] prev[i], max) by {
            assert(prev[i] == ls[i]);
        }
        lemma_split_fold_fits(prev, max);
        let st = split_fold(prev, max);
        let line = ls.last();
        assert(hard_split_ok(ls[ls.len() - 1], max));
        let chunks = st.0;
        let cur = st.1;
        let n = split_step(chunks, cur, line, max);
        if utf8_len(cur) + utf8_len(line) + 1 > max {
            let closed = if cur.len() > 0 { chunks.push(cur) } else { chunks };
            assert forall|i: int| 0 <= i < closed.len() implies utf8_len(#[trigger] closed[i]) <= max by {
                if i < chunks.len() {
                    assert(closed[i] == chunks[i]);
                }
            }
            if utf8_len(line) > max {
                lemma_hard_split_fits(line, max);
                let h = hard_split(line, max);
                assert forall|i: int| 0 <= i < n.0.len() implies utf8_len(#[trigger] n.0[i]) <= max by {
                    if i < closed.len() {
                        assert(n.0[i] == closed[i]);
                    } else {
                        assert(n.0[i] == h.0[i - closed.len()]);
                    }
                }
            }
        } else if cur.len() > 0 {
            lemma_utf8_len_concat(cur, seq!['\n']);
            lemma_utf8_len_concat(cur + seq!['\n'], line);
            assert(utf8_len(seq!['\n']) == 1) by {
                assert(seq!['\n'].drop_first() =~= Seq::<char>::empty());
                reveal_with_fuel(utf8_len, 2);
            }
        }
    }
}

/// Law: when `split_message` runs to the end on `content`, every chunk it
/// gives fits in `max` bytes.
pub proof fn lemma_split_message_fits(content: Seq<char>, max: nat)
    requires
        split_message_ok(content, max),
    ensures
        forall|i: int| 0 <= i < split_message_spec(content, max).len() ==> utf8_len(
            #[trigger] split_message_spec(content, max)[i],
        ) <= max,
{
    if utf8_len(content) > max {
        lemma_split_fold_fits(lines(content), max);
        let st = split_fold(lines(content), max);
        if st.1.len() > 0 {
            let r = st.0.push(st.1);
            assert forall|i: int| 0 <= i < r.len() implies utf8_len(#[trigger] r[i]) <= max by {
                if i < st.0.len() {
                    assert(r[i] == st.0[i]);
                }
            }
        }
    }
}

/// `s` without its newline characters.
pub open spec fn without_newlines(s: Seq<char>) -> Seq<char>
    decreases s.len(),
{
    if s.len() == 0 {
        s
    } else if s.last() == '\n' {
        without_newlines(s.drop_last())
    } else {
        without_newlines(s.drop_last()).push(s.last())
    }
}

/// The pieces `ss`, one after another.
pub open spec fn flattened(ss: Seq<Seq<char>>) -> Seq<char>
    decreases ss.len(),
{
    if ss.len() == 0 {
        seq![]
    } else {
        flattened(ss.drop_last()) + ss.last()
    }
}

proof fn lemma_without_newlines_concat(a: Seq<char>, b: Seq<char>)
    ensures
        without_newlines(a + b) == without_newlines(a) + without_newlines(b),
    decreases b.len(),
{
    if b.len() == 0 {
        assert(a + b =~= a);
        assert(without_newlines(a) + without_newlines(b) =~= without_newlines(a));
    } else {
        lemma_without_newlines_concat(a, b.drop_last());
        assert((a + b).drop_last() =~= a + b.drop_last());
        assert((a + b).last() == b.last());
        if b.last() != '\n' {
            assert(without_newlines(a) + without_newlines(b.drop_last()).push(b.last()) =~= (without_newlines(a)
                + without_newlines(b.drop_last())).push(b.last()));
        }
    }
}

proof fn lemma_flattened_concat(a: Seq<Seq<char>>, b: Seq<Seq<char>>)
    ensures
        flattened(a + b) == flattened(a) + flattened(b),
    decreases b.len(),
{
    if b.len() == 0 {
        assert(a + b =~= a);
        assert(flattened(a) + flattened(b) =~= flattened(a));
    } else {
        lemma_flattened_concat(a, b.drop_last());
        assert((a + b).drop_last() =~= a + b.drop_last());
        assert((a + b).last() == b.last());
        assert(flattened(a) + (flattened(b.drop_last()) + b.last()) =~= (flattened(a) + flattened(b.drop_last()))
            + b.last());
    }
}

/// A sound hard split cuts `s` into non-empty pieces that give back `s`.
proof fn lemma_hard_split_pieces(s: Seq<char>, max: nat)
    requires
        hard_split_ok(s, max),
    ensures
        flattened(hard_split(s, max).0) + hard_split(s, max).1 == s,
        forall|i: int| 0 <= i < hard_split(s, max).0.len() ==> (#[trigger] hard_split(s, max).0[i]).len() > 0,
    decreases s.len(),
{
    let k = cut_chars(s, max);
    if utf8_len(s) > max {
        let rest = s.skip(k as int);
        lemma_hard_split_pieces(rest, max);
        let h = hard_split(s, max);
        let hr = hard_split(rest, max);
        lemma_flattened_concat(seq![s.take(k as int)], hr.0);
        assert(flattened(seq![s.take(k as int)]) =~= s.take(k as int)) by {
            let one = seq![s.take(k as int)];
            assert(one.drop_last() =~= Seq::<Seq<char>>::empty());
            assert(one.last() == s.take(k as int));
            reveal_with_fuel(flattened, 2);
            assert(flattened(one.drop_last()) =~= Seq::<char>::empty());
        }
        assert(s.take(k as int) + (flattened(hr.0) + hr.1) =~= s);
        assert forall|i: int| 0 <= i < h.0.len() implies (#[trigger] h.0[i]).len() > 0 by {
            if i > 0 {
                assert(h.0[i] == hr.0[i - 1]);
            }
        }
    }
}

/// Along the lines `ls`, the closed chunks are non-empty, and, newlines
/// aside, the chunks and the open one hold exactly the characters of the lines.
proof fn lemma_split_fold_keeps(ls: Seq<Seq<char>>, max: nat)
    requires
        forall|i: int| 0 <= i < ls.len() ==> hard_split_ok(#[trigger] ls[i], max),
    ensures
        forall|i: int| 0 <= i < split_fold(ls, max).0.len() ==> (#[trigger] split_fold(ls, max).0[i]).len() > 0,
        without_newlines(flattened(split_fold(ls, max).0)) + without_newlines(split_fold(ls, max).1)
            == without_newlines(flattened(ls)),
    decreases ls.len(),
{
    if ls.len() == 0 {
        assert(without_newlines(flattened(split_fold(ls, max).0)) + without_newlines(split_fold(ls, max).1)
            =~= Seq::<char>::empty());
    } else {
        let prev = ls.drop_last();
        assert forall|i: int| 0 <= i < prev.len() implies hard_split_ok(#[trigger] prev[i], max) by {
            assert(prev[i] == ls[i]);
        }
        lemma_split_fold_keeps(prev, max);
        let st = split_fold(prev, max);
        let line = ls.last();
        assert(hard_split_ok(ls[ls.len() - 1], max));
        let chunks = st.0;
        let cur = st.1;
        let n = split_step(chunks, cur, line, max);
        lemma_without_newlines_concat(flattened(prev), line);
        if utf8_len(cur) + utf8_len(line) + 1 > max {
            let closed = if cur.len() > 0 { chunks.push(cur) } else { chunks };
            assert(without_newlines(flattened(closed)) == without_newlines(flattened(chunks)) + without_newlines(cur))
                by {
                if cur.len() > 0 {
                    lemma_without_newlines_concat(flattened(chunks), cur);
                    assert(closed.drop_last() =~= chunks);
                } else {
                    assert(without_newlines(cur) =~= Seq::<char>::empty());
                    assert(without_newlines(flattened(chunks)) + without_newlines(cur) =~= without_newlines(
                        flattened(chunks),
                    ));
                }
            }
            assert forall|i: int| 0 <= i < closed.len() implies (#[trigger] closed[i]).len() > 0 by {
                if i < chunks.len() {
                    assert(closed[i] == chunks[i]);
                }
            }
            if utf8_len(line) > max {
                lemma_hard_split_pieces(line, max);
                let h = hard_split(line, max);
                lemma_flattened_concat(closed, h.0);
                lemma_without_newlines_concat(flattened(closed), flattened(h.0));
                lemma_without_newlines_concat(flattened(h.0), h.1);
                assert forall|i: int| 0 <= i < n.0.len() implies (#[trigger] n.0[i]).len() > 0 by {
                    if i < closed.len() {
                        assert(n.0[i] == closed[i]);
                    } else {
                        assert(n.0[i] == h.0[i - closed.len()]);
                    }
                }
            }
        } else if cur.len() > 0 {
            lemma_without_newlines_concat(cur, seq!['\n']);
            lemma_without_newlines_concat(cur + seq!['\n'], line);
            assert(without_newlines(seq!['\n']) =~= Seq::<char>::empty()) by {
                assert(seq!['\n'].drop_last() =~= Seq::<char>::empty());
                assert(seq!['\n'].last() == '\n');
                reveal_with_fuel(without_newlines, 2);
            }
            assert(without_newlines(cur) + Seq::<char>::empty() =~= without_newlines(cur));
        } else {
            assert(without_newlines(cur) =~= Seq::<char>::empty());
        }
    }
}

/// Law: when `split_message` has to split `content` and runs to the end, every
/// chunk holds at least one character, and, newlines aside, the chunks hold
/// exactly the characters of the content's lines, in order.
pub proof fn lemma_split_message_keeps_text(content: Seq<char>, max: nat)
    requires
        split_message_ok(content, max),
        utf8_len(content) > max,
    ensures
        forall|i: int| 0 <= i < split_message_spec(content, max).len() ==> (
        #[trigger] split_message_spec(content, max)[i]).len() > 0,
        without_newlines(flattened(split_message_spec(content, max))) == without_newlines(flattened(lines(content))),
{
    lemma_split_fold_keeps(lines(content), max);
    let st = split_fold(lines(content), max);
    if st.1.len() > 0 {
        let r = st.0.push(st.1);
        assert(r.drop_last() =~= st.0);
        lemma_without_newlines_concat(flattened(st.0), st.1);
        assert forall|i: int| 0 <= i < r.len() implies (#[trigger] r[i]).len() > 0 by {
            if i < st.0.len() {
                assert(r[i] == st.0[i]);
            }
        }
    } else {
        assert(without_newlines(st.1) =~= Seq::<char>::empty());
        assert(without_newlines(flattened(st.0)) + without_newlines(st.1) =~= without_newlines(flattened(st.0)));
    }
}

fn hard_split_exec(line: &[char], max: usize) -> (r: (Vec<Vec<char>>, Vec<char>))
    requires
        hard_split_ok(line@, max as nat),
    ensures
        views(r.0@) == hard_split(line@, max as nat).0,
        r.1@ == hard_split(line@, max as nat).1,
{
    let mut pieces: Vec<Vec<char>> = Vec::new();
    let mut rem = copy_range(line, 0, line.len());
    assert(line@.subrange(0, line@.len() as int) =~= line@);
    assert(views(pieces@) =~= Seq::<Seq<char>>::empty());
    while utf8_len_wide(rem.as_slice()) > max as u128
        invariant
            hard_split_ok(rem@, max as nat),
            hard_split(line@, max as nat).0 == views(pieces@) + hard_split(rem@, max as nat).0,
            hard_split(line@, max as nat).1 == hard_split(rem@, max as nat).1,
        decreases rem@.len(),
    {
        let ghost k = cut_chars(rem@, max as nat);
        assert(utf8_len(rem@.take(k as int)) == max);
        let head = byte_prefix(rem.as_slice(), max);
        proof {
            lemma_cut_chars_bound(rem@, max as nat);
        }
        assert(head@.len() == k);
        let tail = copy_range(rem.as_slice(), head.len(), rem.len());
        let ghost before = views(pieces@);
        pieces.push(head);
        assert(views(pieces@) =~= before.push(rem@.take(k as int)));
        assert(tail@ =~= rem@.skip(k as int));
        assert(views(pieces@) + hard_split(tail@, max as nat).0 =~= before + hard_split(
            rem@,
            max as nat,
        ).0);
        rem = tail;
    }
    (pieces, rem)
}

/// Splits a message into chunks that fit within Discord's character limit.
pub fn split_message(content: &str, max_len: usize) -> (chunks: Vec<String>)
    requires
        split_message_ok(content@, max_len as nat),
    ensures
        string_views(chunks@) == split_message_spec(content@, max_len as nat),
{
    let cs = chars_of(content);
    if utf8_len_wide(cs.as_slice()) <= max_len as u128 {
        let mut out: Vec<String> = Vec::new();
        out.push(string_of(cs.as_slice()));
        assert(string_views(out@) =~= seq![content@]);
        return out;
    }
    let ls = lines_of(cs.as_slice());
    let ghost lv = views(ls@);
    let mut chunks: Vec<Vec<char>> = Vec::new();
    let mut cur: Vec<char> = Vec::new();
    let mut i: usize = 0;
    assert(lv.take(0) =~= Seq::<Seq<char>>::empty());
    assert(views(chunks@) =~= Seq::<Seq<char>>::empty());
    while i < ls.len()
        invariant
            lv == views(ls@),
            lv == lines(content@),
            i <= ls@.len(),
            split_message_ok(content@, max_len as nat),
            utf8_len(content@) > max_len,
            (views(chunks@), cur@) == split_fold(lv.take(i as int), max_len as nat),
        decreases ls@.len() - i,
    {
        let line = &ls[i];
        assert(lv[i as int] == line@);
        assert(lv.take(i + 1).drop_last() =~= lv.take(i as int));
        let cl = utf8_len_wide(cur.as_slice());
        let ll = utf8_len_wide(line.as_slice());
        let ghost before = views(chunks@);
        if cl + ll + 1 > max_len as u128 {
            if cur.len() > 0 {
                chunks.push(cur);
                assert(views(chunks@) =~= before.push(split_fold(lv.take(i as int), max_len as nat).1));
            }
            let ghost closed = views(chunks@);
            if ll > max_len as u128 {
                assert(hard_split_ok(lv[i as int], max_len as nat));
                let (mut pieces, rem) = hard_split_exec(line.as_slice(), max_len);
                let ghost pv = views(pieces@);
                chunks.append(&mut pieces);
                assert(views(chunks@) =~= closed + pv);
                cur = rem;
            } else {
                cur = copy_range(line.as_slice(), 0, line.len());
                assert(cur@ =~= line@);
            }
        } else {
            if cur.len() > 0 {
                cur.push('\n');
            }
            append_chars(&mut cur, line.as_slice());
        }
        i = i + 1;
    }
    assert(lv.take(lv.len() as int) =~= lv);
    if cur.len() > 0 {
        chunks.push(cur);
    }
    strings_of(&chunks)
}

/// Sentence punctuation: what ends a transcript line besides a newline.
pub open spec fn ends_sentence(c: char) -> bool {
    c == '.' || c == '!' || c == '?'
}

/// Adds the trimmed `piece` as a new line of `out`, unless it is blank. It
/// follows a blank line when `breaks` (the line ends read since the last
/// line written) is 2 or more: a paragraph break.
pub open spec fn add_line(out: Seq<char>, piece: Seq<char>, breaks: nat) -> Seq<char> {
    let t = trim(piece);
    if t.len() == 0 {
        out
    } else if out.len() == 0 {
        t
    } else if breaks >= 2 {
        out + seq!['\n', '\n'] + t
    } else {
        out + seq!['\n'] + t
    }
}

/// The lines written so far, the pending sentence, and the line ends read
/// since the last line written (counted up to 2), after reading `s`.
pub open spec fn sentences_fold(s: Seq<char>) -> (Seq<char>, Seq<char>, nat)
    decreases s.len(),
{
    if s.len() == 0 {
        (seq![], seq![], 0)
    } else {
        let st = sentences_fold(s.drop_last());
        let buf = st.1.push(s.last());
        let blank = trim(buf).len() == 0;
        if ends_sentence(s.last()) {
            (add_line(st.0, buf, st.2), seq![], if blank { st.2 } else { 0 })
        } else if s.last() == '\n' {
            (add_line(st.0, buf, st.2), seq![], if blank { if st.2 >= 1 { 2 } else { 1 } } else { 1 })
        } else {
            (st.0, buf, st.2)
        }
    }
}

/// `format_transcript_sentences(text)`: one trimmed, non-blank sentence per
/// line, with a blank line kept between paragraphs.
pub open spec fn transcript_sentences(s: Seq<char>) -> Seq<char> {
    let st = sentences_fold(s);
    add_line(st.0, st.1, st.2)
}

/// Adds the trimmed `piece` as a line; says whether it was blank.
fn add_line_exec(out: &mut Vec<char>, piece: &[char], breaks: u8) -> (blank: bool)
    requires
        breaks <= 2,
    ensures
        final(out)@ == add_line(old(out)@, piece@, breaks as nat),
        blank == (trim(piece@).len() == 0),
{
    let t = trim_chars(piece);
    if t.len() > 0 {
        if out.len() > 0 {
            out.push('\n');
            if breaks >= 2 {
                out.push('\n');
            }
        }
        append_chars(out, t.as_slice());
        assert(old(out)@.len() == 0 ==> final(out)@ =~= t@);
        assert(old(out)@.len() > 0 && breaks >= 2 ==> final(out)@ =~= old(out)@ + seq!['\n', '\n'] + t@);
        assert(old(out)@.len() > 0 && breaks < 2 ==> final(out)@ =~= old(out)@ + seq!['\n'] + t@);
        false
    } else {
        true
    }
}

/// Formats transcript text with one sentence per line, keeping paragraph
/// breaks.
pub fn format_transcript_sentences(text: &str) -> (out: String)
    ensures
        out@ == transcript_sentences(text@),
{
    let cs = chars_of(text);
    let mut result: Vec<char> = Vec::new();
    let mut buffer: Vec<char> = Vec::new();
    let mut breaks: u8 = 0;
    let mut i: usize = 0;
    assert(cs@.take(0) =~= Seq::<char>::empty());
    while i < cs.len()
        invariant
            i <= cs@.len(),
            breaks <= 2,
            (result@, buffer@, breaks as nat) == sentences_fold(cs@.take(i as int)),
        decreases cs@.len() - i,
    {
        let ch = cs[i];
        assert(cs@.take(i + 1).drop_last() =~= cs@.take(i as int));
        assert(cs@.take(i + 1).last() == ch);
        buffer.push(ch);
        if ch == '.' || ch == '!' || ch == '?' {
            let blank = add_line_exec(&mut result, buffer.as_slice(), breaks);
            if !blank {
                breaks = 0;
            }
            buffer = Vec::new();
        } else if ch == '\n' {
            let blank = add_line_exec(&mut result, buffer.as_slice(), breaks);
            if blank {
                if breaks >= 1 {
                    breaks = 2;
                } else {
                    breaks = 1;
                }
            } else {
                breaks = 1;
            }
            buffer = Vec::new();
        }
        i = i + 1;
    }
    assert(cs@.take(cs@.len() as int) =~= cs@);
    add_line_exec(&mut result, buffer.as_slice(), breaks);
    string_of(result.as_slice())
}

/// Counts words in text (`split_whitespace().count()`).
pub fn count_words(text: &str) -> (n: usize)
    ensures
        n == word_count(text@),
{
    let cs = chars_of(text);
    count_words_chars(cs.as_slice())
}

/// Output format for transcripts and summaries.
#[derive(Debug, Clone, Copy, PartialEq, Eq, Structural)]
pub enum OutputFormat {
    /// Always post as Discord messages (split long content)
    Text,
    /// Always upload as files
    Files,
    /// Auto-detect based on length (default)
    Auto,
}

impl OutputFormat {
    /// Parses from a plugin parameter, case-insensitively; anything else is `Auto`.
    pub fn from_str(s: &str) -> (f: OutputFormat)
        ensures
            lower_eq(s@, seq!['t', 'e', 'x', 't']) ==> f == OutputFormat::Text,
            lower_eq(s@, seq!['f', 'i', 'l', 'e', 's']) ==> f == OutputFormat::Files,
            !lower_eq(s@, seq!['t', 'e', 'x', 't']) && !lower_eq(s@, seq!['f', 'i', 'l', 'e', 's'])
                ==> f == OutputFormat::Auto,
    {
        let cs = chars_of(s);
        let text = ['t', 'e', 'x', 't'];
        let files = ['f', 'i', 'l', 'e', 's'];
        assert(text@ =~= seq!['t', 'e', 'x', 't']);
        assert(files@ =~= seq!['f', 'i', 'l', 'e', 's']);
        if lower_eq_chars(cs.as_slice(), &text) {
            OutputFormat::Text
        } else if lower_eq_chars(cs.as_slice(), &files) {
            OutputFormat::Files
        } else {
            OutputFormat::Auto
        }
    }

    /// Whether content of `content_len` bytes is posted as a file.
    pub fn should_use_file(&self, content_len: usize) -> (b: bool)
        ensures
            b == match *self {
                OutputFormat::Text => false,
                OutputFormat::Files => true,
                OutputFormat::Auto => content_len > 2000,
            },
    {
        match self {
            OutputFormat::Text => false,
            OutputFormat::Files => true,
            OutputFormat::Auto => content_len > 2000,
        }
    }
}

impl Default for OutputFormat {
    fn default() -> (f: OutputFormat)
        ensures
            f == OutputFormat::Auto,
    {
        OutputFormat::Auto
    }
}

/// Who a plugin run is for, so that its AI usage is recorded against them.
#[derive(Clone, Debug)]
pub struct UserContext {
    pub user_id: String,
    pub guild_id: Option<String>,
    pub channel_id: Option<String>,
}

impl Default for UserContext {
    fn default() -> (c: UserContext)
        ensures
            c.user_id@ == Seq::<char>::empty(),
            c.guild_id is None,
            c.channel_id is None,
    {
        UserContext { user_id: String::new(), guild_id: None, channel_id: None }
    }
}

/// `c` repeated `n` times.
pub open spec fn repeat(c: char, n: nat) -> Seq<char> {
    Seq::new(n, |i: int| c)
}

/// The progress bar for `current` of `total`: twenty cells and a percentage.
pub open spec fn progress_bar_text(current: nat, total: nat) -> Seq<char> {
    let filled = if total > 0 { current * 20 / total } else { 0 };
    let pct = if total > 0 { current * 100 / total } else { 0 };
    seq!['['] + repeat('\u{2588}', filled) + repeat('\u{2591}', (20 - filled) as nat) + seq![']', ' ']
        + dec(pct) + seq!['%']
}

/// `create_progress_bar` does not overflow or underflow on these arguments.
pub open spec fn progress_bar_ok(current: nat, total: nat) -> bool {
    total == 0 || (current * 100 <= usize::MAX && current * 20 / total <= 20)
}

fn push_repeat(v: &mut Vec<char>, c: char, n: usize)
    ensures
        final(v)@ == old(v)@ + repeat(c, n as nat),
{
    let mut i: usize = 0;
    while i < n
        invariant
            i <= n,
            v@ == old(v)@ + repeat(c, i as nat),
        decreases n - i,
    {
        v.push(c);
        i = i + 1;
        assert(v@ =~= old(v)@ + repeat(c, i as nat));
    }
}

/// Creates a text-based progress bar.
pub fn create_progress_bar(current: usize, total: usize) -> (s: String)
    requires
        progress_bar_ok(current as nat, total as nat),
    ensures
        s@ == progress_bar_text(current as nat, total as nat),
{
    let filled: usize = if total > 0 { (current * 20) / total } else { 0 };
    let empty = 20 - filled;
    let pct: usize = if total > 0 { (current * 100) / total } else { 0 };
    let mut v: Vec<char> = Vec::new();
    v.push('[');
    push_repeat(&mut v, '\u{2588}', filled);
    push_repeat(&mut v, '\u{2591}', empty);
    v.push(']');
    v.push(' ');
    append_decimal(&mut v, pct as u64);
    v.push('%');
    assert(v@ =~= progress_bar_text(current as nat, total as nat));
    string_of(v.as_slice())
}

/// Characters that may stay in a file name.
pub open spec fn keeps_in_filename(c: char) -> bool {
    alphanumeric(c) || c == ' ' || c == '-' || c == '_'
}

/// The characters of `s` that may stay in a file name, in order.
pub open spec fn filename_chars(s: Seq<char>) -> Seq<char>
    decreases s.len(),
{
    if s.len() == 0 {
        seq![]
    } else {
        filename_chars(s.drop_last()) + if keeps_in_filename(s.last()) {
            seq![s.last()]
        } else {
            seq![]
        }
    }
}

/// `s` with every space turned into an underscore.
pub open spec fn underscores(s: Seq<char>) -> Seq<char> {
    Seq::new(s.len(), |i: int| if s[i] == ' ' { '_' } else { s[i] })
}

/// `sanitize_filename(s)`: at most fifty kept characters, trimmed, spaces as
/// underscores, lower-cased.
pub open spec fn sanitized_filename(s: Seq<char>) -> Seq<char> {
    let kept = filename_chars(s);
    let first = if kept.len() > 50 { kept.take(50) } else { kept };
    lowercase(underscores(trim(first)))
}

/// Sanitizes a string for use as a filename.
pub fn sanitize_filename(s: &str) -> (out: String)
    ensures
        out@ == sanitized_filename(s@),
{
    let cs = chars_of(s);
    let mut kept: Vec<char> = Vec::new();
    let mut i: usize = 0;
    assert(cs@.take(0) =~= Seq::<char>::empty());
    while i < cs.len()
        invariant
            i <= cs@.len(),
            kept@ == filename_chars(cs@.take(i as int)),
        decreases cs@.len() - i,
    {
        let c = cs[i];
        assert(cs@.take(i + 1).drop_last() =~= cs@.take(i as int));
        if is_alphanumeric(c) || c == ' ' || c == '-' || c == '_' {
            kept.push(c);
        }
        i = i + 1;
        assert(kept@ =~= filename_chars(cs@.take(i as int)));
    }
    assert(cs@.take(cs@.len() as int) =~= cs@);
    let first = if kept.len() > 50 { copy_range(kept.as_slice(), 0, 50) } else { kept };
    let t = trim_chars(first.as_slice());
    let mut u: Vec<char> = Vec::new();
    let mut j: usize = 0;
    while j < t.len()
        invariant
            j <= t@.len(),
            u@ == underscores(t@).take(j as int),
        decreases t@.len() - j,
    {
        if t[j] == ' ' {
            u.push('_');
        } else {
            u.push(t[j]);
        }
        j = j + 1;
        assert(u@ =~= underscores(t@).take(j as int));
    }
    assert(underscores(t@).take(t@.len() as int) =~= underscores(t@));
    let joined = string_of(u.as_slice());
    to_lowercase(joined.as_str())
}

} // verus!
