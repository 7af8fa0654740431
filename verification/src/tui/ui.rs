//! Text helpers of the dashboard's screens: cutting long strings for a
//! column and wrapping message text to the width of the message pane.

use vstd::prelude::*;
use crate::plugins::output::{truncate_ok, truncate_str, truncated};
use crate::tui::state::channels::ChannelMetadata;
use crate::text::{
    append_decimal, append_str, dec, byte_len, byte_prefix, byte_take, chars_of, copy_range, is_boundary, is_whitespace, is_ws,
    string_of, string_views, strings_of, utf8_len, views,
};

verus! {

/// Cuts `s` to `max_len` bytes, ending it with `...` when it is longer.
pub fn truncate_text(s: &str, max_len: usize) -> (out: String)
    requires
        truncate_ok(s@, max_len as nat),
    ensures
        out@ == truncated(s@, max_len as nat),
{
    truncate_str(s, max_len)
}

/// A user id for the user list: ids longer than 18 bytes are cut to their
/// first 15 bytes and `...`.
pub open spec fn short_user_id(id: Seq<char>) -> Seq<char> {
    if utf8_len(id) > 18 {
        byte_take(id, 15) + "..."@
    } else {
        id
    }
}

/// Shortens a user id for display (`&id[..15]` must be a character boundary
/// when the id is longer than 18 bytes).
pub fn truncate_user_id(id: &str) -> (s: String)
    requires
        utf8_len(id@) > 18 ==> is_boundary(id@, 15),
    ensures
        s@ == short_user_id(id@),
{
    let cs = chars_of(id);
    if byte_len(id) > 18 {
        let mut v = byte_prefix(cs.as_slice(), 15);
        append_str(&mut v, "...");
        string_of(v.as_slice())
    } else {
        string_of(cs.as_slice())
    }
}

/// The title of the message pane: the selected channel with its guild, when
/// its metadata is known, or its id, and how many messages it holds.
pub open spec fn pane_title_text(selected: Option<u64>, meta: Option<ChannelMetadata>, count: nat) -> Seq<char> {
    match selected {
        None => "Messages (select a channel)"@,
        Some(id) => match meta {
            Some(m) => match m.guild_name {
                Some(g) => "#"@ + m.name@ + " in "@ + g@ + " - "@ + dec(count) + " messages"@,
                None => "#"@ + m.name@ + " - "@ + dec(count) + " messages"@,
            },
            None => "Channel "@ + dec(id as nat) + " - "@ + dec(count) + " messages"@,
        },
    }
}

/// The message pane's title for the selected channel (`meta` is its
/// metadata, `count` its number of messages).
pub fn message_pane_title(selected: Option<u64>, meta: Option<&ChannelMetadata>, count: usize) -> (t: String)
    ensures
        t@ == pane_title_text(
            selected,
            match meta {
                Some(m) => Some(*m),
                None => None,
            },
            count as nat,
        ),
{
    let mut v: Vec<char> = Vec::new();
    match selected {
        None => append_str(&mut v, "Messages (select a channel)"),
        Some(id) => {
            match meta {
                Some(m) => {
                    append_str(&mut v, "#");
                    append_str(&mut v, m.name.as_str());
                    match &m.guild_name {
                        Some(g) => {
                            append_str(&mut v, " in ");
                            append_str(&mut v, g.as_str());
                        },
                        None => {},
                    }
                },
                None => {
                    append_str(&mut v, "Channel ");
                    append_decimal(&mut v, id);
                },
            }
            append_str(&mut v, " - ");
            append_decimal(&mut v, count as u64);
            append_str(&mut v, " messages");
        },
    }
    string_of(v.as_slice())
}

/// The messages shown in a pane `area_height` rows high (two go to its
/// border), scrolled down by `scroll`: the indices from `start` up to `end`.
pub open spec fn visible_range(total: nat, scroll: nat, area_height: nat) -> (nat, nat) {
    let rows: nat = if area_height >= 2 { (area_height - 2) as nat } else { 0 };
    let start = if scroll < total { scroll } else { total };
    let end = if scroll + rows < total { scroll + rows } else { total };
    (start, (if end < start { start } else { end }) as nat)
}

/// Which of `total` messages are shown, scrolled down by `scroll`, in a pane
/// `area_height` rows high.
pub fn visible_window(total: usize, scroll: usize, area_height: u16) -> (r: (usize, usize))
    ensures
        (r.0 as nat, r.1 as nat) == visible_range(total as nat, scroll as nat, area_height as nat),
{
    let rows: usize = if area_height >= 2 { (area_height - 2) as usize } else { 0 };
    let start = if scroll < total { scroll } else { total };
    let end = if rows <= total && scroll < total - rows { scroll + rows } else { total };
    (start, if end < start { start } else { end })
}

/// The pane's title with the scroll position, `[first-last/total]`, when the
/// pane is scrolled or the messages do not all fit.
pub open spec fn scrolled_title_text(title: Seq<char>, scroll: nat, rows: nat, total: nat) -> Seq<char> {
    if scroll > 0 || total > rows {
        title + " ["@ + dec(scroll + 1) + "-"@ + dec(if scroll + rows < total { scroll + rows } else { total })
            + "/"@ + dec(total) + "]"@
    } else {
        title
    }
}

/// Adds the scroll position to the pane's title (`rows` messages fit).
pub fn scrolled_title(title: &str, scroll: usize, rows: usize, total: usize) -> (t: String)
    requires
        scroll + rows <= usize::MAX,
        scroll < usize::MAX,
    ensures
        t@ == scrolled_title_text(title@, scroll as nat, rows as nat, total as nat),
{
    let mut v: Vec<char> = Vec::new();
    append_str(&mut v, title);
    if scroll > 0 || total > rows {
        let last = if scroll + rows < total { scroll + rows } else { total };
        append_str(&mut v, " [");
        append_decimal(&mut v, (scroll + 1) as u64);
        append_str(&mut v, "-");
        append_decimal(&mut v, last as u64);
        append_str(&mut v, "/");
        append_decimal(&mut v, total as u64);
        append_str(&mut v, "]");
    }
    string_of(v.as_slice())
}

/// How far a message's continuation lines are indented: the width of its
/// `[HH:MM:SS] author: ` header.
pub open spec fn header_width(author: Seq<char>) -> nat {
    author.len() + 13
}

/// The header width of a message by `author`.
pub fn continuation_indent(author: &str) -> (n: usize)
    requires
        author@.len() + 13 <= usize::MAX,
    ensures
        n == header_width(author@),
{
    let cs = chars_of(author);
    cs.len() + 13
}

/// The width a message's text is wrapped to: what the pane leaves after the
/// header, but never under 20 characters.
pub fn message_wrap_width(content_width: usize, header: usize) -> (w: usize)
    ensures
        w == if content_width >= header && content_width - header >= 20 {
            content_width - header
        } else {
            20
        },
{
    if content_width >= header && content_width - header >= 20 {
        content_width - header
    } else {
        20
    }
}

/// A continuation line of a wrapped message: `indent` spaces, then the line.
pub fn continuation_line(indent: usize, line: &str) -> (s: String)
    ensures
        s@ == Seq::new(indent as nat, |i: int| ' ') + line@,
{
    let mut v: Vec<char> = Vec::new();
    let mut i: usize = 0;
    while i < indent
        invariant
            i <= indent,
            v@ == Seq::new(i as nat, |k: int| ' '),
        decreases indent - i,
    {
        v.push(' ');
        i = i + 1;
        assert(v@ =~= Seq::new(i as nat, |k: int| ' '));
    }
    append_str(&mut v, line);
    string_of(v.as_slice())
}

/// Where the word that starts at `i` ends: the first whitespace at or after
/// `i`, or the end of `s`.
pub open spec fn word_end(s: Seq<char>, i: nat) -> nat
    decreases s.len() - i,
{
    if i >= s.len() || is_ws(s[i as int]) {
        i
    } else {
        word_end(s, i + 1)
    }
}

/// The whitespace-separated words of `s` from position `i` on
/// (`split_whitespace`).
pub open spec fn words_from(s: Seq<char>, i: nat) -> Seq<Seq<char>>
    decreases s.len() - i,
{
    if i >= s.len() {
        seq![]
    } else if is_ws(s[i as int]) {
        words_from(s, i + 1)
    } else {
        let e = word_end(s, i);
        if i < e <= s.len() {
            seq![s.subrange(i as int, e as int)] + words_from(s, e)
        } else {
            seq![]
        }
    }
}

/// A word cut into pieces of `m` characters; the last piece holds the rest.
pub open spec fn pieces(w: Seq<char>, m: nat) -> Seq<Seq<char>>
    decreases w.len(),
{
    if m == 0 || w.len() <= m {
        seq![w]
    } else {
        seq![w.take(m as int)] + pieces(w.skip(m as int), m)
    }
}

/// One word added to the finished lines and the line being filled. The word
/// joins the current line when it fits with a space; otherwise the current
/// line is finished and the word starts the next. A word longer than a line
/// is cut into pieces: on an empty line every piece becomes a line of its
/// own; after a finished line the last piece starts the next line.
pub open spec fn wrap_word(st: (Seq<Seq<char>>, Seq<char>), w: Seq<char>, m: nat) -> (Seq<Seq<char>>, Seq<char>) {
    let lines = st.0;
    let cur = st.1;
    if cur.len() == 0 {
        if w.len() > m {
            (lines + pieces(w, m), seq![])
        } else {
            (lines, w)
        }
    } else if cur.len() + 1 + w.len() <= m {
        (lines, cur + seq![' '] + w)
    } else if w.len() > m {
        let p = pieces(w, m);
        (lines.push(cur) + p.drop_last(), p.last())
    } else {
        (lines.push(cur), w)
    }
}

/// The words added one after another.
pub open spec fn wrap_words(st: (Seq<Seq<char>>, Seq<char>), ws: Seq<Seq<char>>, m: nat) -> (
    Seq<Seq<char>>,
    Seq<char>,
)
    decreases ws.len(),
{
    if ws.len() == 0 {
        st
    } else {
        wrap_words(wrap_word(st, ws[0], m), ws.drop_first(), m)
    }
}

/// `text` wrapped to lines of at most `m` characters, breaking between words;
/// a text without words gives one empty line, and a width of 0 leaves the
/// text whole.
pub open spec fn wrapped(text: Seq<char>, m: nat) -> Seq<Seq<char>> {
    if m == 0 {
        seq![text]
    } else {
        let st = wrap_words((seq![], seq![]), words_from(text, 0), m);
        let all = if st.1.len() > 0 {
            st.0.push(st.1)
        } else {
            st.0
        };
        if all.len() == 0 {
            seq![seq![]]
        } else {
            all
        }
    }
}

/// The pieces of `w`, for a non-empty `w` and `m > 0`.
fn cut_pieces(w: &[char], m: usize) -> (r: Vec<Vec<char>>)
    requires
        m > 0,
        w@.len() > 0,
    ensures
        views(r@) == pieces(w@, m as nat),
{
    let mut r: Vec<Vec<char>> = Vec::new();
    let mut p: usize = 0;
    assert(w@.skip(0) =~= w@);
    while p < w.len()
        invariant
            m > 0,
            p <= w@.len(),
            views(r@) + (if p < w@.len() {
                pieces(w@.skip(p as int), m as nat)
            } else {
                seq![]
            }) == pieces(w@, m as nat),
        decreases w@.len() - p,
    {
        let ghost rest = w@.skip(p as int);
        let ghost before = views(r@);
        if w.len() - p <= m {
            let piece = copy_range(w, p, w.len());
            assert(piece@ =~= rest);
            r.push(piece);
            assert(views(r@) =~= before.push(rest));
            assert(before + seq![rest] =~= before.push(rest));
            p = w.len();
        } else {
            let piece = copy_range(w, p, p + m);
            assert(piece@ =~= rest.take(m as int));
            assert(rest.skip(m as int) =~= w@.skip(p + m));
            r.push(piece);
            assert(views(r@) =~= before.push(rest.take(m as int)));
            assert(before + (seq![rest.take(m as int)] + pieces(rest.skip(m as int), m as nat)) =~= before.push(
                rest.take(m as int),
            ) + pieces(w@.skip(p + m), m as nat));
            p = p + m;
        }
    }
    assert(views(r@) + seq![] =~= views(r@));
    r
}

/// Appends the pieces `ps` to `lines`.
fn push_all(lines: &mut Vec<Vec<char>>, ps: Vec<Vec<char>>)
    ensures
        views(final(lines)@) == views(old(lines)@) + views(ps@),
{
    let ghost orig = views(lines@);
    let ghost all = ps@;
    let mut rest = ps;
    let ghost mut k: int = 0;
    assert(views(all).take(0) =~= Seq::<Seq<char>>::empty());
    assert(all.skip(0) =~= all);
    while rest.len() > 0
        invariant
            0 <= k <= all.len(),
            rest@ == all.skip(k),
            views(lines@) == orig + views(all).take(k),
        decreases rest@.len(),
    {
        let x = rest.remove(0);
        proof {
            assert(x == all[k]);
            assert(rest@ =~= all.skip(k + 1));
            assert(views(all).take(k + 1) =~= views(all).take(k).push(x@));
        }
        let ghost before = views(lines@);
        let ghost xv = x@;
        lines.push(x);
        proof {
            assert(views(lines@) =~= before.push(xv));
            k = k + 1;
            assert(views(lines@) =~= orig + views(all).take(k));
        }
    }
    assert(k == all.len());
    assert(views(all).take(k) =~= views(all));
}

/// Adds the word `w` to the finished `lines` and the current line `cur`.
fn add_word(lines: &mut Vec<Vec<char>>, cur: &mut Vec<char>, w: &Vec<char>, m: usize)
    requires
        m > 0,
        w@.len() > 0,
    ensures
        (views(final(lines)@), final(cur)@) == wrap_word((views(old(lines)@), old(cur)@), w@, m as nat),
{
    if cur.len() == 0 {
        if w.len() > m {
            let ps = cut_pieces(w.as_slice(), m);
            push_all(lines, ps);
        } else {
            *cur = copy_range(w.as_slice(), 0, w.len());
            assert(cur@ =~= w@);
        }
    } else if cur.len() < m && w.len() <= m - cur.len() - 1 {
        let ghost c0 = cur@;
        cur.push(' ');
        let mut i: usize = 0;
        while i < w.len()
            invariant
                i <= w@.len(),
                cur@ == c0 + seq![' '] + w@.take(i as int),
            decreases w@.len() - i,
        {
            cur.push(w[i]);
            i = i + 1;
            assert(cur@ =~= c0 + seq![' '] + w@.take(i as int));
        }
        assert(w@.take(w@.len() as int) =~= w@);
    } else {
        let mut done: Vec<char> = Vec::new();
        std::mem::swap(&mut done, cur);
        let ghost l0 = views(lines@);
        lines.push(done);
        assert(views(lines@) =~= l0.push(done@));
        if w.len() > m {
            let mut ps = cut_pieces(w.as_slice(), m);
            let ghost pv = views(ps@);
            proof {
                lemma_pieces_fit(w@, m as nat);
                assert(ps@.len() == pv.len());
            }
            let last = ps.pop().unwrap();
            assert(views(ps@) =~= pv.drop_last());
            assert(last@ == pv.last());
            push_all(lines, ps);
            *cur = last;
        } else {
            *cur = copy_range(w.as_slice(), 0, w.len());
            assert(cur@ =~= w@);
        }
    }
}

/// Wraps `text` to lines of at most `max_width` characters, breaking between
/// words; a word longer than a line is cut. A text with no words gives one
/// empty line; a width of 0 returns the text as one line.
pub fn wrap_text(text: &str, max_width: usize) -> (r: Vec<String>)
    ensures
        string_views(r@) == wrapped(text@, max_width as nat),
{
    if max_width == 0 {
        let mut r: Vec<String> = Vec::new();
        r.push(text.to_owned());
        assert(string_views(r@) =~= seq![text@]);
        return r;
    }
    let s = chars_of(text);
    let mut lines: Vec<Vec<char>> = Vec::new();
    let mut cur: Vec<char> = Vec::new();
    let mut i: usize = 0;
    let ghost m = max_width as nat;
    let ghost goal = wrap_words((seq![], seq![]), words_from(s@, 0), m);
    assert(views(lines@) =~= Seq::<Seq<char>>::empty());
    while i < s.len()
        invariant
            max_width > 0,
            m == max_width as nat,
            s@ == text@,
            i <= s@.len(),
            wrap_words((views(lines@), cur@), words_from(s@, i as nat), m) == goal,
        decreases s@.len() - i,
    {
        if is_whitespace(s[i]) {
            i = i + 1;
        } else {
            let mut e: usize = i;
            while e < s.len() && !is_whitespace(s[e])
                invariant
                    i <= e <= s@.len(),
                    word_end(s@, i as nat) == word_end(s@, e as nat),
                decreases s@.len() - e,
            {
                e = e + 1;
            }
            assert(e > i);
            let w = copy_range(s.as_slice(), i, e);
            let ghost ws = words_from(s@, i as nat);
            proof {
                assert(ws == seq![w@] + words_from(s@, e as nat));
                assert(ws[0] == w@);
                assert(ws.drop_first() =~= words_from(s@, e as nat));
            }
            add_word(&mut lines, &mut cur, &w, max_width);
            i = e;
        }
    }
    if cur.len() > 0 {
        let ghost l0 = views(lines@);
        lines.push(cur);
        assert(views(lines@) =~= l0.push(goal.1));
    }
    if lines.len() == 0 {
        lines.push(Vec::new());
        assert(views(lines@) =~= seq![Seq::<char>::empty()]);
    }
    strings_of(&lines)
}

/// The state of wrapping is sound: finished lines are non-empty and fit the
/// width, and so does the line being filled.
pub open spec fn wrap_fits(st: (Seq<Seq<char>>, Seq<char>), m: nat) -> bool {
    &&& forall|i: int| 0 <= i < st.0.len() ==> 0 < (#[trigger] st.0[i]).len() <= m
    &&& st.1.len() <= m
}

proof fn lemma_pieces_fit(w: Seq<char>, m: nat)
    requires
        m > 0,
        w.len() > 0,
    ensures
        pieces(w, m).len() > 0,
        forall|i: int| 0 <= i < pieces(w, m).len() ==> 0 < (#[trigger] pieces(w, m)[i]).len() <= m,
        w.len() > m ==> pieces(w, m).len() >= 2,
    decreases w.len(),
{
    if w.len() > m {
        let rest = w.skip(m as int);
        lemma_pieces_fit(rest, m);
        let p = pieces(w, m);
        assert forall|i: int| 0 <= i < p.len() implies 0 < (#[trigger] p[i]).len() <= m by {
            if i > 0 {
                assert(p[i] == pieces(rest, m)[i - 1]);
            }
        }
    }
}

proof fn lemma_wrap_word_fits(st: (Seq<Seq<char>>, Seq<char>), w: Seq<char>, m: nat)
    requires
        m > 0,
        wrap_fits(st, m),
    ensures
        wrap_fits(wrap_word(st, w, m), m),
{
    let lines = st.0;
    let cur = st.1;
    if w.len() > m {
        lemma_pieces_fit(w, m);
        let p = pieces(w, m);
        if cur.len() == 0 {
            let n = lines + p;
            assert forall|i: int| 0 <= i < n.len() implies 0 < (#[trigger] n[i]).len() <= m by {
                if i >= lines.len() {
                    assert(n[i] == p[i - lines.len()]);
                }
            }
        } else {
            let n = lines.push(cur) + p.drop_last();
            assert forall|i: int| 0 <= i < n.len() implies 0 < (#[trigger] n[i]).len() <= m by {
                if i > lines.len() {
                    assert(n[i] == p[i - lines.len() - 1]);
                } else if i == lines.len() {
                    assert(n[i] == cur);
                } else {
                    assert(n[i] == lines[i]);
                }
            }
            assert(p.last() == p[p.len() - 1]);
        }
    } else if cur.len() > 0 && !(cur.len() + 1 + w.len() <= m) {
        let n = lines.push(cur);
        assert forall|i: int| 0 <= i < n.len() implies 0 < (#[trigger] n[i]).len() <= m by {
            if i < lines.len() {
                assert(n[i] == lines[i]);
            }
        }
    }
}

proof fn lemma_wrap_words_fits(st: (Seq<Seq<char>>, Seq<char>), ws: Seq<Seq<char>>, m: nat)
    requires
        m > 0,
        wrap_fits(st, m),
    ensures
        wrap_fits(wrap_words(st, ws, m), m),
    decreases ws.len(),
{
    if ws.len() > 0 {
        lemma_wrap_word_fits(st, ws[0], m);
        lemma_wrap_words_fits(wrap_word(st, ws[0], m), ws.drop_first(), m);
    }
}

/// Law: wrapping to a width `m > 0` gives at least one line, and no line is
/// longer than `m` characters.
pub proof fn lemma_wrapped_lines_fit(text: Seq<char>, m: nat)
    requires
        m > 0,
    ensures
        wrapped(text, m).len() >= 1,
        forall|i: int| 0 <= i < wrapped(text, m).len() ==> (#[trigger] wrapped(text, m)[i]).len() <= m,
{
    let st0: (Seq<Seq<char>>, Seq<char>) = (seq![], seq![]);
    lemma_wrap_words_fits(st0, words_from(text, 0), m);
    let st = wrap_words(st0, words_from(text, 0), m);
    if st.1.len() > 0 {
        let n = st.0.push(st.1);
        assert forall|i: int| 0 <= i < n.len() implies (#[trigger] n[i]).len() <= m by {
            if i < st.0.len() {
                assert(n[i] == st.0[i]);
            }
        }
    }
}

} // verus!
