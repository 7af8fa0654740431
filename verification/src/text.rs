//! Character-sequence helpers shared by the rest of the crate.
//!
//! Strings are modelled by their `Seq<char>` view. Byte lengths are the
//! length of the UTF-8 encoding, as `str::len` reports them.

use vstd::prelude::*;

verus! {

/// The number of bytes that `c` takes in UTF-8.
pub open spec fn char_width(c: char) -> nat {
    if (c as u32) < 0x80 {
        1
    } else if (c as u32) < 0x800 {
        2
    } else if (c as u32) < 0x10000 {
        3
    } else {
        4
    }
}

/// The number of bytes of the UTF-8 encoding of `s` (what `str::len` reports).
pub open spec fn utf8_len(s: Seq<char>) -> nat
    decreases s.len(),
{
    if s.len() == 0 {
        0
    } else {
        char_width(s[0]) + utf8_len(s.drop_first())
    }
}

/// The characters of `s`.
#[verifier::external_body]
pub(crate) fn chars_of(s: &str) -> (v: Vec<char>)
    ensures
        v@ == s@,
{
    s.chars().collect()
}

/// A `String` holding exactly the characters `v`.
#[verifier::external_body]
pub(crate) fn string_of(v: &[char]) -> (s: String)
    ensures
        s@ == v@,
{
    v.iter().collect()
}

pub fn char_len_utf8(c: char) -> (n: usize)
    ensures
        n == char_width(c),
{
    let u = c as u32;
    if u < 0x80 {
        1
    } else if u < 0x800 {
        2
    } else if u < 0x10000 {
        3
    } else {
        4
    }
}

} // verus!

verus! {

/// Appends the characters `s` to `v`.
pub fn append_chars(v: &mut Vec<char>, s: &[char])
    ensures
        final(v)@ == old(v)@ + s@,
{
    let ghost start = v@;
    let mut i: usize = 0;
    while i < s.len()
        invariant
            i <= s@.len(),
            v@ == start + s@.subrange(0, i as int),
        decreases s@.len() - i,
    {
        v.push(s[i]);
        i = i + 1;
        assert(s@.subrange(0, i as int) == s@.subrange(0, i - 1).push(s@[i - 1]));
    }
    assert(s@.subrange(0, s@.len() as int) == s@);
}

/// Appends the characters of `s` to `v`.
pub fn append_str(v: &mut Vec<char>, s: &str)
    ensures
        final(v)@ == old(v)@ + s@,
{
    let cs = chars_of(s);
    append_chars(v, cs.as_slice());
}

/// The decimal digit character for `d` (for `d` in `0..=9`).
pub open spec fn digit_char(d: int) -> char {
    if d == 0 { '0' }
    else if d == 1 { '1' }
    else if d == 2 { '2' }
    else if d == 3 { '3' }
    else if d == 4 { '4' }
    else if d == 5 { '5' }
    else if d == 6 { '6' }
    else if d == 7 { '7' }
    else if d == 8 { '8' }
    else { '9' }
}

/// The value of a decimal digit character, if `c` is one.
pub open spec fn digit_value(c: char) -> Option<nat> {
    if c == '0' { Some(0) }
    else if c == '1' { Some(1) }
    else if c == '2' { Some(2) }
    else if c == '3' { Some(3) }
    else if c == '4' { Some(4) }
    else if c == '5' { Some(5) }
    else if c == '6' { Some(6) }
    else if c == '7' { Some(7) }
    else if c == '8' { Some(8) }
    else if c == '9' { Some(9) }
    else { None }
}

/// The decimal rendering of `n`, as `format!("{}", n)` writes it.
pub open spec fn dec(n: nat) -> Seq<char>
    decreases n,
{
    if n < 10 {
        seq![digit_char(n as int)]
    } else {
        dec(n / 10).push(digit_char((n % 10) as int))
    }
}

/// `n` rendered with at least three digits, zero-padded (`{:03}`), for `n < 1000`.
pub open spec fn dec3(n: nat) -> Seq<char> {
    seq![digit_char((n / 100) as int), digit_char(((n / 10) % 10) as int), digit_char((n % 10) as int)]
}

pub fn digit(d: u64) -> (c: char)
    requires
        d < 10,
    ensures
        c == digit_char(d as int),
{
    if d == 0 { '0' }
    else if d == 1 { '1' }
    else if d == 2 { '2' }
    else if d == 3 { '3' }
    else if d == 4 { '4' }
    else if d == 5 { '5' }
    else if d == 6 { '6' }
    else if d == 7 { '7' }
    else if d == 8 { '8' }
    else { '9' }
}

/// The decimal digits of `n`.
pub fn decimal(n: u64) -> (v: Vec<char>)
    ensures
        v@ == dec(n as nat),
    decreases n,
{
    if n < 10 {
        let mut v = Vec::new();
        v.push(digit(n));
        v
    } else {
        let mut v = decimal(n / 10);
        v.push(digit(n % 10));
        v
    }
}

/// `n` as three zero-padded digits.
pub fn decimal3(n: u64) -> (v: Vec<char>)
    requires
        n < 1000,
    ensures
        v@ == dec3(n as nat),
{
    let mut v = Vec::new();
    v.push(digit(n / 100));
    v.push(digit((n / 10) % 10));
    v.push(digit(n % 10));
    v
}

/// Appends the decimal digits of `n` to `v`.
pub fn append_decimal(v: &mut Vec<char>, n: u64)
    ensures
        final(v)@ == old(v)@ + dec(n as nat),
{
    let d = decimal(n);
    append_chars(v, d.as_slice());
}

/// The decimal rendering of a signed integer: a `-` before negative values.
pub open spec fn signed_dec(n: int) -> Seq<char> {
    if n < 0 {
        seq!['-'] + dec((-n) as nat)
    } else {
        dec(n as nat)
    }
}

/// Appends the decimal rendering of the signed `n` to `v`.
pub fn append_signed(v: &mut Vec<char>, n: i64)
    ensures
        final(v)@ == old(v)@ + signed_dec(n as int),
{
    if n < 0 {
        v.push('-');
        let m: u64 = ((-(n + 1)) as u64) + 1;
        append_decimal(v, m);
        assert(v@ =~= old(v)@ + signed_dec(n as int));
    } else {
        append_decimal(v, n as u64);
    }
}

} // verus!

verus! {

/// `p` occurs in `s` starting at index `i`.
pub open spec fn occurs_at(s: Seq<char>, p: Seq<char>, i: int) -> bool {
    0 <= i && i + p.len() <= s.len() && s.subrange(i, i + p.len()) == p
}

/// `p` occurs somewhere in `s` (`str::contains`).
pub open spec fn contains_seq(s: Seq<char>, p: Seq<char>) -> bool {
    exists|i: int| occurs_at(s, p, i)
}

/// `s` starts with `p` (`str::starts_with`).
pub open spec fn starts_with(s: Seq<char>, p: Seq<char>) -> bool {
    p.len() <= s.len() && s.subrange(0, p.len() as int) == p
}

/// `s` ends with `p` (`str::ends_with`).
pub open spec fn ends_with(s: Seq<char>, p: Seq<char>) -> bool {
    p.len() <= s.len() && s.subrange(s.len() - p.len(), s.len() as int) == p
}

/// Whether `p` occurs in `s` at index `i`.
pub fn matches_at(s: &[char], p: &[char], i: usize) -> (b: bool)
    ensures
        b == occurs_at(s@, p@, i as int),
{
    if i > s.len() || p.len() > s.len() - i {
        return false;
    }
    let n = s.len();
    let mut j: usize = 0;
    while j < p.len()
        invariant
            n == s@.len(),
            i + p@.len() <= s@.len(),
            j <= p@.len(),
            forall|k: int| 0 <= k < j ==> s@[i + k] == p@[k],
        decreases p@.len() - j,
    {
        assert(i + j < s@.len());
        if s[i + j] != p[j] {
            assert(s@.subrange(i as int, i + p@.len())[j as int] != p@[j as int]);
            return false;
        }
        j = j + 1;
    }
    assert(s@.subrange(i as int, i + p@.len()) =~= p@);
    true
}

pub fn starts_with_chars(s: &[char], p: &[char]) -> (b: bool)
    ensures
        b == starts_with(s@, p@),
{
    matches_at(s, p, 0)
}

pub fn ends_with_chars(s: &[char], p: &[char]) -> (b: bool)
    ensures
        b == ends_with(s@, p@),
{
    if p.len() > s.len() {
        false
    } else {
        matches_at(s, p, s.len() - p.len())
    }
}

/// The index of the first occurrence of `p` in `s` at or after `from`.
pub open spec fn first_occurrence_from(s: Seq<char>, p: Seq<char>, from: int) -> Option<int>
    decreases s.len() + 1 - from,
{
    if from < 0 || from + p.len() > s.len() {
        None
    } else if occurs_at(s, p, from) {
        Some(from)
    } else {
        first_occurrence_from(s, p, from + 1)
    }
}

/// The index of the first occurrence of `p` in `s` (`str::find`).
pub open spec fn first_occurrence(s: Seq<char>, p: Seq<char>) -> Option<int> {
    first_occurrence_from(s, p, 0)
}

pub proof fn lemma_first_occurrence_from(s: Seq<char>, p: Seq<char>, from: int)
    requires
        0 <= from,
    ensures
        first_occurrence_from(s, p, from) matches Some(k) ==> from <= k && occurs_at(s, p, k)
            && forall|j: int| from <= j < k ==> !occurs_at(s, p, j),
        first_occurrence_from(s, p, from) is None ==> forall|j: int| from <= j ==> !occurs_at(
            s,
            p,
            j,
        ),
    decreases s.len() + 1 - from,
{
    if from + p.len() > s.len() {
    } else if occurs_at(s, p, from) {
    } else {
        lemma_first_occurrence_from(s, p, from + 1);
    }
}

pub proof fn lemma_first_occurrence(s: Seq<char>, p: Seq<char>)
    ensures
        first_occurrence(s, p) matches Some(k) ==> 0 <= k && occurs_at(s, p, k) && forall|j: int|
            0 <= j < k ==> !occurs_at(s, p, j),
        first_occurrence(s, p) is None <==> !contains_seq(s, p),
{
    lemma_first_occurrence_from(s, p, 0);
}

/// The first occurrence of `p` in `s`, searching from index `from`.
pub fn find_from(s: &[char], p: &[char], from: usize) -> (r: Option<usize>)
    requires
        from <= s@.len(),
    ensures
        r matches Some(k) ==> first_occurrence_from(s@, p@, from as int) == Some(k as int),
        r is None ==> first_occurrence_from(s@, p@, from as int) is None,
{
    if p.len() > s.len() - from {
        return None;
    }
    let last = s.len() - p.len();
    let mut i = from;
    loop
        invariant
            from <= i <= last,
            last + p@.len() == s@.len(),
            first_occurrence_from(s@, p@, from as int) == first_occurrence_from(s@, p@, i as int),
        decreases last - i,
    {
        if matches_at(s, p, i) {
            return Some(i);
        }
        if i >= last {
            assert(first_occurrence_from(s@, p@, i + 1) is None);
            return None;
        }
        i = i + 1;
    }
}

/// The first occurrence of `p` in `s`.
pub fn find(s: &[char], p: &[char]) -> (r: Option<usize>)
    ensures
        r matches Some(k) ==> first_occurrence(s@, p@) == Some(k as int),
        r is None ==> first_occurrence(s@, p@) is None,
{
    find_from(s, p, 0)
}

/// Whether `p` occurs in `s`.
pub fn contains_chars(s: &[char], p: &[char]) -> (b: bool)
    ensures
        b == contains_seq(s@, p@),
{
    proof {
        lemma_first_occurrence(s@, p@);
    }
    find(s, p).is_some()
}

/// Whether the character `c` occurs in `s`.
pub fn contains_char(s: &[char], c: char) -> (b: bool)
    ensures
        b == s@.contains(c),
{
    let mut i: usize = 0;
    while i < s.len()
        invariant
            i <= s@.len(),
            forall|k: int| 0 <= k < i ==> s@[k] != c,
        decreases s@.len() - i,
    {
        if s[i] == c {
            return true;
        }
        i = i + 1;
    }
    false
}

/// Every non-overlapping occurrence of `p` in `s`, scanning left to right,
/// replaced by `r` (`str::replace` with a non-empty pattern).
pub open spec fn replace_all(s: Seq<char>, p: Seq<char>, r: Seq<char>) -> Seq<char>
    decreases s.len(),
{
    if p.len() == 0 || s.len() == 0 {
        s
    } else if starts_with(s, p) {
        r + replace_all(s.skip(p.len() as int), p, r)
    } else {
        seq![s[0]] + replace_all(s.skip(1), p, r)
    }
}

/// `str::replace` for a non-empty pattern.
pub fn replace_chars(s: &[char], p: &[char], r: &[char]) -> (out: Vec<char>)
    ensures
        out@ == replace_all(s@, p@, r@),
{
    if p.len() == 0 {
        let mut out = Vec::new();
        append_chars(&mut out, s);
        assert(out@ =~= s@);
        return out;
    }
    let mut out: Vec<char> = Vec::new();
    let mut i: usize = 0;
    assert(s@.skip(0) =~= s@);
    while i < s.len()
        invariant
            p@.len() > 0,
            i <= s@.len(),
            out@ + replace_all(s@.skip(i as int), p@, r@) == replace_all(s@, p@, r@),
        decreases s@.len() - i,
    {
        let ghost rest = s@.skip(i as int);
        if matches_at(s, p, i) {
            assert(rest.subrange(0, p@.len() as int) =~= s@.subrange(i as int, i + p@.len()));
            assert(rest.skip(p@.len() as int) =~= s@.skip(i + p@.len()));
            append_chars(&mut out, r);
            i = i + p.len();
        } else {
            assert(!starts_with(rest, p@)) by {
                if starts_with(rest, p@) {
                    assert(rest.subrange(0, p@.len() as int) =~= s@.subrange(i as int, i + p@.len()));
                }
            }
            assert(rest.skip(1) =~= s@.skip(i + 1));
            out.push(s[i]);
            i = i + 1;
        }
    }
    assert(s@.skip(i as int) =~= Seq::<char>::empty());
    assert(out@ + Seq::<char>::empty() =~= out@);
    out
}


} // verus!

verus! {

/// `char::is_whitespace`: the Unicode `White_Space` property.
pub open spec fn is_ws(c: char) -> bool {
    let u = c as u32;
    (0x09 <= u && u <= 0x0D) || u == 0x20 || u == 0x85 || u == 0xA0 || u == 0x1680 || (0x2000
        <= u && u <= 0x200A) || u == 0x2028 || u == 0x2029 || u == 0x202F || u == 0x205F || u
        == 0x3000
}

pub fn is_whitespace(c: char) -> (b: bool)
    ensures
        b == is_ws(c),
{
    let u = c as u32;
    (0x09 <= u && u <= 0x0D) || u == 0x20 || u == 0x85 || u == 0xA0 || u == 0x1680 || (0x2000
        <= u && u <= 0x200A) || u == 0x2028 || u == 0x2029 || u == 0x202F || u == 0x205F || u
        == 0x3000
}

/// `s` without leading whitespace (`str::trim_start`).
pub open spec fn trim_start(s: Seq<char>) -> Seq<char>
    decreases s.len(),
{
    if s.len() > 0 && is_ws(s[0]) {
        trim_start(s.drop_first())
    } else {
        s
    }
}

/// `s` without trailing whitespace (`str::trim_end`).
pub open spec fn trim_end(s: Seq<char>) -> Seq<char>
    decreases s.len(),
{
    if s.len() > 0 && is_ws(s.last()) {
        trim_end(s.drop_last())
    } else {
        s
    }
}

/// `s` without leading and trailing whitespace (`str::trim`).
pub open spec fn trim(s: Seq<char>) -> Seq<char> {
    trim_end(trim_start(s))
}

pub fn trim_chars(s: &[char]) -> (t: Vec<char>)
    ensures
        t@ == trim(s@),
{
    let mut lo: usize = 0;
    assert(s@.skip(0) =~= s@);
    while lo < s.len() && is_whitespace(s[lo])
        invariant
            lo <= s@.len(),
            trim_start(s@) == trim_start(s@.skip(lo as int)),
        decreases s@.len() - lo,
    {
        assert(s@.skip(lo as int).drop_first() =~= s@.skip(lo + 1));
        lo = lo + 1;
    }
    let ghost mid = s@.skip(lo as int);
    assert(trim_start(mid) == mid);
    let mut hi: usize = s.len();
    while hi > lo && is_whitespace(s[hi - 1])
        invariant
            lo <= hi <= s@.len(),
            trim_end(mid) == trim_end(s@.subrange(lo as int, hi as int)),
            mid == s@.skip(lo as int),
        decreases hi,
    {
        assert(s@.subrange(lo as int, hi as int).drop_last() =~= s@.subrange(
            lo as int,
            hi - 1,
        ));
        hi = hi - 1;
    }
    let mut t: Vec<char> = Vec::new();
    let mut i = lo;
    while i < hi
        invariant
            lo <= i <= hi <= s@.len(),
            t@ == s@.subrange(lo as int, i as int),
        decreases hi - i,
    {
        t.push(s[i]);
        i = i + 1;
        assert(t@ =~= s@.subrange(lo as int, i as int));
    }
    assert(s@.subrange(lo as int, s@.len() as int) =~= mid);
    t
}

/// The number of whitespace-separated words in `s` (`split_whitespace().count()`).
pub open spec fn word_count(s: Seq<char>) -> nat
    decreases s.len(),
{
    if s.len() == 0 {
        0
    } else {
        word_count(s.drop_last()) + if !is_ws(s.last()) && (s.len() == 1 || is_ws(
            s[s.len() - 2],
        )) {
            1nat
        } else {
            0nat
        }
    }
}

pub fn count_words_chars(s: &[char]) -> (n: usize)
    ensures
        n == word_count(s@),
{
    let mut n: usize = 0;
    let mut i: usize = 0;
    while i < s.len()
        invariant
            i <= s@.len(),
            n == word_count(s@.subrange(0, i as int)),
            n <= i,
        decreases s@.len() - i,
    {
        let ghost pre = s@.subrange(0, i as int);
        assert(s@.subrange(0, i + 1).drop_last() =~= pre);
        if !is_whitespace(s[i]) && (i == 0 || is_whitespace(s[i - 1])) {
            n = n + 1;
        }
        i = i + 1;
    }
    assert(s@.subrange(0, s@.len() as int) =~= s@);
    n
}

/// At most `n` pieces of `s` split at `sep`; the last piece holds the rest (`str::splitn`).
pub open spec fn splitn_char(s: Seq<char>, n: nat, sep: char) -> Seq<Seq<char>>
    decreases n,
{
    if n == 0 {
        seq![]
    } else if n == 1 {
        seq![s]
    } else {
        match first_occurrence(s, seq![sep]) {
            None => seq![s],
            Some(k) => if 0 <= k < s.len() {
                seq![s.take(k)] + splitn_char(s.skip(k + 1), (n - 1) as nat, sep)
            } else {
                seq![s]
            },
        }
    }
}

/// The first occurrence of a single character is the first index that holds it.
pub proof fn lemma_first_char_occurrence(s: Seq<char>, c: char, k: int)
    requires
        0 <= k < s.len(),
        s[k] == c,
        forall|j: int| 0 <= j < k ==> s[j] != c,
    ensures
        first_occurrence(s, seq![c]) == Some(k),
{
    lemma_first_occurrence(s, seq![c]);
    assert(occurs_at(s, seq![c], k)) by {
        assert(s.subrange(k, k + 1) =~= seq![c]);
    }
    match first_occurrence(s, seq![c]) {
        Some(k2) => {
            if k2 < k {
                assert(s.subrange(k2, k2 + 1)[0] == s[k2]);
            }
        },
        None => {},
    }
}

/// The decimal rendering of `n` is a non-empty run of digits whose value is `n`.
pub proof fn lemma_dec_digits(n: nat)
    ensures
        dec(n).len() >= 1,
        all_digits(dec(n)),
        digits_value(dec(n)) == n,
    decreases n,
{
    if n < 10 {
        assert(digit_value(digit_char(n as int)) == Some(n));
        assert(dec(n).drop_last() =~= Seq::<char>::empty());
        assert(digits_value(Seq::<char>::empty()) == 0);
        assert(dec(n).last() == digit_char(n as int));
    } else {
        lemma_dec_digits(n / 10);
        let d = dec(n);
        assert(d.drop_last() =~= dec(n / 10));
        assert(digit_value(digit_char((n % 10) as int)) == Some(n % 10));
        assert(d.last() == digit_char((n % 10) as int));
        assert(digits_value(d) == digits_value(dec(n / 10)) * 10 + (n % 10));
        assert forall|i: int| 0 <= i < d.len() implies (#[trigger] digit_value(d[i])) is Some by {
            if i < d.len() - 1 {
                assert(d[i] == dec(n / 10)[i]);
            }
        }
    }
}

/// A `u64` reads back from its decimal rendering.
pub proof fn lemma_parse_dec(n: u64)
    ensures
        parse_u64(dec(n as nat)) == Some(n),
        forall|i: int| 0 <= i < dec(n as nat).len() ==> (#[trigger] dec(n as nat)[i]) != '_',
{
    lemma_dec_digits(n as nat);
    assert(digit_value(dec(n as nat)[0]) is Some);
    assert forall|i: int| 0 <= i < dec(n as nat).len() implies (#[trigger] dec(n as nat)[i]) != '_' by {
        assert(digit_value(dec(n as nat)[i]) is Some);
    }
}

/// `splitn` yields at most `n` pieces.
pub proof fn lemma_splitn_len(s: Seq<char>, n: nat, sep: char)
    ensures
        splitn_char(s, n, sep).len() <= n,
    decreases n,
{
    if n > 1 {
        match first_occurrence(s, seq![sep]) {
            None => {},
            Some(k) => {
                if 0 <= k < s.len() {
                    lemma_splitn_len(s.skip(k + 1), (n - 1) as nat, sep);
                }
            },
        }
    }
}

/// The pieces of `s` between occurrences of the non-empty pattern `p` (`str::split`).
pub open spec fn split_seq(s: Seq<char>, p: Seq<char>) -> Seq<Seq<char>>
    decreases s.len(),
{
    if p.len() == 0 {
        seq![s]
    } else {
        match first_occurrence(s, p) {
            None => seq![s],
            Some(k) => if 0 <= k && k + p.len() <= s.len() {
                seq![s.take(k)] + split_seq(s.skip(k + p.len()), p)
            } else {
                seq![s]
            },
        }
    }
}

/// A line without its `\n` terminator loses one trailing `\r`.
pub open spec fn strip_cr(l: Seq<char>) -> Seq<char> {
    if l.len() > 0 && l.last() == '\r' {
        l.drop_last()
    } else {
        l
    }
}

/// The lines of `s` (`str::lines`): split at `\n`, a `\r` before the `\n` removed,
/// and no empty final line after a trailing `\n`.
pub open spec fn lines(s: Seq<char>) -> Seq<Seq<char>>
    decreases s.len(),
{
    if s.len() == 0 {
        seq![]
    } else {
        match first_occurrence(s, seq!['\n']) {
            None => seq![s],
            Some(k) => if 0 <= k < s.len() {
                seq![strip_cr(s.take(k))] + lines(s.skip(k + 1))
            } else {
                seq![s]
            },
        }
    }
}

/// `parts` joined by `sep`.
pub open spec fn joined(parts: Seq<Seq<char>>, sep: Seq<char>) -> Seq<char>
    decreases parts.len(),
{
    if parts.len() == 0 {
        Seq::empty()
    } else if parts.len() == 1 {
        parts[0]
    } else {
        joined(parts.drop_last(), sep) + sep + parts.last()
    }
}

/// The pieces `parts` joined by `sep`.
pub fn join_chars(parts: &Vec<Vec<char>>, sep: &[char]) -> (r: Vec<char>)
    ensures
        r@ == joined(views(parts@), sep@),
{
    let mut out: Vec<char> = Vec::new();
    let mut i: usize = 0;
    assert(views(parts@).take(0) =~= Seq::<Seq<char>>::empty());
    while i < parts.len()
        invariant
            i <= parts@.len(),
            out@ == joined(views(parts@).take(i as int), sep@),
        decreases parts@.len() - i,
    {
        let ghost t = views(parts@);
        assert(t.take(i + 1).drop_last() =~= t.take(i as int));
        assert(t.take(i + 1).last() == parts@[i as int]@);
        if i > 0 {
            append_chars(&mut out, sep);
        }
        append_chars(&mut out, parts[i].as_slice());
        i = i + 1;
    }
    assert(views(parts@).take(parts@.len() as int) =~= views(parts@));
    out
}

/// The views of a sequence of character vectors.
pub open spec fn views(v: Seq<Vec<char>>) -> Seq<Seq<char>> {
    v.map_values(|x: Vec<char>| x@)
}

/// The bytes `s[lo..hi]` as a new vector.
pub fn copy_bytes(s: &[u8], lo: usize, hi: usize) -> (v: Vec<u8>)
    requires
        lo <= hi <= s@.len(),
    ensures
        v@ == s@.subrange(lo as int, hi as int),
{
    let mut v: Vec<u8> = Vec::new();
    let mut i: usize = lo;
    while i < hi
        invariant
            lo <= i <= hi,
            hi <= s@.len(),
            v@ == s@.subrange(lo as int, i as int),
        decreases hi - i,
    {
        v.push(s[i]);
        assert(s@.subrange(lo as int, i + 1) =~= s@.subrange(lo as int, i as int).push(s@[i as int]));
        i = i + 1;
    }
    v
}

/// The characters `s[lo..hi]` as a new vector.
pub fn copy_range(s: &[char], lo: usize, hi: usize) -> (v: Vec<char>)
    requires
        lo <= hi <= s@.len(),
    ensures
        v@ == s@.subrange(lo as int, hi as int),
{
    let mut v: Vec<char> = Vec::new();
    let mut i = lo;
    while i < hi
        invariant
            lo <= i <= hi <= s@.len(),
            v@ == s@.subrange(lo as int, i as int),
        decreases hi - i,
    {
        v.push(s[i]);
        i = i + 1;
        assert(v@ =~= s@.subrange(lo as int, i as int));
    }
    v
}

/// `str::split` with a non-empty pattern.
pub fn split_chars(s: &[char], p: &[char]) -> (out: Vec<Vec<char>>)
    ensures
        views(out@) == split_seq(s@, p@),
{
    let mut out: Vec<Vec<char>> = Vec::new();
    if p.len() == 0 {
        out.push(copy_range(s, 0, s.len()));
        assert(s@.subrange(0, s@.len() as int) =~= s@);
        assert(views(out@) =~= seq![s@]);
        return out;
    }
    let mut start: usize = 0;
    assert(s@.skip(0) =~= s@);
    assert(views(out@) =~= Seq::<Seq<char>>::empty());
    loop
        invariant
            p@.len() > 0,
            start <= s@.len(),
            views(out@) + split_seq(s@.skip(start as int), p@) == split_seq(s@, p@),
        decreases s@.len() - start,
    {
        let rest = copy_range(s, start, s.len());
        assert(rest@ =~= s@.skip(start as int));
        match find(rest.as_slice(), p) {
            None => {
                let ghost before = views(out@);
                out.push(rest);
                assert(views(out@) =~= before.push(s@.skip(start as int)));
                assert(views(out@) =~= before + split_seq(s@.skip(start as int), p@));
                return out;
            },
            Some(k) => {
                proof {
                    lemma_first_occurrence(rest@, p@);
                }
                let ghost before = views(out@);
                let piece = copy_range(rest.as_slice(), 0, k);
                assert(piece@ =~= rest@.take(k as int));
                out.push(piece);
                assert(rest@.skip(k + p@.len()) =~= s@.skip(start + k + p@.len()));
                assert(views(out@) =~= before.push(rest@.take(k as int)));
                start = start + k + p.len();
                assert(views(out@) + split_seq(s@.skip(start as int), p@) =~= before + split_seq(
                    rest@,
                    p@,
                ));
            },
        }
    }
}

/// `str::splitn(n, sep)` for `n >= 1`.
pub fn splitn_chars(s: &[char], n: usize, sep: char) -> (out: Vec<Vec<char>>)
    requires
        n >= 1,
    ensures
        views(out@) == splitn_char(s@, n as nat, sep),
{
    let mut out: Vec<Vec<char>> = Vec::new();
    let mut start: usize = 0;
    let mut left: usize = n;
    let mut p: Vec<char> = Vec::new();
    p.push(sep);
    assert(p@ =~= seq![sep]);
    assert(s@.skip(0) =~= s@);
    assert(views(out@) =~= Seq::<Seq<char>>::empty());
    loop
        invariant
            left >= 1,
            p@ == seq![sep],
            start <= s@.len(),
            views(out@) + splitn_char(s@.skip(start as int), left as nat, sep) == splitn_char(
                s@,
                n as nat,
                sep,
            ),
        decreases s@.len() - start,
    {
        let rest = copy_range(s, start, s.len());
        assert(rest@ =~= s@.skip(start as int));
        let ghost before = views(out@);
        if left == 1 {
            out.push(rest);
            assert(views(out@) =~= before.push(s@.skip(start as int)));
            assert(views(out@) =~= before + splitn_char(s@.skip(start as int), left as nat, sep));
            return out;
        }
        match find(rest.as_slice(), p.as_slice()) {
            None => {
                out.push(rest);
                assert(views(out@) =~= before + splitn_char(s@.skip(start as int), left as nat, sep));
                return out;
            },
            Some(k) => {
                proof {
                    lemma_first_occurrence(rest@, p@);
                }
                let piece = copy_range(rest.as_slice(), 0, k);
                out.push(piece);
                assert(rest@.skip(k + 1) =~= s@.skip(start + k + 1));
                assert(views(out@) =~= before.push(rest@.take(k as int)));
                start = start + k + 1;
                left = left - 1;
                assert(views(out@) + splitn_char(s@.skip(start as int), left as nat, sep) =~= before
                    + splitn_char(rest@, (left + 1) as nat, sep));
            },
        }
    }
}

/// `str::lines`.
pub fn lines_of(s: &[char]) -> (out: Vec<Vec<char>>)
    ensures
        views(out@) == lines(s@),
{
    let mut out: Vec<Vec<char>> = Vec::new();
    let mut start: usize = 0;
    let mut p: Vec<char> = Vec::new();
    p.push('\n');
    assert(p@ =~= seq!['\n']);
    assert(s@.skip(0) =~= s@);
    assert(views(out@) =~= Seq::<Seq<char>>::empty());
    loop
        invariant
            p@ == seq!['\n'],
            start <= s@.len(),
            views(out@) + lines(s@.skip(start as int)) == lines(s@),
        decreases s@.len() - start,
    {
        let rest = copy_range(s, start, s.len());
        assert(rest@ =~= s@.skip(start as int));
        let ghost before = views(out@);
        if rest.len() == 0 {
            assert(views(out@) + lines(s@.skip(start as int)) =~= before);
            return out;
        }
        match find(rest.as_slice(), p.as_slice()) {
            None => {
                out.push(rest);
                assert(views(out@) =~= before + lines(s@.skip(start as int)));
                return out;
            },
            Some(k) => {
                proof {
                    lemma_first_occurrence(rest@, p@);
                }
                let mut end = k;
                if end > 0 && rest[end - 1] == '\r' {
                    end = end - 1;
                }
                let piece = copy_range(rest.as_slice(), 0, end);
                assert(piece@ =~= strip_cr(rest@.take(k as int)));
                out.push(piece);
                assert(rest@.skip(k + 1) =~= s@.skip(start + k + 1));
                assert(views(out@) =~= before.push(strip_cr(rest@.take(k as int))));
                start = start + k + 1;
                assert(views(out@) + lines(s@.skip(start as int)) =~= before + lines(rest@));
            },
        }
    }
}

/// The ASCII letter `c` would lower-case to, for the characters whose
/// lower-case form is a single ASCII character: `A`-`Z` and the Kelvin sign
/// (U+212A, lower-cased to `k`). Every other character is returned as is;
/// its lower-case form is never an ASCII character different from it.
pub open spec fn fold_lower(c: char) -> char {
    if 'A' <= c && c <= 'Z' {
        (((c as u8) + 32) as u8) as char
    } else if c == '\u{212A}' {
        'k'
    } else {
        c
    }
}

pub fn fold_lower_char(c: char) -> (d: char)
    ensures
        d == fold_lower(c),
{
    if 'A' <= c && c <= 'Z' {
        ((c as u8) + 32) as char
    } else if c == '\u{212A}' {
        'k'
    } else {
        c
    }
}

/// The lower-case form of `s` equals `t`, where `t` holds only lower-case ASCII
/// letters, digits and ASCII punctuation (`s.to_lowercase() == t`).
pub open spec fn lower_eq(s: Seq<char>, t: Seq<char>) -> bool {
    s.len() == t.len() && forall|i: int| 0 <= i < s.len() ==> fold_lower(#[trigger] s[i]) == t[i]
}

pub fn lower_eq_chars(s: &[char], t: &[char]) -> (b: bool)
    ensures
        b == lower_eq(s@, t@),
{
    if s.len() != t.len() {
        return false;
    }
    let mut i: usize = 0;
    while i < s.len()
        invariant
            s@.len() == t@.len(),
            i <= s@.len(),
            forall|j: int| 0 <= j < i ==> fold_lower(#[trigger] s@[j]) == t@[j],
        decreases s@.len() - i,
    {
        if fold_lower_char(s[i]) != t[i] {
            return false;
        }
        i = i + 1;
    }
    true
}

/// `utf8_len` is the length of vstd's UTF-8 encoding.
pub proof fn lemma_utf8_len_encode(s: Seq<char>)
    ensures
        utf8_len(s) == vstd::utf8::encode_utf8(s).len(),
    decreases s.len(),
{
    if s.len() > 0 {
        let c = s[0];
        let u = c as u32;
        assert(vstd::utf8::is_scalar(u)) by {
            vstd::utf8::char_is_scalar(c);
        }
        assert(vstd::utf8::encode_scalar(u).len() == char_width(c));
        lemma_utf8_len_encode(s.drop_first());
    }
}

/// The byte length of a concatenation is the sum of the byte lengths.
pub proof fn lemma_utf8_len_concat(a: Seq<char>, b: Seq<char>)
    ensures
        utf8_len(a + b) == utf8_len(a) + utf8_len(b),
    decreases a.len(),
{
    if a.len() > 0 {
        assert((a + b).drop_first() =~= a.drop_first() + b);
        lemma_utf8_len_concat(a.drop_first(), b);
    } else {
        assert(a + b =~= b);
    }
}

/// Byte lengths of prefixes grow with the prefix.
pub proof fn lemma_utf8_len_prefix(s: Seq<char>, i: int, j: int)
    requires
        0 <= i <= j <= s.len(),
    ensures
        utf8_len(s.take(i)) + (j - i) <= utf8_len(s.take(j)),
        utf8_len(s.take(j)) <= utf8_len(s),
{
    lemma_utf8_len_concat(s.take(i), s.subrange(i, j));
    assert(s.take(i) + s.subrange(i, j) =~= s.take(j));
    lemma_utf8_len_concat(s.take(j), s.skip(j));
    assert(s.take(j) + s.skip(j) =~= s);
    lemma_utf8_len_at_least_len(s.subrange(i, j));
}

/// Every character takes at least one byte.
pub proof fn lemma_utf8_len_at_least_len(s: Seq<char>)
    ensures
        s.len() <= utf8_len(s),
        utf8_len(s) <= 4 * s.len(),
    decreases s.len(),
{
    if s.len() > 0 {
        lemma_utf8_len_at_least_len(s.drop_first());
    }
}

/// The byte length of `s` (`str::len`).
pub fn byte_len(s: &str) -> (n: usize)
    ensures
        n == utf8_len(s@),
{
    proof {
        lemma_utf8_len_encode(s@);
    }
    let b = s.as_bytes();
    b.len()
}

/// The number of leading characters of `s` that fit in `n` bytes.
pub open spec fn cut_chars(s: Seq<char>, n: nat) -> nat
    decreases s.len(),
{
    if n == 0 || s.len() == 0 || char_width(s[0]) > n {
        0
    } else {
        1 + cut_chars(s.drop_first(), (n - char_width(s[0])) as nat)
    }
}

/// The longest prefix of `s` that fits in `n` bytes; at a character boundary
/// it is the prefix of exactly `n` bytes (`&s[..n]`).
pub open spec fn byte_take(s: Seq<char>, n: nat) -> Seq<char> {
    s.take(cut_chars(s, n) as int)
}

pub proof fn lemma_cut_chars_bound(s: Seq<char>, n: nat)
    ensures
        cut_chars(s, n) <= s.len(),
    decreases s.len(),
{
    if !(n == 0 || s.len() == 0 || char_width(s[0]) > n) {
        lemma_cut_chars_bound(s.drop_first(), (n - char_width(s[0])) as nat);
    }
}

/// A prefix of `n` bytes is the one that `cut_chars` finds.
pub proof fn lemma_cut_chars_unique(s: Seq<char>, k: int, n: nat)
    requires
        0 <= k <= s.len(),
        utf8_len(s.take(k)) == n,
    ensures
        cut_chars(s, n) == k,
    decreases s.len(),
{
    if k == 0 {
        assert(s.take(0) =~= Seq::<char>::empty());
    } else {
        assert(s.take(k)[0] == s[0]);
        assert(s.take(k).drop_first() =~= s.drop_first().take(k - 1));
        lemma_cut_chars_unique(s.drop_first(), k - 1, (n - char_width(s[0])) as nat);
    }
}

/// `n` is a character boundary of `s`: some prefix of `s` takes exactly `n` bytes.
pub open spec fn is_boundary(s: Seq<char>, n: int) -> bool {
    exists|k: int| 0 <= k <= s.len() && utf8_len(#[trigger] s.take(k)) == n
}

/// The prefix of `s` that takes exactly `n` bytes (`&s[..n]`, which panics
/// unless `n` is a character boundary).
pub fn byte_prefix(s: &[char], n: usize) -> (v: Vec<char>)
    requires
        is_boundary(s@, n as int),
    ensures
        v@.is_prefix_of(s@),
        utf8_len(v@) == n,
        v@ == byte_take(s@, n as nat),
{
    let ghost k0 = choose|k: int| 0 <= k <= s@.len() && utf8_len(#[trigger] s@.take(k)) == n;
    let mut acc: usize = 0;
    let mut i: usize = 0;
    assert(s@.take(0) =~= Seq::<char>::empty());
    while acc < n
        invariant
            0 <= k0 <= s@.len(),
            utf8_len(s@.take(k0)) == n,
            i <= s@.len(),
            acc == utf8_len(s@.take(i as int)),
            acc <= n,
            i <= k0,
        decreases n - acc,
    {
        proof {
            if i == k0 {
                assert(false);
            }
            lemma_utf8_len_prefix(s@, i as int, k0);
        }
        let w = char_len_utf8(s[i]);
        proof {
            lemma_utf8_len_concat(s@.take(i as int), seq![s@[i as int]]);
            assert(s@.take(i as int) + seq![s@[i as int]] =~= s@.take(i + 1));
            assert(utf8_len(seq![s@[i as int]]) == char_width(s@[i as int])) by {
                assert(seq![s@[i as int]].drop_first() =~= Seq::<char>::empty());
                reveal_with_fuel(utf8_len, 2);
            }
            if i + 1 <= k0 {
                lemma_utf8_len_prefix(s@, i + 1, k0);
            } else {
                assert(false);
            }
        }
        acc = acc + w;
        i = i + 1;
    }
    proof {
        if i < k0 {
            lemma_utf8_len_prefix(s@, i as int, k0);
            lemma_utf8_len_prefix(s@, i as int, i + 1);
            lemma_utf8_len_prefix(s@, i + 1, k0);
        }
        lemma_cut_chars_unique(s@, i as int, n as nat);
    }
    copy_range(s, 0, i)
}

/// The byte length of the characters `s`, for sequences that fit a `usize`.
pub fn byte_len_chars(s: &[char]) -> (n: usize)
    requires
        utf8_len(s@) <= usize::MAX,
    ensures
        n == utf8_len(s@),
{
    let mut acc: usize = 0;
    let mut i: usize = 0;
    assert(s@.take(0) =~= Seq::<char>::empty());
    while i < s.len()
        invariant
            i <= s@.len(),
            acc == utf8_len(s@.take(i as int)),
            utf8_len(s@) <= usize::MAX,
        decreases s@.len() - i,
    {
        proof {
            lemma_utf8_len_concat(s@.take(i as int), seq![s@[i as int]]);
            assert(s@.take(i as int) + seq![s@[i as int]] =~= s@.take(i + 1));
            assert(utf8_len(seq![s@[i as int]]) == char_width(s@[i as int])) by {
                assert(seq![s@[i as int]].drop_first() =~= Seq::<char>::empty());
                reveal_with_fuel(utf8_len, 2);
            }
            lemma_utf8_len_prefix(s@, i + 1, s@.len() as int);
        }
        acc = acc + char_len_utf8(s[i]);
        i = i + 1;
    }
    assert(s@.take(s@.len() as int) =~= s@);
    acc
}

/// Every character of `s` is a decimal digit.
pub open spec fn all_digits(s: Seq<char>) -> bool {
    forall|i: int| 0 <= i < s.len() ==> (#[trigger] digit_value(s[i])) is Some
}

/// The number written by the decimal digits `s`.
pub open spec fn digits_value(s: Seq<char>) -> nat
    decreases s.len(),
{
    if s.len() == 0 {
        0
    } else {
        digits_value(s.drop_last()) * 10 + match digit_value(s.last()) {
            Some(d) => d,
            None => 0,
        }
    }
}

/// `s.parse::<u64>()`: an optional `+`, then one or more decimal digits whose
/// value fits in a `u64`.
pub open spec fn parse_u64(s: Seq<char>) -> Option<u64> {
    let body = if s.len() > 0 && s[0] == '+' {
        s.drop_first()
    } else {
        s
    };
    if body.len() == 0 || !all_digits(body) || digits_value(body) > u64::MAX {
        None
    } else {
        Some(digits_value(body) as u64)
    }
}

pub fn digit_of(c: char) -> (d: Option<u64>)
    ensures
        d matches Some(x) ==> digit_value(c) == Some(x as nat) && x < 10,
        d is None ==> digit_value(c) is None,
{
    if c == '0' { Some(0) }
    else if c == '1' { Some(1) }
    else if c == '2' { Some(2) }
    else if c == '3' { Some(3) }
    else if c == '4' { Some(4) }
    else if c == '5' { Some(5) }
    else if c == '6' { Some(6) }
    else if c == '7' { Some(7) }
    else if c == '8' { Some(8) }
    else if c == '9' { Some(9) }
    else { None }
}

proof fn lemma_digits_value_mono(s: Seq<char>, i: int)
    requires
        0 <= i <= s.len(),
        all_digits(s),
    ensures
        digits_value(s.take(i)) <= digits_value(s),
    decreases s.len() - i,
{
    if i < s.len() {
        lemma_digits_value_mono(s, i + 1);
        assert(s.take(i + 1).drop_last() =~= s.take(i));
        assert(digit_value(s.take(i + 1).last()) is Some);
    } else {
        assert(s.take(i) =~= s);
    }
}

/// Parses a `u64` the way `str::parse::<u64>` does.
pub fn parse_u64_chars(s: &[char]) -> (r: Option<u64>)
    ensures
        r == parse_u64(s@),
{
    let start: usize = if s.len() > 0 && s[0] == '+' { 1 } else { 0 };
    let ghost body = if s@.len() > 0 && s@[0] == '+' { s@.drop_first() } else { s@ };
    assert(body =~= s@.skip(start as int));
    if start == s.len() {
        return None;
    }
    let mut acc: u64 = 0;
    let mut i: usize = start;
    assert(body.take(0) =~= Seq::<char>::empty());
    while i < s.len()
        invariant
            start <= i <= s@.len(),
            body == s@.skip(start as int),
            body == (if s@.len() > 0 && s@[0] == '+' { s@.drop_first() } else { s@ }),
            body.len() > 0,
            all_digits(body.take(i - start)),
            acc as nat == digits_value(body.take(i - start)),
        decreases s@.len() - i,
    {
        let ghost pre = body.take(i - start);
        let ghost next = body.take(i + 1 - start);
        assert(next.drop_last() =~= pre);
        assert(next.last() == s@[i as int]);
        match digit_of(s[i]) {
            None => {
                assert(!all_digits(body)) by {
                    assert(body[i - start] == s@[i as int]);
                    assert(digit_value(body[i - start]) is None);
                }
                return None;
            },
            Some(d) => {
                assert(all_digits(next)) by {
                    assert forall|j: int| 0 <= j < next.len() implies (#[trigger] digit_value(
                        next[j],
                    )) is Some by {
                        if j < pre.len() {
                            assert(next[j] == pre[j]);
                        }
                    }
                }
                let m = acc.checked_mul(10);
                match m {
                    None => {
                        proof {
                            assert(digits_value(next) > u64::MAX);
                            if all_digits(body) {
                                lemma_digits_value_mono(body, i + 1 - start);
                            }
                        }
                        return None;
                    },
                    Some(m) => {
                        let a = m.checked_add(d);
                        match a {
                            None => {
                                proof {
                                    if all_digits(body) {
                                        lemma_digits_value_mono(body, i + 1 - start);
                                    }
                                }
                                return None;
                            },
                            Some(a) => {
                                acc = a;
                            },
                        }
                    },
                }
            },
        }
        i = i + 1;
    }
    assert(body.take(i - start) =~= body);
    Some(acc)
}

/// The views of a sequence of strings.
pub open spec fn string_views(v: Seq<String>) -> Seq<Seq<char>> {
    v.map_values(|x: String| x@)
}

/// Each character vector as a `String`.
pub fn strings_of(v: &Vec<Vec<char>>) -> (out: Vec<String>)
    ensures
        string_views(out@) == views(v@),
{
    let mut out: Vec<String> = Vec::new();
    let mut i: usize = 0;
    while i < v.len()
        invariant
            i <= v@.len(),
            string_views(out@) == views(v@.take(i as int)),
        decreases v@.len() - i,
    {
        let s = string_of(v[i].as_slice());
        assert(s@ == v@[i as int]@);
        let ghost before = string_views(out@);
        out.push(s);
        assert(string_views(out@) =~= before.push(s@));
        assert(views(v@.take(i + 1)) =~= views(v@.take(i as int)).push(v@[i as int]@));
        i = i + 1;
    }
    assert(v@.take(v@.len() as int) =~= v@);
    out
}

/// The byte length of `s`, computed without overflow.
pub fn utf8_len_wide(s: &[char]) -> (n: u128)
    ensures
        n == utf8_len(s@),
        n <= 4 * (usize::MAX as nat),
{
    let mut acc: u128 = 0;
    let mut i: usize = 0;
    assert(s@.take(0) =~= Seq::<char>::empty());
    while i < s.len()
        invariant
            i <= s@.len(),
            acc == utf8_len(s@.take(i as int)),
            acc <= 4 * i,
        decreases s@.len() - i,
    {
        proof {
            lemma_utf8_len_concat(s@.take(i as int), seq![s@[i as int]]);
            assert(s@.take(i as int) + seq![s@[i as int]] =~= s@.take(i + 1));
            assert(utf8_len(seq![s@[i as int]]) == char_width(s@[i as int])) by {
                assert(seq![s@[i as int]].drop_first() =~= Seq::<char>::empty());
                reveal_with_fuel(utf8_len, 2);
            }
        }
        acc = acc + char_len_utf8(s[i]) as u128;
        i = i + 1;
    }
    assert(s@.take(s@.len() as int) =~= s@);
    assert(i <= usize::MAX);
    acc
}

/// What `char::is_alphanumeric` reports for `c` (the Unicode `Alphabetic`
/// or `Numeric` properties).
pub uninterp spec fn alphanumeric(c: char) -> bool;

/// What `char::is_lowercase` reports for `c` (the Unicode `Lowercase` property).
pub uninterp spec fn lowercase_letter(c: char) -> bool;

/// What `str::to_lowercase` returns for `s` (Unicode lower-case mapping).
pub uninterp spec fn lowercase(s: Seq<char>) -> Seq<char>;

/// `char::is_alphanumeric`; its result is `alphanumeric(c)`, nothing more is claimed.
#[verifier::external_body]
pub(crate) fn is_alphanumeric(c: char) -> (b: bool)
    ensures
        b == alphanumeric(c),
{
    c.is_alphanumeric()
}

/// `char::is_lowercase`; its result is `lowercase_letter(c)`, nothing more is claimed.
#[verifier::external_body]
pub(crate) fn is_lowercase(c: char) -> (b: bool)
    ensures
        b == lowercase_letter(c),
{
    c.is_lowercase()
}

/// `str::to_lowercase`; its result is `lowercase(s@)`, nothing more is claimed.
#[verifier::external_body]
pub(crate) fn to_lowercase(s: &str) -> (r: String)
    ensures
        r@ == lowercase(s@),
{
    s.to_lowercase()
}

/// Whether two character slices are equal.
pub fn chars_eq(a: &[char], b: &[char]) -> (r: bool)
    ensures
        r == (a@ == b@),
{
    if a.len() != b.len() {
        return false;
    }
    let mut i: usize = 0;
    while i < a.len()
        invariant
            a@.len() == b@.len(),
            i <= a@.len(),
            forall|j: int| 0 <= j < i ==> a@[j] == b@[j],
        decreases a@.len() - i,
    {
        if a[i] != b[i] {
            return false;
        }
        i = i + 1;
    }
    assert(a@ =~= b@);
    true
}

/// Whether two strings are equal.
pub fn str_eq(a: &str, b: &str) -> (r: bool)
    ensures
        r == (a@ == b@),
{
    let x = chars_of(a);
    let y = chars_of(b);
    chars_eq(x.as_slice(), y.as_slice())
}

} // verus!
