//! Human-readable renderings of byte counts, durations and progress.

use vstd::prelude::*;
use crate::text::{append_chars, append_decimal, append_str, dec, dec3, decimal3, digit, digit_char, string_of};

verus! {

pub const KIB: u64 = 1024;
pub const MIB: u64 = 1048576;
pub const GIB: u64 = 1073741824;
pub const TIB: u64 = 1099511627776;

/// Two to the power `k`.
pub open spec fn pow2(k: nat) -> nat
    decreases k,
{
    if k == 0 { 1 } else { 2 * pow2((k - 1) as nat) }
}

/// The smallest power of two `p >= start` (doubling from `start`) with `b / p < 2^53`.
pub open spec fn f64_scale(b: nat, p: nat) -> nat
    decreases 2 * b + 2 - p,
{
    if p == 0 || b / p < pow2(53) || p > b {
        p
    } else {
        f64_scale(b, 2 * p)
    }
}

/// The value of `b as f64`: `b` rounded to 53 significant bits, ties to even.
pub open spec fn f64_value(b: nat) -> nat {
    let p = f64_scale(b, 1);
    let q = b / p;
    let r = b % p;
    let q2 = if 2 * r > p || (2 * r == p && q % 2 == 1) { q + 1 } else { q };
    q2 * p
}

/// `n / d` rounded to the nearest integer (halves upward).
pub open spec fn round_div(n: nat, d: nat) -> nat {
    (2 * n + d) / (2 * d)
}

/// The fixed-point rendering of `q / 10^places` (`places` is 1 or 2).
pub open spec fn fixed(q: nat, places: nat) -> Seq<char> {
    if places == 1 {
        dec(q / 10) + seq!['.', digit_char((q % 10) as int)]
    } else {
        dec(q / 100) + seq!['.', digit_char(((q / 10) % 10) as int), digit_char((q % 10) as int)]
    }
}

/// `format_bytes(b)`: B below 1 KiB, one decimal for KB and MB, two for GB and TB,
/// each the correctly rounded decimal of `b as f64` divided by the unit.
pub open spec fn bytes_text(b: nat) -> Seq<char> {
    if b >= TIB {
        fixed(round_div(f64_value(b) * 100, TIB as nat), 2) + " TB"@
    } else if b >= GIB {
        fixed(round_div(b * 100, GIB as nat), 2) + " GB"@
    } else if b >= MIB {
        fixed(round_div(b * 10, MIB as nat), 1) + " MB"@
    } else if b >= KIB {
        fixed(round_div(b * 10, KIB as nat), 1) + " KB"@
    } else {
        dec(b) + " B"@
    }
}

proof fn lemma_pow2_53()
    ensures
        pow2(53) == 9007199254740992,
{
    reveal_with_fuel(pow2, 54);
}

/// `b as f64` as an exact integer (at most `2^64`).
pub fn f64_exact(b: u64) -> (n: u128)
    ensures
        n as nat == f64_value(b as nat),
        n <= 4 * (b as nat) + 2,
{
    proof {
        lemma_pow2_53();
    }
    let lim: u128 = 9007199254740992;
    let bb: u128 = b as u128;
    let mut p: u128 = 1;
    assert(f64_scale(b as nat, 1) == f64_scale(b as nat, p as nat));
    while bb / p >= lim && p <= bb
        invariant
            1 <= p <= 2 * bb + 1,
            bb == b as u128,
            lim as nat == pow2(53),
            f64_scale(b as nat, 1) == f64_scale(b as nat, p as nat),
        decreases 2 * bb + 2 - p,
    {
        p = p * 2;
    }
    let q = bb / p;
    let r = bb % p;
    assert(q <= bb);
    let q2 = if 2 * r > p || (2 * r == p && q % 2 == 1) { q + 1 } else { q };
    assert(q2 * p <= bb + p) by (nonlinear_arith)
        requires
            q == bb / p,
            r == bb % p,
            q2 <= q + 1,
            p >= 1,
    {
    }
    q2 * p
}

/// `{:.N}` of the fraction `n / d`, `N` = `places` (1 or 2).
fn push_fixed(v: &mut Vec<char>, n: u128, d: u128, places: u64)
    requires
        1024 <= d < 0x1_0000_0000_0000_0000u128,
        n < 0x1000_0000_0000_0000_0000u128,
        places == 1 || places == 2,
    ensures
        final(v)@ == old(v)@ + fixed(round_div(n as nat, d as nat), places as nat),
{
    let q = (2 * n + d) / (2 * d);
    assert(q <= (2 * n + d) / 2048) by (nonlinear_arith)
        requires
            q == (2 * n + d) / (2 * d),
            d >= 1024,
    {
        vstd::arithmetic::div_mod::lemma_div_is_ordered_by_denominator((2 * n + d) as int, 2048, (2 * d) as int);
    }
    assert(q < 0x8_0000_0000_0000_0000u128);
    if places == 1 {
        append_decimal(v, (q / 10) as u64);
        v.push('.');
        v.push(digit((q % 10) as u64));
    } else {
        append_decimal(v, (q / 100) as u64);
        v.push('.');
        v.push(digit(((q / 10) % 10) as u64));
        v.push(digit((q % 10) as u64));
    }
}

/// Formats bytes into a human-readable string (e.g., "1.5 GB").
pub fn format_bytes(bytes: u64) -> (s: String)
    ensures
        s@ == bytes_text(bytes as nat),
{
    let mut v: Vec<char> = Vec::new();
    if bytes >= TIB {
        let n = f64_exact(bytes);
        push_fixed(&mut v, n * 100, TIB as u128, 2);
        append_chars(&mut v, &[' ', 'T', 'B']);
        assert(" TB"@ =~= seq![' ', 'T', 'B']) by { reveal_strlit(" TB"); }
    } else if bytes >= GIB {
        push_fixed(&mut v, (bytes as u128) * 100, GIB as u128, 2);
        append_chars(&mut v, &[' ', 'G', 'B']);
        assert(" GB"@ =~= seq![' ', 'G', 'B']) by { reveal_strlit(" GB"); }
    } else if bytes >= MIB {
        push_fixed(&mut v, (bytes as u128) * 10, MIB as u128, 1);
        append_chars(&mut v, &[' ', 'M', 'B']);
        assert(" MB"@ =~= seq![' ', 'M', 'B']) by { reveal_strlit(" MB"); }
    } else if bytes >= KIB {
        push_fixed(&mut v, (bytes as u128) * 10, KIB as u128, 1);
        append_chars(&mut v, &[' ', 'K', 'B']);
        assert(" KB"@ =~= seq![' ', 'K', 'B']) by { reveal_strlit(" KB"); }
    } else {
        append_decimal(&mut v, bytes);
        append_chars(&mut v, &[' ', 'B']);
        assert(" B"@ =~= seq![' ', 'B']) by { reveal_strlit(" B"); }
    }
    string_of(v.as_slice())
}

/// `format_bytes_signed(b)`: a `+` for non-negative values, then the magnitude.
pub open spec fn bytes_signed_text(b: int) -> Seq<char> {
    if b >= 0 {
        "+"@ + bytes_text(b as nat)
    } else {
        bytes_text((-b) as nat)
    }
}

/// Formats signed bytes (for growth/change display).
pub fn format_bytes_signed(bytes: i64) -> (s: String)
    ensures
        s@ == bytes_signed_text(bytes as int),
{
    let mut v: Vec<char> = Vec::new();
    let mag: u64 = if bytes >= 0 {
        append_str(&mut v, "+");
        bytes as u64
    } else if bytes == i64::MIN {
        9223372036854775808u64
    } else {
        (-bytes) as u64
    };
    let b = format_bytes(mag);
    append_str(&mut v, b.as_str());
    string_of(v.as_slice())
}

/// `format_duration(s)`: days, hours, minutes and seconds, omitting leading zero units.
pub open spec fn duration_text(total: nat) -> Seq<char> {
    let days = total / 86400;
    let hours = (total % 86400) / 3600;
    let minutes = (total % 3600) / 60;
    let seconds = total % 60;
    if days > 0 {
        dec(days) + "d "@ + dec(hours) + "h "@ + dec(minutes) + "m "@ + dec(seconds) + "s"@
    } else if hours > 0 {
        dec(hours) + "h "@ + dec(minutes) + "m "@ + dec(seconds) + "s"@
    } else if minutes > 0 {
        dec(minutes) + "m "@ + dec(seconds) + "s"@
    } else {
        dec(seconds) + "s"@
    }
}

/// Formats a duration into a human-readable string (e.g., "3d 14h 22m 15s").
pub fn format_duration(total_secs: u64) -> (s: String)
    ensures
        s@ == duration_text(total_secs as nat),
{
    let days = total_secs / 86400;
    let hours = (total_secs % 86400) / 3600;
    let minutes = (total_secs % 3600) / 60;
    let seconds = total_secs % 60;
    let mut v: Vec<char> = Vec::new();
    if days > 0 {
        append_decimal(&mut v, days);
        append_str(&mut v, "d ");
    }
    if days > 0 || hours > 0 {
        append_decimal(&mut v, hours);
        append_str(&mut v, "h ");
    }
    if days > 0 || hours > 0 || minutes > 0 {
        append_decimal(&mut v, minutes);
        append_str(&mut v, "m ");
    }
    append_decimal(&mut v, seconds);
    append_str(&mut v, "s");
    string_of(v.as_slice())
}

/// `format_uptime`: days, hours and minutes, omitting leading zero units.
pub open spec fn uptime_text(secs: nat) -> Seq<char> {
    let days = secs / 86400;
    let hours = (secs % 86400) / 3600;
    let mins = (secs % 3600) / 60;
    if days > 0 {
        dec(days) + "d "@ + dec(hours) + "h "@ + dec(mins) + "m"@
    } else if hours > 0 {
        dec(hours) + "h "@ + dec(mins) + "m"@
    } else {
        dec(mins) + "m"@
    }
}

pub fn uptime(secs: u64) -> (s: String)
    ensures
        s@ == uptime_text(secs as nat),
{
    let days = secs / 86400;
    let hours = (secs % 86400) / 3600;
    let mins = (secs % 3600) / 60;
    let mut v: Vec<char> = Vec::new();
    if days > 0 {
        append_decimal(&mut v, days);
        append_str(&mut v, "d ");
    }
    if days > 0 || hours > 0 {
        append_decimal(&mut v, hours);
        append_str(&mut v, "h ");
    }
    append_decimal(&mut v, mins);
    append_str(&mut v, "m");
    string_of(v.as_slice())
}

/// `format_word_count(n)`: "~n", with a thousands separator from 1000 on.
pub open spec fn word_count_text(n: nat) -> Seq<char> {
    if n >= 1000 {
        "~"@ + dec(n / 1000) + ","@ + dec3(n % 1000)
    } else {
        "~"@ + dec(n)
    }
}

/// Formats a word count for display (e.g., "~12,345").
pub fn format_word_count(count: usize) -> (s: String)
    ensures
        s@ == word_count_text(count as nat),
{
    let mut v: Vec<char> = Vec::new();
    append_str(&mut v, "~");
    let c = count as u64;
    if c >= 1000 {
        append_decimal(&mut v, c / 1000);
        append_str(&mut v, ",");
        let d = decimal3(c % 1000);
        append_chars(&mut v, d.as_slice());
    } else {
        append_decimal(&mut v, c);
    }
    string_of(v.as_slice())
}

} // verus!
