//! Human-readable numbers: decimal digits, byte sizes with one decimal
//! place, and coarse ages ("now", "5m", "3h", "2d", "4mo").

use vstd::prelude::*;
use crate::text::string_of;
use crate::clock::unix_now;

verus! {

/// The decimal digit character for `d < 10`.
pub open spec fn digit_char(d: nat) -> char {
    if d == 0 { '0' } else if d == 1 { '1' } else if d == 2 { '2' } else if d == 3 { '3' }
    else if d == 4 { '4' } else if d == 5 { '5' } else if d == 6 { '6' } else if d == 7 { '7' }
    else if d == 8 { '8' } else { '9' }
}

/// The digit character for `d < 10`.
pub fn digit(d: u128) -> (r: char)
    requires
        d < 10,
    ensures
        r == digit_char(d as nat),
{
    if d == 0 { '0' } else if d == 1 { '1' } else if d == 2 { '2' } else if d == 3 { '3' }
    else if d == 4 { '4' } else if d == 5 { '5' } else if d == 6 { '6' } else if d == 7 { '7' }
    else if d == 8 { '8' } else { '9' }
}

/// The decimal representation of `n`, without leading zeros.
pub open spec fn decimal(n: nat) -> Seq<char>
    decreases n,
{
    if n < 10 {
        seq![digit_char(n)]
    } else {
        decimal(n / 10).push(digit_char(n % 10))
    }
}

/// The decimal digits of `n`.
pub fn decimal_chars(n: u128) -> (r: Vec<char>)
    ensures
        r@ == decimal(n as nat),
    decreases n,
{
    let c = digit(n % 10);
    if n < 10 {
        vec![c]
    } else {
        let mut v = decimal_chars(n / 10);
        v.push(c);
        v
    }
}

/// `n / d` rounded to the nearest integer, ties to even.
pub open spec fn div_round_even(n: nat, d: nat) -> nat
    recommends
        d > 0,
{
    let q = n / d;
    let r = n % d;
    if 2 * r < d {
        q
    } else if 2 * r > d {
        q + 1
    } else if q % 2 == 0 {
        q
    } else {
        q + 1
    }
}

/// The value `x as f64` takes: `x` itself below 2^53, otherwise `x`
/// rounded to 53 significant bits, ties to even.
pub open spec fn as_double(x: nat) -> nat {
    let s = spare_bits(x);
    div_round_even(x, pow2(s)) * pow2(s)
}

/// 2 to the power `e`.
pub open spec fn pow2(e: nat) -> nat
    decreases e,
{
    if e == 0 { 1 } else { 2 * pow2((e - 1) as nat) }
}

/// How many low bits of `x` a double cannot hold (0 below 2^53).
pub open spec fn spare_bits(x: nat) -> nat
    decreases 64 - x,
{
    spare_bits_from(x, 0)
}

/// The least `s >= from` with `x < 2^(53 + s)` (stops at 11).
pub open spec fn spare_bits_from(x: nat, from: nat) -> nat
    decreases 11 - from,
{
    if from >= 11 || x < pow2(53 + from) {
        from
    } else {
        spare_bits_from(x, from + 1)
    }
}

/// `value / 2^k` written with one decimal place, as `{:.1}` writes the
/// double `value as f64 / 2^k`.
pub open spec fn one_decimal(value: nat, k: nat) -> Seq<char> {
    let tenths = div_round_even(as_double(value) * 10, pow2(k));
    decimal(tenths / 10).push('.').push(digit_char(tenths % 10))
}

/// How `format_size` writes a byte count: plain bytes below 1 KiB, else
/// KiB, MiB or GiB with one decimal place.
pub open spec fn size_text(bytes: nat) -> Seq<char> {
    if bytes < 1024 {
        decimal(bytes).push('B')
    } else if bytes < 1024 * 1024 {
        one_decimal(bytes, 10).push('K')
    } else if bytes < 1024 * 1024 * 1024 {
        one_decimal(bytes, 20).push('M')
    } else {
        one_decimal(bytes, 30).push('G')
    }
}

proof fn lemma_pow2_pos(e: nat)
    ensures
        pow2(e) >= 1,
    decreases e,
{
    if e > 0 {
        lemma_pow2_pos((e - 1) as nat);
    }
}

proof fn lemma_pow2_values()
    ensures
        pow2(10) == 1024,
        pow2(20) == 1048576,
        pow2(30) == 1073741824,
        pow2(53) == 9007199254740992,
        pow2(64) == 18446744073709551616,
        pow2(11) == 2048,
{
    reveal_with_fuel(pow2, 65);
    assert(pow2(11) == 2048);
}

/// `x` rounded to a double's 53 significant bits, as a whole number.
fn double_value(x: u64) -> (r: u128)
    ensures
        r == as_double(x as nat),
        r <= x + 2048,
{
    proof {
        lemma_pow2_values();
    }
    let mut s: u32 = 0;
    let mut p: u128 = 1;
    while s < 11 && (x as u128) >= 9007199254740992u128 * p
        invariant
            s <= 11,
            p == pow2(s as nat),
            p <= 2048,
            p * pow2((11 - s) as nat) == 2048,
            spare_bits(x as nat) == spare_bits_from(x as nat, s as nat),
            pow2((53 + s) as nat) == 9007199254740992 * p,
        decreases 11 - s,
    {
        proof {
            assert(pow2((53 + s + 1) as nat) == 2 * pow2((53 + s) as nat));
            assert(pow2((s + 1) as nat) == 2 * pow2(s as nat));
            assert(pow2((11 - s) as nat) == 2 * pow2((11 - s - 1) as nat));
            lemma_pow2_pos((11 - s - 1) as nat);
            assert(2 * p * pow2((11 - s - 1) as nat) == 2048) by (nonlinear_arith)
                requires
                    p * pow2((11 - s) as nat) == 2048,
                    pow2((11 - s) as nat) == 2 * pow2((11 - s - 1) as nat),
            ;
            assert(2 * p <= 2048) by (nonlinear_arith)
                requires
                    2 * p * pow2((11 - s - 1) as nat) == 2048,
                    pow2((11 - s - 1) as nat) >= 1,
            ;
        }
        s = s + 1;
        p = p * 2;
    }
    assert(spare_bits(x as nat) == s);
    let xv = x as u128;
    let q = xv / p;
    let r = xv % p;
    let rounded = if 2 * r < p {
        q
    } else if 2 * r > p {
        q + 1
    } else if q % 2 == 0 {
        q
    } else {
        q + 1
    };
    assert(rounded * p <= (q + 1) * p) by (nonlinear_arith)
        requires
            rounded <= q + 1,
    ;
    assert(q * p <= xv) by (nonlinear_arith)
        requires
            q == xv / p,
            p > 0,
    ;
    assert((q + 1) * p == q * p + p) by (nonlinear_arith);
    rounded * p
}

/// `value / 2^k` with one decimal place, as `{:.1}` writes `value as f64 / 2^k`.
fn one_decimal_chars(value: u64, k: u32, pk: u128) -> (r: Vec<char>)
    requires
        k == 10 || k == 20 || k == 30,
        pk == pow2(k as nat),
    ensures
        r@ == one_decimal(value as nat, k as nat),
{
    proof {
        lemma_pow2_values();
    }
    let d = double_value(value);
    assert(d <= 18446744073709551616u128 + 2048);
    let n = d * 10;
    let q = n / pk;
    let rem = n % pk;
    let tenths = if 2 * rem < pk {
        q
    } else if 2 * rem > pk {
        q + 1
    } else if q % 2 == 0 {
        q
    } else {
        q + 1
    };
    assert(q <= n) by (nonlinear_arith)
        requires
            q == n / pk,
            pk >= 1,
    ;
    let mut v = decimal_chars(tenths / 10);
    v.push('.');
    v.push(digit(tenths % 10));
    v
}

/// A byte count for display: `512B`, `1.5K`, `20.0M`, `3.2G`.
pub fn format_size(bytes: u64) -> (r: String)
    ensures
        r@ == size_text(bytes as nat),
{
    proof {
        lemma_pow2_values();
    }
    let mut v = if bytes < 1024 {
        let mut v = decimal_chars(bytes as u128);
        v.push('B');
        v
    } else if bytes < 1024 * 1024 {
        let mut v = one_decimal_chars(bytes, 10, 1024);
        v.push('K');
        v
    } else if bytes < 1024 * 1024 * 1024 {
        let mut v = one_decimal_chars(bytes, 20, 1048576);
        v.push('M');
        v
    } else {
        let mut v = one_decimal_chars(bytes, 30, 1073741824);
        v.push('G');
        v
    };
    string_of(&v)
}

/// How `format_time` writes an age of `diff` seconds: `now` under a
/// minute, then whole minutes, hours, days, and 30-day months.
pub open spec fn age_text(diff: nat) -> Seq<char> {
    if diff < 60 {
        seq!['n', 'o', 'w']
    } else if diff < 3600 {
        decimal(diff / 60).push('m')
    } else if diff < 86400 {
        decimal(diff / 3600).push('h')
    } else if diff < 86400 * 30 {
        decimal(diff / 86400).push('d')
    } else {
        decimal(diff / (86400 * 30)).push('m').push('o')
    }
}

/// An age of `diff` seconds for display.
pub fn format_age(diff: u64) -> (r: String)
    ensures
        r@ == age_text(diff as nat),
{
    let v = if diff < 60 {
        vec!['n', 'o', 'w']
    } else if diff < 3600 {
        let mut v = decimal_chars((diff / 60) as u128);
        v.push('m');
        v
    } else if diff < 86400 {
        let mut v = decimal_chars((diff / 3600) as u128);
        v.push('h');
        v
    } else if diff < 86400 * 30 {
        let mut v = decimal_chars((diff / 86400) as u128);
        v.push('d');
        v
    } else {
        let mut v = decimal_chars((diff / (86400 * 30)) as u128);
        v.push('m');
        v.push('o');
        v
    };
    assert(v@ == age_text(diff as nat));
    string_of(&v)
}

/// Seconds from `secs` to `now`, or 0 when `secs` is later.
pub open spec fn seconds_since(secs: u64, now: u64) -> nat {
    if now >= secs { (now - secs) as nat } else { 0 }
}

/// How long ago the Unix time `secs` was, for display (0 seconds when it
/// lies in the future). The clock decides the current time.
pub fn format_time(secs: u64) -> (r: String)
    ensures
        exists|now: u64| r@ == age_text(#[trigger] seconds_since(secs, now)),
{
    let now = unix_now();
    let diff = if now >= secs { now - secs } else { 0 };
    let r = format_age(diff);
    assert(r@ == age_text(seconds_since(secs, now)));
    r
}

} // verus!
