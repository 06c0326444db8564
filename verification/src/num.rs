//! Saturating fixed-point arithmetic and decimal rendering.
//!
//! Real-valued quantities are carried as integers in micro-units
//! (1_000_000 = 1.0).  All arithmetic saturates at `u64::MAX` instead of
//! overflowing, and every executable function is proved equal to the spec
//! function that defines it.

use vstd::prelude::*;

verus! {

/// Clamp a mathematical integer into the `u64` range.
pub open spec fn clamp_u64(x: int) -> u64 {
    if x > u64::MAX {
        u64::MAX
    } else if x < 0 {
        0u64
    } else {
        x as u64
    }
}

/// Increment that sticks at `u64::MAX`.
pub open spec fn sat_inc(x: u64) -> u64 {
    clamp_u64(x + 1)
}

/// Addition that sticks at `u64::MAX`.
pub open spec fn sat_add(a: u64, b: u64) -> u64 {
    clamp_u64(a + b)
}

pub fn inc64(x: u64) -> (r: u64)
    ensures
        r == sat_inc(x),
{
    if x == u64::MAX {
        x
    } else {
        x + 1
    }
}

pub fn add64(a: u64, b: u64) -> (r: u64)
    ensures
        r == sat_add(a, b),
{
    let s: u128 = a as u128 + b as u128;
    if s > u64::MAX as u128 {
        u64::MAX
    } else {
        s as u64
    }
}

/// The larger of two readings.
pub open spec fn max_spec(a: u64, b: u64) -> u64 {
    if a >= b {
        a
    } else {
        b
    }
}

/// Subtraction that stops at zero.
pub open spec fn sat_sub(a: u64, b: u64) -> u64 {
    if a >= b {
        (a - b) as u64
    } else {
        0u64
    }
}

pub fn sub64(a: u64, b: u64) -> (r: u64)
    ensures
        r == sat_sub(a, b),
{
    if a >= b {
        a - b
    } else {
        0
    }
}

pub fn max64(a: u64, b: u64) -> (r: u64)
    ensures
        r == max_spec(a, b),
{
    if a >= b {
        a
    } else {
        b
    }
}

/// Exponentially weighted moving average of the cognitive load, in
/// micro-units: `load <- 0.9 * load + 0.1 * factor * seconds`, where the
/// duration is given in milliseconds and `factor` is in micro-units.
pub open spec fn ewma_load(old_load: u64, factor: u64, dur_ms: u64) -> u64 {
    clamp_u64((9 * old_load + factor * dur_ms / 1000) / 10)
}

/// Exponentially weighted moving average of the response time, kept in
/// micro-milliseconds: `avg <- 0.9 * avg + 0.1 * dur`, with `dur` in
/// milliseconds.
pub open spec fn ewma_avg(old_avg: u64, dur_ms: u64) -> u64 {
    clamp_u64((9 * old_avg + dur_ms * 1_000_000) / 10)
}

pub fn ewma_load_exec(old_load: u64, factor: u64, dur_ms: u64) -> (r: u64)
    ensures
        r == ewma_load(old_load, factor, dur_ms),
{
    proof {
        assert((factor as int) * (dur_ms as int) < 0x1_0000_0000_0000_0000u128
            * 0x1_0000_0000_0000_0000u128) by (nonlinear_arith)
            requires
                factor <= u64::MAX,
                dur_ms <= u64::MAX,
        ;
    }
    let x: u128 = (9u128 * old_load as u128 + (factor as u128) * (dur_ms as u128) / 1000) / 10;
    if x > u64::MAX as u128 {
        u64::MAX
    } else {
        x as u64
    }
}

pub fn ewma_avg_exec(old_avg: u64, dur_ms: u64) -> (r: u64)
    ensures
        r == ewma_avg(old_avg, dur_ms),
{
    let x: u128 = (9u128 * old_avg as u128 + (dur_ms as u128) * 1_000_000u128) / 10;
    if x > u64::MAX as u128 {
        u64::MAX
    } else {
        x as u64
    }
}

/// The decimal digit `d` (0 to 9) as a character.
pub open spec fn digit_char(d: int) -> char {
    if d == 0 {
        '0'
    } else if d == 1 {
        '1'
    } else if d == 2 {
        '2'
    } else if d == 3 {
        '3'
    } else if d == 4 {
        '4'
    } else if d == 5 {
        '5'
    } else if d == 6 {
        '6'
    } else if d == 7 {
        '7'
    } else if d == 8 {
        '8'
    } else {
        '9'
    }
}

/// The usual decimal rendering of a non-negative integer.
pub open spec fn dec_of(n: int) -> Seq<char>
    decreases n,
{
    if n < 10 {
        seq![digit_char(n)]
    } else {
        dec_of(n / 10).push(digit_char(n % 10))
    }
}

fn digit_str(d: u64) -> (r: String)
    requires
        d < 10,
    ensures
        r@ == seq![digit_char(d as int)],
{
    let s: &str = if d == 0 {
        "0"
    } else if d == 1 {
        "1"
    } else if d == 2 {
        "2"
    } else if d == 3 {
        "3"
    } else if d == 4 {
        "4"
    } else if d == 5 {
        "5"
    } else if d == 6 {
        "6"
    } else if d == 7 {
        "7"
    } else if d == 8 {
        "8"
    } else {
        "9"
    };
    proof {
        reveal_strlit("0");
        reveal_strlit("1");
        reveal_strlit("2");
        reveal_strlit("3");
        reveal_strlit("4");
        reveal_strlit("5");
        reveal_strlit("6");
        reveal_strlit("7");
        reveal_strlit("8");
        reveal_strlit("9");
        assert(s@ =~= seq![digit_char(d as int)]);
    }
    s.to_owned()
}

/// Render a `u64` in decimal.
pub fn u64_to_dec(n: u64) -> (r: String)
    ensures
        r@ == dec_of(n as int),
    decreases n,
{
    if n < 10 {
        digit_str(n)
    } else {
        let mut s = u64_to_dec(n / 10);
        let d = digit_str(n % 10);
        s.append(d.as_str());
        s
    }
}

/// Exactly two decimal digits, zero-padded, for a value below 100.
pub open spec fn two_dec_of(f: int) -> Seq<char> {
    seq![digit_char(f / 10 % 10), digit_char(f % 10)]
}

pub(crate) fn two_dec(f: u64) -> (r: String)
    requires
        f < 100,
    ensures
        r@ == two_dec_of(f as int),
{
    let mut s = digit_str(f / 10);
    let d = digit_str(f % 10);
    s.append(d.as_str());
    s
}

/// A micro-unit value rendered as a percentage with two decimals:
/// 900_000 micro (0.9) becomes `90.00`.
pub open spec fn pct_of(micro: int) -> Seq<char> {
    dec_of(micro / 10000) + seq!['.'] + two_dec_of(micro % 10000 / 100)
}

pub fn pct_string(micro: u64) -> (r: String)
    ensures
        r@ == pct_of(micro as int),
{
    let mut s = u64_to_dec(micro / 10000);
    proof {
        reveal_strlit(".");
        assert(("."@) =~= seq!['.']);
    }
    s.append(".");
    let f = two_dec(micro % 10000 / 100);
    s.append(f.as_str());
    s
}

/// A micro-unit value rendered in whole units with two decimals:
/// 900_000 micro becomes `0.90`.
pub open spec fn unit2_of(micro: int) -> Seq<char> {
    dec_of(micro / 1_000_000) + seq!['.'] + two_dec_of(micro % 1_000_000 / 10000)
}

pub fn unit2_string(micro: u64) -> (r: String)
    ensures
        r@ == unit2_of(micro as int),
{
    let mut s = u64_to_dec(micro / 1_000_000);
    proof {
        reveal_strlit(".");
        assert(("."@) =~= seq!['.']);
    }
    s.append(".");
    let f = two_dec(micro % 1_000_000 / 10000);
    s.append(f.as_str());
    s
}

/// A value in tenths rendered with one decimal: 201 tenths becomes `20.1`.
pub open spec fn tenth_of(v: int) -> Seq<char> {
    dec_of(v / 10) + seq!['.', digit_char(v % 10)]
}

pub fn tenth_string(v: u64) -> (r: String)
    ensures
        r@ == tenth_of(v as int),
{
    let mut s = u64_to_dec(v / 10);
    proof {
        reveal_strlit(".");
        assert(("."@) =~= seq!['.']);
    }
    s.append(".");
    let d = digit_str(v % 10);
    s.append(d.as_str());
    proof {
        assert(s@ =~= tenth_of(v as int));
    }
    s
}

} // verus!
