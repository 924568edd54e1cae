//! Fixed-point arithmetic shared by the whole engine.

use vstd::prelude::*;

verus! {

/// One full action gauge (100 points) in gauge units of `1e-8` point.
pub const GAUGE_FULL: u64 = 10_000_000_000;

/// A certain chance, in ten-thousandths.
pub const CHANCE_ONE: i64 = 10_000;

/// The neutral multiplier, in percent.
pub const PCT_ONE: u32 = 100;

/// The smallest multiplier a status-power table or an amplifier may hold, in percent.
pub const PCT_FLOOR: u32 = 10;

/// The neutral cumulative amplifier, in ten-thousandths.
pub const AMP_ONE: u32 = 10_000;

/// The smallest amount of damage any hit deals, in hundredths.
pub const MIN_DAMAGE: i64 = 1;

/// The longest sub-step the scheduler hands to the tick engine, in milliseconds.
pub const SUBSTEP_MS: u32 = 100;

/// The number of ticks after which a battle is declared lost.
pub const TICK_LIMIT: u32 = 20_000;

/// The shortest duration a freshly created status may have, in milliseconds.
pub const MIN_DURATION_MS: i64 = 100;

/// One periodic-damage tick per this many accumulated milliseconds.
pub const TICK_PERIOD_MS: u64 = 1_000;

/// `x` limited to `[lo, hi]`.
pub open spec fn clamp(x: int, lo: int, hi: int) -> int {
    if x < lo {
        lo
    } else if x > hi {
        hi
    } else {
        x
    }
}

/// The larger of two integers.
pub open spec fn max_int(a: int, b: int) -> int {
    if a >= b {
        a
    } else {
        b
    }
}

/// The smaller of two integers.
pub open spec fn min_int(a: int, b: int) -> int {
    if a <= b {
        a
    } else {
        b
    }
}

/// `n / d` rounded to the nearest integer for `n >= 0`, halves rounded up.
pub open spec fn round_div_nat(n: int, d: int) -> int
    recommends
        n >= 0,
        d > 0,
{
    if 2 * (n % d) >= d {
        n / d + 1
    } else {
        n / d
    }
}

/// `n / d` rounded to the nearest integer, halves rounded away from zero.
pub open spec fn round_div(n: int, d: int) -> int
    recommends
        d > 0,
{
    if n >= 0 {
        round_div_nat(n, d)
    } else {
        -round_div_nat(-n, d)
    }
}

/// `x` limited to the range of `i64`.
pub open spec fn sat_i64(x: int) -> i64 {
    clamp(x, i64::MIN as int, i64::MAX as int) as i64
}

/// A damage amount: at least [`MIN_DAMAGE`], at most `i64::MAX`.
pub open spec fn damage_amount(x: int) -> i64 {
    clamp(x, MIN_DAMAGE as int, i64::MAX as int) as i64
}

/// Rounded division of a wide signed value by a small positive divisor.
pub fn round_div_wide(n: i128, d: i128) -> (r: i128)
    requires
        0 < d <= 0x4000_0000_0000_0000,
        -0x7fff_ffff_ffff_ffff_ffff_ffff_ffff_fff0 <= n <= 0x7fff_ffff_ffff_ffff_ffff_ffff_ffff_fff0,
    ensures
        r == round_div(n as int, d as int),
        n >= 0 ==> 0 <= r <= n,
        n <= 0 ==> n <= r <= 0,
{
    let neg: bool = n < 0;
    let m: i128 = if neg {
        -n
    } else {
        n
    };
    let q: i128 = m / d;
    let rem: i128 = m % d;
    assert(0 <= q <= m && 0 <= rem < d && m == q * d + rem) by (nonlinear_arith)
        requires
            0 <= m,
            0 < d,
            q == m / d,
            rem == m % d,
    ;
    assert(2 * rem >= d ==> q + 1 <= m) by (nonlinear_arith)
        requires
            0 <= q,
            0 <= rem < d,
            m == q * d + rem,
            0 < d,
    ;
    let up: i128 = if 2 * rem >= d {
        q + 1
    } else {
        q
    };
    if neg {
        -up
    } else {
        up
    }
}

/// Narrows a wide value to `i64`, saturating at both ends.
pub fn saturate(x: i128) -> (r: i64)
    ensures
        r == sat_i64(x as int),
{
    if x < -0x8000_0000_0000_0000 {
        i64::MIN
    } else if x > 0x7fff_ffff_ffff_ffff {
        i64::MAX
    } else {
        x as i64
    }
}

/// Narrows a wide value to a damage amount.
pub fn to_damage(x: i128) -> (r: i64)
    ensures
        r == damage_amount(x as int),
        r >= 1,
{
    if x < 1 {
        1
    } else if x > 0x7fff_ffff_ffff_ffff {
        i64::MAX
    } else {
        x as i64
    }
}

/// `value x pct / 100`, rounded, saturating: a hundredths value scaled by a percentage.
pub open spec fn scale_pct(value: i64, pct: u32) -> i64 {
    sat_i64(round_div(value * pct, 100))
}

/// Scales a hundredths value by a percentage.
pub fn scale_by_pct(value: i64, pct: u32) -> (r: i64)
    ensures
        r == scale_pct(value, pct),
{
    let v: i128 = value as i128;
    let p: i128 = pct as i128;
    assert(-0x8000_0000_0000_0000_0000_0000 <= v * p <= 0x8000_0000_0000_0000_0000_0000)
        by (nonlinear_arith)
        requires
            -0x8000_0000_0000_0000 <= v <= 0x8000_0000_0000_0000,
            0 <= p <= 0x1_0000_0000,
    ;
    let prod: i128 = v * p;
    saturate(round_div_wide(prod, 100))
}

/// Sum of two `i64`, saturating at both ends.
pub open spec fn sat_add(a: i64, b: i64) -> i64 {
    sat_i64(a + b)
}

/// Adds two `i64`, saturating at both ends.
pub fn add_sat(a: i64, b: i64) -> (r: i64)
    ensures
        r == sat_add(a, b),
{
    saturate(a as i128 + b as i128)
}

} // verus!
