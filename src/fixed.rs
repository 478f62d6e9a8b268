//! Fixed-point arithmetic shared by the scoring and update code.
use vstd::prelude::*;
use vstd::arithmetic::div_mod::*;

verus! {

/// The fixed-point value of 1.0.
pub const UNIT: i64 = 1_000_000;

/// Absolute value.
pub open spec fn abs(x: int) -> int {
    if x < 0 {
        -x
    } else {
        x
    }
}

/// Exponential moving average with smoothing factor 0.1:
/// `old * 0.9 + sample * 0.1`, rounded down.
pub open spec fn ema_spec(old: int, sample: int) -> int {
    (9 * old + sample) / 10
}

/// A count ratio as a fixed-point value; zero when the denominator is zero.
pub open spec fn ratio_spec(num: int, den: int) -> int {
    if den == 0 {
        0
    } else {
        num * UNIT / den
    }
}

/// Rounds `a / b` down, for any sign of `a`.
pub fn div_floor(a: i128, b: i128) -> (r: i128)
    requires
        b > 0,
        a > i128::MIN,
    ensures
        r == a / b,
{
    if a >= 0 {
        a / b
    } else {
        let m: i128 = -(a + 1);
        let q: i128 = m / b;
        proof {
            lemma_fundamental_div_mod(m as int, b as int);
            lemma_remainder(m as int, b as int);
            let rr = m % b;
            assert(m == b * q + rr);
            assert(a == b * (-q - 1) + (b - 1 - rr)) by (nonlinear_arith)
                requires
                    m == b * q + rr,
                    m == -(a + 1),
            ;
            lemma_fundamental_div_mod_converse(a as int, b as int, -q - 1, b - 1 - rr);
        }
        -q - 1
    }
}

/// The smoothed value lies between the old value and the sample, and strictly
/// between them once they differ by at least ten units.
pub proof fn lemma_ema_between(old: int, sample: int)
    ensures
        old <= sample ==> old <= ema_spec(old, sample) <= sample,
        sample <= old ==> sample <= ema_spec(old, sample) <= old,
        old + 10 <= sample ==> old < ema_spec(old, sample) < sample,
        sample + 10 <= old ==> sample < ema_spec(old, sample) < old,
        old == sample ==> ema_spec(old, sample) == old,
{
}

/// `ema_spec` on machine integers.
pub fn ema(old: i64, sample: i64) -> (r: i64)
    ensures
        r == ema_spec(old as int, sample as int),
{
    proof {
        lemma_ema_between(old as int, sample as int);
    }
    let t: i128 = 9 * (old as i128) + (sample as i128);
    let r = div_floor(t, 10);
    r as i64
}

/// `ema_spec` on unsigned machine integers.
pub fn ema_u64(old: u64, sample: u64) -> (r: u64)
    ensures
        r == ema_spec(old as int, sample as int),
{
    proof {
        lemma_ema_between(old as int, sample as int);
    }
    let t: u128 = 9 * (old as u128) + (sample as u128);
    (t / 10) as u64
}

/// The fixed-point ratio `num / den`, zero when `den` is zero.
pub fn ratio(num: u64, den: u64) -> (r: i128)
    ensures
        r == ratio_spec(num as int, den as int),
        0 <= r <= num * UNIT,
{
    if den == 0 {
        0
    } else {
        let p: u128 = (num as u128) * 1_000_000;
        proof {
            lemma_div_is_ordered_by_denominator(p as int, 1, den as int);
        }
        (p / (den as u128)) as i128
    }
}

/// Absolute value on machine integers.
pub fn abs_i128(x: i128) -> (r: i128)
    requires
        x > i128::MIN,
    ensures
        r == abs(x as int),
{
    if x < 0 {
        -x
    } else {
        x
    }
}

} // verus!
