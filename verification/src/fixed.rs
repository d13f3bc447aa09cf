//! Decimal fixed-point arithmetic for the simulation.
//!
//! Every coordinate, radius, speed, angle and time value in the crate is an
//! `i64` counting ten-thousandths of a unit (`FX` per unit). The helpers
//! here are the shared arithmetic of the tick loop: squared distances for
//! collision tests, an integer square root for the ray engine, the border
//! clamp, and the scaled triple product that turns a direction, a speed and
//! a substep into a displacement.

use vstd::prelude::*;

verus! {

/// Fixed-point units per simulation unit: values carry four decimal places.
pub const FX: i64 = 10_000;

/// Length of one full simulation substep: 0.1 seconds.
pub const TIME_STEP_FX: i64 = 1_000;

/// Largest coordinate, map dimension or radius the engine accepts
/// (one hundred million units).
pub const COORD_LIMIT: i64 = 1_000_000_000_000;

/// Largest speed the engine accepts (one hundred million units per second).
pub const SPEED_LIMIT: i64 = 1_000_000_000_000;

/// Magnitude of an integer.
pub open spec fn iabs(n: int) -> int {
    if n >= 0 {
        n
    } else {
        -n
    }
}

/// Division truncating toward zero (the semantics of `/` on machine
/// integers), defined for positive divisors.
pub open spec fn tdiv(n: int, d: int) -> int
    recommends
        d > 0,
{
    if n >= 0 {
        n / d
    } else {
        -((-n) / d)
    }
}

/// Square of an integer.
pub open spec fn sq(n: int) -> int {
    n * n
}

/// Squared distance between two points.
pub open spec fn dist2(x1: int, y1: int, x2: int, y2: int) -> int {
    sq(x1 - x2) + sq(y1 - y2)
}

/// Squared distance, computed exactly for in-range coordinates.
pub fn dist2_i64(x1: i64, y1: i64, x2: i64, y2: i64) -> (r: u128)
    requires
        iabs(x1 as int) <= 4 * COORD_LIMIT,
        iabs(y1 as int) <= 4 * COORD_LIMIT,
        iabs(x2 as int) <= 4 * COORD_LIMIT,
        iabs(y2 as int) <= 4 * COORD_LIMIT,
    ensures
        r == dist2(x1 as int, y1 as int, x2 as int, y2 as int),
{
    let dx: i128 = x1 as i128 - x2 as i128;
    let dy: i128 = y1 as i128 - y2 as i128;
    let mx: u128 = if dx >= 0 {
        dx as u128
    } else {
        (-dx) as u128
    };
    let my: u128 = if dy >= 0 {
        dy as u128
    } else {
        (-dy) as u128
    };
    proof {
        assert(mx == iabs(x1 - x2));
        assert(my == iabs(y1 - y2));
        assert(mx * mx == sq(x1 - x2)) by (nonlinear_arith)
            requires
                mx == iabs(x1 - x2),
        ;
        assert(my * my == sq(y1 - y2)) by (nonlinear_arith)
            requires
                my == iabs(y1 - y2),
        ;
        assert(mx * mx <= (8 * COORD_LIMIT) as u128 * (8 * COORD_LIMIT) as u128)
            by (nonlinear_arith)
            requires
                mx <= (8 * COORD_LIMIT) as u128,
        ;
        assert(my * my <= (8 * COORD_LIMIT) as u128 * (8 * COORD_LIMIT) as u128)
            by (nonlinear_arith)
            requires
                my <= (8 * COORD_LIMIT) as u128,
        ;
    }
    mx * mx + my * my
}

/// Squared distances of in-range points stay well inside `u128`.
pub proof fn lemma_dist2_bound(x1: int, y1: int, x2: int, y2: int)
    requires
        iabs(x1) <= 2 * COORD_LIMIT,
        iabs(y1) <= 2 * COORD_LIMIT,
        iabs(x2) <= 2 * COORD_LIMIT,
        iabs(y2) <= 2 * COORD_LIMIT,
    ensures
        0 <= dist2(x1, y1, x2, y2) <= 64_000_000_000_000_000_000_000_000,
{
    assert(0 <= sq(x1 - x2) <= 16_000_000_000_000_000_000_000_000) by (nonlinear_arith)
        requires
            iabs(x1 - x2) <= 4_000_000_000_000,
    ;
    assert(0 <= sq(y1 - y2) <= 16_000_000_000_000_000_000_000_000) by (nonlinear_arith)
        requires
            iabs(y1 - y2) <= 4_000_000_000_000,
    ;
}

/// The square of a collision reach, computed in `u128`.
pub fn sq_u128(v: i64) -> (r: u128)
    requires
        0 <= v <= 2 * COORD_LIMIT,
    ensures
        r == sq(v as int),
{
    proof {
        assert((v as u128) * (v as u128) <= 4_000_000_000_000_000_000_000_000u128)
            by (nonlinear_arith)
            requires
                v as u128 <= 2_000_000_000_000u128,
        ;
        assert((v as u128) * (v as u128) == sq(v as int)) by (nonlinear_arith)
            requires
                0 <= v,
        ;
    }
    (v as u128) * (v as u128)
}

/// Integer square root: the largest `r` with `r * r <= n`.
pub fn isqrt_u128(n: u128) -> (r: u128)
    ensures
        r * r <= n,
        n < (r + 1) * (r + 1),
{
    if n == 0 {
        return 0;
    }
    let mut lo: u128 = 0;
    let mut hi: u128 = 0x1_0000_0000_0000_0000;
    proof {
        assert(hi * hi > n) by (nonlinear_arith)
            requires
                hi == 0x1_0000_0000_0000_0000u128,
                n <= u128::MAX,
        ;
    }
    while lo + 1 < hi
        invariant
            lo < hi,
            hi <= 0x1_0000_0000_0000_0000,
            lo * lo <= n,
            n < hi * hi,
        decreases hi - lo,
    {
        let mid: u128 = lo + (hi - lo) / 2;
        proof {
            assert(mid * mid < 0x1_0000_0000_0000_0000u128 * 0x1_0000_0000_0000_0000u128)
                by (nonlinear_arith)
                requires
                    mid < 0x1_0000_0000_0000_0000u128,
            ;
        }
        if mid * mid <= n {
            lo = mid;
        } else {
            hi = mid;
        }
    }
    lo
}

/// The integer square root as a mathematical function: the largest `r`
/// with `r * r <= n`.
pub open spec fn sqrt_floor(n: int) -> int
    decreases n,
{
    if n < 1 {
        0
    } else {
        let r = sqrt_floor(n - 1);
        if sq(r + 1) <= n {
            r + 1
        } else {
            r
        }
    }
}

pub proof fn lemma_sqrt_floor_bracket(n: int)
    requires
        n >= 0,
    ensures
        0 <= sqrt_floor(n),
        sq(sqrt_floor(n)) <= n,
        n < sq(sqrt_floor(n) + 1),
    decreases n,
{
    if n == 0 {
        assert(sq(1int) == 1) by (nonlinear_arith);
    } else {
        lemma_sqrt_floor_bracket(n - 1);
        let r0 = sqrt_floor(n - 1);
        if sq(r0 + 1) <= n {
            assert(sq(r0 + 1) < sq(r0 + 2)) by (nonlinear_arith)
                requires
                    r0 >= 0,
            ;
        }
    }
}

pub proof fn lemma_sqrt_floor_eq(n: int, r: int)
    requires
        n >= 0,
        0 <= r,
        sq(r) <= n,
        n < sq(r + 1),
    ensures
        r == sqrt_floor(n),
{
    lemma_sqrt_floor_bracket(n);
    let s = sqrt_floor(n);
    assert(r == s) by (nonlinear_arith)
        requires
            0 <= r,
            0 <= s,
            sq(r) <= n,
            n < sq(r + 1),
            sq(s) <= n,
            n < sq(s + 1),
    ;
}

/// The integer square root of a squared distance, as an `i64`.
pub fn sqrt_dist(n: u128) -> (r: i64)
    requires
        n <= 200_000_000_000_000_000_000_000_000,
    ensures
        r == sqrt_floor(n as int),
        0 <= r <= 15_000_000_000_000,
{
    let r = isqrt_u128(n);
    proof {
        assert(r * r == sq(r as int)) by (nonlinear_arith);
        assert((r + 1) * (r + 1) == sq(r as int + 1)) by (nonlinear_arith);
        lemma_sqrt_floor_eq(n as int, r as int);
        assert(r <= 15_000_000_000_000) by (nonlinear_arith)
            requires
                r * r <= 200_000_000_000_000_000_000_000_000u128,
        ;
    }
    r as i64
}

/// One ray-march step component: `trig * d / FX`, truncated toward zero.
pub open spec fn march_spec(trig: int, d: int) -> int {
    tdiv(trig * d, FX as int)
}

pub fn march_step(trig: i64, d: i64) -> (s: i64)
    requires
        iabs(trig as int) <= FX,
        0 <= d <= COORD_LIMIT,
    ensures
        s == march_spec(trig as int, d as int),
        iabs(s as int) <= d,
{
    let neg: bool = trig < 0;
    let mag: u128 = if neg {
        (-(trig as i128)) as u128
    } else {
        trig as u128
    };
    proof {
        assert(mag * (d as u128) <= 10_000_000_000_000_000u128) by (nonlinear_arith)
            requires
                mag <= 10_000u128,
                d as u128 <= 1_000_000_000_000u128,
        ;
        assert(mag * (d as u128) == iabs(trig as int) * (d as int)) by (nonlinear_arith)
            requires
                mag == iabs(trig as int),
                d >= 0,
        ;
        assert(iabs(trig as int) * (d as int) / (FX as int) <= d) by (nonlinear_arith)
            requires
                0 <= iabs(trig as int) <= FX,
                0 <= d,
        ;
        assert((trig as int) * (d as int) == if trig >= 0 {
            iabs(trig as int) * (d as int)
        } else {
            -(iabs(trig as int) * (d as int))
        }) by (nonlinear_arith)
            requires
                d >= 0,
        ;
    }
    let q: u128 = (mag * (d as u128)) / (FX as u128);
    if neg {
        -(q as i64)
    } else {
        q as i64
    }
}

/// The border clamp of the tick loop: push a tentative coordinate back
/// into `[r, size - r]`, one axis at a time.
pub open spec fn clamp_spec(next: int, r: int, size: int) -> int {
    if next - r < 0 {
        r
    } else if next + r > size {
        size - r
    } else {
        next
    }
}

pub fn clamp_coord(next: i64, r: i64, size: i64) -> (c: i64)
    requires
        iabs(next as int) <= 4 * COORD_LIMIT,
        0 <= r <= COORD_LIMIT,
        0 <= size <= COORD_LIMIT,
    ensures
        c == clamp_spec(next as int, r as int, size as int),
        iabs(c as int) <= COORD_LIMIT,
{
    if next - r < 0 {
        r
    } else if next + r > size {
        size - r
    } else {
        next
    }
}

/// Displacement of one substep: `trig * speed * sub / FX^2`, truncated
/// toward zero. `trig` is a fixed-point sine or cosine in `[-FX, FX]`.
pub open spec fn step_spec(trig: int, speed: int, sub: int) -> int {
    tdiv(trig * speed * sub, (FX * FX) as int)
}

pub proof fn lemma_step_bound(trig: int, speed: int, sub: int)
    requires
        iabs(trig) <= FX,
        0 <= speed <= SPEED_LIMIT,
        0 <= sub <= TIME_STEP_FX,
    ensures
        iabs(step_spec(trig, speed, sub)) <= SPEED_LIMIT / 10,
{
    let m = iabs(trig) * speed * sub;
    assert(m <= FX * SPEED_LIMIT * TIME_STEP_FX) by (nonlinear_arith)
        requires
            iabs(trig) <= FX,
            0 <= speed <= SPEED_LIMIT,
            0 <= sub <= TIME_STEP_FX,
            m == iabs(trig) * speed * sub,
    ;
    assert(0 <= m) by (nonlinear_arith)
        requires
            0 <= iabs(trig),
            0 <= speed,
            0 <= sub,
            m == iabs(trig) * speed * sub,
    ;
    assert(m / ((FX * FX) as int) <= SPEED_LIMIT / 10) by (nonlinear_arith)
        requires
            0 <= m <= FX * SPEED_LIMIT * TIME_STEP_FX,
    ;
    assert(trig * speed * sub == if trig >= 0 { m } else { -m }) by (nonlinear_arith)
        requires
            m == iabs(trig) * speed * sub,
            0 <= speed,
            0 <= sub,
    ;
}

pub fn scaled_step(trig: i64, speed: i64, sub: i64) -> (d: i64)
    requires
        iabs(trig as int) <= FX,
        0 <= speed <= SPEED_LIMIT,
        0 <= sub <= TIME_STEP_FX,
    ensures
        d == step_spec(trig as int, speed as int, sub as int),
        iabs(d as int) <= SPEED_LIMIT / 10,
{
    let neg: bool = trig < 0;
    let mag: u128 = if neg {
        (-(trig as i128)) as u128
    } else {
        trig as u128
    };
    proof {
        assert(mag * (speed as u128) * (sub as u128) == iabs(trig as int) * (speed as int) * (
        sub as int)) by (nonlinear_arith)
            requires
                mag == iabs(trig as int),
                speed >= 0,
                sub >= 0,
        ;
        assert(iabs(trig as int) * (speed as int) * (sub as int) <= FX * SPEED_LIMIT
            * TIME_STEP_FX) by (nonlinear_arith)
            requires
                iabs(trig as int) <= FX,
                0 <= speed <= SPEED_LIMIT,
                0 <= sub <= TIME_STEP_FX,
        ;
        lemma_step_bound(trig as int, speed as int, sub as int);
        assert(mag * (speed as u128) <= (FX as u128) * (SPEED_LIMIT as u128)) by (nonlinear_arith)
            requires
                mag <= FX as u128,
                speed as u128 <= SPEED_LIMIT as u128,
        ;
        assert(mag * (speed as u128) * (sub as u128) <= (FX as u128) * (SPEED_LIMIT as u128) * (
        TIME_STEP_FX as u128)) by (nonlinear_arith)
            requires
                mag * (speed as u128) <= (FX as u128) * (SPEED_LIMIT as u128),
                sub as u128 <= TIME_STEP_FX as u128,
        ;
    }
    let prod: u128 = mag * (speed as u128) * (sub as u128);
    let q: u128 = prod / 100_000_000u128;
    proof {
        assert((trig as int) * (speed as int) * (sub as int) == if trig >= 0 {
            mag * (speed as u128) * (sub as u128)
        } else {
            -(mag * (speed as u128) * (sub as u128))
        }) by (nonlinear_arith)
            requires
                mag == iabs(trig as int),
                speed >= 0,
                sub >= 0,
        ;
        assert((FX * FX) as int == 100_000_000int);
    }
    if neg {
        -(q as i64)
    } else {
        q as i64
    }
}

} // verus!
