//! Saturating fixed-point scalars: an `i64` holds a real value scaled by
//! `SCALE`, and every arithmetic result is clipped into `[-LIMIT, LIMIT]`,
//! so that the simulation state can never overflow or leave the
//! representable range (the fixed-point analogue of guarding against
//! non-finite values).

use vstd::prelude::*;

verus! {

/// Number of fixed-point units per world unit.
pub const SCALE: i64 = 1_000_000;

/// Largest representable magnitude; every stored scalar is clipped here.
pub const LIMIT: i64 = 1_000_000_000_000_000;

/// A scalar is in range when its magnitude is at most `LIMIT`.
pub open spec fn in_range(v: int) -> bool {
    -LIMIT <= v <= LIMIT
}

/// Clip a mathematical value into the representable range.
pub open spec fn clip(v: int) -> int {
    if v > LIMIT {
        LIMIT as int
    } else if v < -LIMIT {
        -LIMIT as int
    } else {
        v
    }
}

/// Truncating division (rounds toward zero), for a positive divisor.
pub open spec fn tdiv(a: int, b: int) -> int {
    if a >= 0 {
        a / b
    } else {
        -((-a) / b)
    }
}

/// Magnitude of a scalar.
pub open spec fn iabs(a: int) -> int {
    if a >= 0 {
        a
    } else {
        -a
    }
}

/// Fixed-point product: scale the integer product back down, then clip.
pub open spec fn smul_spec(a: int, b: int) -> int {
    clip(tdiv(a * b, SCALE as int))
}

/// Saturating sum.
pub open spec fn sadd_spec(a: int, b: int) -> int {
    clip(a + b)
}

/// Saturating difference.
pub open spec fn ssub_spec(a: int, b: int) -> int {
    clip(a - b)
}

/// Saturating negation.
pub open spec fn sneg_spec(a: int) -> int {
    clip(-a)
}

/// Clip a wide intermediate into the representable range.
pub fn clip128(v: i128) -> (r: i64)
    ensures
        r == clip(v as int),
        in_range(r as int),
{
    if v > LIMIT as i128 {
        LIMIT
    } else if v < -(LIMIT as i128) {
        -LIMIT
    } else {
        v as i64
    }
}

/// Saturating addition of two scalars.
pub fn sadd(a: i64, b: i64) -> (r: i64)
    ensures
        r == sadd_spec(a as int, b as int),
        in_range(r as int),
{
    clip128(a as i128 + b as i128)
}

/// Saturating subtraction of two scalars.
pub fn ssub(a: i64, b: i64) -> (r: i64)
    ensures
        r == ssub_spec(a as int, b as int),
        in_range(r as int),
{
    clip128(a as i128 - b as i128)
}

/// Saturating negation of a scalar.
pub fn sneg(a: i64) -> (r: i64)
    ensures
        r == sneg_spec(a as int),
        in_range(r as int),
{
    clip128(-(a as i128))
}

/// Magnitude of a scalar, as an unsigned value.
pub fn abs64(a: i64) -> (r: u64)
    ensures
        r == iabs(a as int),
{
    if a >= 0 {
        a as u64
    } else {
        (-(a as i128)) as u64
    }
}

/// The magnitude of a product is the product of the magnitudes.
pub proof fn lemma_abs_mul(a: int, b: int)
    by (nonlinear_arith)
    ensures
        iabs(a * b) == iabs(a) * iabs(b),
{
}

/// Truncating division agrees with Euclidean division on the magnitudes.
pub proof fn lemma_tdiv_abs(a: int, b: int)
    requires
        b > 0,
    ensures
        tdiv(a, b) == if a >= 0 { iabs(a) / b } else { -(iabs(a) / b) },
        iabs(tdiv(a, b)) == iabs(a) / b,
{
    if a >= 0 {
    } else {
        assert((-a) / b >= 0) by (nonlinear_arith)
            requires
                -a >= 0,
                b > 0,
        ;
    }
}

/// Fixed-point multiplication, saturating at the representable range.
pub fn smul(a: i64, b: i64) -> (r: i64)
    ensures
        r == smul_spec(a as int, b as int),
        in_range(r as int),
{
    let neg: bool = (a < 0) != (b < 0);
    let am: u128 = abs64(a) as u128;
    let bm: u128 = abs64(b) as u128;
    proof {
        assert(am * bm <= 0x8000_0000_0000_0000u128 * 0x8000_0000_0000_0000u128)
            by (nonlinear_arith)
            requires
                am <= 0x8000_0000_0000_0000u128,
                bm <= 0x8000_0000_0000_0000u128,
        ;
    }
    let m: u128 = (am * bm) / (SCALE as u128);
    proof {
        lemma_abs_mul(a as int, b as int);
        lemma_tdiv_abs(a as int * b as int, SCALE as int);
        if neg {
            assert(a as int * b as int <= 0) by (nonlinear_arith)
                requires
                    (a < 0 && b >= 0) || (a >= 0 && b < 0),
            ;
        } else {
            assert(a as int * b as int >= 0) by (nonlinear_arith)
                requires
                    (a < 0 && b < 0) || (a >= 0 && b >= 0),
            ;
        }
    }
    if neg {
        if m > LIMIT as u128 {
            -LIMIT
        } else {
            -((m as i64))
        }
    } else {
        if m > LIMIT as u128 {
            LIMIT
        } else {
            m as i64
        }
    }
}

} // verus!
