//! Two-dimensional fixed-point vectors and the exact integer forms of the
//! vector operations the physics stepper uses: saturating addition and
//! subtraction, scaling by a fixed-point factor, squared length, floor
//! length, and the quarter-turn rotation that produces the swirl force.

use vstd::prelude::*;
use crate::fixed::{
    abs64, clip128, iabs, in_range, lemma_abs_mul, sadd, sadd_spec, smul, smul_spec, sneg,
    sneg_spec, ssub, ssub_spec, LIMIT, SCALE,
};
use crate::roots::{isqrt_u128, lemma_sq_le, lemma_sqrt_floor, sqrt_floor};

verus! {

/// A 2D vector of fixed-point scalars.
#[derive(Clone, Copy, PartialEq, Eq, Structural, Debug)]
pub struct V2 {
    pub x: i64,
    pub y: i64,
}

/// Mathematical view of a vector: the pair of its scaled components.
pub open spec fn vv(v: V2) -> (int, int) {
    (v.x as int, v.y as int)
}

/// Both components are within the representable range.
pub open spec fn v2_wf(v: V2) -> bool {
    in_range(v.x as int) && in_range(v.y as int)
}

/// Componentwise saturating sum.
pub open spec fn vadd_spec(a: (int, int), b: (int, int)) -> (int, int) {
    (sadd_spec(a.0, b.0), sadd_spec(a.1, b.1))
}

/// Componentwise saturating difference.
pub open spec fn vsub_spec(a: (int, int), b: (int, int)) -> (int, int) {
    (ssub_spec(a.0, b.0), ssub_spec(a.1, b.1))
}

/// Componentwise fixed-point scaling.
pub open spec fn vscale_spec(a: (int, int), k: int) -> (int, int) {
    (smul_spec(a.0, k), smul_spec(a.1, k))
}

/// Rotation by +90 degrees: (x, y) becomes (-y, x).
pub open spec fn rot90_spec(a: (int, int)) -> (int, int) {
    (sneg_spec(a.1), a.0)
}

/// Squared length, over the mathematical components.
pub open spec fn len2_spec(a: (int, int)) -> int {
    a.0 * a.0 + a.1 * a.1
}

/// The zero vector.
pub fn v2_zero() -> (r: V2)
    ensures
        r.x == 0,
        r.y == 0,
        v2_wf(r),
{
    V2 { x: 0, y: 0 }
}

/// Saturating vector sum.
pub fn vadd(a: V2, b: V2) -> (r: V2)
    ensures
        vv(r) == vadd_spec(vv(a), vv(b)),
        v2_wf(r),
{
    V2 { x: sadd(a.x, b.x), y: sadd(a.y, b.y) }
}

/// Saturating vector difference.
pub fn vsub(a: V2, b: V2) -> (r: V2)
    ensures
        vv(r) == vsub_spec(vv(a), vv(b)),
        v2_wf(r),
{
    V2 { x: ssub(a.x, b.x), y: ssub(a.y, b.y) }
}

/// Fixed-point scaling of a vector.
pub fn vscale(a: V2, k: i64) -> (r: V2)
    ensures
        vv(r) == vscale_spec(vv(a), k as int),
        v2_wf(r),
{
    V2 { x: smul(a.x, k), y: smul(a.y, k) }
}

/// Rotation by +90 degrees.
pub fn rot90(a: V2) -> (r: V2)
    ensures
        vv(r) == rot90_spec(vv(a)),
{
    V2 { x: sneg(a.y), y: a.x }
}

/// A square of a magnitude equals the square of the value.
pub proof fn lemma_sq_abs(x: int)
    by (nonlinear_arith)
    ensures
        iabs(x) * iabs(x) == x * x,
        x * x >= 0,
{
}

/// Squared length of a vector, exact in a wide unsigned integer.
pub fn vlen2(a: V2) -> (r: u128)
    ensures
        r == len2_spec(vv(a)),
{
    let ax: u128 = abs64(a.x) as u128;
    let ay: u128 = abs64(a.y) as u128;
    proof {
        lemma_sq_abs(a.x as int);
        lemma_sq_abs(a.y as int);
        assert(ax * ax <= 0x8000_0000_0000_0000u128 * 0x8000_0000_0000_0000u128)
            by (nonlinear_arith)
            requires
                ax <= 0x8000_0000_0000_0000u128,
        ;
        assert(ay * ay <= 0x8000_0000_0000_0000u128 * 0x8000_0000_0000_0000u128)
            by (nonlinear_arith)
            requires
                ay <= 0x8000_0000_0000_0000u128,
        ;
    }
    ax * ax + ay * ay
}

/// In-range vectors have a squared length below the root search's domain.
pub proof fn lemma_len2_bound(a: V2)
    requires
        v2_wf(a),
    ensures
        0 <= len2_spec(vv(a)) <= 2_000_000_000_000_000_000_000_000_000_000,
{
    lemma_sq_abs(a.x as int);
    lemma_sq_abs(a.y as int);
    lemma_sq_le(iabs(a.x as int), LIMIT as int);
    lemma_sq_le(iabs(a.y as int), LIMIT as int);
}

/// Floor length of an in-range vector.
pub fn vlength(a: V2) -> (r: i64)
    requires
        v2_wf(a),
    ensures
        r == sqrt_floor(len2_spec(vv(a))),
        0 <= r <= 1_500_000_000_000_000,
{
    proof {
        lemma_len2_bound(a);
    }
    let n: u128 = vlen2(a);
    let s: u128 = isqrt_u128(n);
    proof {
        lemma_sqrt_floor(n as int);
        if s > 1_500_000_000_000_000u128 {
            lemma_sq_le(1_500_000_000_000_001, s as int);
        }
    }
    s as i64
}

} // verus!
