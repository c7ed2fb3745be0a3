//! Parameter mapper: pure functions that translate the user-facing slider
//! values into the simulation's physical constants. Slider values and
//! constants are fixed-point scalars (see `fixed`). The interaction-force
//! and drag maps are linear; the trail-alpha map is the power law
//! `1 - ((0.8 * t) / 100)^(1/20)`, realized with exact integer fifth and
//! square roots.

use vstd::prelude::*;
use vstd::arithmetic::div_mod::{lemma_div_by_multiple, lemma_div_is_ordered, lemma_div_pos_is_pos};
use crate::fixed::SCALE;
use crate::roots::{
    iroot5_u128, isqrt_u128, lemma_pow5_le, lemma_root5_floor, lemma_root5_floor_monotone,
    lemma_root5_floor_unique, lemma_sq_le, lemma_sqrt_floor, lemma_sqrt_floor_monotone,
    lemma_sqrt_floor_unique, pow5, root5_floor, sqrt_floor,
};

verus! {

/// Lowest interaction-force slider value (1.0).
pub const FORCE_SLIDER_MIN: i64 = 1_000_000;

/// Highest interaction-force slider value (10.0).
pub const FORCE_SLIDER_MAX: i64 = 10_000_000;

/// Force constant at the lowest slider value (100000.0).
pub const FORCE_MIN: i64 = 100_000_000_000;

/// Force constant at the highest slider value (1900000.0).
pub const FORCE_MAX: i64 = 1_900_000_000_000;

/// Highest drag slider value (10.0); the lowest is 0.
pub const DRAG_SLIDER_MAX: i64 = 10_000_000;

/// Drag constant at the highest slider value (0.01); the lowest is 0.
pub const DRAG_MAX: i64 = 10_000;

/// Highest trail-length slider value (100.0); the lowest is 0.
pub const TRAIL_SLIDER_MAX: i64 = 100_000_000;

/// Linear map of the force slider: [1, 10] onto [100000, 1900000].
pub open spec fn interact_force_spec(s: int) -> int {
    FORCE_MIN + (FORCE_MAX - FORCE_MIN) * (s - FORCE_SLIDER_MIN) / (FORCE_SLIDER_MAX
        - FORCE_SLIDER_MIN)
}

/// Linear map of the drag slider: [0, 10] onto [0, 0.01].
pub open spec fn drag_spec(s: int) -> int {
    DRAG_MAX * s / (DRAG_SLIDER_MAX as int)
}

/// Power-law map of the trail slider: `SCALE - v^(1/20)` in fixed point,
/// where `v = (8 * t) / 1000` (that is, `(0.8 * t) / 100`) and the
/// twentieth root is taken as a fifth root followed by two square roots,
/// each at fixed-point scale.
pub open spec fn trail_alpha_spec(t: int) -> int {
    let v = (8 * t) / 1000;
    let c = root5_floor(v * 1_000_000_000_000_000_000_000_000);
    let q1 = sqrt_floor(c * SCALE);
    let q2 = sqrt_floor(q1 * SCALE);
    SCALE - q2
}

/// Map the interaction-force slider to the physical force constant.
/// At the domain's minimum the result is exactly `FORCE_MIN`, at its
/// maximum exactly `FORCE_MAX`, linearly in between.
pub fn convert_interact_force(s: i64) -> (r: i64)
    requires
        FORCE_SLIDER_MIN <= s <= FORCE_SLIDER_MAX,
    ensures
        r == interact_force_spec(s as int),
        r == FORCE_MIN + 200_000 * (s - FORCE_SLIDER_MIN),
        FORCE_MIN <= r <= FORCE_MAX,
        s == FORCE_SLIDER_MIN ==> r == FORCE_MIN,
        s == FORCE_SLIDER_MAX ==> r == FORCE_MAX,
{
    let d: u64 = (s - FORCE_SLIDER_MIN) as u64;
    let num: u128 = (FORCE_MAX - FORCE_MIN) as u128 * (d as u128);
    let q: u128 = num / ((FORCE_SLIDER_MAX - FORCE_SLIDER_MIN) as u128);
    proof {
        assert(1_800_000_000_000 * (d as int) == (200_000 * (d as int)) * 9_000_000)
            by (nonlinear_arith);
        lemma_div_by_multiple(200_000 * (d as int), 9_000_000);
    }
    FORCE_MIN + (q as i64)
}

/// Map the drag slider to the physical drag constant.
/// At 0 the result is exactly 0, at the domain's maximum exactly
/// `DRAG_MAX`, linearly in between.
pub fn convert_drag(s: i64) -> (r: i64)
    requires
        0 <= s <= DRAG_SLIDER_MAX,
    ensures
        r == drag_spec(s as int),
        0 <= r <= DRAG_MAX,
        s == 0 ==> r == 0,
        s == DRAG_SLIDER_MAX ==> r == DRAG_MAX,
{
    proof {
        assert(DRAG_MAX as int * (s as int) <= 100_000_000_000) by (nonlinear_arith)
            requires
                DRAG_MAX == 10_000i64,
                0 <= s <= 10_000_000,
        ;
        assert(DRAG_MAX as int * (s as int) >= 0) by (nonlinear_arith)
            requires
                DRAG_MAX == 10_000i64,
                s >= 0,
        ;
    }
    let num: u128 = (DRAG_MAX as u128) * (s as u128);
    let q: u128 = num / (DRAG_SLIDER_MAX as u128);
    proof {
        lemma_div_is_ordered(
            DRAG_MAX * (s as int),
            DRAG_MAX as int * DRAG_SLIDER_MAX as int,
            DRAG_SLIDER_MAX as int,
        );
    }
    q as i64
}

/// Map the trail-length slider to the overlay alpha in fixed point.
pub fn convert_trail_length(t: i64) -> (r: i64)
    requires
        0 <= t <= TRAIL_SLIDER_MAX,
    ensures
        r == trail_alpha_spec(t as int),
        0 <= r <= SCALE,
{
    let v: u128 = (8u128 * (t as u128)) / 1000u128;
    proof {
        lemma_div_is_ordered(8 * (t as int), 800_000_000, 1000);
    }
    let c: u128 = iroot5_u128(v * 1_000_000_000_000_000_000_000_000u128);
    proof {
        lemma_root5_floor_monotone(
            v as int * 1_000_000_000_000_000_000_000_000,
            1_000_000_000_000_000_000_000_000_000_000,
        );
        lemma_root5_floor_unique(1_000_000_000_000_000_000_000_000_000_000, 1_000_000);
    }
    let q1: u128 = isqrt_u128(c * (SCALE as u128));
    proof {
        lemma_sqrt_floor_monotone(c as int * SCALE, 1_000_000_000_000);
        lemma_sqrt_floor_unique(1_000_000_000_000, 1_000_000);
    }
    let q2: u128 = isqrt_u128(q1 * (SCALE as u128));
    proof {
        lemma_sqrt_floor_monotone(q1 as int * SCALE, 1_000_000_000_000);
    }
    SCALE - (q2 as i64)
}

/// The trail alpha never increases as the trail-length slider grows:
/// a larger slider value gives an equal or more transparent overlay,
/// hence an equal or longer visible trail.
pub proof fn lemma_trail_alpha_antitone(t1: int, t2: int)
    requires
        0 <= t1 <= t2,
    ensures
        trail_alpha_spec(t1) >= trail_alpha_spec(t2),
{
    let v1 = (8 * t1) / 1000;
    let v2 = (8 * t2) / 1000;
    lemma_div_is_ordered(8 * t1, 8 * t2, 1000);
    lemma_div_pos_is_pos(8 * t1, 1000);
    lemma_root5_floor_monotone(
        v1 * 1_000_000_000_000_000_000_000_000,
        v2 * 1_000_000_000_000_000_000_000_000,
    );
    let c1 = root5_floor(v1 * 1_000_000_000_000_000_000_000_000);
    let c2 = root5_floor(v2 * 1_000_000_000_000_000_000_000_000);
    lemma_root5_floor(v1 * 1_000_000_000_000_000_000_000_000);
    lemma_sqrt_floor_monotone(c1 * SCALE, c2 * SCALE);
    let q11 = sqrt_floor(c1 * SCALE);
    let q12 = sqrt_floor(c2 * SCALE);
    lemma_sqrt_floor(c1 * SCALE);
    lemma_sqrt_floor_monotone(q11 * SCALE, q12 * SCALE);
}

/// The alpha at slider 0 is exactly one (fully opaque overlay), and the
/// alpha at the highest slider value is the smallest value the map
/// produces over the whole domain, strictly between zero and one.
pub proof fn lemma_trail_alpha_extremes()
    ensures
        trail_alpha_spec(0) == SCALE,
        0 < trail_alpha_spec(TRAIL_SLIDER_MAX as int) < SCALE,
        forall|t: int|
            0 <= t <= TRAIL_SLIDER_MAX ==> #[trigger] trail_alpha_spec(t) >= trail_alpha_spec(
                TRAIL_SLIDER_MAX as int,
            ),
{
    assert(trail_alpha_spec(0) == SCALE) by {
        assert(root5_floor(0) == 0);
        assert(sqrt_floor(0) == 0);
    }
    let v = (8 * TRAIL_SLIDER_MAX as int) / 1000;
    assert(v == 800_000);
    let n = v * 1_000_000_000_000_000_000_000_000;
    let c = root5_floor(n);
    lemma_root5_floor(n);
    assert(c < 1_000_000) by {
        if c >= 1_000_000 {
            lemma_pow5_le(1_000_000, c);
        }
    }
    let q1 = sqrt_floor(c * SCALE);
    lemma_sqrt_floor(c * SCALE);
    assert(q1 < 1_000_000) by {
        if q1 >= 1_000_000 {
            lemma_sq_le(1_000_000, q1);
        }
    }
    let q2 = sqrt_floor(q1 * SCALE);
    lemma_sqrt_floor(q1 * SCALE);
    assert(q2 < 1_000_000) by {
        if q2 >= 1_000_000 {
            lemma_sq_le(1_000_000, q2);
        }
    }
    assert(c >= 1) by {
        if c == 0 {
            assert(n < pow5(c + 1));
            assert(pow5(c + 1) == (c + 1) * (c + 1) * (c + 1) * (c + 1) * (c + 1));
            assert((c + 1) * (c + 1) * (c + 1) * (c + 1) * (c + 1) == 1) by (nonlinear_arith)
                requires
                    c == 0,
            ;
        }
    }
    assert(q1 >= 1) by {
        if q1 == 0 {
            assert(c * SCALE < (q1 + 1) * (q1 + 1));
            assert((q1 + 1) * (q1 + 1) == 1) by (nonlinear_arith)
                requires
                    q1 == 0,
            ;
            assert(c * SCALE >= 1_000_000) by (nonlinear_arith)
                requires
                    c >= 1,
                    SCALE == 1_000_000i64,
            ;
        }
    }
    assert(q2 >= 1) by {
        if q2 == 0 {
            assert(q1 * SCALE < (q2 + 1) * (q2 + 1));
            assert((q2 + 1) * (q2 + 1) == 1) by (nonlinear_arith)
                requires
                    q2 == 0,
            ;
            assert(q1 * SCALE >= 1_000_000) by (nonlinear_arith)
                requires
                    q1 >= 1,
                    SCALE == 1_000_000i64,
            ;
        }
    }
    assert forall|t: int| 0 <= t <= TRAIL_SLIDER_MAX implies #[trigger] trail_alpha_spec(t)
        >= trail_alpha_spec(TRAIL_SLIDER_MAX as int) by {
        lemma_trail_alpha_antitone(t, TRAIL_SLIDER_MAX as int);
    }
}

} // verus!
