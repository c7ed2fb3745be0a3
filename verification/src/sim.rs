//! Physics stepper and particle store. A substep, per particle and in this
//! order: wall collision against the fixed bounds, pointer interaction
//! (attract, repel and swirl contributions summed), quadratic drag, and
//! semi-implicit Euler integration. Positions, velocities and accelerations
//! are fixed-point vectors (see `fixed` and `vec2`).

use vstd::prelude::*;
use crate::fixed::{
    abs64, clip, iabs, in_range, lemma_abs_mul, lemma_tdiv_abs, sneg, sneg_spec, tdiv, LIMIT,
    SCALE,
};
use crate::params::{DRAG_MAX, FORCE_MAX};
use crate::roots::{isqrt_u128, lemma_sq_le, lemma_sqrt_floor, sqrt_floor};
use crate::vec2::{
    len2_spec, lemma_sq_abs, rot90, rot90_spec, v2_wf, v2_zero, vadd, vadd_spec, vlength, vscale,
    vscale_spec, vsub, vsub_spec, vv, V2,
};
use vstd::arithmetic::div_mod::{lemma_div_by_multiple, lemma_div_is_ordered, lemma_div_pos_is_pos};

verus! {

/// Ceiling on the magnitude of the pointer interaction acceleration
/// (2000.0 in fixed point), applied after the inverse-cube force is
/// computed, never to the distance itself.
pub const ACCEL_CLAMP: i64 = 2_000_000_000;

/// One particle: position, velocity, and the acceleration recomputed on
/// every substep.
#[derive(Clone, Copy, PartialEq, Eq, Structural, Debug)]
pub struct Particle {
    pub pos: V2,
    pub vel: V2,
    pub acc: V2,
}

/// The wall-collision region: an axis-aligned rectangle.
#[derive(Clone, Copy, PartialEq, Eq, Structural, Debug)]
pub struct Bounds {
    pub bottom_left: V2,
    pub top_right: V2,
}

/// The set of active pointer-interaction modes; they are not exclusive.
#[derive(Clone, Copy, PartialEq, Eq, Structural, Debug)]
pub struct Modes {
    pub attract: bool,
    pub repel: bool,
    pub swirl: bool,
}

/// All three state vectors of a particle are within the representable range.
pub open spec fn particle_wf(p: Particle) -> bool {
    v2_wf(p.pos) && v2_wf(p.vel) && v2_wf(p.acc)
}

/// The rectangle is non-degenerate and representable.
pub open spec fn bounds_wf(b: Bounds) -> bool {
    &&& v2_wf(b.bottom_left)
    &&& v2_wf(b.top_right)
    &&& b.bottom_left.x < b.top_right.x
    &&& b.bottom_left.y < b.top_right.y
}

/// Wall collision on one axis: a position strictly beyond a bound is
/// clamped to that bound and the velocity on that axis is inverted;
/// otherwise both are unchanged.
pub open spec fn wall_axis_spec(pos: int, vel: int, lo: int, hi: int) -> (int, int) {
    if pos < lo {
        (lo, sneg_spec(vel))
    } else if pos > hi {
        (hi, sneg_spec(vel))
    } else {
        (pos, vel)
    }
}

/// Executable wall collision on one axis.
pub fn wall_axis(pos: i64, vel: i64, lo: i64, hi: i64) -> (r: (i64, i64))
    requires
        lo <= hi,
        in_range(pos as int),
        in_range(vel as int),
        in_range(lo as int),
        in_range(hi as int),
    ensures
        (r.0 as int, r.1 as int) == wall_axis_spec(pos as int, vel as int, lo as int, hi as int),
        in_range(r.0 as int),
        in_range(r.1 as int),
{
    if pos < lo {
        (lo, sneg(vel))
    } else if pos > hi {
        (hi, sneg(vel))
    } else {
        (pos, vel)
    }
}

/// Pointer force on a particle at `p` with the pointer at `q` and force
/// constant `f`: the inverse-cube law `f * diff / |diff|^2 / |diff|` along
/// the displacement from pointer to particle, realized in fixed point as
/// the magnitude `f * SCALE^2 / d2` clamped to `ACCEL_CLAMP` and then
/// directed along `(dx / d, dy / d)`. Exact pointer-particle coincidence
/// gives no interaction.
pub open spec fn pointer_accel_spec(p: (int, int), q: (int, int), f: int) -> (int, int) {
    let dx = p.0 - q.0;
    let dy = p.1 - q.1;
    let d2 = dx * dx + dy * dy;
    if d2 == 0 {
        (0, 0)
    } else {
        let d = sqrt_floor(d2);
        let m_raw = f * SCALE * SCALE / d2;
        let m = if m_raw > ACCEL_CLAMP {
            ACCEL_CLAMP as int
        } else {
            m_raw
        };
        (tdiv(m * dx, d), tdiv(m * dy, d))
    }
}

/// Helper: one signed component `tdiv(m * dc, d)` of the pointer force,
/// where `m` is the clamped magnitude and `dc` the displacement component.
fn pointer_component(m: u128, dc: i64, dcm: u128, d: u128) -> (r: i64)
    requires
        m <= ACCEL_CLAMP as u128,
        1 <= d,
        d <= 3_000_000_000_000_000u128,
        dcm == iabs(dc as int),
        dcm <= d,
    ensures
        r as int == tdiv(m as int * dc as int, d as int),
        iabs(r as int) <= ACCEL_CLAMP,
{
    proof {
        assert(m * dcm <= m * d) by (nonlinear_arith)
            requires
                dcm <= d,
                0 <= m,
        ;
        assert(m * d <= 2_000_000_000u128 * 3_000_000_000_000_000u128) by (nonlinear_arith)
            requires
                m <= 2_000_000_000u128,
                d <= 3_000_000_000_000_000u128,
                ACCEL_CLAMP == 2_000_000_000i64,
        ;
        lemma_div_is_ordered(m as int * dcm as int, m as int * d as int, d as int);
        lemma_div_by_multiple(m as int, d as int);
        lemma_abs_mul(m as int, dc as int);
        lemma_tdiv_abs(m as int * dc as int, d as int);
        lemma_div_pos_is_pos(m as int * dcm as int, d as int);
        assert(m as int * dcm as int >= 0) by (nonlinear_arith)
            requires
                m >= 0,
                dcm >= 0,
        ;
        if dc >= 0 {
            assert(m as int * dc as int >= 0) by (nonlinear_arith)
                requires
                    m >= 0,
                    dc >= 0,
            ;
        } else {
            assert(m as int * dc as int <= 0) by (nonlinear_arith)
                requires
                    m >= 0,
                    dc < 0,
            ;
        }
    }
    let q: u128 = (m * dcm) / d;
    if dc < 0 {
        -(q as i64)
    } else {
        q as i64
    }
}

/// Executable pointer force.
pub fn pointer_accel(p: V2, q: V2, f: i64) -> (a: V2)
    requires
        v2_wf(p),
        v2_wf(q),
        0 <= f <= FORCE_MAX,
    ensures
        vv(a) == pointer_accel_spec(vv(p), vv(q), f as int),
        iabs(a.x as int) <= ACCEL_CLAMP,
        iabs(a.y as int) <= ACCEL_CLAMP,
        v2_wf(a),
{
    let dx: i64 = p.x - q.x;
    let dy: i64 = p.y - q.y;
    let dxm: u128 = abs64(dx) as u128;
    let dym: u128 = abs64(dy) as u128;
    proof {
        lemma_sq_abs(dx as int);
        lemma_sq_abs(dy as int);
        assert(dxm * dxm <= 2_000_000_000_000_000u128 * 2_000_000_000_000_000u128)
            by (nonlinear_arith)
            requires
                dxm <= 2_000_000_000_000_000u128,
        ;
        assert(dym * dym <= 2_000_000_000_000_000u128 * 2_000_000_000_000_000u128)
            by (nonlinear_arith)
            requires
                dym <= 2_000_000_000_000_000u128,
        ;
    }
    let d2: u128 = dxm * dxm + dym * dym;
    if d2 == 0 {
        return V2 { x: 0, y: 0 };
    }
    let d: u128 = isqrt_u128(d2);
    proof {
        lemma_sqrt_floor(d2 as int);
        if d == 0 {
            assert((d + 1) * (d + 1) == 1) by (nonlinear_arith)
                requires
                    d == 0u128,
            ;
        }
        if d > 3_000_000_000_000_000u128 {
            lemma_sq_le(3_000_000_000_000_001, d as int);
        }
        if dxm > d {
            lemma_sq_le(d as int + 1, dxm as int);
        }
        if dym > d {
            lemma_sq_le(d as int + 1, dym as int);
        }
        assert(f as int * SCALE * SCALE <= 1_900_000_000_000i64 as int * 1_000_000_000_000)
            by (nonlinear_arith)
            requires
                0 <= f <= 1_900_000_000_000i64,
                SCALE == 1_000_000i64,
        ;
        assert(f as int * SCALE * SCALE >= 0) by (nonlinear_arith)
            requires
                f >= 0,
                SCALE == 1_000_000i64,
        ;
        assert((f as u128) * (SCALE as u128) * (SCALE as u128) == f as int * SCALE * SCALE)
            by (nonlinear_arith)
            requires
                f >= 0,
                SCALE == 1_000_000i64,
        ;
    }
    let mraw: u128 = (f as u128) * (SCALE as u128) * (SCALE as u128) / d2;
    let m: u128 = if mraw > ACCEL_CLAMP as u128 {
        ACCEL_CLAMP as u128
    } else {
        mraw
    };
    let ax: i64 = pointer_component(m, dx, dxm, d);
    let ay: i64 = pointer_component(m, dy, dym, d);
    V2 { x: ax, y: ay }
}

/// Both components of the pointer force are bounded by the clamp ceiling.
pub proof fn lemma_pointer_accel_bounds(p: (int, int), q: (int, int), f: int)
    requires
        0 <= f,
    ensures
        iabs(pointer_accel_spec(p, q, f).0) <= ACCEL_CLAMP,
        iabs(pointer_accel_spec(p, q, f).1) <= ACCEL_CLAMP,
{
    let dx = p.0 - q.0;
    let dy = p.1 - q.1;
    let d2 = dx * dx + dy * dy;
    lemma_sq_abs(dx);
    lemma_sq_abs(dy);
    if d2 != 0 {
        let d = sqrt_floor(d2);
        lemma_sqrt_floor(d2);
        if d == 0 {
            assert((d + 1) * (d + 1) == 1) by (nonlinear_arith)
                requires
                    d == 0,
            ;
        }
        if iabs(dx) > d {
            lemma_sq_le(d + 1, iabs(dx));
        }
        if iabs(dy) > d {
            lemma_sq_le(d + 1, iabs(dy));
        }
        let m_raw = f * SCALE * SCALE / d2;
        assert(f * SCALE * SCALE >= 0) by (nonlinear_arith)
            requires
                f >= 0,
                SCALE == 1_000_000i64,
        ;
        lemma_div_pos_is_pos(f * SCALE * SCALE, d2);
        let m = if m_raw > ACCEL_CLAMP {
            ACCEL_CLAMP as int
        } else {
            m_raw
        };
        lemma_abs_mul(m, dx);
        lemma_abs_mul(m, dy);
        lemma_tdiv_abs(m * dx, d);
        lemma_tdiv_abs(m * dy, d);
        assert(m * iabs(dx) <= m * d) by (nonlinear_arith)
            requires
                iabs(dx) <= d,
                0 <= m,
        ;
        assert(m * iabs(dy) <= m * d) by (nonlinear_arith)
            requires
                iabs(dy) <= d,
                0 <= m,
        ;
        lemma_div_is_ordered(m * iabs(dx), m * d, d);
        lemma_div_is_ordered(m * iabs(dy), m * d, d);
        lemma_div_by_multiple(m, d);
        lemma_div_pos_is_pos(m * iabs(dx), d);
        lemma_div_pos_is_pos(m * iabs(dy), d);
        assert(m * iabs(dx) >= 0) by (nonlinear_arith)
            requires
                m >= 0,
        ;
        assert(m * iabs(dy) >= 0) by (nonlinear_arith)
            requires
                m >= 0,
        ;
    }
}

/// Sum of the active modes' contributions: attract subtracts the pointer
/// force, repel adds it, swirl adds its quarter turn; with no active mode
/// the acceleration is zero.
pub open spec fn mode_accel_spec(m: Modes, p: (int, int), q: (int, int), f: int) -> (int, int) {
    if m.attract || m.repel || m.swirl {
        let base = pointer_accel_spec(p, q, f);
        let a0 = (0int, 0int);
        let a1 = if m.attract {
            vsub_spec(a0, base)
        } else {
            a0
        };
        let a2 = if m.repel {
            vadd_spec(a1, base)
        } else {
            a1
        };
        if m.swirl {
            vadd_spec(a2, rot90_spec(base))
        } else {
            a2
        }
    } else {
        (0int, 0int)
    }
}

/// Executable mode contribution sum.
pub fn mode_accel(m: Modes, p: V2, q: V2, f: i64) -> (r: V2)
    requires
        v2_wf(p),
        v2_wf(q),
        0 <= f <= FORCE_MAX,
    ensures
        vv(r) == mode_accel_spec(m, vv(p), vv(q), f as int),
        v2_wf(r),
{
    if !(m.attract || m.repel || m.swirl) {
        return v2_zero();
    }
    let base = pointer_accel(p, q, f);
    let mut acc = v2_zero();
    if m.attract {
        acc = vsub(acc, base);
    }
    if m.repel {
        acc = vadd(acc, base);
    }
    if m.swirl {
        acc = vadd(acc, rot90(base));
    }
    acc
}

/// Quadratic drag: `drag * |vel| * vel`, componentwise in fixed point.
pub open spec fn drag_accel_spec(drag: int, vel: (int, int)) -> (int, int) {
    let l = sqrt_floor(len2_spec(vel));
    (
        clip(tdiv(drag * l * vel.0, SCALE * SCALE)),
        clip(tdiv(drag * l * vel.1, SCALE * SCALE)),
    )
}

/// Helper: one signed component `clip(tdiv(drag * l * vc, SCALE^2))`.
fn drag_component(drag: i64, l: i64, vc: i64) -> (r: i64)
    requires
        0 <= drag <= DRAG_MAX,
        0 <= l <= 1_500_000_000_000_000i64,
        in_range(vc as int),
    ensures
        r as int == clip(tdiv(drag as int * l as int * vc as int, SCALE * SCALE)),
        in_range(r as int),
{
    let vm: u128 = abs64(vc) as u128;
    proof {
        assert((drag as u128) * (l as u128) <= 10_000u128 * 1_500_000_000_000_000u128)
            by (nonlinear_arith)
            requires
                0 <= drag <= 10_000i64,
                0 <= l <= 1_500_000_000_000_000i64,
                DRAG_MAX == 10_000i64,
        ;
        assert((drag as u128) * (l as u128) * vm <= 15_000_000_000_000_000_000u128
            * 1_000_000_000_000_000u128) by (nonlinear_arith)
            requires
                (drag as u128) * (l as u128) <= 15_000_000_000_000_000_000u128,
                vm <= 1_000_000_000_000_000u128,
        ;
        assert((drag as u128) * (l as u128) * vm == drag as int * l as int * iabs(vc as int))
            by (nonlinear_arith)
            requires
                drag >= 0,
                l >= 0,
                vm == iabs(vc as int),
        ;
        lemma_abs_mul(drag as int * l as int, vc as int);
        assert(iabs(drag as int * l as int) == drag as int * l as int) by (nonlinear_arith)
            requires
                drag >= 0,
                l >= 0,
        ;
        lemma_tdiv_abs(drag as int * l as int * vc as int, SCALE * SCALE);
        assert(SCALE * SCALE == 1_000_000_000_000) by (nonlinear_arith)
            requires
                SCALE == 1_000_000i64,
        ;
        if vc >= 0 {
            assert(drag as int * l as int * vc as int >= 0) by (nonlinear_arith)
                requires
                    drag >= 0,
                    l >= 0,
                    vc >= 0,
            ;
        } else {
            assert(drag as int * l as int * vc as int <= 0) by (nonlinear_arith)
                requires
                    drag >= 0,
                    l >= 0,
                    vc < 0,
            ;
        }
    }
    let num: u128 = (drag as u128) * (l as u128) * vm;
    let q: u128 = num / 1_000_000_000_000u128;
    let qc: u128 = if q > LIMIT as u128 {
        LIMIT as u128
    } else {
        q
    };
    if vc < 0 {
        -(qc as i64)
    } else {
        qc as i64
    }
}

/// Executable quadratic drag.
pub fn drag_accel(drag: i64, vel: V2) -> (r: V2)
    requires
        0 <= drag <= DRAG_MAX,
        v2_wf(vel),
    ensures
        vv(r) == drag_accel_spec(drag as int, vv(vel)),
        v2_wf(r),
{
    let l: i64 = vlength(vel);
    let x: i64 = drag_component(drag, l, vel.x);
    let y: i64 = drag_component(drag, l, vel.y);
    V2 { x, y }
}

/// One whole substep of a particle, as a mathematical function:
/// wall collision, mode contributions, drag, then semi-implicit Euler
/// integration (velocity first, then position with the new velocity).
/// The result triple is (position, velocity, acceleration).
pub open spec fn step_spec(
    p: Particle,
    dt: int,
    f: int,
    drag: int,
    b: Bounds,
    m: Modes,
    q: (int, int),
) -> ((int, int), (int, int), (int, int)) {
    let wx = wall_axis_spec(p.pos.x as int, p.vel.x as int, b.bottom_left.x as int,
        b.top_right.x as int);
    let wy = wall_axis_spec(p.pos.y as int, p.vel.y as int, b.bottom_left.y as int,
        b.top_right.y as int);
    let posw = (wx.0, wy.0);
    let velw = (wx.1, wy.1);
    let acc0 = mode_accel_spec(m, posw, q, f);
    let acc1 = vsub_spec(acc0, drag_accel_spec(drag, velw));
    let vel1 = vadd_spec(velw, vscale_spec(acc1, dt));
    let pos1 = vadd_spec(posw, vscale_spec(vel1, dt));
    (pos1, vel1, acc1)
}

/// The particle's state equals the given (position, velocity, acceleration)
/// triple.
pub open spec fn particle_matches(
    p: Particle,
    s: ((int, int), (int, int), (int, int)),
) -> bool {
    &&& p.pos.x == s.0.0
    &&& p.pos.y == s.0.1
    &&& p.vel.x == s.1.0
    &&& p.vel.y == s.1.1
    &&& p.acc.x == s.2.0
    &&& p.acc.y == s.2.1
}

/// Advance one particle by one substep.
pub fn step_particle(
    p: &mut Particle,
    dt: i64,
    interact_force: i64,
    drag: i64,
    b: &Bounds,
    m: Modes,
    pointer: V2,
)
    requires
        particle_wf(*old(p)),
        bounds_wf(*b),
        0 <= dt,
        0 <= interact_force <= FORCE_MAX,
        0 <= drag <= DRAG_MAX,
        v2_wf(pointer),
    ensures
        particle_wf(*final(p)),
        particle_matches(
            *final(p),
            step_spec(*old(p), dt as int, interact_force as int, drag as int, *b, m, vv(pointer)),
        ),
{
    let wx = wall_axis(p.pos.x, p.vel.x, b.bottom_left.x, b.top_right.x);
    let wy = wall_axis(p.pos.y, p.vel.y, b.bottom_left.y, b.top_right.y);
    let posw = V2 { x: wx.0, y: wy.0 };
    let velw = V2 { x: wx.1, y: wy.1 };
    let acc0 = mode_accel(m, posw, pointer, interact_force);
    let dragv = drag_accel(drag, velw);
    let acc1 = vsub(acc0, dragv);
    let vel1 = vadd(velw, vscale(acc1, dt));
    let pos1 = vadd(posw, vscale(vel1, dt));
    p.pos = pos1;
    p.vel = vel1;
    p.acc = acc1;
}

/// Advance every particle by one substep with the same frame inputs.
pub fn update_particles(
    particles: &mut Vec<Particle>,
    dt: i64,
    interact_force: i64,
    drag: i64,
    b: &Bounds,
    m: Modes,
    pointer: V2,
)
    requires
        forall|i: int|
            0 <= i < old(particles)@.len() ==> particle_wf(#[trigger] old(particles)@[i]),
        bounds_wf(*b),
        0 <= dt,
        0 <= interact_force <= FORCE_MAX,
        0 <= drag <= DRAG_MAX,
        v2_wf(pointer),
    ensures
        final(particles)@.len() == old(particles)@.len(),
        forall|i: int|
            0 <= i < old(particles)@.len() ==> particle_wf(#[trigger] final(particles)@[i]),
        forall|i: int|
            0 <= i < old(particles)@.len() ==> particle_matches(
                #[trigger] final(particles)@[i],
                step_spec(
                    old(particles)@[i],
                    dt as int,
                    interact_force as int,
                    drag as int,
                    *b,
                    m,
                    vv(pointer),
                ),
            ),
{
    let n: usize = particles.len();
    let mut i: usize = 0;
    while i < n
        invariant
            i <= n,
            n == old(particles)@.len(),
            particles@.len() == n,
            forall|j: int| i <= j < n ==> particles@[j] == old(particles)@[j],
            forall|j: int| 0 <= j < i ==> particle_wf(#[trigger] particles@[j]),
            forall|j: int|
                0 <= j < i ==> particle_matches(
                    #[trigger] particles@[j],
                    step_spec(
                        old(particles)@[j],
                        dt as int,
                        interact_force as int,
                        drag as int,
                        *b,
                        m,
                        vv(pointer),
                    ),
                ),
            bounds_wf(*b),
            0 <= dt,
            0 <= interact_force <= FORCE_MAX,
            0 <= drag <= DRAG_MAX,
            v2_wf(pointer),
            forall|j: int|
                0 <= j < old(particles)@.len() ==> particle_wf(#[trigger] old(particles)@[j]),
        decreases n - i,
    {
        let mut cur: Particle = particles[i];
        step_particle(&mut cur, dt, interact_force, drag, b, m, pointer);
        particles.set(i, cur);
        i = i + 1;
    }
}

/// Wall collision is idempotent. One application puts the particle onto or
/// inside the bounds on both axes; applying the collision again to the
/// result changes nothing, and in particular does not flip a velocity
/// component a second time. (A particle exactly on a bound is already
/// inside the region, so the collision leaves it alone whatever its
/// velocity; only a position strictly beyond a bound triggers the clamp
/// and the flip.)
pub proof fn lemma_wall_collision_idempotent(p: Particle, b: Bounds)
    requires
        particle_wf(p),
        bounds_wf(b),
    ensures
        ({
            let wx = wall_axis_spec(p.pos.x as int, p.vel.x as int, b.bottom_left.x as int,
                b.top_right.x as int);
            let wy = wall_axis_spec(p.pos.y as int, p.vel.y as int, b.bottom_left.y as int,
                b.top_right.y as int);
            &&& wall_axis_spec(wx.0, wx.1, b.bottom_left.x as int, b.top_right.x as int) == wx
            &&& wall_axis_spec(wy.0, wy.1, b.bottom_left.y as int, b.top_right.y as int) == wy
            &&& b.bottom_left.x <= wx.0 <= b.top_right.x
            &&& b.bottom_left.y <= wy.0 <= b.top_right.y
        }),
{
}

/// Pointer-interaction additivity: with any set of modes active, the
/// resulting acceleration equals the componentwise vector sum of the
/// accelerations each mode would produce alone for identical inputs —
/// in particular attract+swirl equals attract-only plus swirl-only.
pub proof fn lemma_mode_additivity(m: Modes, p: (int, int), q: (int, int), f: int)
    requires
        0 <= f,
    ensures
        ({
            let att = mode_accel_spec(
                (Modes { attract: m.attract, repel: false, swirl: false }),
                p,
                q,
                f,
            );
            let rep = mode_accel_spec(
                (Modes { attract: false, repel: m.repel, swirl: false }),
                p,
                q,
                f,
            );
            let swi = mode_accel_spec(
                (Modes { attract: false, repel: false, swirl: m.swirl }),
                p,
                q,
                f,
            );
            mode_accel_spec(m, p, q, f) == (
                att.0 + rep.0 + swi.0,
                att.1 + rep.1 + swi.1,
            )
        }),
{
    lemma_pointer_accel_bounds(p, q, f);
}

/// Helper for drag monotonicity, one component at a time.
proof fn lemma_drag_component_monotone(d1: int, d2: int, l: int, c: int)
    requires
        0 <= d1 <= d2,
        0 <= l,
    ensures
        iabs(clip(tdiv(d1 * l * c, SCALE * SCALE))) <= iabs(clip(tdiv(d2 * l * c, SCALE * SCALE))),
{
    assert(SCALE * SCALE == 1_000_000_000_000) by (nonlinear_arith)
        requires
            SCALE == 1_000_000i64,
    ;
    lemma_abs_mul(d1 * l, c);
    lemma_abs_mul(d2 * l, c);
    assert(iabs(d1 * l) == d1 * l && iabs(d2 * l) == d2 * l) by (nonlinear_arith)
        requires
            0 <= d1,
            0 <= d2,
            0 <= l,
    ;
    lemma_tdiv_abs(d1 * l * c, SCALE * SCALE);
    lemma_tdiv_abs(d2 * l * c, SCALE * SCALE);
    assert(d1 * l * c == (d1 * l) * c && d2 * l * c == (d2 * l) * c);
    assert((d1 * l) * iabs(c) <= (d2 * l) * iabs(c)) by (nonlinear_arith)
        requires
            0 <= d1 <= d2,
            0 <= l,
            0 <= iabs(c),
    ;
    lemma_div_is_ordered((d1 * l) * iabs(c), (d2 * l) * iabs(c), SCALE * SCALE);
    assert((d1 * l) * iabs(c) >= 0) by (nonlinear_arith)
        requires
            0 <= d1,
            0 <= l,
            0 <= iabs(c),
    ;
    lemma_div_pos_is_pos((d1 * l) * iabs(c), SCALE * SCALE);
}

/// Drag monotonicity: for a fixed velocity, the magnitude of the drag
/// deceleration never decreases as the drag constant grows, on each
/// component.
pub proof fn lemma_drag_monotone(d1: int, d2: int, vel: (int, int))
    requires
        0 <= d1 <= d2,
    ensures
        iabs(drag_accel_spec(d1, vel).0) <= iabs(drag_accel_spec(d2, vel).0),
        iabs(drag_accel_spec(d1, vel).1) <= iabs(drag_accel_spec(d2, vel).1),
{
    lemma_sq_abs(vel.0);
    lemma_sq_abs(vel.1);
    let l = sqrt_floor(len2_spec(vel));
    lemma_sqrt_floor(len2_spec(vel));
    lemma_drag_component_monotone(d1, d2, l, vel.0);
    lemma_drag_component_monotone(d1, d2, l, vel.1);
}

/// Relies on rand's `Rng::gen_range` over an `i64` half-open range: it
/// panics only on an empty range, and returns a value of the range.
#[verifier::external_body]
fn rand_in_range(lo: i64, hi: i64) -> (r: i64)
    requires
        lo < hi,
    ensures
        lo <= r < hi,
{
    rand::Rng::gen_range(&mut rand::thread_rng(), lo..hi)
}

/// Build a fresh particle store: `num_particles` particles with positions
/// sampled within the bounds and zero velocity and acceleration.
pub fn initialize_particles(b: &Bounds, num_particles: usize) -> (v: Vec<Particle>)
    requires
        bounds_wf(*b),
    ensures
        v@.len() == num_particles,
        forall|i: int|
            0 <= i < num_particles ==> {
                &&& b.bottom_left.x <= (#[trigger] v@[i]).pos.x < b.top_right.x
                &&& b.bottom_left.y <= v@[i].pos.y < b.top_right.y
                &&& v@[i].vel.x == 0
                &&& v@[i].vel.y == 0
                &&& v@[i].acc.x == 0
                &&& v@[i].acc.y == 0
                &&& particle_wf(v@[i])
            },
{
    let mut v: Vec<Particle> = Vec::new();
    let mut i: usize = 0;
    while i < num_particles
        invariant
            i <= num_particles,
            v@.len() == i,
            bounds_wf(*b),
            forall|j: int|
                0 <= j < i ==> {
                    &&& b.bottom_left.x <= (#[trigger] v@[j]).pos.x < b.top_right.x
                    &&& b.bottom_left.y <= v@[j].pos.y < b.top_right.y
                    &&& v@[j].vel.x == 0
                    &&& v@[j].vel.y == 0
                    &&& v@[j].acc.x == 0
                    &&& v@[j].acc.y == 0
                    &&& particle_wf(v@[j])
                },
        decreases num_particles - i,
    {
        let x: i64 = rand_in_range(b.bottom_left.x, b.top_right.x);
        let y: i64 = rand_in_range(b.bottom_left.y, b.top_right.y);
        v.push(Particle {
            pos: V2 { x, y },
            vel: V2 { x: 0, y: 0 },
            acc: V2 { x: 0, y: 0 },
        });
        i = i + 1;
    }
    v
}

} // verus!
