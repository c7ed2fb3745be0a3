use particle_sim::fixed::SCALE;
use particle_sim::sim::{
    drag_accel, initialize_particles, mode_accel, pointer_accel, update_particles, wall_axis,
    Bounds, Modes, Particle,
};
use particle_sim::vec2::V2;

fn fx(units: i64) -> i64 {
    units * SCALE
}

fn square_bounds(half: i64) -> Bounds {
    Bounds {
        bottom_left: V2 { x: -fx(half), y: -fx(half) },
        top_right: V2 { x: fx(half), y: fx(half) },
    }
}

fn no_modes() -> Modes {
    Modes { attract: false, repel: false, swirl: false }
}

#[test]
fn wall_collision_clamps_and_flips() {
    // Strictly beyond the high bound with outward velocity.
    let (pos, vel) = wall_axis(fx(105), fx(10), -fx(100), fx(100));
    assert_eq!(pos, fx(100));
    assert_eq!(vel, -fx(10));
}

#[test]
fn wall_collision_is_idempotent() {
    let (pos, vel) = wall_axis(fx(105), fx(10), -fx(100), fx(100));
    // Applying the collision again to the clamped state changes nothing.
    let (pos2, vel2) = wall_axis(pos, vel, -fx(100), fx(100));
    assert_eq!((pos2, vel2), (pos, vel));
}

#[test]
fn wall_collision_on_boundary_leaves_state_alone() {
    // Exactly on the bound: inside the region, no clamp and no flip.
    let (pos, vel) = wall_axis(fx(100), fx(10), -fx(100), fx(100));
    assert_eq!(pos, fx(100));
    assert_eq!(vel, fx(10));
}

#[test]
fn bounce_step_scenario() {
    // One particle at (105, 0) moving outward at (10, 0), bounds
    // [(-100,-100),(100,100)], no interaction, no drag, dt = 1:
    // the position is clamped to 100, the velocity flips to -10, and
    // integration lands the particle at 90.
    let b = square_bounds(100);
    let mut particles = vec![Particle {
        pos: V2 { x: fx(105), y: 0 },
        vel: V2 { x: fx(10), y: 0 },
        acc: V2 { x: 0, y: 0 },
    }];
    update_particles(&mut particles, fx(1), 0, 0, &b, no_modes(), V2 { x: 0, y: 0 });
    assert_eq!(particles[0].pos, V2 { x: fx(90), y: 0 });
    assert_eq!(particles[0].vel, V2 { x: -fx(10), y: 0 });
    assert_eq!(particles[0].acc, V2 { x: 0, y: 0 });
}

#[test]
fn repel_acceleration_scenario() {
    // Particle at the origin, pointer at (10, 0), force constant 100000,
    // repel only: displacement (-10, 0), squared distance 100, base
    // acceleration 100000 * (-10) / 100 / 10 = -1000 on x, unclamped
    // since 1000 < 2000.
    let base = pointer_accel(
        V2 { x: 0, y: 0 },
        V2 { x: fx(10), y: 0 },
        100_000 * SCALE,
    );
    assert_eq!(base, V2 { x: -fx(1000), y: 0 });
    let repel = Modes { attract: false, repel: true, swirl: false };
    let acc = mode_accel(repel, V2 { x: 0, y: 0 }, V2 { x: fx(10), y: 0 }, 100_000 * SCALE);
    assert_eq!(acc, V2 { x: -fx(1000), y: 0 });
}

#[test]
fn repel_acceleration_is_stored_in_particle() {
    let b = square_bounds(1000);
    let mut particles = vec![Particle {
        pos: V2 { x: 0, y: 0 },
        vel: V2 { x: 0, y: 0 },
        acc: V2 { x: 0, y: 0 },
    }];
    let repel = Modes { attract: false, repel: true, swirl: false };
    // dt = 0: the acceleration is computed and stored, nothing moves.
    update_particles(
        &mut particles,
        0,
        100_000 * SCALE,
        0,
        &b,
        repel,
        V2 { x: fx(10), y: 0 },
    );
    assert_eq!(particles[0].acc, V2 { x: -fx(1000), y: 0 });
    assert_eq!(particles[0].pos, V2 { x: 0, y: 0 });
    assert_eq!(particles[0].vel, V2 { x: 0, y: 0 });
}

#[test]
fn pointer_magnitude_is_clamped() {
    // Particle one unit away from the pointer: raw magnitude 100000
    // exceeds the 2000 ceiling, so the result is clamped to 2000.
    let a = pointer_accel(V2 { x: fx(1), y: 0 }, V2 { x: 0, y: 0 }, 100_000 * SCALE);
    assert_eq!(a, V2 { x: fx(2000), y: 0 });
}

#[test]
fn pointer_coincidence_gives_no_interaction() {
    let p = V2 { x: fx(3), y: -fx(4) };
    let a = pointer_accel(p, p, 100_000 * SCALE);
    assert_eq!(a, V2 { x: 0, y: 0 });
}

#[test]
fn mode_accelerations_are_additive() {
    let p = V2 { x: 0, y: 0 };
    let q = V2 { x: fx(10), y: 0 };
    let f = 100_000 * SCALE;
    let attract = Modes { attract: true, repel: false, swirl: false };
    let swirl = Modes { attract: false, repel: false, swirl: true };
    let both = Modes { attract: true, repel: false, swirl: true };
    let a_att = mode_accel(attract, p, q, f);
    let a_swi = mode_accel(swirl, p, q, f);
    let a_both = mode_accel(both, p, q, f);
    assert_eq!(a_both.x, a_att.x + a_swi.x);
    assert_eq!(a_both.y, a_att.y + a_swi.y);
    // Attract pulls toward the pointer (positive x here); swirl is the
    // quarter turn of the base vector.
    assert_eq!(a_att, V2 { x: fx(1000), y: 0 });
    assert_eq!(a_swi, V2 { x: 0, y: -fx(1000) });
}

#[test]
fn drag_deceleration_grows_with_drag_constant() {
    let vel = V2 { x: fx(3), y: fx(4) };
    let low = drag_accel(1_000, vel);
    let high = drag_accel(2_000, vel);
    // Quadratic drag: d * |v| * v, here |v| = 5.
    assert_eq!(low, V2 { x: 15_000, y: 20_000 });
    assert_eq!(high, V2 { x: 30_000, y: 40_000 });
    assert!(low.x.abs() <= high.x.abs());
    assert!(low.y.abs() <= high.y.abs());
}

#[test]
fn drag_opposes_velocity_direction() {
    let vel = V2 { x: -fx(3), y: fx(4) };
    let d = drag_accel(2_000, vel);
    // The drag term carries the velocity's sign; the stepper subtracts it.
    assert!(d.x < 0 && d.y > 0);
}

#[test]
fn reset_fills_bounds_with_resting_particles() {
    let b = square_bounds(100);
    let particles = initialize_particles(&b, 500);
    assert_eq!(particles.len(), 500);
    for p in &particles {
        assert!(b.bottom_left.x <= p.pos.x && p.pos.x < b.top_right.x);
        assert!(b.bottom_left.y <= p.pos.y && p.pos.y < b.top_right.y);
        assert_eq!(p.vel, V2 { x: 0, y: 0 });
        assert_eq!(p.acc, V2 { x: 0, y: 0 });
    }
}

#[test]
fn reset_positions_are_sampled_not_copied() {
    // With a wide box, 64 sampled x positions cannot all equal the lower
    // bound that the sampler receives as an argument.
    let b = square_bounds(1000);
    let particles = initialize_particles(&b, 64);
    assert!(particles.iter().any(|p| p.pos.x != b.bottom_left.x));
    assert!(particles.iter().any(|p| p.pos.y != b.bottom_left.y));
}

#[test]
fn update_keeps_particle_count() {
    let b = square_bounds(100);
    let mut particles = initialize_particles(&b, 100);
    let swirl = Modes { attract: false, repel: false, swirl: true };
    update_particles(
        &mut particles,
        16_000,
        1_900_000_000_000,
        10_000,
        &b,
        swirl,
        V2 { x: fx(5), y: fx(5) },
    );
    assert_eq!(particles.len(), 100);
}
