//! User-tunable configuration. Each field stays within its declared range;
//! the clamped setters are how a control panel upholds that invariant.
//! Slider-valued fields are fixed-point scalars (see `fixed`).

use vstd::prelude::*;
use crate::params::{DRAG_SLIDER_MAX, FORCE_SLIDER_MAX, FORCE_SLIDER_MIN, TRAIL_SLIDER_MAX};

verus! {

/// Highest simulation-speed multiplier (substeps per frame); the lowest is 1.
pub const SIM_SPEED_MAX: u32 = 3;

/// Smallest allowed particle count.
pub const NUM_PARTICLES_MIN: usize = 1;

/// Largest allowed particle count.
pub const NUM_PARTICLES_MAX: usize = 20_000;

/// Smallest particle draw radius (1.0 in fixed point).
pub const RADIUS_MIN: i64 = 1_000_000;

/// Largest particle draw radius (5.0 in fixed point).
pub const RADIUS_MAX: i64 = 5_000_000;

/// The tunable parameters of the simulation.
#[derive(Clone, Copy, PartialEq, Eq, Structural, Debug)]
pub struct Config {
    pub simulation_speed: u32,
    pub num_particles: usize,
    pub particle_radius: i64,
    pub interact_force: i64,
    pub drag: i64,
    pub trail_length: i64,
}

/// Every field is within its declared range.
pub open spec fn config_wf(c: Config) -> bool {
    &&& 1 <= c.simulation_speed <= SIM_SPEED_MAX
    &&& NUM_PARTICLES_MIN <= c.num_particles <= NUM_PARTICLES_MAX
    &&& RADIUS_MIN <= c.particle_radius <= RADIUS_MAX
    &&& FORCE_SLIDER_MIN <= c.interact_force <= FORCE_SLIDER_MAX
    &&& 0 <= c.drag <= DRAG_SLIDER_MAX
    &&& 0 <= c.trail_length <= TRAIL_SLIDER_MAX
}

/// Clamp a value into `[lo, hi]`.
pub open spec fn clamp_spec(v: int, lo: int, hi: int) -> int {
    if v < lo {
        lo
    } else if v > hi {
        hi
    } else {
        v
    }
}

/// Executable clamp on fixed-point scalars.
pub fn clamp_i64(v: i64, lo: i64, hi: i64) -> (r: i64)
    requires
        lo <= hi,
    ensures
        r == clamp_spec(v as int, lo as int, hi as int),
        lo <= r <= hi,
{
    if v < lo {
        lo
    } else if v > hi {
        hi
    } else {
        v
    }
}

impl Config {
    /// The startup configuration: speed 1, 10000 particles, radius 1.2,
    /// interaction force 5.5, drag 2.0, trail length 66.0.
    pub fn new() -> (c: Config)
        ensures
            c.simulation_speed == 1u32,
            c.num_particles == 10_000usize,
            c.particle_radius == 1_200_000i64,
            c.interact_force == 5_500_000i64,
            c.drag == 2_000_000i64,
            c.trail_length == 66_000_000i64,
            config_wf(c),
    {
        Config {
            simulation_speed: 1,
            num_particles: 10_000,
            particle_radius: 1_200_000,
            interact_force: 5_500_000,
            drag: 2_000_000,
            trail_length: 66_000_000,
        }
    }

    /// Set the simulation speed, clamped into its range.
    pub fn set_simulation_speed(&mut self, v: u32)
        ensures
            final(self).simulation_speed == clamp_spec(v as int, 1, SIM_SPEED_MAX as int),
            final(self).num_particles == old(self).num_particles,
            final(self).particle_radius == old(self).particle_radius,
            final(self).interact_force == old(self).interact_force,
            final(self).drag == old(self).drag,
            final(self).trail_length == old(self).trail_length,
    {
        self.simulation_speed = if v < 1 {
            1
        } else if v > SIM_SPEED_MAX {
            SIM_SPEED_MAX
        } else {
            v
        };
    }

    /// Set the particle count, clamped into its range.
    pub fn set_num_particles(&mut self, v: usize)
        ensures
            final(self).num_particles == clamp_spec(
                v as int,
                NUM_PARTICLES_MIN as int,
                NUM_PARTICLES_MAX as int,
            ),
            final(self).simulation_speed == old(self).simulation_speed,
            final(self).particle_radius == old(self).particle_radius,
            final(self).interact_force == old(self).interact_force,
            final(self).drag == old(self).drag,
            final(self).trail_length == old(self).trail_length,
    {
        self.num_particles = if v < NUM_PARTICLES_MIN {
            NUM_PARTICLES_MIN
        } else if v > NUM_PARTICLES_MAX {
            NUM_PARTICLES_MAX
        } else {
            v
        };
    }

    /// Set the particle draw radius, clamped into its range.
    pub fn set_particle_radius(&mut self, v: i64)
        ensures
            final(self).particle_radius == clamp_spec(v as int, RADIUS_MIN as int,
                RADIUS_MAX as int),
            final(self).simulation_speed == old(self).simulation_speed,
            final(self).num_particles == old(self).num_particles,
            final(self).interact_force == old(self).interact_force,
            final(self).drag == old(self).drag,
            final(self).trail_length == old(self).trail_length,
    {
        self.particle_radius = clamp_i64(v, RADIUS_MIN, RADIUS_MAX);
    }

    /// Set the interaction-force slider, clamped into its range.
    pub fn set_interact_force(&mut self, v: i64)
        ensures
            final(self).interact_force == clamp_spec(
                v as int,
                FORCE_SLIDER_MIN as int,
                FORCE_SLIDER_MAX as int,
            ),
            final(self).simulation_speed == old(self).simulation_speed,
            final(self).num_particles == old(self).num_particles,
            final(self).particle_radius == old(self).particle_radius,
            final(self).drag == old(self).drag,
            final(self).trail_length == old(self).trail_length,
    {
        self.interact_force = clamp_i64(v, FORCE_SLIDER_MIN, FORCE_SLIDER_MAX);
    }

    /// Set the drag slider, clamped into its range.
    pub fn set_drag(&mut self, v: i64)
        ensures
            final(self).drag == clamp_spec(v as int, 0, DRAG_SLIDER_MAX as int),
            final(self).simulation_speed == old(self).simulation_speed,
            final(self).num_particles == old(self).num_particles,
            final(self).particle_radius == old(self).particle_radius,
            final(self).interact_force == old(self).interact_force,
            final(self).trail_length == old(self).trail_length,
    {
        self.drag = clamp_i64(v, 0, DRAG_SLIDER_MAX);
    }

    /// Set the trail-length slider, clamped into its range.
    pub fn set_trail_length(&mut self, v: i64)
        ensures
            final(self).trail_length == clamp_spec(v as int, 0, TRAIL_SLIDER_MAX as int),
            final(self).simulation_speed == old(self).simulation_speed,
            final(self).num_particles == old(self).num_particles,
            final(self).particle_radius == old(self).particle_radius,
            final(self).interact_force == old(self).interact_force,
            final(self).drag == old(self).drag,
    {
        self.trail_length = clamp_i64(v, 0, TRAIL_SLIDER_MAX);
    }

}

} // verus!
