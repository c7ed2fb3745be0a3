use particle_sim::config::Config;
use particle_sim::fixed::SCALE;
use particle_sim::params::{
    convert_drag, convert_interact_force, convert_trail_length, DRAG_MAX, DRAG_SLIDER_MAX,
    FORCE_MAX, FORCE_MIN, FORCE_SLIDER_MAX, FORCE_SLIDER_MIN, TRAIL_SLIDER_MAX,
};

#[test]
fn interact_force_at_domain_minimum_is_min_val() {
    assert_eq!(convert_interact_force(FORCE_SLIDER_MIN), FORCE_MIN);
}

#[test]
fn interact_force_at_domain_maximum_is_max_val() {
    assert_eq!(convert_interact_force(FORCE_SLIDER_MAX), FORCE_MAX);
}

#[test]
fn interact_force_midpoint() {
    // 5.5 on the slider maps to 1000000.0, the middle of the range.
    assert_eq!(convert_interact_force(5_500_000), 1_000_000_000_000);
}

#[test]
fn drag_at_domain_minimum_is_min_val() {
    assert_eq!(convert_drag(0), 0);
}

#[test]
fn drag_at_domain_maximum_is_max_val() {
    assert_eq!(convert_drag(DRAG_SLIDER_MAX), DRAG_MAX);
}

#[test]
fn drag_midrange_value() {
    // 2.0 on the slider maps to 0.002.
    assert_eq!(convert_drag(2_000_000), 2_000);
}

#[test]
fn trail_alpha_at_zero_is_one() {
    assert_eq!(convert_trail_length(0), SCALE);
}

#[test]
fn trail_alpha_at_maximum_matches_power_law() {
    let alpha = convert_trail_length(TRAIL_SLIDER_MAX);
    // Exact fixed-point value of SCALE - (0.8 * SCALE)^(1/20) taken as a
    // fifth root and two square roots at fixed-point scale.
    assert_eq!(alpha, 11_096);
    // It tracks the closed-form power-law value 1 - 0.8^0.05.
    let closed_form = 1.0 - 0.8f64.powf(0.05);
    assert!((alpha as f64 / SCALE as f64 - closed_form).abs() < 2e-6);
    // The value is strictly inside (0, 1).
    assert!(0 < alpha && alpha < SCALE);
}

#[test]
fn trail_alpha_is_antitone_in_slider() {
    let a0 = convert_trail_length(0);
    let a33 = convert_trail_length(33_000_000);
    let a66 = convert_trail_length(66_000_000);
    let a100 = convert_trail_length(TRAIL_SLIDER_MAX);
    assert!(a0 >= a33 && a33 >= a66 && a66 >= a100);
    assert_eq!(a66, 31_429);
    let closed_form_66 = 1.0 - (0.8 * 0.66f64).powf(0.05);
    assert!((a66 as f64 / SCALE as f64 - closed_form_66).abs() < 2e-6);
}

#[test]
fn config_defaults() {
    let c = Config::new();
    assert_eq!(c.simulation_speed, 1);
    assert_eq!(c.num_particles, 10_000);
    assert_eq!(c.particle_radius, 1_200_000);
    assert_eq!(c.interact_force, 5_500_000);
    assert_eq!(c.drag, 2_000_000);
    assert_eq!(c.trail_length, 66_000_000);
}

#[test]
fn config_setters_clamp_into_range() {
    let mut c = Config::new();
    c.set_simulation_speed(9);
    assert_eq!(c.simulation_speed, 3);
    c.set_simulation_speed(0);
    assert_eq!(c.simulation_speed, 1);
    c.set_num_particles(50_000);
    assert_eq!(c.num_particles, 20_000);
    c.set_num_particles(0);
    assert_eq!(c.num_particles, 1);
    c.set_particle_radius(10_000_000);
    assert_eq!(c.particle_radius, 5_000_000);
    c.set_interact_force(0);
    assert_eq!(c.interact_force, FORCE_SLIDER_MIN);
    c.set_drag(-5);
    assert_eq!(c.drag, 0);
    c.set_trail_length(200_000_000);
    assert_eq!(c.trail_length, TRAIL_SLIDER_MAX);
}
