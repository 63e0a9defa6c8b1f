//! The velocity controller and its trimmed reformulation, and the
//! fixed-point arithmetic under them.

use avian_pickup::interaction::hold::{
    compute_collider_no_damp, compute_controller, compute_controller_trimmed,
    phys_compute_slide_direction,
};
use avian_pickup::math::{isqrt, mul_div, norm, scale_comp, Vec3Fix, SCALE};

/// One world unit in fixed-point micro-units.
const U: i64 = SCALE as i64;

#[test]
fn is_compute_controller_same_as_trimmed() {
    for vel in 0..300 {
        for delta in 0..300 {
            let vel = Vec3Fix { x: vel as i64 * U, y: 0, z: 0 };
            let delta = Vec3Fix { x: delta as i64 * U, y: 0, z: 0 };

            let max_speed: u64 = 35 * SCALE;
            let max_damp_speed: u64 = 2 * max_speed;
            let scale_delta: u64 = SCALE / 2;

            let orig = compute_controller(vel, delta, max_speed, max_damp_speed, scale_delta);
            let trimmed =
                compute_controller_trimmed(vel, delta, max_speed, max_damp_speed, scale_delta);

            let dx = (orig.x - trimmed.x) as f64;
            let dy = (orig.y - trimmed.y) as f64;
            let dz = (orig.z - trimmed.z) as f64;
            let diff = (dx * dx + dy * dy + dz * dz).sqrt() / SCALE as f64;
            if diff > 1e-5 {
                panic!(
                    "difference between compute_controller and compute_controller_trimmed: {diff}\n\
                     orig: {orig:?}, trimmed: {trimmed:?}\n\
                     velocity: {vel:?}, delta: {delta:?}"
                );
            }
        }
    }
}

#[test]
fn controller_damps_a_fast_velocity_by_the_cap() {
    // at 8 world units per second with a damping cap of 4 and no authority,
    // the opposing acceleration is rescaled to the cap: 8 - 4 = 4
    let vel = Vec3Fix { x: 8 * U, y: 0, z: 0 };
    let delta = Vec3Fix { x: 0, y: 0, z: 0 };
    let out = compute_controller(vel, delta, 0, 4 * SCALE, SCALE);
    assert_eq!(out, Vec3Fix { x: 4 * U, y: 0, z: 0 });
}

#[test]
fn controller_zeroes_a_slow_velocity() {
    // a speed within the damping cap is zeroed outright
    let vel = Vec3Fix { x: 3 * U, y: 0, z: 0 };
    let delta = Vec3Fix { x: 0, y: 0, z: 0 };
    let out = compute_controller(vel, delta, 0, 4 * SCALE, SCALE);
    assert_eq!(out, Vec3Fix { x: 0, y: 0, z: 0 });
}

#[test]
fn controller_caps_the_acceleration() {
    // delta 8 at scale 1 would accelerate by 8; authority 4 halves it
    let vel = Vec3Fix { x: 0, y: 0, z: 0 };
    let delta = Vec3Fix { x: 8 * U, y: 0, z: 0 };
    let out = compute_controller(vel, delta, 4 * SCALE, 4 * SCALE, SCALE);
    assert_eq!(out, Vec3Fix { x: 4 * U, y: 0, z: 0 });
}

#[test]
fn controller_without_authority_only_damps() {
    let vel = Vec3Fix { x: 10 * U, y: 0, z: 0 };
    let delta = Vec3Fix { x: 100 * U, y: 0, z: 0 };
    let out = compute_controller(vel, delta, 0, 0, SCALE);
    assert_eq!(out, vel);
}

#[test]
fn collider_no_damp_returns_only_the_capped_acceleration() {
    let vel = Vec3Fix { x: 50 * U, y: 0, z: 0 };
    let delta = Vec3Fix { x: 8 * U, y: 0, z: 0 };
    let out = compute_collider_no_damp(vel, delta, 4 * SCALE, 4 * SCALE, SCALE);
    assert_eq!(out, Vec3Fix { x: 4 * U, y: 0, z: 0 });
}

#[test]
fn slide_direction_is_a_pass_through() {
    let vel = Vec3Fix { x: 7, y: -9, z: 11 };
    let ang = Vec3Fix { x: 1, y: 2, z: 3 };
    assert_eq!(phys_compute_slide_direction(vel, ang, 42), vel);
}

#[test]
fn isqrt_brackets_the_square() {
    assert_eq!(isqrt(0), 0);
    assert_eq!(isqrt(1), 1);
    assert_eq!(isqrt(3), 1);
    assert_eq!(isqrt(4), 2);
    assert_eq!(isqrt(99), 9);
    assert_eq!(isqrt(100), 10);
    assert_eq!(isqrt(u64::MAX as u128 * u64::MAX as u128), u64::MAX);
}

#[test]
fn norm_of_a_pythagorean_triple() {
    assert_eq!(norm(Vec3Fix { x: 3, y: 4, z: 0 }), 5);
    assert_eq!(norm(Vec3Fix { x: -3, y: 0, z: -4 }), 5);
    assert_eq!(norm(Vec3Fix { x: 2, y: 3, z: 6 }), 7);
}

#[test]
fn scaling_keeps_the_sign_and_floors_the_magnitude() {
    assert_eq!(scale_comp(10, 3, 4), 7);
    assert_eq!(scale_comp(-10, 3, 4), -7);
    assert_eq!(mul_div(10, 3, 4), 7);
}
