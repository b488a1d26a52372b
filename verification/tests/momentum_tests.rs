//! Tests for momentum decay: frame-rate independence, monotonicity, the
//! collapse threshold, and the decay factor itself.

use editor_cam::linear::{FxVec2, FxVec3};
use editor_cam::momentum::{decay_factor, Momentum, Velocity};
use editor_cam::smoothing::Smoothness;

fn orbit_velocity(x: i64, y: i64) -> Velocity {
    Velocity::Orbit { anchor: FxVec3 { x: 0, y: 0, z: -2_000_000_000 }, velocity: FxVec2 { x, y } }
}

fn magnitude_sq(v: &Velocity) -> i128 {
    match v {
        Velocity::Idle => 0,
        Velocity::Orbit { velocity, .. } | Velocity::Pan { velocity, .. } => {
            (velocity.x as i128) * (velocity.x as i128) + (velocity.y as i128) * (velocity.y
                as i128)
        },
    }
}

#[test]
fn decay_factor_values() {
    assert_eq!(decay_factor(0), 0);
    assert_eq!(decay_factor(100), 1_042_423);
    assert_eq!(decay_factor(255), 1_048_543);
    assert!(decay_factor(255) < 1_048_576);
}

#[test]
fn decay_is_frame_rate_independent() {
    // Decaying in two steps and in one big step gives exactly the same
    // velocity, for any split of the elapsed time.
    let g = decay_factor(100);
    let mut split = orbit_velocity(8_000_000_000, -3_000_000_000);
    split.decay(g, g, 700);
    split.decay(g, g, 1_300);
    let mut whole = orbit_velocity(8_000_000_000, -3_000_000_000);
    whole.decay(g, g, 2_000);
    assert_eq!(split, whole);

    let mut many = orbit_velocity(8_000_000_000, -3_000_000_000);
    for _ in 0..125 {
        many.decay(g, g, 16);
    }
    let mut once = orbit_velocity(8_000_000_000, -3_000_000_000);
    once.decay(g, g, 125 * 16);
    assert_eq!(many, once);
}

#[test]
fn decay_magnitude_never_grows() {
    let g = decay_factor(200);
    let mut v = orbit_velocity(5_000_000_000, 1_000_000_000);
    let mut last = magnitude_sq(&v);
    for _ in 0..200 {
        v.decay(g, g, 10);
        let m = magnitude_sq(&v);
        assert!(m <= last);
        last = m;
    }
}

#[test]
fn decay_collapses_under_threshold() {
    let g = decay_factor(100);
    let mut v = orbit_velocity(5_000_000_000, 0);
    // Roughly a second and a half suffices for a five-unit flick at this
    // momentum amount.
    v.decay(g, g, 2_000);
    assert_eq!(v, Velocity::Idle);
}

#[test]
fn zero_momentum_dies_instantly() {
    let g = decay_factor(0);
    assert_eq!(g, 0);
    let mut v = orbit_velocity(5_000_000_000, 0);
    v.decay(g, g, 1);
    assert_eq!(v, Velocity::Idle);
}

#[test]
fn pan_velocity_uses_pan_factor() {
    let g_orbit = decay_factor(255);
    let g_pan = decay_factor(0);
    let mut v = Velocity::Pan {
        anchor: FxVec3 { x: 0, y: 0, z: -1_000_000_000 },
        velocity: FxVec2 { x: 4_000_000_000, y: 0 },
    };
    v.decay(g_orbit, g_pan, 1);
    assert_eq!(v, Velocity::Idle);
}

#[test]
fn momentum_same_sets_both_amounts() {
    let s = Smoothness { pan: 40_000, orbit: 40_000, zoom: 0 };
    let m = Momentum::same(42, s);
    assert_eq!(m.pan, 42);
    assert_eq!(m.orbit, 42);
    assert_eq!(m.smoothness, s);
}

#[test]
fn momentum_default_amounts() {
    let m = Momentum::default();
    assert_eq!(m.pan, 150);
    assert_eq!(m.orbit, 100);
    assert_eq!(m.smoothness.zoom, 0);
}

#[test]
fn decay_factor_grows_with_the_amount() {
    // Higher momentum amounts decay more slowly: the factor never shrinks as
    // the amount rises.
    let mut prev: u64 = decay_factor(0);
    for amount in 1..=255u8 {
        let g = decay_factor(amount);
        assert!(g >= prev);
        prev = g;
    }
}
