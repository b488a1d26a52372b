//! End-to-end scenarios: the gimbal-lock guard, the zoom limit, and a full
//! flick-and-coast run.

use editor_cam::controller::{CameraFrame, EditorCam};
use editor_cam::linear::{FxVec2, FxVec3};
use editor_cam::motion::CurrentMotion;
use editor_cam::orbit::{OrbitConstraint, RollCorrection, RotationDirective, GIMBAL_LOCK_EPSILON, PI_NANO};
use editor_cam::projection::ProjectionParams;

fn v2(x: i64, y: i64) -> FxVec2 {
    FxVec2 { x, y }
}

fn frame_with_forward_angle(angle: i64) -> CameraFrame {
    CameraFrame {
        viewport: Some((1000, 1000)),
        projection: ProjectionParams::Perspective {
            fov: 1_000_000_000,
            tan_half_fov: 500_000_000,
            near: 10_000_000,
        },
        forward_up_angle: angle,
        up_alignment_angle: 0,
    }
}

#[test]
fn gimbal_lock_guard_never_reaches_the_pole() {
    // A fixed-up camera (the default) pitched hard for many frames: the angle
    // between its forward axis and the up vector climbs toward half a turn
    // but always stays at least one epsilon short of it.
    let mut cam = EditorCam::default();
    cam.start_orbit(None);
    let mut angle: i64 = 1_570_796_327;
    for _ in 0..400 {
        cam.send_screenspace_input(v2(0, 2_000_000_000));
        let out = cam
            .update_transform_and_projection(&frame_with_forward_angle(angle), 16_667)
            .unwrap();
        match out.rotation {
            RotationDirective::YawPitch { pitch, .. } => {
                angle += pitch;
            },
            RotationDirective::Hold => {},
            _ => panic!("a fixed constraint never orbits freely"),
        }
        assert!(angle > 0);
        assert!(angle < PI_NANO);
        assert!(PI_NANO - angle >= GIMBAL_LOCK_EPSILON);
    }
    // The sustained input drove the camera asymptotically close to the pole.
    assert!(PI_NANO - angle <= 2 * GIMBAL_LOCK_EPSILON);
}

#[test]
fn zoom_limit_blocks_at_the_minimum() {
    // With zoom-through off and a minimum pixel size of 1e-3 world units,
    // repeated zoom-in inputs drive the pixel size at the anchor down toward
    // the limit; once at (or marginally past) it, further zooming in moves
    // nothing at all.
    let mut cam = EditorCam::default();
    cam.zoom_limits.min_size_per_pixel = 1_000_000;
    cam.zoom_limits.zoom_through_objects = false;
    cam.start_zoom(None);
    let frame = frame_with_forward_angle(1_570_796_327);
    // A pixel at depth |z| spans |z| / 1000 here, so the limit sits at a
    // depth of one unit; the camera starts two units out.
    let mut prev_size: i64 = cam.last_anchor_depth().abs() / 1000;
    let mut blocked_depth: Option<i64> = None;
    for _ in 0..600 {
        cam.send_zoom_input(10_000_000_000);
        cam.update_transform_and_projection(&frame, 16_667).unwrap();
        let size: i64 = cam.last_anchor_depth().abs() / 1000;
        // Zooming in only ever shrinks the pixel size, and a single frame
        // overshoots the limit by no more than the per-frame step.
        assert!(size <= prev_size);
        assert!(size >= 990_000);
        if size <= 1_000_000 {
            match blocked_depth {
                // Once at the limit the depth freezes exactly.
                Some(d) => assert_eq!(cam.last_anchor_depth(), d),
                None => blocked_depth = Some(cam.last_anchor_depth()),
            }
        }
        prev_size = size;
    }
    // The limit was actually reached and held.
    assert!(blocked_depth.is_some());
    assert!(prev_size <= 1_000_000);
}

#[test]
fn flick_coasts_and_comes_to_rest() {
    // Default state; an orbit of ten frames of steady input, released, then
    // two seconds of simulated time: the yaw rate decays monotonically toward
    // zero and the state machine lands in stationary.
    let mut cam = EditorCam::default();
    assert_eq!(cam.momentum.orbit, 100);
    cam.start_orbit(None);
    let frame = frame_with_forward_angle(1_570_796_327);
    for _ in 0..10 {
        cam.send_screenspace_input(v2(5_000_000_000, 0));
        cam.update_transform_and_projection(&frame, 16_667).unwrap();
    }
    cam.end_move();
    assert!(matches!(cam.current_motion, CurrentMotion::Momentum { .. }));

    let mut last_rate: i64 = i64::MAX;
    let mut last_speed: i64 = i64::MAX;
    let mut became_stationary = false;
    for _ in 0..120 {
        let out = cam.update_transform_and_projection(&frame, 16_667).unwrap();
        let rate: i64 = match out.rotation {
            RotationDirective::YawPitch { yaw, .. } => yaw.abs(),
            RotationDirective::Hold => 0,
            _ => panic!("a fixed constraint never orbits freely"),
        };
        assert!(rate <= last_rate);
        last_rate = rate;
        // While momentum persists, the residual velocity itself strictly
        // shrinks every frame; only the emitted yaw angle may plateau under
        // quantization.
        match &cam.current_motion {
            CurrentMotion::Momentum {
                velocity: editor_cam::momentum::Velocity::Orbit { velocity, .. },
                ..
            } => {
                let speed = velocity.x.abs().max(velocity.y.abs());
                assert!(speed > 0);
                assert!(speed < last_speed);
                last_speed = speed;
            },
            CurrentMotion::Stationary => {
                became_stationary = true;
            },
            _ => panic!("an orbit flick coasts as orbit momentum"),
        }
        if became_stationary {
            break;
        }
    }
    assert!(became_stationary);
    assert_eq!(last_rate, 0);
}

#[test]
fn zoom_through_keeps_moving_at_the_minimum() {
    // With zoom-through on, reaching the minimum pixel size does not stop the
    // camera: the anchor is pushed forward with it, so the remembered depth
    // freezes while the camera keeps translating forward at the limit speed.
    let mut cam = EditorCam::default();
    cam.zoom_limits.min_size_per_pixel = 1_000_000;
    cam.zoom_limits.zoom_through_objects = true;
    cam.start_zoom(None);
    let frame = frame_with_forward_angle(1_570_796_327);
    let mut through_depth: Option<i64> = None;
    let mut moved_while_through = false;
    for _ in 0..600 {
        cam.send_zoom_input(10_000_000_000);
        let out = cam.update_transform_and_projection(&frame, 16_667).unwrap();
        let size: i64 = cam.last_anchor_depth().abs() / 1000;
        if size < 1_000_000 {
            match through_depth {
                Some(d) => {
                    // The anchor advances exactly as fast as the camera.
                    assert_eq!(cam.last_anchor_depth(), d);
                },
                None => through_depth = Some(cam.last_anchor_depth()),
            }
            if out.translation_view.z < 0 {
                moved_while_through = true;
            }
        }
    }
    assert!(through_depth.is_some());
    assert!(moved_while_through);
}

#[test]
fn dynamic_constraint_defers_roll_correction() {
    let mut cam = EditorCam::default();
    cam.orbit_constraint = OrbitConstraint::Dynamic { can_pass_tdc: false };
    cam.start_orbit(None);
    cam.send_screenspace_input(v2(1_000_000_000, 1_000_000_000));
    let out = cam
        .update_transform_and_projection(&frame_with_forward_angle(1_570_796_327), 16_667)
        .unwrap();
    match out.rotation {
        RotationDirective::YawPitch { roll, .. } => {
            assert_eq!(roll, RollCorrection::Deferred);
        },
        _ => panic!("a dynamic constraint yields yaw and pitch"),
    }
}
