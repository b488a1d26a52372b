//! Tests for the camera controller's state machine, errors, and exact
//! per-frame arithmetic.

use editor_cam::controller::{CameraFrame, EditorCam, Sensitivity, UpdateError};
use editor_cam::linear::{FxVec2, FxVec3};
use editor_cam::motion::{CurrentMotion, MotionKind};
use editor_cam::orbit::{OrbitConstraint, RotationDirective};
use editor_cam::projection::ProjectionParams;

fn v2(x: i64, y: i64) -> FxVec2 {
    FxVec2 { x, y }
}

fn v3(x: i64, y: i64, z: i64) -> FxVec3 {
    FxVec3 { x, y, z }
}

fn perspective_frame() -> CameraFrame {
    CameraFrame {
        viewport: Some((1000, 1000)),
        projection: ProjectionParams::Perspective {
            fov: 1_000_000_000,
            tan_half_fov: 500_000_000,
            near: 10_000_000,
        },
        forward_up_angle: 1_570_796_327,
        up_alignment_angle: 0,
    }
}

#[test]
fn stationary_update_is_a_no_op() {
    let mut cam = EditorCam::default();
    let out = cam.update_transform_and_projection(&perspective_frame(), 16_667).unwrap();
    assert!(!out.needs_redraw);
    assert_eq!(out.translation_view, v3(0, 0, 0));
    assert!(matches!(out.rotation, RotationDirective::Hold));
    assert!(matches!(cam.current_motion, CurrentMotion::Stationary));
}

#[test]
fn unsupported_projection_errors_only_while_moving() {
    let mut cam = EditorCam::default();
    let frame = CameraFrame {
        viewport: Some((1000, 1000)),
        projection: ProjectionParams::Unsupported,
        forward_up_angle: 1_570_796_327,
        up_alignment_angle: 0,
    };
    // Stationary cameras are skipped before the projection is examined.
    assert!(cam.update_transform_and_projection(&frame, 16_667).is_ok());
    cam.start_orbit(None);
    cam.send_screenspace_input(v2(1_000_000_000, 0));
    let r = cam.update_transform_and_projection(&frame, 16_667);
    assert_eq!(r.err(), Some(UpdateError::UnsupportedProjection));
    // The motion state survives the skipped frame.
    assert!(matches!(cam.current_motion, CurrentMotion::UserControlled { .. }));
}

#[test]
fn missing_viewport_is_a_malformed_camera() {
    let mut cam = EditorCam::default();
    cam.start_pan(None);
    let frame = CameraFrame { viewport: None, ..perspective_frame() };
    let r = cam.update_transform_and_projection(&frame, 16_667);
    assert_eq!(r.err(), Some(UpdateError::MalformedCamera));
}

#[test]
fn disabled_controller_ignores_everything() {
    let mut cam = EditorCam::default();
    cam.start_orbit(None);
    cam.disable();
    assert!(cam.is_disabled());
    assert!(matches!(cam.current_motion, CurrentMotion::Stationary));
    cam.start_orbit(None);
    assert!(matches!(cam.current_motion, CurrentMotion::Stationary));
    let out = cam.update_transform_and_projection(&perspective_frame(), 16_667).unwrap();
    assert!(!out.needs_redraw);
    cam.enable();
    assert!(cam.is_enabled());
    cam.start_orbit(None);
    assert!(matches!(cam.current_motion, CurrentMotion::UserControlled { .. }));
}

#[test]
fn enabled_motion_gates_each_kind() {
    let mut cam = EditorCam::default();
    cam.enabled_motion.orbit = false;
    cam.start_orbit(None);
    assert!(cam.mode().is_none());
    cam.start_pan(None);
    assert_eq!(cam.mode(), Some(MotionKind::PanZoom));
    cam.enabled_motion.zoom = false;
    cam.start_zoom(None);
    assert_eq!(cam.mode(), Some(MotionKind::PanZoom));
}

#[test]
fn anchor_depth_stays_nonpositive() {
    // The anchor depth invariant holds through any sequence of starts,
    // inputs, updates and releases, even with hints behind the camera.
    let mut cam = EditorCam::default();
    let frame = perspective_frame();
    let hints = [
        Some(v3(1_000_000_000, 2_000_000_000, 5_000_000_000)),
        None,
        Some(v3(-3_000_000_000, 0, 7_000_000_000)),
        Some(v3(0, 0, 0)),
    ];
    for (i, hint) in hints.iter().enumerate() {
        if i % 2 == 0 {
            cam.start_orbit(*hint);
        } else {
            cam.start_pan(*hint);
        }
        assert!(cam.last_anchor_depth() <= 0);
        if let Some(a) = cam.anchor_view_space() {
            assert!(a.z <= 0);
        }
        cam.send_screenspace_input(v2(2_000_000_000, -1_000_000_000));
        cam.update_transform_and_projection(&frame, 16_667).unwrap();
        assert!(cam.last_anchor_depth() <= 0);
        cam.end_move();
        cam.update_transform_and_projection(&frame, 16_667).unwrap();
        assert!(cam.last_anchor_depth() <= 0);
    }
}

#[test]
fn pan_translation_is_exact() {
    // One pixel covers 2 * tan(fov/2) * |z| / viewport_height of the world:
    // 0.002 units here. A five-pixel pan translates the camera by exactly
    // five pixels' worth, and the point under the cursor lands five pixels
    // over on the screen, to floating-point precision.
    let mut cam = EditorCam::default();
    cam.start_pan(None);
    cam.send_screenspace_input(v2(5_000_000_000, 0));
    let out = cam.update_transform_and_projection(&perspective_frame(), 16_667).unwrap();
    assert_eq!(out.translation_view, v3(-10_000_000, 0, 0));
    assert!(matches!(out.rotation, RotationDirective::Hold));

    // Screen-space check with real arithmetic: the point that sat at the
    // center of the screen moves exactly five pixels.
    let tan_half_fov: f64 = 0.5;
    let depth: f64 = 2.0;
    let viewport_h: f64 = 1000.0;
    let size_per_pixel = 2.0 * tan_half_fov * depth / viewport_h;
    let translation_x = out.translation_view.x as f64 / 1e9;
    let point_view_x_after = 0.0 - translation_x;
    let pixel_shift = point_view_x_after / size_per_pixel;
    assert!((pixel_shift - 5.0).abs() < 1e-9);
}

#[test]
fn free_orbit_axis_is_perpendicular_to_the_drag() {
    let mut cam = EditorCam::default();
    cam.orbit_constraint = OrbitConstraint::Free;
    // A window shorter than the seed spacing passes the drag through the
    // smoothing unchanged, so the numbers below are exact.
    cam.smoothing.orbit = 16_000;
    cam.start_orbit(None);
    cam.send_screenspace_input(v2(3_000_000_000, 4_000_000_000));
    let out = cam.update_transform_and_projection(&perspective_frame(), 16_000).unwrap();
    match out.rotation {
        RotationDirective::FreeAxis { axis_view, angle } => {
            // The drag (3, 4) is negated in x and rotated a quarter turn:
            // its length is exactly five.
            assert_eq!(axis_view, v3(-800_000_000, -600_000_000, 0));
            assert_eq!(angle, 25_000_000);
        },
        _ => panic!("expected a free-axis rotation"),
    }
}

#[test]
fn zoom_queue_is_inherited_when_zoom_takes_over() {
    let mut cam = EditorCam::default();
    cam.start_orbit(None);
    cam.send_zoom_input(4_000_000_000);
    let before = match cam.motion_inputs() {
        Some(m) => m.zoom_inputs().entries.len(),
        None => panic!("expected motion inputs"),
    };
    cam.start_zoom(None);
    assert_eq!(cam.mode(), Some(MotionKind::Zoom));
    let after = match cam.motion_inputs() {
        Some(m) => m.zoom_inputs().entries.len(),
        None => panic!("expected motion inputs"),
    };
    assert_eq!(before, after);
    // A fresh motion would have been reseeded with 255 zero entries; the
    // inherited queue still holds the extra zoom sample.
    assert_eq!(after, 256);
}

#[test]
fn screenspace_input_is_ignored_in_zoom_only_mode() {
    let mut cam = EditorCam::default();
    cam.start_zoom(None);
    cam.send_screenspace_input(v2(9_000_000_000, 9_000_000_000));
    let out = cam.update_transform_and_projection(&perspective_frame(), 16_667).unwrap();
    assert!(matches!(out.rotation, RotationDirective::Hold));
    assert_eq!(out.translation_view, v3(0, 0, 0));
}

#[test]
fn is_actively_controlled_respects_debounce_and_zoom() {
    let mut cam = EditorCam::default();
    assert!(!cam.is_actively_controlled());
    cam.start_orbit(None);
    assert!(cam.is_actively_controlled());
    cam.start_zoom(None);
    assert!(!cam.is_actively_controlled());
    cam.start_pan(None);
    cam.send_screenspace_input(v2(1_000_000_000, 0));
    cam.end_move();
    // Momentum just began: still within the debounce window.
    assert!(cam.is_actively_controlled());
    // After far more than the debounce window, momentum no longer counts.
    let frame = perspective_frame();
    for _ in 0..10 {
        cam.update_transform_and_projection(&frame, 16_667).unwrap();
    }
    assert!(!cam.is_actively_controlled());
}

#[test]
fn near_plane_follows_anchor_depth() {
    let cam = EditorCam::default();
    // Two units out: a twentieth is 0.1, the upper clamp.
    assert_eq!(cam.update_near_plane(), 100_000_000);
    let close = EditorCam::default().with_initial_anchor_depth(100_000_000);
    // A tenth of a unit out: a twentieth is 0.005.
    assert_eq!(close.update_near_plane(), 5_000_000);
    let tiny = EditorCam::default().with_initial_anchor_depth(10);
    assert_eq!(tiny.update_near_plane(), 10_000);
}

#[test]
fn sensitivity_same_fills_every_axis() {
    let s = Sensitivity::same(2_000_000_000);
    assert_eq!(s.orbit, v2(2_000_000_000, 2_000_000_000));
    assert_eq!(s.zoom, 2_000_000_000);
}

#[test]
fn orthographic_zoom_rescales_the_projection() {
    let mut cam = EditorCam::default();
    let frame = CameraFrame {
        viewport: Some((1000, 1000)),
        projection: ProjectionParams::Orthographic {
            scale: 2_000_000,
            near: 0,
            far: 1_000_000_000_000,
        },
        forward_up_angle: 1_570_796_327,
        up_alignment_angle: 0,
    };
    cam.start_zoom(None);
    cam.send_zoom_input(1_000_000_000);
    let out = cam.update_transform_and_projection(&frame, 16_667).unwrap();
    let new_scale = out.new_ortho_scale.expect("orthographic frames rescale");
    // Zooming in shrinks the scale; the factor is 1 - 0.0015 * zoom.
    assert!(new_scale < 2_000_000);
    assert!(new_scale > 1_900_000);
}

#[test]
fn anchor_world_depth_is_remembered_across_motions() {
    let mut cam = EditorCam::default();
    assert_eq!(cam.last_anchor_depth(), -2_000_000_000);
    cam.start_orbit(Some(v3(1_000_000_000, 0, -7_000_000_000)));
    // The hint's depth is overridden by the remembered depth, so the anchor
    // cannot lurch.
    assert_eq!(cam.anchor_view_space(), Some(v3(1_000_000_000, 0, -2_000_000_000)));
}

#[test]
fn inputs_during_momentum_are_ignored() {
    let mut cam = EditorCam::default();
    cam.start_orbit(None);
    cam.send_screenspace_input(v2(5_000_000_000, 0));
    cam.end_move();
    assert!(matches!(cam.current_motion, CurrentMotion::Momentum { .. }));
    cam.send_screenspace_input(v2(9_000_000_000, 9_000_000_000));
    cam.send_zoom_input(9_000_000_000);
    assert!(matches!(cam.current_motion, CurrentMotion::Momentum { .. }));
    assert!(cam.motion_inputs().is_none());
}

#[test]
fn frame_output_reports_the_anchor() {
    let mut cam = EditorCam::default();
    cam.start_pan(None);
    cam.send_screenspace_input(v2(5_000_000_000, 0));
    let out = cam.update_transform_and_projection(&perspective_frame(), 16_667).unwrap();
    assert_eq!(out.anchor_view, cam.anchor_view_space());
    assert!(out.anchor_view.is_some());
}

#[test]
fn default_configuration_matches_documentation() {
    let cam = EditorCam::default();
    assert_eq!(cam.smoothing.pan, 16_000);
    assert_eq!(cam.smoothing.orbit, 40_000);
    assert_eq!(cam.smoothing.zoom, 80_000);
    assert_eq!(cam.input_debounce, 80_000);
    assert_eq!(cam.zoom_limits.min_size_per_pixel, 100);
    assert!(!cam.zoom_limits.zoom_through_objects);
    assert!(cam.enabled_motion.pan && cam.enabled_motion.orbit && cam.enabled_motion.zoom);
}
