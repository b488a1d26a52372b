//! Core of an editor-style 3D camera controller.
//!
//! Given screen-space drag deltas and scalar zoom deltas, the controller keeps
//! an anchor point in view space and resolves, once per frame, the camera
//! translation, the orbit rotation directives and the projection adjustments
//! that make pans track the pointer, orbits turn about the anchor and zooms
//! move toward it, with momentum after the input ends.
//!
//! All state and arithmetic is fixed point (`i64` billionths, see [`fx`]), so
//! the motion resolution is exact and deterministic; the host is expected to
//! convert its camera intrinsics into these units, call
//! [`controller::EditorCam::update_transform_and_projection`] once per frame,
//! and apply the returned directives to its transform and projection.

pub mod controller;
pub mod fx;
pub mod linear;
pub mod momentum;
pub mod motion;
pub mod orbit;
pub mod projection;
pub mod smoothing;
pub mod zoom;
