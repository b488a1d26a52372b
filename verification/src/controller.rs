//! The camera controller: all state of one camera, its input events, and the
//! per-frame motion resolution.
//!
//! The host feeds input events ([`EditorCam::start_orbit`],
//! [`EditorCam::send_screenspace_input`], [`EditorCam::end_move`], …) and
//! calls [`EditorCam::update_transform_and_projection`] once per camera per
//! frame with the elapsed time and the camera's intrinsics; it gets back a
//! view-space translation, rotation directives and projection adjustments to
//! apply, plus a needs-redraw signal.

use vstd::prelude::*;

verus! {

use crate::fx::{clamp_spec, mul_div_clamp, sqrt_floor, tz_div, UNIT};
use crate::linear::{FxVec2, FxVec3};
use crate::momentum::{decay_steps, under_threshold, Momentum, Velocity, DECAY_ONE};
use crate::motion::{
    anchor_wf,
    motion_wf,
    CurrentMotion,
    MotionInputs,
    MotionKind,
    ANCHOR_MAX,
};
use crate::orbit::{
    clamped_pitch,
    roll_correction,
    spec_clamped_pitch,
    spec_roll_correction,
    OrbitConstraint,
    RotationDirective,
    MOTION_THRESHOLD,
    ORBIT_MULTIPLIER,
    PI_NANO,
};
use crate::projection::{proj_wf, viewport_ok, ProjectionParams};
use crate::smoothing::{
    is_fresh_queue,
    processed_seq,
    sample_ok,
    smoothness_wf,
    InputQueue,
    Smoothness,
    SAMPLE_MAX,
    TIME_MAX,
};
use crate::motion::{spec_smooth_orbit, spec_smooth_pan, spec_smooth_zoom};
use crate::projection::SIZE_MAX;
use crate::zoom::{
    bounded_zoom,
    length_per_pixel_at_view_space_pos,
    spec_length_per_pixel,
    spec_zoom_bounded,
    zoom_limits_wf,
    ZoomLimits,
    PIXEL_SIZE_MAX,
};

/// Largest sensitivity multiplier (a factor of sixteen, in billionths).
pub open const SENS_MAX: i64 = 16_000_000_000;

/// Largest magnitude of a resolved per-frame velocity channel.
pub open const VEL_CAP: i64 = 50_000_000_000_000_000;

/// Largest magnitude of a per-frame translation component.
pub open const TRANS_MAX: i64 = 1_000_000_000_000_000;

/// Largest rotation angle handed out per frame (a thousand radians).
pub open const ANGLE_CAP: i64 = 1_000_000_000_000;

/// A view-space anchor hint shorter than this is treated as absent
/// (one tenth of a millionth of a unit).
pub open const ANCHOR_EPS_SQ: u128 = 10_000;

/// The sensitivity of the camera controller to inputs.
#[derive(Clone, Copy, Debug, PartialEq, Eq, Structural)]
pub struct Sensitivity {
    /// Per-axis multipliers for orbit inputs, in billionths.
    pub orbit: FxVec2,
    /// Multiplier for zoom inputs, in billionths.
    pub zoom: i64,
}

/// Bounded sensitivity multipliers.
pub open spec fn sensitivity_wf(s: Sensitivity) -> bool {
    &&& -SENS_MAX <= s.orbit.x <= SENS_MAX
    &&& -SENS_MAX <= s.orbit.y <= SENS_MAX
    &&& -SENS_MAX <= s.zoom <= SENS_MAX
}

impl Sensitivity {
    /// The same multiplier on every input axis.
    pub fn same(amount: i64) -> (r: Sensitivity)
        requires
            -SENS_MAX <= amount <= SENS_MAX,
        ensures
            r.orbit.x == amount,
            r.orbit.y == amount,
            r.zoom == amount,
            sensitivity_wf(r),
    {
        Sensitivity { orbit: FxVec2 { x: amount, y: amount }, zoom: amount }
    }
}

impl Default for Sensitivity {
    /// Unit sensitivity on every axis.
    fn default() -> (r: Sensitivity)
        ensures
            r.orbit.x == UNIT,
            r.orbit.y == UNIT,
            r.zoom == UNIT,
            sensitivity_wf(r),
    {
        Sensitivity { orbit: FxVec2 { x: UNIT, y: UNIT }, zoom: UNIT }
    }
}

/// Which kinds of motion may be initiated. Does not affect momentum already
/// under way.
#[derive(Clone, Copy, Debug, PartialEq, Eq, Structural)]
pub struct EnabledMotion {
    /// May a pan be started?
    pub pan: bool,
    /// May an orbit be started?
    pub orbit: bool,
    /// May a zoom be started?
    pub zoom: bool,
}

impl Default for EnabledMotion {
    /// Everything enabled.
    fn default() -> (r: EnabledMotion)
        ensures
            r.pan && r.orbit && r.zoom,
    {
        EnabledMotion { pan: true, orbit: true, zoom: true }
    }
}

/// The per-frame camera intrinsics and orientation angles the host supplies.
#[derive(Clone, Copy, Debug)]
pub struct CameraFrame {
    /// Logical viewport size in pixels, if the camera has one.
    pub viewport: Option<(u32, u32)>,
    /// The projection parameters, in fixed-point units.
    pub projection: ProjectionParams,
    /// Angle between the camera's forward axis and the constraint's up
    /// vector, in billionths of a radian; the distance to bottom dead center.
    pub forward_up_angle: i64,
    /// Angle between the camera's up axis and the constraint's up vector, in
    /// billionths of a radian.
    pub up_alignment_angle: i64,
}

/// Well-formed frame inputs.
pub open spec fn frame_wf(f: CameraFrame) -> bool {
    &&& proj_wf(f.projection)
    &&& 0 <= f.forward_up_angle <= PI_NANO
    &&& 0 <= f.up_alignment_angle <= PI_NANO
}

/// What the host must apply to its camera after a frame update.
#[derive(Clone, Copy, Debug)]
pub struct FrameOutput {
    /// Does anything move, so the host should redraw?
    pub needs_redraw: bool,
    /// View-space translation: rotate by the camera's orientation and add to
    /// its position.
    pub translation_view: FxVec3,
    /// The rotation to apply about the world-space anchor.
    pub rotation: RotationDirective,
    /// For orthographic cameras, the projection's new scale.
    pub new_ortho_scale: Option<i64>,
    /// The view-space anchor after this frame: the pivot the rotation turns
    /// about, carried through the camera's new pose.
    pub anchor_view: Option<FxVec3>,
}

impl FrameOutput {
    /// An output that moves nothing.
    fn hold() -> (r: FrameOutput)
        ensures
            r == spec_hold_output(),
    {
        FrameOutput {
            needs_redraw: false,
            translation_view: FxVec3 { x: 0, y: 0, z: 0 },
            rotation: RotationDirective::Hold,
            new_ortho_scale: None,
            anchor_view: None,
        }
    }
}

/// The output of a frame in which nothing moves.
pub open spec fn spec_hold_output() -> FrameOutput {
    FrameOutput {
        needs_redraw: false,
        translation_view: FxVec3 { x: 0, y: 0, z: 0 },
        rotation: RotationDirective::Hold,
        new_ortho_scale: Option::None,
        anchor_view: Option::None,
    }
}

/// Why a frame update could not resolve motion for a camera. The frame is
/// skipped; the camera recovers as soon as its configuration is valid again.
#[derive(Clone, Copy, Debug, PartialEq, Eq, Structural)]
pub enum UpdateError {
    /// The camera has no usable viewport for its perspective projection.
    MalformedCamera,
    /// The projection is a kind the motion math does not model.
    UnsupportedProjection,
}

/// Tracks all state of a camera's controller: its configuration, its motion,
/// and its remembered anchor depth.
#[derive(Clone, Debug)]
pub struct EditorCam {
    /// Which input motions may currently be initiated.
    pub enabled_motion: EnabledMotion,
    /// How orbiting respects the up direction.
    pub orbit_constraint: OrbitConstraint,
    /// Near and far zoom limits, and zooming through objects.
    pub zoom_limits: ZoomLimits,
    /// Input smoothing windows.
    pub smoothing: Smoothness,
    /// Input sensitivity multipliers.
    pub sensitivity: Sensitivity,
    /// Momentum configuration for released motions.
    pub momentum: Momentum,
    /// How long after a motion ends new conflicting inputs are ignored, in
    /// microseconds.
    pub input_debounce: u64,
    /// The best known distance to the last anchor, in view space; always at
    /// most zero (the anchor sits in front of the camera, along negative z).
    pub last_anchor_depth: i64,
    /// The current motion state.
    pub current_motion: CurrentMotion,
    /// Master switch: while false, no motion starts and none continues.
    pub enabled: bool,
    /// The controller's clock, advanced by each frame update, in
    /// microseconds.
    pub clock_us: i64,
}

impl EditorCam {
    /// The controller's structural invariant.
    pub open spec fn wf(self) -> bool {
        &&& smoothness_wf(self.smoothing)
        &&& smoothness_wf(self.momentum.smoothness)
        &&& sensitivity_wf(self.sensitivity)
        &&& zoom_limits_wf(self.zoom_limits)
        &&& self.input_debounce <= TIME_MAX
        &&& -ANCHOR_MAX <= self.last_anchor_depth <= 0
        &&& motion_wf(self.current_motion)
        &&& 0 <= self.clock_us <= TIME_MAX
    }

    /// Create a new editor camera controller.
    pub fn new(
        orbit: OrbitConstraint,
        smoothness: Smoothness,
        sensitivity: Sensitivity,
        momentum: Momentum,
        initial_anchor_depth: i64,
    ) -> (r: EditorCam)
        requires
            smoothness_wf(smoothness),
            smoothness_wf(momentum.smoothness),
            sensitivity_wf(sensitivity),
            -ANCHOR_MAX <= initial_anchor_depth <= ANCHOR_MAX,
        ensures
            r.wf(),
            r.orbit_constraint == orbit,
            r.smoothing == smoothness,
            r.sensitivity == sensitivity,
            r.momentum == momentum,
            r.last_anchor_depth == -crate::linear::abs_spec(initial_anchor_depth as int),
            r.current_motion is Stationary,
            r.enabled,
            r.clock_us == 0,
    {
        let depth: i64 = -crate::fx::abs_i64(initial_anchor_depth);
        EditorCam {
            enabled_motion: EnabledMotion::default(),
            orbit_constraint: orbit,
            zoom_limits: ZoomLimits::default(),
            smoothing: smoothness,
            sensitivity,
            momentum,
            input_debounce: 80_000,
            last_anchor_depth: depth,
            current_motion: CurrentMotion::Stationary,
            enabled: true,
            clock_us: 0,
        }
    }

    /// Set the initial anchor depth of the camera controller.
    pub fn with_initial_anchor_depth(self, initial_anchor_depth: i64) -> (r: EditorCam)
        requires
            -ANCHOR_MAX <= initial_anchor_depth <= ANCHOR_MAX,
        ensures
            r == (EditorCam {
                last_anchor_depth: (-crate::linear::abs_spec(initial_anchor_depth as int)) as i64,
                ..self
            }),
    {
        let depth: i64 = -crate::fx::abs_i64(initial_anchor_depth);
        EditorCam { last_anchor_depth: depth, ..self }
    }

    /// Is the controller responding to inputs and motion at all?
    pub fn is_enabled(&self) -> (r: bool)
        ensures
            r == self.enabled,
    {
        self.enabled
    }

    /// Is the controller switched off?
    pub fn is_disabled(&self) -> (r: bool)
        ensures
            r == !self.enabled,
    {
        !self.enabled
    }

    /// Switch the controller back on. Motion resumes from rest.
    pub fn enable(&mut self)
        ensures
            *final(self) == (EditorCam { enabled: true, ..*old(self) }),
    {
        self.enabled = true;
    }

    /// Switch the controller off, immediately halting any active or decaying
    /// motion.
    pub fn disable(&mut self)
        ensures
            *final(self) == (EditorCam {
                enabled: false,
                current_motion: CurrentMotion::Stationary,
                ..*old(self)
            }),
    {
        self.enabled = false;
        self.current_motion = CurrentMotion::Stationary;
    }

    /// The kind of motion currently driven by the user, if any.
    pub fn mode(&self) -> (r: Option<MotionKind>)
        ensures
            match self.current_motion {
                CurrentMotion::UserControlled { motion_inputs, .. } => r == Some(
                    match motion_inputs {
                        MotionInputs::OrbitZoom { .. } => MotionKind::OrbitZoom,
                        MotionInputs::PanZoom { .. } => MotionKind::PanZoom,
                        MotionInputs::Zoom { .. } => MotionKind::Zoom,
                    },
                ),
                _ => r is None,
            },
    {
        match &self.current_motion {
            CurrentMotion::UserControlled { motion_inputs, .. } => Some(motion_inputs.kind()),
            _ => None,
        }
    }

    /// The live motion inputs, if the camera is being actively moved.
    pub fn motion_inputs(&self) -> (r: Option<&MotionInputs>)
        ensures
            match self.current_motion {
                CurrentMotion::UserControlled { motion_inputs, .. } => r is Some && *r->Some_0
                    == motion_inputs,
                _ => r is None,
            },
    {
        self.current_motion.inputs()
    }

    /// The anchor in the camera's view space, if the camera is being actively
    /// moved.
    pub fn anchor_view_space(&self) -> (r: Option<FxVec3>)
        ensures
            match self.current_motion {
                CurrentMotion::UserControlled { anchor, .. } => r == Some(anchor),
                _ => r is None,
            },
    {
        match &self.current_motion {
            CurrentMotion::UserControlled { anchor, .. } => Some(*anchor),
            _ => None,
        }
    }

    /// Should new motions be suppressed because the user is actively
    /// operating the camera? Zoom-only motion does not count, because scroll
    /// devices keep emitting values after the user lets go; and momentum
    /// counts only within the debounce window after release.
    pub fn is_actively_controlled(&self) -> (r: bool)
        ensures
            r == (!(match self.current_motion {
                CurrentMotion::UserControlled { motion_inputs, .. } => motion_inputs is Zoom,
                _ => false,
            }) && (self.current_motion is UserControlled || (match self.current_motion {
                CurrentMotion::Momentum { elapsed_us, .. } => elapsed_us < self.input_debounce,
                _ => false,
            }))),
    {
        let debounced: bool = match &self.current_motion {
            CurrentMotion::Momentum { elapsed_us, .. } => *elapsed_us < self.input_debounce,
            _ => false,
        };
        !self.current_motion.is_zooming_only() && (self.current_motion.is_user_controlled()
            || debounced)
    }

    /// The anchor a starting motion will use: the hint with its depth forced
    /// to the last known (sign-corrected) depth, or straight ahead at that
    /// depth when there is no usable hint.
    pub open spec fn spec_updated_anchor(self, hint: Option<FxVec3>) -> FxVec3 {
        match hint {
            Option::Some(h) => {
                if h.x * h.x + h.y * h.y + h.z * h.z >= ANCHOR_EPS_SQ {
                    FxVec3 { x: h.x, y: h.y, z: self.last_anchor_depth }
                } else {
                    FxVec3 { x: 0, y: 0, z: self.last_anchor_depth }
                }
            },
            Option::None => FxVec3 { x: 0, y: 0, z: self.last_anchor_depth },
        }
    }

    /// Resolve the anchor for a starting motion, falling back to the
    /// remembered depth straight ahead. Forcing the hint's depth to the last
    /// known depth avoids a sudden lurch when the pointer leaves an object.
    fn maybe_update_anchor(&mut self, hint: Option<FxVec3>) -> (r: FxVec3)
        requires
            old(self).wf(),
            match hint {
                Option::Some(h) => -ANCHOR_MAX <= h.x <= ANCHOR_MAX && -ANCHOR_MAX <= h.y
                    <= ANCHOR_MAX && -ANCHOR_MAX <= h.z <= ANCHOR_MAX,
                Option::None => true,
            },
        ensures
            *final(self) == *old(self),
            r == old(self).spec_updated_anchor(hint),
            anchor_wf(r),
    {
        let z_last: i64 = self.last_anchor_depth;
        match hint {
            Some(h) => {
                let sq: u128 = h.len_sq();
                if sq >= ANCHOR_EPS_SQ {
                    FxVec3 { x: h.x, y: h.y, z: z_last }
                } else {
                    FxVec3 { x: 0, y: 0, z: z_last }
                }
            },
            None => FxVec3 { x: 0, y: 0, z: z_last },
        }
    }

    /// Start an orbiting motion, anchored at the optionally supplied
    /// view-space point. A no-op while orbiting is not an enabled motion or
    /// the controller is disabled.
    pub fn start_orbit(&mut self, anchor: Option<FxVec3>)
        requires
            old(self).wf(),
            match anchor {
                Option::Some(h) => -ANCHOR_MAX <= h.x <= ANCHOR_MAX && -ANCHOR_MAX <= h.y
                    <= ANCHOR_MAX && -ANCHOR_MAX <= h.z <= ANCHOR_MAX,
                Option::None => true,
            },
        ensures
            final(self).wf(),
            !(old(self).enabled_motion.orbit && old(self).enabled) ==> *final(self) == *old(self),
            old(self).enabled_motion.orbit && old(self).enabled ==> {
                &&& *final(self) == (EditorCam {
                    current_motion: final(self).current_motion,
                    ..*old(self)
                })
                &&& match final(self).current_motion {
                    CurrentMotion::UserControlled { anchor: a, motion_inputs } => {
                        &&& a == old(self).spec_updated_anchor(anchor)
                        &&& match motion_inputs {
                            MotionInputs::OrbitZoom { screenspace_inputs, zoom_inputs } => {
                                is_fresh_queue(screenspace_inputs) && is_fresh_queue(zoom_inputs)
                            },
                            _ => false,
                        }
                    },
                    _ => false,
                }
            },
    {
        if !self.enabled_motion.orbit || !self.enabled {
            return ;
        }
        let a = self.maybe_update_anchor(anchor);
        self.current_motion = CurrentMotion::UserControlled {
            anchor: a,
            motion_inputs: MotionInputs::OrbitZoom {
                screenspace_inputs: InputQueue::default(),
                zoom_inputs: InputQueue::default(),
            },
        };
    }

    /// Start a panning motion, anchored at the optionally supplied view-space
    /// point. A no-op while panning is not an enabled motion or the
    /// controller is disabled.
    pub fn start_pan(&mut self, anchor: Option<FxVec3>)
        requires
            old(self).wf(),
            match anchor {
                Option::Some(h) => -ANCHOR_MAX <= h.x <= ANCHOR_MAX && -ANCHOR_MAX <= h.y
                    <= ANCHOR_MAX && -ANCHOR_MAX <= h.z <= ANCHOR_MAX,
                Option::None => true,
            },
        ensures
            final(self).wf(),
            !(old(self).enabled_motion.pan && old(self).enabled) ==> *final(self) == *old(self),
            old(self).enabled_motion.pan && old(self).enabled ==> {
                &&& *final(self) == (EditorCam {
                    current_motion: final(self).current_motion,
                    ..*old(self)
                })
                &&& match final(self).current_motion {
                    CurrentMotion::UserControlled { anchor: a, motion_inputs } => {
                        &&& a == old(self).spec_updated_anchor(anchor)
                        &&& match motion_inputs {
                            MotionInputs::PanZoom { screenspace_inputs, zoom_inputs } => {
                                is_fresh_queue(screenspace_inputs) && is_fresh_queue(zoom_inputs)
                            },
                            _ => false,
                        }
                    },
                    _ => false,
                }
            },
    {
        if !self.enabled_motion.pan || !self.enabled {
            return ;
        }
        let a = self.maybe_update_anchor(anchor);
        self.current_motion = CurrentMotion::UserControlled {
            anchor: a,
            motion_inputs: MotionInputs::PanZoom {
                screenspace_inputs: InputQueue::default(),
                zoom_inputs: InputQueue::default(),
            },
        };
    }

    /// Start a zooming motion, anchored at the optionally supplied view-space
    /// point. An already active motion hands its zoom queue over, so zoom
    /// velocity is inherited; panning or orbiting stops. A no-op while
    /// zooming is not an enabled motion or the controller is disabled.
    pub fn start_zoom(&mut self, anchor: Option<FxVec3>)
        requires
            old(self).wf(),
            match anchor {
                Option::Some(h) => -ANCHOR_MAX <= h.x <= ANCHOR_MAX && -ANCHOR_MAX <= h.y
                    <= ANCHOR_MAX && -ANCHOR_MAX <= h.z <= ANCHOR_MAX,
                Option::None => true,
            },
        ensures
            final(self).wf(),
            !(old(self).enabled_motion.zoom && old(self).enabled) ==> *final(self) == *old(self),
            old(self).enabled_motion.zoom && old(self).enabled ==> {
                &&& *final(self) == (EditorCam {
                    current_motion: final(self).current_motion,
                    ..*old(self)
                })
                &&& match final(self).current_motion {
                    CurrentMotion::UserControlled { anchor: a, motion_inputs } => {
                        &&& a == old(self).spec_updated_anchor(anchor)
                        &&& match motion_inputs {
                            MotionInputs::Zoom { zoom_inputs } => {
                                match old(self).current_motion {
                                    CurrentMotion::UserControlled { motion_inputs: m0, .. } => {
                                        zoom_inputs == m0.zoom_queue_spec()
                                    },
                                    _ => is_fresh_queue(zoom_inputs),
                                }
                            },
                            _ => false,
                        }
                    },
                    _ => false,
                }
            },
    {
        if !self.enabled_motion.zoom || !self.enabled {
            return ;
        }
        let a = self.maybe_update_anchor(anchor);
        let mut motion = CurrentMotion::Stationary;
        core::mem::swap(&mut motion, &mut self.current_motion);
        let zoom_inputs: InputQueue = match motion {
            CurrentMotion::UserControlled { motion_inputs, .. } => match motion_inputs {
                MotionInputs::OrbitZoom { zoom_inputs, .. } => zoom_inputs,
                MotionInputs::PanZoom { zoom_inputs, .. } => zoom_inputs,
                MotionInputs::Zoom { zoom_inputs } => zoom_inputs,
            },
            _ => InputQueue::default(),
        };
        self.current_motion = CurrentMotion::UserControlled {
            anchor: a,
            motion_inputs: MotionInputs::Zoom { zoom_inputs },
        };
    }

    /// Feed a screen-space input delta: orbiting or panning, depending on the
    /// current motion. Ignored while zoom-only, in momentum, stationary, or
    /// disabled.
    pub fn send_screenspace_input(&mut self, screenspace_input: FxVec2)
        requires
            old(self).wf(),
            sample_ok(screenspace_input),
        ensures
            final(self).wf(),
            *final(self) == (EditorCam {
                current_motion: final(self).current_motion,
                ..*old(self)
            }),
            match (old(self).current_motion, final(self).current_motion) {
                (
                    CurrentMotion::UserControlled { anchor: a0, motion_inputs: m0 },
                    CurrentMotion::UserControlled { anchor: a1, motion_inputs: m1 },
                ) => {
                    &&& a1 == a0
                    &&& match (m0, m1) {
                        (
                            MotionInputs::OrbitZoom { screenspace_inputs: q0, zoom_inputs: z0 },
                            MotionInputs::OrbitZoom { screenspace_inputs: q1, zoom_inputs: z1 },
                        ) => z1 == z0 && q1.entries@ == processed_seq(
                            q0.entries@,
                            screenspace_input,
                            old(self).smoothing.orbit as int,
                            old(self).clock_us as int,
                        ),
                        (
                            MotionInputs::PanZoom { screenspace_inputs: q0, zoom_inputs: z0 },
                            MotionInputs::PanZoom { screenspace_inputs: q1, zoom_inputs: z1 },
                        ) => z1 == z0 && q1.entries@ == processed_seq(
                            q0.entries@,
                            screenspace_input,
                            old(self).smoothing.pan as int,
                            old(self).clock_us as int,
                        ),
                        (MotionInputs::Zoom { .. }, MotionInputs::Zoom { .. }) => m1 == m0,
                        _ => false,
                    }
                },
                (_, _) => final(self).current_motion == old(self).current_motion,
            },
    {
        let now: i64 = self.clock_us;
        let window_orbit: u64 = self.smoothing.orbit;
        let window_pan: u64 = self.smoothing.pan;
        match &mut self.current_motion {
            CurrentMotion::UserControlled { motion_inputs, .. } => match motion_inputs {
                MotionInputs::OrbitZoom { screenspace_inputs, .. } => {
                    screenspace_inputs.process_input(screenspace_input, window_orbit, now);
                },
                MotionInputs::PanZoom { screenspace_inputs, .. } => {
                    screenspace_inputs.process_input(screenspace_input, window_pan, now);
                },
                MotionInputs::Zoom { .. } => {},
            },
            _ => {},
        }
    }

    /// Feed a scalar zoom input delta. Ignored unless the camera is user
    /// controlled.
    pub fn send_zoom_input(&mut self, zoom_amount: i64)
        requires
            old(self).wf(),
            -SAMPLE_MAX <= zoom_amount <= SAMPLE_MAX,
        ensures
            final(self).wf(),
            *final(self) == (EditorCam {
                current_motion: final(self).current_motion,
                ..*old(self)
            }),
            match (old(self).current_motion, final(self).current_motion) {
                (
                    CurrentMotion::UserControlled { anchor: a0, motion_inputs: m0 },
                    CurrentMotion::UserControlled { anchor: a1, motion_inputs: m1 },
                ) => {
                    &&& a1 == a0
                    &&& m1.zoom_queue_spec().entries@ == processed_seq(
                        m0.zoom_queue_spec().entries@,
                        FxVec2 { x: zoom_amount, y: 0 },
                        old(self).smoothing.zoom as int,
                        old(self).clock_us as int,
                    )
                    &&& match (m0, m1) {
                        (MotionInputs::OrbitZoom { screenspace_inputs: q0, .. }, MotionInputs::OrbitZoom {
                            screenspace_inputs: q1,
                            ..
                        }) => q1 == q0,
                        (MotionInputs::PanZoom { screenspace_inputs: q0, .. }, MotionInputs::PanZoom {
                            screenspace_inputs: q1,
                            ..
                        }) => q1 == q0,
                        (MotionInputs::Zoom { .. }, MotionInputs::Zoom { .. }) => true,
                        _ => false,
                    }
                },
                (_, _) => final(self).current_motion == old(self).current_motion,
            },
    {
        let now: i64 = self.clock_us;
        let window: u64 = self.smoothing.zoom;
        let sample = FxVec2 { x: zoom_amount, y: 0 };
        match &mut self.current_motion {
            CurrentMotion::UserControlled { motion_inputs, .. } => match motion_inputs {
                MotionInputs::OrbitZoom { zoom_inputs, .. } => {
                    zoom_inputs.process_input(sample, window, now);
                },
                MotionInputs::PanZoom { zoom_inputs, .. } => {
                    zoom_inputs.process_input(sample, window, now);
                },
                MotionInputs::Zoom { zoom_inputs } => {
                    zoom_inputs.process_input(sample, window, now);
                },
            },
            _ => {},
        }
    }

    /// End the current motion. An orbit or pan leaves behind a momentum
    /// velocity seeded with the time-windowed average of its smoothed inputs
    /// over the momentum smoothing window (which captures a deliberate
    /// flick); a zoom leaves none. The decay factors are frozen here from the
    /// momentum amounts. A no-op unless the camera is user controlled.
    pub fn end_move(&mut self)
        requires
            old(self).wf(),
        ensures
            final(self).wf(),
            *final(self) == (EditorCam {
                current_motion: final(self).current_motion,
                ..*old(self)
            }),
            match old(self).current_motion {
                CurrentMotion::UserControlled { anchor: a0, motion_inputs: m0 } => {
                    match final(self).current_motion {
                        CurrentMotion::Momentum {
                            velocity,
                            elapsed_us,
                            orbit_factor,
                            pan_factor,
                        } => {
                            &&& elapsed_us == 0
                            &&& orbit_factor < DECAY_ONE
                            &&& pan_factor < DECAY_ONE
                            &&& (old(self).momentum.orbit == 0 ==> orbit_factor == 0)
                            &&& (old(self).momentum.pan == 0 ==> pan_factor == 0)
                            &&& match m0 {
                                MotionInputs::OrbitZoom { screenspace_inputs, .. } => velocity
                                    == (Velocity::Orbit {
                                    anchor: a0,
                                    velocity: spec_momentum_seed(
                                        screenspace_inputs,
                                        old(self).momentum.smoothness.orbit as int,
                                        old(self).clock_us as int,
                                    ),
                                }),
                                MotionInputs::PanZoom { screenspace_inputs, .. } => velocity
                                    == (Velocity::Pan {
                                    anchor: a0,
                                    velocity: spec_momentum_seed(
                                        screenspace_inputs,
                                        old(self).momentum.smoothness.pan as int,
                                        old(self).clock_us as int,
                                    ),
                                }),
                                MotionInputs::Zoom { .. } => velocity is Idle,
                            }
                        },
                        _ => false,
                    }
                },
                _ => final(self).current_motion == old(self).current_motion,
            },
    {
        let now: i64 = self.clock_us;
        let orbit_window: u64 = self.momentum.smoothness.orbit;
        let pan_window: u64 = self.momentum.smoothness.pan;
        let orbit_factor: u64 = self.momentum.orbit_decay();
        let pan_factor: u64 = self.momentum.pan_decay();
        let velocity: Velocity = match &self.current_motion {
            CurrentMotion::UserControlled { anchor, motion_inputs } => match motion_inputs {
                MotionInputs::OrbitZoom { screenspace_inputs, .. } => {
                    let v = screenspace_inputs.average_smoothed_value(orbit_window, now);
                    proof {
                        crate::smoothing::lemma_average_smoothed_bounded(
                            screenspace_inputs.entries@,
                            now as int,
                            orbit_window as int,
                        );
                    }
                    Velocity::Orbit { anchor: *anchor, velocity: v }
                },
                MotionInputs::PanZoom { screenspace_inputs, .. } => {
                    let v = screenspace_inputs.average_smoothed_value(pan_window, now);
                    proof {
                        crate::smoothing::lemma_average_smoothed_bounded(
                            screenspace_inputs.entries@,
                            now as int,
                            pan_window as int,
                        );
                    }
                    Velocity::Pan { anchor: *anchor, velocity: v }
                },
                MotionInputs::Zoom { .. } => Velocity::Idle,
            },
            _ => {
                return ;
            },
        };
        self.current_motion = CurrentMotion::Momentum {
            velocity,
            elapsed_us: 0,
            orbit_factor,
            pan_factor,
        };
    }

    /// The last known anchor depth. Always at most zero.
    pub fn last_anchor_depth(&self) -> (r: i64)
        requires
            self.wf(),
        ensures
            r == self.last_anchor_depth,
            r <= 0,
    {
        self.last_anchor_depth
    }

    /// The near plane to use for the camera's projection: a twentieth of the
    /// remembered anchor distance, kept between `1e-5` and `0.1` world units.
    pub fn update_near_plane(&self) -> (r: i64)
        requires
            self.wf(),
        ensures
            r == spec_near_plane(self.last_anchor_depth as int),
            10_000 <= r <= 100_000_000,
    {
        let scaled: i64 = mul_div_clamp(self.last_anchor_depth, -50_000_000, UNIT, ANCHOR_MAX);
        if scaled < 10_000 {
            10_000
        } else if scaled > 100_000_000 {
            100_000_000
        } else {
            scaled
        }
    }

    /// The world-space size of a pixel at the anchor, if the camera is being
    /// actively moved and the anchor is visible.
    pub fn length_per_pixel_at_anchor(
        &self,
        projection: &ProjectionParams,
        viewport: Option<(u32, u32)>,
    ) -> (r: Option<i64>)
        requires
            self.wf(),
            proj_wf(*projection),
        ensures
            match self.current_motion {
                CurrentMotion::UserControlled { anchor, .. } => match spec_length_per_pixel(
                    *projection,
                    viewport,
                    anchor,
                ) {
                    Option::Some(v) => r is Some && r->Some_0 == v,
                    Option::None => r is None,
                },
                _ => r is None,
            },
    {
        match &self.current_motion {
            CurrentMotion::UserControlled { anchor, .. } => {
                length_per_pixel_at_view_space_pos(projection, viewport, *anchor)
            },
            _ => None,
        }
    }
}

/// The momentum seed a released drag leaves behind: the average of the
/// queue's smoothed values over the given window.
pub open spec fn spec_momentum_seed(q: InputQueue, window: int, now: int) -> FxVec2 {
    FxVec2 {
        x: tz_div(
            crate::smoothing::sum_recent_smoothed_x(q.entries@, now, window),
            crate::smoothing::avg_div(crate::smoothing::count_recent(q.entries@, now, window)),
        ) as i64,
        y: tz_div(
            crate::smoothing::sum_recent_smoothed_y(q.entries@, now, window),
            crate::smoothing::avg_div(crate::smoothing::count_recent(q.entries@, now, window)),
        ) as i64,
    }
}

/// The controller clock after a frame: advanced by the elapsed time, held at
/// the largest representable instant.
pub open spec fn spec_clock_next(clock: int, dt: int) -> int {
    if clock + dt > TIME_MAX {
        TIME_MAX as int
    } else {
        clock + dt
    }
}

/// A velocity after a number of millisecond decay steps, collapsed to rest
/// under the threshold. Orbit velocities decay by `orbit_factor`, pan
/// velocities by `pan_factor`.
pub open spec fn spec_decayed_velocity(
    v: Velocity,
    orbit_factor: int,
    pan_factor: int,
    steps: nat,
) -> Velocity {
    match v {
        Velocity::Idle => Velocity::Idle,
        Velocity::Orbit { anchor, velocity } => {
            let dx = decay_steps(velocity.x as int, orbit_factor, steps);
            let dy = decay_steps(velocity.y as int, orbit_factor, steps);
            if under_threshold(dx, dy) {
                Velocity::Idle
            } else {
                Velocity::Orbit { anchor, velocity: FxVec2 { x: dx as i64, y: dy as i64 } }
            }
        },
        Velocity::Pan { anchor, velocity } => {
            let dx = decay_steps(velocity.x as int, pan_factor, steps);
            let dy = decay_steps(velocity.y as int, pan_factor, steps);
            if under_threshold(dx, dy) {
                Velocity::Idle
            } else {
                Velocity::Pan { anchor, velocity: FxVec2 { x: dx as i64, y: dy as i64 } }
            }
        },
    }
}

/// The motion state after the decay phase of a frame: momentum velocities
/// decay over the whole milliseconds that elapsed, and a velocity that fell
/// under the threshold brings the camera to rest. Other states are untouched
/// here.
pub open spec fn spec_momentum_phase(m: CurrentMotion, dt: int) -> CurrentMotion {
    match m {
        CurrentMotion::Momentum { velocity, elapsed_us, orbit_factor, pan_factor } => {
            let e1 = spec_clock_next(elapsed_us as int, dt);
            let steps = (e1 / 1000 - elapsed_us as int / 1000) as nat;
            let v1 = spec_decayed_velocity(velocity, orbit_factor as int, pan_factor as int, steps);
            if v1 is Idle {
                CurrentMotion::Stationary
            } else {
                CurrentMotion::Momentum {
                    velocity: v1,
                    elapsed_us: e1 as u64,
                    orbit_factor,
                    pan_factor,
                }
            }
        },
        _ => m,
    }
}

/// Why this frame's motion cannot be resolved, if it cannot.
pub open spec fn spec_frame_err(frame: CameraFrame) -> Option<UpdateError> {
    if frame.projection is Unsupported {
        Option::Some(UpdateError::UnsupportedProjection)
    } else if frame.projection is Perspective && !viewport_ok(frame.viewport) {
        Option::Some(UpdateError::MalformedCamera)
    } else {
        Option::None
    }
}

/// A velocity channel scaled by a sensitivity multiplier.
pub open spec fn spec_scaled(v: int, s: int) -> int {
    clamp_spec(tz_div(v * s, UNIT as int), VEL_CAP as int)
}

/// The view-space offset one pixel represents at the anchor's depth: the
/// magnitude of both components of the per-pixel view offset. Perspective
/// projections measure it from the field of view at that depth; orthographic
/// projections use their scale directly.
pub open spec fn spec_view_offset_k(
    proj: ProjectionParams,
    viewport: Option<(u32, u32)>,
    z: int,
) -> int {
    match proj {
        ProjectionParams::Perspective { tan_half_fov, .. } => {
            match viewport {
                Option::Some((vw, vh)) => {
                    if vh > 0 {
                        clamp_spec(
                            tz_div(2 * (tan_half_fov as int) * (-z), (vh as int) * (UNIT as int)),
                            PIXEL_SIZE_MAX as int,
                        )
                    } else {
                        0
                    }
                },
                Option::None => 0,
            }
        },
        ProjectionParams::Orthographic { scale, .. } => scale as int,
        ProjectionParams::Unsupported => 0,
    }
}

/// The pan translation of a frame, confined to the view plane: the screen
/// delta times the per-pixel view offset, which is `(-k, k)`.
pub open spec fn spec_pan_translation(pan: FxVec2, k: int) -> FxVec3 {
    FxVec3 {
        x: clamp_spec(tz_div((pan.x as int) * (-k), UNIT as int), TRANS_MAX as int) as i64,
        y: clamp_spec(tz_div((pan.y as int) * k, UNIT as int), TRANS_MAX as int) as i64,
        z: 0,
    }
}

/// The size of a pixel at the anchor, zero when it cannot be measured.
pub open spec fn spec_size_at_anchor(
    proj: ProjectionParams,
    viewport: Option<(u32, u32)>,
    anchor: FxVec3,
) -> int {
    match spec_length_per_pixel(proj, viewport, anchor) {
        Option::Some(v) => v,
        Option::None => 0,
    }
}

/// A value confined to a closed range.
pub open spec fn spec_clamp_range(v: int, lo: int, hi: int) -> int {
    if v < lo {
        lo
    } else if v > hi {
        hi
    } else {
        v
    }
}

/// The zoom translation of a perspective frame: along the anchor direction,
/// scaled by the zoom input, the pixel size at the anchor, and the inverse
/// field of view. With zoom-through on, the raw zoom input moves at the speed
/// of the clamped pixel size instead of stopping.
pub open spec fn spec_zoom_translation_perspective(
    anchor: FxVec3,
    zoom: int,
    zb: int,
    size: int,
    limits: ZoomLimits,
    fov: int,
) -> FxVec3 {
    let za = if limits.zoom_through_objects {
        clamp_spec(
            tz_div(
                zoom * spec_clamp_range(
                    size,
                    limits.min_size_per_pixel as int,
                    limits.max_size_per_pixel as int,
                ),
                UNIT as int,
            ),
            TRANS_MAX as int,
        )
    } else {
        clamp_spec(tz_div(zb * size, UNIT as int), TRANS_MAX as int)
    };
    let norm = sqrt_floor(anchor.len_sq_spec());
    if norm == 0 {
        FxVec3 { x: 0, y: 0, z: 0 }
    } else {
        FxVec3 {
            x: clamp_spec(
                tz_div(
                    clamp_spec(tz_div((anchor.x as int) * za, norm), TRANS_MAX as int) * (
                    UNIT as int),
                    fov,
                ),
                TRANS_MAX as int,
            ) as i64,
            y: clamp_spec(
                tz_div(
                    clamp_spec(tz_div((anchor.y as int) * za, norm), TRANS_MAX as int) * (
                    UNIT as int),
                    fov,
                ),
                TRANS_MAX as int,
            ) as i64,
            z: clamp_spec(
                tz_div(
                    clamp_spec(tz_div((anchor.z as int) * za, norm), TRANS_MAX as int) * (
                    UNIT as int),
                    fov,
                ),
                TRANS_MAX as int,
            ) as i64,
        }
    }
}

/// One component of the orthographic zoom translation.
pub open spec fn spec_ortho_zoom_component(c: int, zb: int, norm: int, zabs: int) -> int {
    clamp_spec(
        tz_div(
            clamp_spec(
                tz_div(clamp_spec(tz_div(c * zb, norm), TRANS_MAX as int) * zabs, UNIT as int),
                TRANS_MAX as int,
            ) * 1_500_000,
            UNIT as int,
        ),
        TRANS_MAX as int,
    )
}

/// The zoom translation of an orthographic frame: within the view plane,
/// along the anchor direction, scaled by the bounded zoom and the anchor's
/// depth.
pub open spec fn spec_zoom_translation_ortho(anchor: FxVec3, zb: int) -> FxVec3 {
    let norm = sqrt_floor(anchor.len_sq_spec());
    if norm == 0 {
        FxVec3 { x: 0, y: 0, z: 0 }
    } else {
        FxVec3 {
            x: spec_ortho_zoom_component(anchor.x as int, zb, norm, -(anchor.z as int)) as i64,
            y: spec_ortho_zoom_component(anchor.y as int, zb, norm, -(anchor.z as int)) as i64,
            z: 0,
        }
    }
}

/// The new orthographic scale after a bounded zoom.
pub open spec fn spec_new_ortho_scale(scale: int, zb: int) -> int {
    let f = (UNIT as int) - clamp_spec(tz_div(zb * 1_500_000, UNIT as int), 100_000_000_000_000);
    clamp_spec(tz_div(scale * f, UNIT as int), SIZE_MAX as int)
}

/// Does zoom-through advance the anchor this frame? Only a perspective
/// camera zooming in past the minimum pixel size keeps moving forward.
pub open spec fn spec_through_advance(
    limits: ZoomLimits,
    size: int,
    proj: ProjectionParams,
    zoom: int,
) -> bool {
    limits.zoom_through_objects && size < limits.min_size_per_pixel && proj is Perspective && zoom
        > 0
}

/// An anchor confined to bounds, never behind the camera.
pub open spec fn spec_clamped_anchor(x: int, y: int, z: int) -> FxVec3 {
    let zc = clamp_spec(z, ANCHOR_MAX as int);
    FxVec3 {
        x: clamp_spec(x, ANCHOR_MAX as int) as i64,
        y: clamp_spec(y, ANCHOR_MAX as int) as i64,
        z: (if zc > 0 {
            0int
        } else {
            zc
        }) as i64,
    }
}

/// The anchor after a frame's translation: advanced by the zoom-through rule,
/// moved opposite the camera's translation (it is camera-relative), then
/// clamped so it can never end up behind the camera.
pub open spec fn spec_final_anchor(
    a0: FxVec3,
    pan_t: FxVec3,
    zoom_t: FxVec3,
    advance: bool,
) -> FxVec3 {
    let adv = if advance {
        1int
    } else {
        0int
    };
    spec_clamped_anchor(
        a0.x + adv * (zoom_t.x as int) - pan_t.x - zoom_t.x,
        a0.y + adv * (zoom_t.y as int) - pan_t.y - zoom_t.y,
        a0.z + adv * (zoom_t.z as int) - pan_t.z - zoom_t.z,
    )
}

/// The yaw/pitch directive of a constrained orbit: angles scaled from the
/// screen delta, the pitch clamped against the poles, both zeroed under the
/// motion threshold, with the roll correction decision.
pub open spec fn spec_yaw_pitch(
    ox: int,
    oy: int,
    fwd: int,
    upa: int,
    can_pass_tdc: bool,
    dynamic: bool,
) -> RotationDirective {
    let desired = clamp_spec(tz_div(oy * (ORBIT_MULTIPLIER as int), UNIT as int), ANGLE_CAP as int);
    let pitch0 = spec_clamped_pitch(desired, (PI_NANO as int) - fwd, fwd, can_pass_tdc);
    let pitch = if -MOTION_THRESHOLD <= pitch0 <= MOTION_THRESHOLD {
        0int
    } else {
        pitch0
    };
    let yaw0 = clamp_spec(tz_div(ox * (ORBIT_MULTIPLIER as int), UNIT as int), ANGLE_CAP as int);
    let yaw = if -MOTION_THRESHOLD <= yaw0 <= MOTION_THRESHOLD {
        0int
    } else {
        yaw0
    };
    RotationDirective::YawPitch {
        yaw: yaw as i64,
        pitch: pitch as i64,
        roll: spec_roll_correction(upa, dynamic),
    }
}

/// The rotation directive of a frame. The screen delta's `x` component is
/// negated first; a zero delta rotates nothing. A free orbit turns about the
/// axis perpendicular to the drag direction in the view plane.
pub open spec fn spec_rotation(
    constraint: OrbitConstraint,
    orbit: FxVec2,
    fwd: int,
    upa: int,
) -> RotationDirective {
    let ox = -(orbit.x as int);
    let oy = orbit.y as int;
    if ox == 0 && oy == 0 {
        RotationDirective::Hold
    } else {
        match constraint {
            OrbitConstraint::Free => {
                let len = sqrt_floor(ox * ox + oy * oy);
                if len == 0 {
                    RotationDirective::Hold
                } else {
                    RotationDirective::FreeAxis {
                        axis_view: FxVec3 {
                            x: (-clamp_spec(
                                tz_div(oy * (UNIT as int), len),
                                2 * (UNIT as int),
                            )) as i64,
                            y: clamp_spec(tz_div(ox * (UNIT as int), len), 2 * (UNIT as int)) as i64,
                            z: 0,
                        },
                        angle: clamp_spec(
                            tz_div(len * (ORBIT_MULTIPLIER as int), UNIT as int),
                            ANGLE_CAP as int,
                        ) as i64,
                    }
                }
            },
            OrbitConstraint::Fixed { can_pass_tdc, .. } => spec_yaw_pitch(
                ox,
                oy,
                fwd,
                upa,
                can_pass_tdc,
                false,
            ),
            OrbitConstraint::Dynamic { can_pass_tdc } => spec_yaw_pitch(
                ox,
                oy,
                fwd,
                upa,
                can_pass_tdc,
                true,
            ),
        }
    }
}

/// Everything an active frame resolves to: the view-space translation, the
/// rotation directive, the new orthographic scale if any, and the anchor
/// after the frame.
pub open spec fn spec_active(
    a0: FxVec3,
    orbit: FxVec2,
    pan: FxVec2,
    zoom: int,
    constraint: OrbitConstraint,
    limits: ZoomLimits,
    frame: CameraFrame,
) -> (FxVec3, RotationDirective, Option<int>, FxVec3) {
    let k = spec_view_offset_k(frame.projection, frame.viewport, a0.z as int);
    let pan_t = spec_pan_translation(pan, k);
    let size = spec_size_at_anchor(frame.projection, frame.viewport, a0);
    let zb = spec_zoom_bounded(zoom, size, limits);
    let zoom_t = match frame.projection {
        ProjectionParams::Perspective { fov, .. } => spec_zoom_translation_perspective(
            a0,
            zoom,
            zb,
            size,
            limits,
            fov as int,
        ),
        ProjectionParams::Orthographic { .. } => spec_zoom_translation_ortho(a0, zb),
        ProjectionParams::Unsupported => FxVec3 { x: 0, y: 0, z: 0 },
    };
    let new_scale = match frame.projection {
        ProjectionParams::Orthographic { scale, .. } => Option::Some(
            spec_new_ortho_scale(scale as int, zb),
        ),
        _ => Option::None,
    };
    let advance = spec_through_advance(limits, size, frame.projection, zoom);
    let a1 = spec_final_anchor(a0, pan_t, zoom_t, advance);
    let translation = FxVec3 {
        x: (pan_t.x + zoom_t.x) as i64,
        y: (pan_t.y + zoom_t.y) as i64,
        z: (pan_t.z + zoom_t.z) as i64,
    };
    let rotation = spec_rotation(constraint, orbit, frame.forward_up_angle as int, frame.up_alignment_angle as int);
    (translation, rotation, new_scale, a1)
}

/// The clamped near plane for a remembered anchor depth.
pub open spec fn spec_near_plane(last_anchor_depth: int) -> int {
    let scaled = clamp_spec(tz_div(last_anchor_depth * -50_000_000, UNIT as int), ANCHOR_MAX as int);
    if scaled < 10_000 {
        10_000
    } else if scaled > 100_000_000 {
        100_000_000
    } else {
        scaled
    }
}

impl Default for EditorCam {
    /// A stationary, fully enabled controller with the default constraint,
    /// limits, smoothing, sensitivity and momentum, remembering an anchor two
    /// units ahead.
    fn default() -> (r: EditorCam)
        ensures
            r.wf(),
            r.enabled_motion == (EnabledMotion { pan: true, orbit: true, zoom: true }),
            r.orbit_constraint == (OrbitConstraint::Fixed {
                up: FxVec3 { x: 0, y: UNIT, z: 0 },
                can_pass_tdc: false,
            }),
            r.zoom_limits.min_size_per_pixel == 100,
            !r.zoom_limits.zoom_through_objects,
            r.smoothing == (Smoothness { pan: 16_000u64, orbit: 40_000u64, zoom: 80_000u64 }),
            r.sensitivity.orbit.x == UNIT && r.sensitivity.orbit.y == UNIT && r.sensitivity.zoom
                == UNIT,
            r.momentum.pan == 150 && r.momentum.orbit == 100,
            r.input_debounce == 80_000,
            r.last_anchor_depth == -2_000_000_000,
            r.current_motion is Stationary,
            r.enabled,
            r.clock_us == 0,
    {
        EditorCam {
            enabled_motion: EnabledMotion::default(),
            orbit_constraint: OrbitConstraint::default(),
            zoom_limits: ZoomLimits::default(),
            smoothing: Smoothness::default(),
            sensitivity: Sensitivity::default(),
            momentum: Momentum::default(),
            input_debounce: 80_000,
            last_anchor_depth: -2_000_000_000,
            current_motion: CurrentMotion::Stationary,
            enabled: true,
            clock_us: 0,
        }
    }
}

/// The norm of a well-formed anchor fits comfortably in an `i64`.
proof fn lemma_anchor_norm_bound(a: FxVec3, n: int)
    requires
        anchor_wf(a),
        crate::fx::is_sqrt_floor(a.len_sq_spec(), n),
    ensures
        0 <= n <= 1_800_000_000_000_000,
{
    crate::linear::lemma_sq_bound(a.x as int, ANCHOR_MAX as int);
    crate::linear::lemma_sq_bound(a.y as int, ANCHOR_MAX as int);
    crate::linear::lemma_sq_bound(a.z as int, ANCHOR_MAX as int);
    assert(1_000_000_000_000_000int * 1_000_000_000_000_000int
        == 1_000_000_000_000_000_000_000_000_000_000int) by (nonlinear_arith);
    if n > 1_800_000_000_000_000 {
        assert(1_800_000_000_000_000int * 1_800_000_000_000_000int
            == 3_240_000_000_000_000_000_000_000_000_000int) by (nonlinear_arith);
        assert(n * n > 3_240_000_000_000_000_000_000_000_000_000int) by {
            vstd::arithmetic::mul::lemma_mul_strict_inequality(1_800_000_000_000_000int, n, n);
            vstd::arithmetic::mul::lemma_mul_left_inequality(
                1_800_000_000_000_000int,
                1_800_000_000_000_000int,
                n,
            );
            vstd::arithmetic::mul::lemma_mul_is_commutative(n, 1_800_000_000_000_000int);
        }
        assert(false);
    }
}

/// The norm of a pair of bounded velocity channels fits comfortably in an
/// `i64`.
proof fn lemma_vel_norm_bound(x: int, y: int, n: int)
    requires
        -VEL_CAP <= x <= VEL_CAP,
        -VEL_CAP <= y <= VEL_CAP,
        crate::fx::is_sqrt_floor(x * x + y * y, n),
    ensures
        0 <= n <= 100_000_000_000_000_000,
{
    crate::linear::lemma_sq_bound(x, VEL_CAP as int);
    crate::linear::lemma_sq_bound(y, VEL_CAP as int);
    assert(50_000_000_000_000_000int * 50_000_000_000_000_000int
        == 2_500_000_000_000_000_000_000_000_000_000_000int) by (nonlinear_arith);
    if n > 100_000_000_000_000_000 {
        assert(100_000_000_000_000_000int * 100_000_000_000_000_000int
            == 10_000_000_000_000_000_000_000_000_000_000_000int) by (nonlinear_arith);
        assert(n * n > 10_000_000_000_000_000_000_000_000_000_000_000int) by {
            vstd::arithmetic::mul::lemma_mul_strict_inequality(100_000_000_000_000_000int, n, n);
            vstd::arithmetic::mul::lemma_mul_left_inequality(
                100_000_000_000_000_000int,
                100_000_000_000_000_000int,
                n,
            );
            vstd::arithmetic::mul::lemma_mul_is_commutative(n, 100_000_000_000_000_000int);
        }
        assert(false);
    }
}

/// Resolve one active frame from plain channel values: the translation, the
/// rotation directive, the projection adjustment and the anchor after the
/// frame.
fn resolve_active(
    a0: FxVec3,
    orbit: FxVec2,
    pan: FxVec2,
    zoom: i64,
    constraint: &OrbitConstraint,
    limits: &ZoomLimits,
    frame: &CameraFrame,
) -> (r: (FrameOutput, FxVec3))
    requires
        anchor_wf(a0),
        zoom_limits_wf(*limits),
        frame_wf(*frame),
        !(frame.projection is Unsupported),
        frame.projection is Perspective ==> viewport_ok(frame.viewport),
        -VEL_CAP <= orbit.x <= VEL_CAP,
        -VEL_CAP <= orbit.y <= VEL_CAP,
        -VEL_CAP <= pan.x <= VEL_CAP,
        -VEL_CAP <= pan.y <= VEL_CAP,
        -VEL_CAP <= zoom <= VEL_CAP,
    ensures
        r.0.needs_redraw,
        r.0.translation_view == spec_active(
            a0,
            orbit,
            pan,
            zoom as int,
            *constraint,
            *limits,
            *frame,
        ).0,
        r.0.rotation == spec_active(a0, orbit, pan, zoom as int, *constraint, *limits, *frame).1,
        (match spec_active(a0, orbit, pan, zoom as int, *constraint, *limits, *frame).2 {
            Option::Some(v) => r.0.new_ortho_scale == Some(v as i64),
            Option::None => r.0.new_ortho_scale is None,
        }),
        r.1 == spec_active(a0, orbit, pan, zoom as int, *constraint, *limits, *frame).3,
        r.0.anchor_view == Some(r.1),
        anchor_wf(r.1),
{
    // Per-pixel view offset at the anchor's depth.
    let k: i64 = match &frame.projection {
        ProjectionParams::Perspective { tan_half_fov, .. } => {
            let (_vw, vh): (u32, u32) = match frame.viewport {
                Some(d) => d,
                None => (0, 0),
            };
            mul_div_clamp(2 * *tan_half_fov, -a0.z, (vh as i64) * UNIT, PIXEL_SIZE_MAX)
        },
        ProjectionParams::Orthographic { scale, .. } => *scale,
        ProjectionParams::Unsupported => 0,
    };

    // Pan translation, within the view plane.
    let pan_t = FxVec3 {
        x: mul_div_clamp(pan.x, -k, UNIT, TRANS_MAX),
        y: mul_div_clamp(pan.y, k, UNIT, TRANS_MAX),
        z: 0,
    };

    // Zoom, bounded by the limits at the anchor's pixel size.
    let size: i64 = match length_per_pixel_at_view_space_pos(
        &frame.projection,
        frame.viewport,
        a0,
    ) {
        Some(s) => s,
        None => 0,
    };
    let zb: i64 = bounded_zoom(zoom, size, limits);

    let norm: u64 = a0.length();
    proof {
        lemma_anchor_norm_bound(a0, norm as int);
    }
    let (zoom_t, new_scale): (FxVec3, Option<i64>) = match &frame.projection {
        ProjectionParams::Perspective { fov, .. } => {
            let za: i64 = if limits.zoom_through_objects {
                let clamped_size: i64 = if size < limits.min_size_per_pixel {
                    limits.min_size_per_pixel
                } else if size > limits.max_size_per_pixel {
                    limits.max_size_per_pixel
                } else {
                    size
                };
                mul_div_clamp(zoom, clamped_size, UNIT, TRANS_MAX)
            } else {
                mul_div_clamp(zb, size, UNIT, TRANS_MAX)
            };
            let t = if norm == 0 {
                FxVec3 { x: 0, y: 0, z: 0 }
            } else {
                FxVec3 {
                    x: mul_div_clamp(mul_div_clamp(a0.x, za, norm as i64, TRANS_MAX), UNIT, *fov, TRANS_MAX),
                    y: mul_div_clamp(mul_div_clamp(a0.y, za, norm as i64, TRANS_MAX), UNIT, *fov, TRANS_MAX),
                    z: mul_div_clamp(mul_div_clamp(a0.z, za, norm as i64, TRANS_MAX), UNIT, *fov, TRANS_MAX),
                }
            };
            (t, None)
        },
        ProjectionParams::Orthographic { scale, .. } => {
            let t = if norm == 0 {
                FxVec3 { x: 0, y: 0, z: 0 }
            } else {
                let zabs: i64 = -a0.z;
                FxVec3 {
                    x: mul_div_clamp(
                        mul_div_clamp(
                            mul_div_clamp(a0.x, zb, norm as i64, TRANS_MAX),
                            zabs,
                            UNIT,
                            TRANS_MAX,
                        ),
                        1_500_000,
                        UNIT,
                        TRANS_MAX,
                    ),
                    y: mul_div_clamp(
                        mul_div_clamp(
                            mul_div_clamp(a0.y, zb, norm as i64, TRANS_MAX),
                            zabs,
                            UNIT,
                            TRANS_MAX,
                        ),
                        1_500_000,
                        UNIT,
                        TRANS_MAX,
                    ),
                    z: 0,
                }
            };
            let f: i64 = UNIT - mul_div_clamp(zb, 1_500_000, UNIT, 100_000_000_000_000);
            let ns: i64 = mul_div_clamp(*scale, f, UNIT, crate::projection::SIZE_MAX);
            (t, Some(ns))
        },
        ProjectionParams::Unsupported => (FxVec3 { x: 0, y: 0, z: 0 }, None),
    };

    // Zoom-through: keep advancing the anchor past the minimum.
    let advance: bool = limits.zoom_through_objects && size < limits.min_size_per_pixel && matches!(
        frame.projection,
        ProjectionParams::Perspective { .. },
    ) && zoom > 0;

    let ax: i64 = a0.x + (if advance { zoom_t.x } else { 0 }) - pan_t.x - zoom_t.x;
    let ay: i64 = a0.y + (if advance { zoom_t.y } else { 0 }) - pan_t.y - zoom_t.y;
    let az: i64 = a0.z + (if advance { zoom_t.z } else { 0 }) - pan_t.z - zoom_t.z;
    let a1 = clamp_anchor(ax, ay, az);

    // Rotation directive.
    let ox: i64 = -orbit.x;
    let oy: i64 = orbit.y;
    let rotation: RotationDirective = if ox == 0 && oy == 0 {
        RotationDirective::Hold
    } else {
        match constraint {
            OrbitConstraint::Free => {
                let d = FxVec2 { x: ox, y: oy };
                let len: u64 = d.length();
                proof {
                    lemma_vel_norm_bound(ox as int, oy as int, len as int);
                }
                if len == 0 {
                    RotationDirective::Hold
                } else {
                    RotationDirective::FreeAxis {
                        axis_view: FxVec3 {
                            x: -mul_div_clamp(oy, UNIT, len as i64, 2 * UNIT),
                            y: mul_div_clamp(ox, UNIT, len as i64, 2 * UNIT),
                            z: 0,
                        },
                        angle: mul_div_clamp(len as i64, ORBIT_MULTIPLIER, UNIT, ANGLE_CAP),
                    }
                }
            },
            OrbitConstraint::Fixed { can_pass_tdc, .. } => {
                yaw_pitch_directive(
                    ox,
                    oy,
                    frame.forward_up_angle,
                    frame.up_alignment_angle,
                    *can_pass_tdc,
                    false,
                )
            },
            OrbitConstraint::Dynamic { can_pass_tdc } => {
                yaw_pitch_directive(
                    ox,
                    oy,
                    frame.forward_up_angle,
                    frame.up_alignment_angle,
                    *can_pass_tdc,
                    true,
                )
            },
        }
    };

    let out = FrameOutput {
        needs_redraw: true,
        translation_view: FxVec3 {
            x: pan_t.x + zoom_t.x,
            y: pan_t.y + zoom_t.y,
            z: pan_t.z + zoom_t.z,
        },
        rotation,
        new_ortho_scale: new_scale,
        anchor_view: Some(a1),
    };
    (out, a1)
}

/// Clamp an anchor into bounds and in front of the camera.
fn clamp_anchor(x: i64, y: i64, z: i64) -> (r: FxVec3)
    ensures
        r == spec_clamped_anchor(x as int, y as int, z as int),
        anchor_wf(r),
{
    let cx: i64 = if x > ANCHOR_MAX {
        ANCHOR_MAX
    } else if x < -ANCHOR_MAX {
        -ANCHOR_MAX
    } else {
        x
    };
    let cy: i64 = if y > ANCHOR_MAX {
        ANCHOR_MAX
    } else if y < -ANCHOR_MAX {
        -ANCHOR_MAX
    } else {
        y
    };
    let cz0: i64 = if z > ANCHOR_MAX {
        ANCHOR_MAX
    } else if z < -ANCHOR_MAX {
        -ANCHOR_MAX
    } else {
        z
    };
    let cz: i64 = if cz0 > 0 {
        0
    } else {
        cz0
    };
    FxVec3 { x: cx, y: cy, z: cz }
}

/// The yaw/pitch directive of a constrained orbit.
fn yaw_pitch_directive(
    ox: i64,
    oy: i64,
    forward_up_angle: i64,
    up_alignment_angle: i64,
    can_pass_tdc: bool,
    dynamic: bool,
) -> (r: RotationDirective)
    requires
        0 <= forward_up_angle <= PI_NANO,
        i64::MIN < ox,
        i64::MIN < oy,
    ensures
        r == spec_yaw_pitch(
            ox as int,
            oy as int,
            forward_up_angle as int,
            up_alignment_angle as int,
            can_pass_tdc,
            dynamic,
        ),
{
    let desired: i64 = mul_div_clamp(oy, ORBIT_MULTIPLIER, UNIT, ANGLE_CAP);
    let pitch0: i64 = clamped_pitch(
        desired,
        PI_NANO - forward_up_angle,
        forward_up_angle,
        can_pass_tdc,
    );
    let pitch: i64 = if -MOTION_THRESHOLD <= pitch0 && pitch0 <= MOTION_THRESHOLD {
        0
    } else {
        pitch0
    };
    let yaw0: i64 = mul_div_clamp(ox, ORBIT_MULTIPLIER, UNIT, ANGLE_CAP);
    let yaw: i64 = if -MOTION_THRESHOLD <= yaw0 && yaw0 <= MOTION_THRESHOLD {
        0
    } else {
        yaw0
    };
    RotationDirective::YawPitch {
        yaw,
        pitch,
        roll: roll_correction(up_alignment_angle, dynamic),
    }
}

/// The anchor depth sign invariant: a well-formed controller — and every
/// constructor and method of [`EditorCam`] yields one — remembers an anchor
/// depth that is never positive. The anchor always sits in front of the
/// camera, along its negative view axis.
pub proof fn lemma_anchor_depth_sign(cam: EditorCam)
    requires
        cam.wf(),
    ensures
        cam.last_anchor_depth <= 0,
        match cam.current_motion {
            CurrentMotion::UserControlled { anchor, .. } => anchor.z <= 0,
            _ => true,
        },
{
}

/// Why this frame's motion cannot be resolved, if it cannot.
fn frame_error(frame: &CameraFrame) -> (r: Option<UpdateError>)
    ensures
        match spec_frame_err(*frame) {
            Option::Some(e) => r == Some(e),
            Option::None => r is None,
        },
{
    match &frame.projection {
        ProjectionParams::Unsupported => Some(UpdateError::UnsupportedProjection),
        ProjectionParams::Perspective { .. } => {
            match frame.viewport {
                Some((w, h)) => {
                    if w > 0 && h > 0 {
                        None
                    } else {
                        Some(UpdateError::MalformedCamera)
                    }
                },
                None => Some(UpdateError::MalformedCamera),
            }
        },
        ProjectionParams::Orthographic { .. } => None,
    }
}

impl EditorCam {
    /// Resolve one frame of camera motion: decay any momentum over the
    /// elapsed time, bring the camera to rest when it dies out, and otherwise
    /// turn the resolved orbit, pan and zoom channels into a translation,
    /// rotation directives and projection adjustments, moving the anchor
    /// along and remembering its depth.
    ///
    /// Fails with [`UpdateError::UnsupportedProjection`] when the projection
    /// is a kind the motion math does not model, and with
    /// [`UpdateError::MalformedCamera`] when a perspective camera has no
    /// usable viewport — in both cases only while there is motion to resolve,
    /// and the frame is skipped with the motion state kept.
    #[verifier::rlimit(100)]
    pub fn update_transform_and_projection(&mut self, frame: &CameraFrame, dt_us: u64) -> (r:
        Result<FrameOutput, UpdateError>)
        requires
            old(self).wf(),
            frame_wf(*frame),
            dt_us <= TIME_MAX,
        ensures
            final(self).wf(),
            final(self).clock_us == spec_clock_next(old(self).clock_us as int, dt_us as int),
            *final(self) == (EditorCam {
                current_motion: final(self).current_motion,
                last_anchor_depth: final(self).last_anchor_depth,
                clock_us: final(self).clock_us,
                ..*old(self)
            }),
            final(self).last_anchor_depth <= 0,
            !old(self).enabled ==> r == Ok::<FrameOutput, UpdateError>(spec_hold_output())
                && final(self).current_motion == old(self).current_motion && final(self).last_anchor_depth == old(self).last_anchor_depth,
            old(self).enabled && old(self).current_motion is Stationary ==> r == Ok::<
                FrameOutput,
                UpdateError,
            >(spec_hold_output()) && final(self).current_motion is Stationary && final(self).last_anchor_depth == old(self).last_anchor_depth,
            old(self).enabled && old(self).current_motion is Momentum ==> {
                let m1 = spec_momentum_phase(old(self).current_motion, dt_us as int);
                if m1 is Stationary {
                    r == Ok::<FrameOutput, UpdateError>(spec_hold_output()) && final(self).current_motion is Stationary && final(self).last_anchor_depth == old(self).last_anchor_depth
                } else {
                    match spec_frame_err(*frame) {
                        Option::Some(e) => r == Err::<FrameOutput, UpdateError>(e) && final(self).current_motion == m1 && final(self).last_anchor_depth == old(self).last_anchor_depth,
                        Option::None => match m1 {
                            CurrentMotion::Momentum {
                                velocity: v1,
                                elapsed_us: e1,
                                orbit_factor: go,
                                pan_factor: gp,
                            } => match v1 {
                                Velocity::Orbit { anchor: a0, velocity: vel } => {
                                    let act = spec_active(
                                        a0,
                                        vel,
                                        FxVec2 { x: 0, y: 0 },
                                        0,
                                        old(self).orbit_constraint,
                                        old(self).zoom_limits,
                                        *frame,
                                    );
                                    &&& r is Ok
                                    &&& r->Ok_0.needs_redraw
                                    &&& r->Ok_0.translation_view == act.0
                                    &&& r->Ok_0.rotation == act.1
                                    &&& match act.2 {
                                        Option::Some(v) => r->Ok_0.new_ortho_scale == Some(
                                            v as i64,
                                        ),
                                        Option::None => r->Ok_0.new_ortho_scale is None,
                                    }
                                    &&& r->Ok_0.anchor_view == Some(act.3)
                                    &&& final(self).current_motion == (CurrentMotion::Momentum {
                                        velocity: Velocity::Orbit { anchor: act.3, velocity: vel },
                                        elapsed_us: e1,
                                        orbit_factor: go,
                                        pan_factor: gp,
                                    })
                                    &&& final(self).last_anchor_depth == act.3.z
                                },
                                Velocity::Pan { anchor: a0, velocity: vel } => {
                                    let act = spec_active(
                                        a0,
                                        FxVec2 { x: 0, y: 0 },
                                        vel,
                                        0,
                                        old(self).orbit_constraint,
                                        old(self).zoom_limits,
                                        *frame,
                                    );
                                    &&& r is Ok
                                    &&& r->Ok_0.needs_redraw
                                    &&& r->Ok_0.translation_view == act.0
                                    &&& r->Ok_0.rotation == act.1
                                    &&& match act.2 {
                                        Option::Some(v) => r->Ok_0.new_ortho_scale == Some(
                                            v as i64,
                                        ),
                                        Option::None => r->Ok_0.new_ortho_scale is None,
                                    }
                                    &&& r->Ok_0.anchor_view == Some(act.3)
                                    &&& final(self).current_motion == (CurrentMotion::Momentum {
                                        velocity: Velocity::Pan { anchor: act.3, velocity: vel },
                                        elapsed_us: e1,
                                        orbit_factor: go,
                                        pan_factor: gp,
                                    })
                                    &&& final(self).last_anchor_depth == act.3.z
                                },
                                Velocity::Idle => false,
                            },
                            _ => false,
                        },
                    }
                }
            },
            old(self).enabled && old(self).current_motion is UserControlled ==> {
                match old(self).current_motion {
                    CurrentMotion::UserControlled { anchor: a0, motion_inputs: m0 } => {
                        match spec_frame_err(*frame) {
                            Option::Some(e) => r == Err::<FrameOutput, UpdateError>(e) && final(self).current_motion == old(self).current_motion && final(self).last_anchor_depth == old(self).last_anchor_depth,
                            Option::None => {
                                let orbitv = FxVec2 {
                                    x: spec_scaled(
                                        spec_smooth_orbit(m0).x as int,
                                        old(self).sensitivity.orbit.x as int,
                                    ) as i64,
                                    y: spec_scaled(
                                        spec_smooth_orbit(m0).y as int,
                                        old(self).sensitivity.orbit.y as int,
                                    ) as i64,
                                };
                                let panv = spec_smooth_pan(m0);
                                let zoomv = spec_scaled(
                                    spec_smooth_zoom(m0),
                                    old(self).sensitivity.zoom as int,
                                );
                                let act = spec_active(
                                    a0,
                                    orbitv,
                                    panv,
                                    zoomv,
                                    old(self).orbit_constraint,
                                    old(self).zoom_limits,
                                    *frame,
                                );
                                &&& r is Ok
                                &&& r->Ok_0.needs_redraw
                                &&& r->Ok_0.translation_view == act.0
                                &&& r->Ok_0.rotation == act.1
                                &&& match act.2 {
                                    Option::Some(v) => r->Ok_0.new_ortho_scale == Some(v as i64),
                                    Option::None => r->Ok_0.new_ortho_scale is None,
                                }
                                &&& r->Ok_0.anchor_view == Some(act.3)
                                &&& final(self).current_motion == (CurrentMotion::UserControlled {
                                    anchor: act.3,
                                    motion_inputs: m0,
                                })
                                &&& final(self).last_anchor_depth == act.3.z
                            },
                        }
                    },
                    _ => false,
                }
            },
    {
        let c0: i64 = self.clock_us;
        let dt_i: i64 = dt_us as i64;
        self.clock_us = if c0 + dt_i > TIME_MAX {
            TIME_MAX
        } else {
            c0 + dt_i
        };
        if !self.enabled {
            return Ok(FrameOutput::hold());
        }
        let mut motion = CurrentMotion::Stationary;
        core::mem::swap(&mut motion, &mut self.current_motion);
        match motion {
            CurrentMotion::Stationary => Ok(FrameOutput::hold()),
            CurrentMotion::Momentum { velocity, elapsed_us, orbit_factor, pan_factor } => {
                let e1: u64 = if elapsed_us + dt_us > TIME_MAX as u64 {
                    TIME_MAX as u64
                } else {
                    elapsed_us + dt_us
                };
                let steps: u64 = e1 / 1000 - elapsed_us / 1000;
                let mut v = velocity;
                v.decay(orbit_factor, pan_factor, steps);
                proof {
                    assert(v == spec_decayed_velocity(
                        velocity,
                        orbit_factor as int,
                        pan_factor as int,
                        steps as nat,
                    ));
                    match velocity {
                        Velocity::Orbit { velocity: v0, .. } => {
                            crate::momentum::lemma_decay_steps_bounds(
                                v0.x as int,
                                orbit_factor as int,
                                steps as nat,
                            );
                            crate::momentum::lemma_decay_steps_bounds(
                                v0.y as int,
                                orbit_factor as int,
                                steps as nat,
                            );
                        },
                        Velocity::Pan { velocity: v0, .. } => {
                            crate::momentum::lemma_decay_steps_bounds(
                                v0.x as int,
                                pan_factor as int,
                                steps as nat,
                            );
                            crate::momentum::lemma_decay_steps_bounds(
                                v0.y as int,
                                pan_factor as int,
                                steps as nat,
                            );
                        },
                        Velocity::Idle => {},
                    }
                }
                match v {
                    Velocity::Idle => {
                        self.current_motion = CurrentMotion::Stationary;
                        Ok(FrameOutput::hold())
                    },
                    Velocity::Orbit { anchor, velocity: vel } => {
                        match frame_error(frame) {
                            Some(e) => {
                                self.current_motion = CurrentMotion::Momentum {
                                    velocity: Velocity::Orbit { anchor, velocity: vel },
                                    elapsed_us: e1,
                                    orbit_factor,
                                    pan_factor,
                                };
                                Err(e)
                            },
                            None => {
                                let (out, a1) = resolve_active(
                                    anchor,
                                    vel,
                                    FxVec2 { x: 0, y: 0 },
                                    0,
                                    &self.orbit_constraint,
                                    &self.zoom_limits,
                                    frame,
                                );
                                self.current_motion = CurrentMotion::Momentum {
                                    velocity: Velocity::Orbit { anchor: a1, velocity: vel },
                                    elapsed_us: e1,
                                    orbit_factor,
                                    pan_factor,
                                };
                                self.last_anchor_depth = a1.z;
                                Ok(out)
                            },
                        }
                    },
                    Velocity::Pan { anchor, velocity: vel } => {
                        match frame_error(frame) {
                            Some(e) => {
                                self.current_motion = CurrentMotion::Momentum {
                                    velocity: Velocity::Pan { anchor, velocity: vel },
                                    elapsed_us: e1,
                                    orbit_factor,
                                    pan_factor,
                                };
                                Err(e)
                            },
                            None => {
                                let (out, a1) = resolve_active(
                                    anchor,
                                    FxVec2 { x: 0, y: 0 },
                                    vel,
                                    0,
                                    &self.orbit_constraint,
                                    &self.zoom_limits,
                                    frame,
                                );
                                self.current_motion = CurrentMotion::Momentum {
                                    velocity: Velocity::Pan { anchor: a1, velocity: vel },
                                    elapsed_us: e1,
                                    orbit_factor,
                                    pan_factor,
                                };
                                self.last_anchor_depth = a1.z;
                                Ok(out)
                            },
                        }
                    },
                }
            },
            CurrentMotion::UserControlled { anchor, motion_inputs } => {
                match frame_error(frame) {
                    Some(e) => {
                        self.current_motion = CurrentMotion::UserControlled {
                            anchor,
                            motion_inputs,
                        };
                        Err(e)
                    },
                    None => {
                        let sm_orbit: FxVec2 = motion_inputs.smooth_orbit_velocity();
                        let sm_pan: FxVec2 = motion_inputs.smooth_pan_velocity();
                        let sm_zoom: i64 = motion_inputs.smooth_zoom_velocity();
                        proof {
                            match &motion_inputs {
                                MotionInputs::OrbitZoom { screenspace_inputs, zoom_inputs } => {
                                    if screenspace_inputs.entries@.len() > 0 {
                                        assert(crate::smoothing::entry_wf(
                                            screenspace_inputs.entries@[0],
                                        ));
                                    }
                                    if zoom_inputs.entries@.len() > 0 {
                                        assert(crate::smoothing::entry_wf(zoom_inputs.entries@[0]));
                                    }
                                },
                                MotionInputs::PanZoom { screenspace_inputs, zoom_inputs } => {
                                    if screenspace_inputs.entries@.len() > 0 {
                                        assert(crate::smoothing::entry_wf(
                                            screenspace_inputs.entries@[0],
                                        ));
                                    }
                                    if zoom_inputs.entries@.len() > 0 {
                                        assert(crate::smoothing::entry_wf(zoom_inputs.entries@[0]));
                                    }
                                },
                                MotionInputs::Zoom { zoom_inputs } => {
                                    if zoom_inputs.entries@.len() > 0 {
                                        assert(crate::smoothing::entry_wf(zoom_inputs.entries@[0]));
                                    }
                                },
                            }
                        }
                        let orbitv = FxVec2 {
                            x: mul_div_clamp(sm_orbit.x, self.sensitivity.orbit.x, UNIT, VEL_CAP),
                            y: mul_div_clamp(sm_orbit.y, self.sensitivity.orbit.y, UNIT, VEL_CAP),
                        };
                        let zoomv: i64 = mul_div_clamp(sm_zoom, self.sensitivity.zoom, UNIT, VEL_CAP);
                        let (out, a1) = resolve_active(
                            anchor,
                            orbitv,
                            sm_pan,
                            zoomv,
                            &self.orbit_constraint,
                            &self.zoom_limits,
                            frame,
                        );
                        self.current_motion = CurrentMotion::UserControlled {
                            anchor: a1,
                            motion_inputs,
                        };
                        self.last_anchor_depth = a1.z;
                        Ok(out)
                    },
                }
            },
        }
    }
}

/// The zoom-limit guard in full: with zoom-through off and the anchor already
/// at (or past) the minimum pixel size, a zoom-in input produces no zoom
/// translation at all — the camera cannot move any closer, so the pixel size
/// at the anchor never drops below the configured minimum by zooming.
pub proof fn lemma_zoom_in_blocked_is_no_motion(
    a0: FxVec3,
    zoom: int,
    size: int,
    limits: ZoomLimits,
    fov: int,
)
    requires
        !limits.zoom_through_objects,
        size <= limits.min_size_per_pixel,
        zoom > 0,
        fov >= 1,
    ensures
        spec_zoom_translation_perspective(
            a0,
            zoom,
            spec_zoom_bounded(zoom, size, limits),
            size,
            limits,
            fov,
        ) == (FxVec3 { x: 0, y: 0, z: 0 }),
        spec_zoom_translation_ortho(a0, spec_zoom_bounded(zoom, size, limits)) == (FxVec3 {
            x: 0,
            y: 0,
            z: 0,
        }),
{
    let zb = spec_zoom_bounded(zoom, size, limits);
    assert(zb == 0);
    vstd::arithmetic::mul::lemma_mul_by_zero_is_zero(size);
    assert(tz_div(0, UNIT as int) == 0) by {
        vstd::arithmetic::div_mod::lemma_div_of0(UNIT as int);
    }
    let norm = sqrt_floor(a0.len_sq_spec());
    if norm != 0 {
        vstd::arithmetic::mul::lemma_mul_by_zero_is_zero(a0.x as int);
        vstd::arithmetic::mul::lemma_mul_by_zero_is_zero(a0.y as int);
        vstd::arithmetic::mul::lemma_mul_by_zero_is_zero(a0.z as int);
        assert(tz_div(0, norm) == 0) by {
            if norm >= 1 {
                vstd::arithmetic::div_mod::lemma_div_of0(norm);
            }
        }
        vstd::arithmetic::mul::lemma_mul_by_zero_is_zero(UNIT as int);
        vstd::arithmetic::mul::lemma_mul_by_zero_is_zero(-(a0.z as int));
        vstd::arithmetic::mul::lemma_mul_by_zero_is_zero(1_500_000int);
        assert(tz_div(0, fov) == 0) by {
            vstd::arithmetic::div_mod::lemma_div_of0(fov);
        }
    }
}

/// Pan tracking is exact in view space: whenever the products divide evenly
/// and stay in range, the pan translation times the fixed-point unit is
/// exactly the screen delta times the per-pixel view offset, with no
/// truncation loss.
pub proof fn lemma_pan_translation_exact(pan: FxVec2, k: int)
    requires
        (pan.x as int) * (-k) % (UNIT as int) == 0,
        (pan.y as int) * k % (UNIT as int) == 0,
        -(TRANS_MAX as int) * (UNIT as int) <= (pan.x as int) * (-k) <= (TRANS_MAX as int) * (
        UNIT as int),
        -(TRANS_MAX as int) * (UNIT as int) <= (pan.y as int) * k <= (TRANS_MAX as int) * (
        UNIT as int),
    ensures
        (spec_pan_translation(pan, k).x as int) * (UNIT as int) == (pan.x as int) * (-k),
        (spec_pan_translation(pan, k).y as int) * (UNIT as int) == (pan.y as int) * k,
        spec_pan_translation(pan, k).z == 0,
{
    lemma_tz_div_exact_in_range((pan.x as int) * (-k));
    lemma_tz_div_exact_in_range((pan.y as int) * k);
}

/// A multiple of the unit divides back exactly and stays within the clamp.
proof fn lemma_tz_div_exact_in_range(a: int)
    requires
        a % (UNIT as int) == 0,
        -(TRANS_MAX as int) * (UNIT as int) <= a <= (TRANS_MAX as int) * (UNIT as int),
    ensures
        clamp_spec(tz_div(a, UNIT as int), TRANS_MAX as int) * (UNIT as int) == a,
{
    let u = UNIT as int;
    let t = TRANS_MAX as int;
    assert(t * u == 1_000_000_000_000_000_000_000_000int) by (nonlinear_arith)
        requires
            t == 1_000_000_000_000_000int,
            u == 1_000_000_000int,
    ;
    if a >= 0 {
        vstd::arithmetic::div_mod::lemma_fundamental_div_mod(a, u);
        assert(tz_div(a, u) * u == a) by {
            vstd::arithmetic::mul::lemma_mul_is_commutative(u, a / u);
        }
        assert(a / u <= t) by {
            vstd::arithmetic::div_mod::lemma_div_is_ordered(a, t * u, u);
            vstd::arithmetic::div_mod::lemma_div_multiples_vanish(t, u);
            vstd::arithmetic::mul::lemma_mul_is_commutative(t, u);
        }
        vstd::arithmetic::div_mod::lemma_div_pos_is_pos(a, u);
    } else {
        vstd::arithmetic::div_mod::lemma_fundamental_div_mod(a, u);
        assert(a == u * (a / u));
        assert(-a == u * (-(a / u))) by {
            vstd::arithmetic::mul::lemma_mul_unary_negation(u, a / u);
        }
        assert((-a) / u == -(a / u)) by {
            vstd::arithmetic::div_mod::lemma_div_multiples_vanish(-(a / u), u);
        }
        assert(tz_div(a, u) == a / u);
        assert((a / u) * u == a) by {
            vstd::arithmetic::mul::lemma_mul_is_commutative(u, a / u);
        }
        assert((-a) / u <= t) by {
            vstd::arithmetic::div_mod::lemma_div_is_ordered(-a, t * u, u);
            vstd::arithmetic::div_mod::lemma_div_multiples_vanish(t, u);
            vstd::arithmetic::mul::lemma_mul_is_commutative(t, u);
        }
        vstd::arithmetic::div_mod::lemma_div_pos_is_pos(-a, u);
    }
}

} // verus!
