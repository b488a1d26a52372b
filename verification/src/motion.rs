//! The camera's motion state: stationary, decaying momentum, or live input.

use vstd::prelude::*;

verus! {

use crate::linear::{FxVec2, FxVec3};
use crate::momentum::{velocity_wf, Velocity};
use crate::fx::tz_div;
use crate::smoothing::{
    avg_div,
    count_recent,
    queue_wf,
    sum_recent_sample_abs_x,
    sum_recent_smoothed_x,
    sum_recent_smoothed_y,
    InputQueue,
    TIME_MAX,
};

/// Largest magnitude an anchor coordinate may have (a million world units).
pub open const ANCHOR_MAX: i64 = 1_000_000_000_000_000;

/// The kind of motion a set of inputs drives.
#[derive(Clone, Copy, Debug, PartialEq, Eq, Structural)]
pub enum MotionKind {
    /// The camera can orbit and zoom.
    OrbitZoom,
    /// The camera can pan and zoom.
    PanZoom,
    /// The camera can only zoom.
    Zoom,
}

/// The input queues of an active motion. Pan and orbit are mutually
/// exclusive; zoom composes with either, or stands alone.
#[derive(Clone, Debug)]
pub enum MotionInputs {
    /// The camera can orbit and zoom.
    OrbitZoom {
        /// Screen-space orbiting inputs, usually the pointer drag vector.
        screenspace_inputs: InputQueue,
        /// Scalar zoom inputs, held in the `x` component.
        zoom_inputs: InputQueue,
    },
    /// The camera can pan and zoom.
    PanZoom {
        /// Screen-space panning inputs, usually the pointer drag vector.
        screenspace_inputs: InputQueue,
        /// Scalar zoom inputs, held in the `x` component.
        zoom_inputs: InputQueue,
    },
    /// The camera can only zoom.
    Zoom {
        /// Scalar zoom inputs, held in the `x` component.
        zoom_inputs: InputQueue,
    },
}

/// Well-formedness of the queues of a motion.
pub open spec fn inputs_wf(m: MotionInputs) -> bool {
    match m {
        MotionInputs::OrbitZoom { screenspace_inputs, zoom_inputs } => queue_wf(
            screenspace_inputs.entries@,
        ) && queue_wf(zoom_inputs.entries@),
        MotionInputs::PanZoom { screenspace_inputs, zoom_inputs } => queue_wf(
            screenspace_inputs.entries@,
        ) && queue_wf(zoom_inputs.entries@),
        MotionInputs::Zoom { zoom_inputs } => queue_wf(zoom_inputs.entries@),
    }
}

impl MotionInputs {
    /// The kind of motion these inputs drive.
    pub fn kind(&self) -> (r: MotionKind)
        ensures
            r == (match self {
                MotionInputs::OrbitZoom { .. } => MotionKind::OrbitZoom,
                MotionInputs::PanZoom { .. } => MotionKind::PanZoom,
                MotionInputs::Zoom { .. } => MotionKind::Zoom,
            }),
    {
        match self {
            MotionInputs::OrbitZoom { .. } => MotionKind::OrbitZoom,
            MotionInputs::PanZoom { .. } => MotionKind::PanZoom,
            MotionInputs::Zoom { .. } => MotionKind::Zoom,
        }
    }

    /// The latest smoothed orbit velocity, zero unless orbiting.
    pub fn smooth_orbit_velocity(&self) -> (r: FxVec2)
        ensures
            r == (match self {
                MotionInputs::OrbitZoom { screenspace_inputs, .. } => {
                    if screenspace_inputs.entries@.len() > 0 {
                        screenspace_inputs.entries@[0].smoothed_value
                    } else {
                        (FxVec2 { x: 0, y: 0 })
                    }
                },
                _ => (FxVec2 { x: 0, y: 0 }),
            }),
    {
        if let MotionInputs::OrbitZoom { screenspace_inputs, .. } = self {
            match screenspace_inputs.latest_smoothed() {
                Some(v) => v,
                None => FxVec2::zero(),
            }
        } else {
            FxVec2::zero()
        }
    }

    /// The latest smoothed pan velocity, zero unless panning.
    pub fn smooth_pan_velocity(&self) -> (r: FxVec2)
        ensures
            r == (match self {
                MotionInputs::PanZoom { screenspace_inputs, .. } => {
                    if screenspace_inputs.entries@.len() > 0 {
                        screenspace_inputs.entries@[0].smoothed_value
                    } else {
                        (FxVec2 { x: 0, y: 0 })
                    }
                },
                _ => (FxVec2 { x: 0, y: 0 }),
            }),
    {
        if let MotionInputs::PanZoom { screenspace_inputs, .. } = self {
            match screenspace_inputs.latest_smoothed() {
                Some(v) => v,
                None => FxVec2::zero(),
            }
        } else {
            FxVec2::zero()
        }
    }

    /// The latest smoothed zoom velocity (scalar), zero when none.
    pub fn smooth_zoom_velocity(&self) -> (r: i64)
        ensures
            r == (if self.zoom_queue_spec().entries@.len() > 0 {
                self.zoom_queue_spec().entries@[0].smoothed_value.x as int
            } else {
                0int
            }),
    {
        let q = self.zoom_inputs();
        match q.latest_smoothed() {
            Some(v) => v.x,
            None => 0,
        }
    }

    /// The zoom queue, whichever variant is active, at the spec level.
    pub open spec fn zoom_queue_spec(&self) -> InputQueue {
        match self {
            MotionInputs::OrbitZoom { zoom_inputs, .. } => *zoom_inputs,
            MotionInputs::PanZoom { zoom_inputs, .. } => *zoom_inputs,
            MotionInputs::Zoom { zoom_inputs } => *zoom_inputs,
        }
    }

    /// The zoom queue, whichever variant is active.
    pub fn zoom_inputs(&self) -> (r: &InputQueue)
        ensures
            *r == self.zoom_queue_spec(),
    {
        match self {
            MotionInputs::OrbitZoom { zoom_inputs, .. } => zoom_inputs,
            MotionInputs::PanZoom { zoom_inputs, .. } => zoom_inputs,
            MotionInputs::Zoom { zoom_inputs } => zoom_inputs,
        }
    }

    /// Momentum seed velocity for a released orbit: the time-windowed average
    /// of the smoothed orbit inputs (not just the latest sample), which
    /// captures a deliberate flick. Zero unless orbiting.
    pub fn orbit_momentum(&self, window_us: u64, now_us: i64) -> (r: FxVec2)
        requires
            inputs_wf(*self),
            -TIME_MAX <= now_us <= TIME_MAX,
            window_us <= TIME_MAX,
        ensures
            r == (match self {
                MotionInputs::OrbitZoom { screenspace_inputs, .. } => (FxVec2 {
                    x: tz_div(
                        sum_recent_smoothed_x(
                            screenspace_inputs.entries@,
                            now_us as int,
                            window_us as int,
                        ),
                        avg_div(
                            count_recent(
                                screenspace_inputs.entries@,
                                now_us as int,
                                window_us as int,
                            ),
                        ),
                    ) as i64,
                    y: tz_div(
                        sum_recent_smoothed_y(
                            screenspace_inputs.entries@,
                            now_us as int,
                            window_us as int,
                        ),
                        avg_div(
                            count_recent(
                                screenspace_inputs.entries@,
                                now_us as int,
                                window_us as int,
                            ),
                        ),
                    ) as i64,
                }),
                _ => (FxVec2 { x: 0, y: 0 }),
            }),
    {
        if let MotionInputs::OrbitZoom { screenspace_inputs, .. } = self {
            screenspace_inputs.average_smoothed_value(window_us, now_us)
        } else {
            FxVec2::zero()
        }
    }

    /// Momentum seed velocity for a released pan; zero unless panning.
    pub fn pan_momentum(&self, window_us: u64, now_us: i64) -> (r: FxVec2)
        requires
            inputs_wf(*self),
            -TIME_MAX <= now_us <= TIME_MAX,
            window_us <= TIME_MAX,
        ensures
            r == (match self {
                MotionInputs::PanZoom { screenspace_inputs, .. } => (FxVec2 {
                    x: tz_div(
                        sum_recent_smoothed_x(
                            screenspace_inputs.entries@,
                            now_us as int,
                            window_us as int,
                        ),
                        avg_div(
                            count_recent(
                                screenspace_inputs.entries@,
                                now_us as int,
                                window_us as int,
                            ),
                        ),
                    ) as i64,
                    y: tz_div(
                        sum_recent_smoothed_y(
                            screenspace_inputs.entries@,
                            now_us as int,
                            window_us as int,
                        ),
                        avg_div(
                            count_recent(
                                screenspace_inputs.entries@,
                                now_us as int,
                                window_us as int,
                            ),
                        ),
                    ) as i64,
                }),
                _ => (FxVec2 { x: 0, y: 0 }),
            }),
    {
        if let MotionInputs::PanZoom { screenspace_inputs, .. } = self {
            screenspace_inputs.average_smoothed_value(window_us, now_us)
        } else {
            FxVec2::zero()
        }
    }

    /// Average magnitude of the recent raw zoom inputs: how hard the user is
    /// still zooming, used to decide when a zoom-only motion has gone idle.
    pub fn zoom_velocity_abs(&self, window_us: u64, now_us: i64) -> (r: i64)
        requires
            inputs_wf(*self),
            -TIME_MAX <= now_us <= TIME_MAX,
            window_us <= TIME_MAX,
        ensures
            r == tz_div(
                sum_recent_sample_abs_x(
                    self.zoom_queue_spec().entries@,
                    now_us as int,
                    window_us as int,
                ),
                avg_div(
                    count_recent(
                        self.zoom_queue_spec().entries@,
                        now_us as int,
                        window_us as int,
                    ),
                ),
            ),
            r >= 0,
    {
        self.zoom_inputs().approx_smoothed_abs_x(window_us, now_us)
    }
}

/// The latest smoothed orbit velocity of a set of inputs, zero unless
/// orbiting.
pub open spec fn spec_smooth_orbit(m: MotionInputs) -> FxVec2 {
    match m {
        MotionInputs::OrbitZoom { screenspace_inputs, .. } => {
            if screenspace_inputs.entries@.len() > 0 {
                screenspace_inputs.entries@[0].smoothed_value
            } else {
                FxVec2 { x: 0, y: 0 }
            }
        },
        _ => FxVec2 { x: 0, y: 0 },
    }
}

/// The latest smoothed pan velocity of a set of inputs, zero unless panning.
pub open spec fn spec_smooth_pan(m: MotionInputs) -> FxVec2 {
    match m {
        MotionInputs::PanZoom { screenspace_inputs, .. } => {
            if screenspace_inputs.entries@.len() > 0 {
                screenspace_inputs.entries@[0].smoothed_value
            } else {
                FxVec2 { x: 0, y: 0 }
            }
        },
        _ => FxVec2 { x: 0, y: 0 },
    }
}

/// The latest smoothed zoom velocity of a set of inputs.
pub open spec fn spec_smooth_zoom(m: MotionInputs) -> int {
    if m.zoom_queue_spec().entries@.len() > 0 {
        m.zoom_queue_spec().entries@[0].smoothed_value.x as int
    } else {
        0
    }
}

/// What the camera is currently doing.
#[derive(Clone, Debug)]
pub enum CurrentMotion {
    /// No motion and no momentum.
    Stationary,
    /// No live input; the camera still glides on a decaying velocity.
    Momentum {
        /// The decaying residual velocity.
        velocity: Velocity,
        /// Microseconds since the momentum began.
        elapsed_us: u64,
        /// Per-millisecond decay factor for orbit momentum, frozen at release.
        orbit_factor: u64,
        /// Per-millisecond decay factor for pan momentum, frozen at release.
        pan_factor: u64,
    },
    /// Actively driven by input.
    UserControlled {
        /// The view-space point the motion is anchored to.
        anchor: FxVec3,
        /// The live input queues.
        motion_inputs: MotionInputs,
    },
}

/// Well-formedness of the motion state: bounded anchors, an anchor never
/// behind the camera, well-formed queues and velocities.
pub open spec fn motion_wf(m: CurrentMotion) -> bool {
    match m {
        CurrentMotion::Stationary => true,
        CurrentMotion::Momentum { velocity, elapsed_us, orbit_factor, pan_factor } => {
            &&& velocity_wf(velocity)
            &&& anchor_of_velocity_wf(velocity)
            &&& velocity_within(velocity, crate::smoothing::SMOOTH_MAX as int)
            &&& elapsed_us <= TIME_MAX
            &&& orbit_factor < crate::momentum::DECAY_ONE
            &&& pan_factor < crate::momentum::DECAY_ONE
        },
        CurrentMotion::UserControlled { anchor, motion_inputs } => inputs_wf(motion_inputs)
            && anchor_wf(anchor),
    }
}

/// A bounded view-space anchor in front of the camera.
pub open spec fn anchor_wf(a: FxVec3) -> bool {
    &&& -ANCHOR_MAX <= a.x <= ANCHOR_MAX
    &&& -ANCHOR_MAX <= a.y <= ANCHOR_MAX
    &&& -ANCHOR_MAX <= a.z <= 0
}

/// The velocity components, if any, are within the given magnitude.
pub open spec fn velocity_within(v: Velocity, m: int) -> bool {
    match v {
        Velocity::Idle => true,
        Velocity::Orbit { velocity, .. } => -m <= velocity.x <= m && -m <= velocity.y <= m,
        Velocity::Pan { velocity, .. } => -m <= velocity.x <= m && -m <= velocity.y <= m,
    }
}

/// The anchor a velocity carries, if any, is well formed.
pub open spec fn anchor_of_velocity_wf(v: Velocity) -> bool {
    match v {
        Velocity::Idle => true,
        Velocity::Orbit { anchor, .. } => anchor_wf(anchor),
        Velocity::Pan { anchor, .. } => anchor_wf(anchor),
    }
}

impl Default for CurrentMotion {
    /// A camera starts stationary.
    fn default() -> (r: CurrentMotion)
        ensures
            r is Stationary,
    {
        CurrentMotion::Stationary
    }
}

impl CurrentMotion {
    /// Is the camera moving at all, by input or by momentum?
    pub fn is_moving(&self) -> (r: bool)
        ensures
            r == !(self is Stationary),
    {
        !matches!(self, CurrentMotion::Stationary)
    }

    /// The live motion inputs, if the camera is user controlled.
    pub fn inputs(&self) -> (r: Option<&MotionInputs>)
        ensures
            match self {
                CurrentMotion::UserControlled { motion_inputs, .. } => r is Some && *r->Some_0
                    == *motion_inputs,
                _ => r is None,
            },
    {
        match self {
            CurrentMotion::UserControlled { motion_inputs, .. } => Some(motion_inputs),
            _ => None,
        }
    }

    /// Is the camera user controlled right now?
    pub fn is_user_controlled(&self) -> (r: bool)
        ensures
            r == self is UserControlled,
    {
        matches!(self, CurrentMotion::UserControlled { .. })
    }

    /// Is the camera in a user-controlled orbit?
    pub fn is_orbiting(&self) -> (r: bool)
        ensures
            r == (match self {
                CurrentMotion::UserControlled { motion_inputs, .. } => motion_inputs
                    is OrbitZoom,
                _ => false,
            }),
    {
        match self {
            CurrentMotion::UserControlled {
                motion_inputs: MotionInputs::OrbitZoom { .. },
                ..
            } => true,
            _ => false,
        }
    }

    /// Is the camera in a user-controlled pan?
    pub fn is_panning(&self) -> (r: bool)
        ensures
            r == (match self {
                CurrentMotion::UserControlled { motion_inputs, .. } => motion_inputs is PanZoom,
                _ => false,
            }),
    {
        match self {
            CurrentMotion::UserControlled {
                motion_inputs: MotionInputs::PanZoom { .. },
                ..
            } => true,
            _ => false,
        }
    }

    /// Is the camera in a user-controlled zoom with nothing else?
    pub fn is_zooming_only(&self) -> (r: bool)
        ensures
            r == (match self {
                CurrentMotion::UserControlled { motion_inputs, .. } => motion_inputs is Zoom,
                _ => false,
            }),
    {
        match self {
            CurrentMotion::UserControlled { motion_inputs: MotionInputs::Zoom { .. }, .. } => true,
            _ => false,
        }
    }

    /// How long momentum has been running, if it is.
    pub fn momentum_duration_us(&self) -> (r: Option<u64>)
        ensures
            match self {
                CurrentMotion::Momentum { elapsed_us, .. } => r == Some(*elapsed_us),
                _ => r is None,
            },
    {
        match self {
            CurrentMotion::Momentum { elapsed_us, .. } => Some(*elapsed_us),
            _ => None,
        }
    }
}

} // verus!
