//! Orbit constraints: yaw/pitch resolution about an up axis, the gimbal-lock
//! guard, and roll correction directives.
//!
//! The controller works in angle space. The host reports, once per frame, the
//! angle between the camera's forward axis and the constraint's up vector and
//! the angle between the camera's up axis and that vector; the controller
//! clamps the requested pitch so a constrained camera can approach but never
//! cross the poles, and hands back rotation directives for the host to apply
//! with its own quaternion arithmetic.

use vstd::prelude::*;

verus! {

use crate::linear::FxVec3;

/// Half a turn, in billionths of a radian.
pub open const PI_NANO: i64 = 3_141_592_654;

/// A quarter turn, in billionths of a radian.
pub open const FRAC_PI_2_NANO: i64 = 1_570_796_327;

/// How close, in billionths of a radian, a constrained camera may come to a
/// pole.
pub open const GIMBAL_LOCK_EPSILON: i64 = 1_000_000;

/// Rotations smaller than this are treated as no motion.
pub open const MOTION_THRESHOLD: i64 = 10_000;

/// Screen-space drag units to radians of orbit, in billionths.
pub open const ORBIT_MULTIPLIER: i64 = 5_000_000;

/// Defines how camera orbit behaves with respect to the up direction.
#[derive(Clone, Copy, Debug, PartialEq, Eq, Structural)]
pub enum OrbitConstraint {
    /// The camera's up direction must stay parallel with a fixed unit vector.
    Fixed {
        /// The up direction, a unit vector in billionths.
        up: FxVec3,
        /// Can the camera pass over top dead center (become upside down)?
        can_pass_tdc: bool,
    },
    /// The up vector is computed by the host each frame from the camera's
    /// world position; roll correction is deferred to the host.
    Dynamic {
        /// Can the camera pass over top dead center (become upside down)?
        can_pass_tdc: bool,
    },
    /// Free rotation, no up constraint.
    Free,
}

impl Default for OrbitConstraint {
    /// A fixed vertical up axis that the camera may not flip over.
    fn default() -> (r: OrbitConstraint)
        ensures
            r == (OrbitConstraint::Fixed {
                up: FxVec3 { x: 0, y: crate::fx::UNIT, z: 0 },
                can_pass_tdc: false,
            }),
    {
        OrbitConstraint::Fixed { up: FxVec3 { x: 0, y: crate::fx::UNIT, z: 0 }, can_pass_tdc: false }
    }
}

/// How the host should re-level the camera after an orbit step.
#[derive(Clone, Copy, Debug, PartialEq, Eq, Structural)]
pub enum RollCorrection {
    /// Leave the roll alone: the camera is within epsilon of exactly upright
    /// or exactly inverted, where roll correction is unstable.
    Keep,
    /// Level the camera's up vector against the constraint's up vector.
    AlignUp,
    /// Level the camera's up vector against the negated up vector.
    AlignDown,
    /// The constraint is dynamic: the host's own callback corrects roll.
    Deferred,
}

/// The rotation the host should apply this frame, about the world-space
/// anchor point.
#[derive(Clone, Copy, Debug, PartialEq, Eq, Structural)]
pub enum RotationDirective {
    /// No rotation this frame.
    Hold,
    /// Rotate by `angle` about an axis given in view space (free orbit).
    FreeAxis {
        /// The rotation axis, a unit vector in view space.
        axis_view: FxVec3,
        /// The rotation angle, in billionths of a radian.
        angle: i64,
    },
    /// Rotate by `yaw` about the constraint's up axis and by `pitch` about
    /// the camera's left axis, then apply the roll correction.
    YawPitch {
        /// Rotation about the up axis, in billionths of a radian.
        yaw: i64,
        /// Rotation about the camera's left axis, clamped against the poles,
        /// in billionths of a radian.
        pitch: i64,
        /// How to re-level the camera afterwards.
        roll: RollCorrection,
    },
}

/// The smaller of two values.
pub open spec fn min_spec(a: int, b: int) -> int {
    if a < b {
        a
    } else {
        b
    }
}

/// The pitch a constrained orbit may actually take: the desired pitch, cut
/// short so the camera stops one epsilon before top or bottom dead center
/// unless passing the pole is allowed. `angle_to_tdc` and `angle_to_bdc` are
/// the current angles from the camera's forward axis to the two poles.
pub open spec fn spec_clamped_pitch(
    desired: int,
    angle_to_tdc: int,
    angle_to_bdc: int,
    can_pass_tdc: bool,
) -> int {
    if can_pass_tdc {
        desired
    } else if desired >= 0 {
        min_spec(desired, angle_to_tdc - min_spec(GIMBAL_LOCK_EPSILON as int, angle_to_tdc))
    } else {
        let limit = -(angle_to_bdc - min_spec(GIMBAL_LOCK_EPSILON as int, angle_to_bdc));
        if desired < limit {
            limit
        } else {
            desired
        }
    }
}

/// Clamp a desired pitch against the poles.
pub fn clamped_pitch(desired: i64, angle_to_tdc: i64, angle_to_bdc: i64, can_pass_tdc: bool) -> (r:
    i64)
    requires
        0 <= angle_to_tdc <= PI_NANO,
        0 <= angle_to_bdc <= PI_NANO,
        -0x4000_0000_0000_0000 <= desired <= 0x4000_0000_0000_0000,
    ensures
        r == spec_clamped_pitch(
            desired as int,
            angle_to_tdc as int,
            angle_to_bdc as int,
            can_pass_tdc,
        ),
{
    if can_pass_tdc {
        desired
    } else if desired >= 0 {
        let eps: i64 = if GIMBAL_LOCK_EPSILON < angle_to_tdc {
            GIMBAL_LOCK_EPSILON
        } else {
            angle_to_tdc
        };
        let limit: i64 = angle_to_tdc - eps;
        if desired < limit {
            desired
        } else {
            limit
        }
    } else {
        let eps: i64 = if GIMBAL_LOCK_EPSILON < angle_to_bdc {
            GIMBAL_LOCK_EPSILON
        } else {
            angle_to_bdc
        };
        let limit: i64 = -(angle_to_bdc - eps);
        if desired < limit {
            limit
        } else {
            desired
        }
    }
}

/// The gimbal-lock guard, one frame at a time. A positive pitch moves the
/// forward axis toward top dead center and away from bottom dead center, so
/// the angle to the bottom pole becomes `angle + pitch`. With passing
/// disallowed, the clamped pitch keeps that angle strictly between the poles
/// whenever it starts there — and it never comes closer to either pole than
/// the epsilon guard unless it already was closer.
pub proof fn lemma_gimbal_lock_guard(desired: int, angle_to_up: int)
    requires
        0 < angle_to_up < PI_NANO,
    ensures
        0 < angle_to_up + spec_clamped_pitch(
            desired,
            PI_NANO - angle_to_up,
            angle_to_up,
            false,
        ) < PI_NANO,
        angle_to_up >= GIMBAL_LOCK_EPSILON ==> angle_to_up + spec_clamped_pitch(
            desired,
            PI_NANO - angle_to_up,
            angle_to_up,
            false,
        ) >= GIMBAL_LOCK_EPSILON,
        PI_NANO - angle_to_up >= GIMBAL_LOCK_EPSILON ==> PI_NANO - (angle_to_up
            + spec_clamped_pitch(desired, PI_NANO - angle_to_up, angle_to_up, false))
            >= GIMBAL_LOCK_EPSILON,
{
}

/// The angle to the up axis after a whole run of constrained pitch steps.
pub open spec fn iterate_pitch(angle_to_up: int, desireds: Seq<int>) -> int
    decreases desireds.len(),
{
    if desireds.len() == 0 {
        angle_to_up
    } else {
        iterate_pitch(
            angle_to_up + spec_clamped_pitch(
                desireds[0],
                PI_NANO - angle_to_up,
                angle_to_up,
                false,
            ),
            desireds.drop_first(),
        )
    }
}

/// The gimbal-lock guard over any number of frames: starting strictly between
/// the poles and orbiting with any sequence of pitch inputs, a camera that may
/// not pass top dead center stays strictly between the poles — the angle from
/// its forward axis to the up axis approaches but never reaches zero or half
/// a turn.
pub proof fn lemma_gimbal_lock_guard_run(angle_to_up: int, desireds: Seq<int>)
    requires
        0 < angle_to_up < PI_NANO,
    ensures
        0 < iterate_pitch(angle_to_up, desireds) < PI_NANO,
    decreases desireds.len(),
{
    if desireds.len() > 0 {
        lemma_gimbal_lock_guard(desireds[0], angle_to_up);
        lemma_gimbal_lock_guard_run(
            angle_to_up + spec_clamped_pitch(
                desireds[0],
                PI_NANO - angle_to_up,
                angle_to_up,
                false,
            ),
            desireds.drop_first(),
        );
    }
}

/// The roll correction a fixed-constraint orbit asks for: re-level against
/// the up axis while clearly on the upright side, against the negated axis
/// while clearly inverted, and keep clear of the unstable bands within
/// epsilon of the poles and of the quarter turn.
pub open spec fn spec_roll_correction(up_alignment_angle: int, dynamic: bool) -> RollCorrection {
    if dynamic {
        RollCorrection::Deferred
    } else if GIMBAL_LOCK_EPSILON < up_alignment_angle < FRAC_PI_2_NANO - GIMBAL_LOCK_EPSILON {
        RollCorrection::AlignUp
    } else if FRAC_PI_2_NANO + GIMBAL_LOCK_EPSILON < up_alignment_angle < PI_NANO
        - GIMBAL_LOCK_EPSILON {
        RollCorrection::AlignDown
    } else {
        RollCorrection::Keep
    }
}

/// Decide the roll correction for this frame from the angle between the
/// camera's up axis and the constraint's up vector.
pub fn roll_correction(up_alignment_angle: i64, dynamic: bool) -> (r: RollCorrection)
    ensures
        r == spec_roll_correction(up_alignment_angle as int, dynamic),
{
    if dynamic {
        RollCorrection::Deferred
    } else if GIMBAL_LOCK_EPSILON < up_alignment_angle && up_alignment_angle < FRAC_PI_2_NANO
        - GIMBAL_LOCK_EPSILON {
        RollCorrection::AlignUp
    } else if FRAC_PI_2_NANO + GIMBAL_LOCK_EPSILON < up_alignment_angle && up_alignment_angle
        < PI_NANO - GIMBAL_LOCK_EPSILON {
        RollCorrection::AlignDown
    } else {
        RollCorrection::Keep
    }
}

} // verus!
