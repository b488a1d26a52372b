//! Camera projection parameters, in the controller's fixed-point units.
//!
//! The host converts its projection into these plain values once per frame:
//! a perspective projection hands over its field of view, the tangent of half
//! that field, and its near plane; an orthographic projection its scale and
//! depth range. A projection kind the motion math does not model is marked
//! unsupported and makes the per-frame update abort with an error.

use vstd::prelude::*;

verus! {

/// Largest tangent of half the field of view accepted (a ratio of one
/// hundred, in billionths).
pub open const TAN_MAX: i64 = 100_000_000_000;

/// Largest field of view, near, far or scale value accepted, and the largest
/// size-per-pixel the controller computes.
pub open const SIZE_MAX: i64 = 1_000_000_000_000_000;

/// Smallest positive field of view accepted (a thousandth of a radian).
pub open const FOV_MIN: i64 = 1_000_000;

/// The intrinsic projection parameters the motion math reads.
#[derive(Clone, Copy, Debug, PartialEq, Eq, Structural)]
pub enum ProjectionParams {
    /// A perspective projection.
    Perspective {
        /// Vertical field of view, in billionths of a radian.
        fov: i64,
        /// Tangent of half the field of view, in billionths.
        tan_half_fov: i64,
        /// Near plane distance, in billionths of a world unit.
        near: i64,
    },
    /// An orthographic projection.
    Orthographic {
        /// World-space size of one pixel, in billionths of a world unit.
        scale: i64,
        /// Near plane distance, in billionths of a world unit.
        near: i64,
        /// Far plane distance, in billionths of a world unit.
        far: i64,
    },
    /// A projection kind the motion math does not model.
    Unsupported,
}

/// Well-formed projection parameters.
pub open spec fn proj_wf(p: ProjectionParams) -> bool {
    match p {
        ProjectionParams::Perspective { fov, tan_half_fov, near } => {
            &&& FOV_MIN <= fov <= 3_141_592_653
            &&& 1 <= tan_half_fov <= TAN_MAX
            &&& 1 <= near <= SIZE_MAX
        },
        ProjectionParams::Orthographic { scale, near, far } => {
            &&& 0 <= scale <= SIZE_MAX
            &&& -SIZE_MAX <= near <= far <= SIZE_MAX
        },
        ProjectionParams::Unsupported => true,
    }
}

/// A usable logical viewport: present, with nonzero width and height.
pub open spec fn viewport_ok(viewport: Option<(u32, u32)>) -> bool {
    match viewport {
        Option::Some((w, h)) => w > 0 && h > 0,
        Option::None => false,
    }
}

} // verus!
