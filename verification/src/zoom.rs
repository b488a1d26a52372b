//! Zoom limits and the world-space size of a pixel.

use vstd::prelude::*;

verus! {

use crate::fx::{mul_div, tz_div, UNIT};
use crate::linear::FxVec3;
use crate::projection::{proj_wf, ProjectionParams, SIZE_MAX};
use crate::motion::ANCHOR_MAX;

/// Largest size-per-pixel the controller ever computes.
pub open const PIXEL_SIZE_MAX: i64 = 200_000_000_000_000_000;

/// Bound zooming scale, and define behavior at the limits of zoom.
#[derive(Clone, Copy, Debug, PartialEq, Eq, Structural)]
pub struct ZoomLimits {
    /// The smallest world-space size one pixel at the anchor may represent:
    /// zooming in stops once a pixel covers this little of the world.
    pub min_size_per_pixel: i64,
    /// The largest world-space size one pixel at the anchor may represent:
    /// zooming out stops once a pixel covers this much of the world.
    pub max_size_per_pixel: i64,
    /// When true (perspective projections only), reaching the minimum does not
    /// stop the camera: it keeps moving forward, passing through the object
    /// in front of it.
    pub zoom_through_objects: bool,
}

/// Ordered, nonnegative, bounded limits.
pub open spec fn zoom_limits_wf(z: ZoomLimits) -> bool {
    &&& 0 <= z.min_size_per_pixel <= z.max_size_per_pixel <= SIZE_MAX
}

impl Default for ZoomLimits {
    /// A barely-bounded zoom that stops at surfaces.
    fn default() -> (r: ZoomLimits)
        ensures
            r.min_size_per_pixel == 100,
            r.max_size_per_pixel == SIZE_MAX,
            !r.zoom_through_objects,
            zoom_limits_wf(r),
    {
        ZoomLimits {
            min_size_per_pixel: 100,
            max_size_per_pixel: SIZE_MAX,
            zoom_through_objects: false,
        }
    }
}

/// The world-space size of one pixel at a view-space position, at the
/// specification level: `None` when the viewport is missing or degenerate or
/// the position is outside the projection's depth range.
///
/// For a perspective projection a pixel at depth `|z|` spans
/// `2 * tan(fov / 2) * |z| / viewport_height`; for an orthographic projection
/// it spans the projection's scale at any depth inside the frustum.
pub open spec fn spec_length_per_pixel(
    proj: ProjectionParams,
    viewport: Option<(u32, u32)>,
    pos: FxVec3,
) -> Option<int> {
    match viewport {
        Option::None => Option::None,
        Option::Some((vw, vh)) => {
            if vw == 0 || vh == 0 {
                Option::None
            } else {
                match proj {
                    ProjectionParams::Perspective { tan_half_fov, near, .. } => {
                        if pos.z <= -near {
                            Option::Some(
                                tz_div(
                                    2 * (tan_half_fov as int) * (-(pos.z as int)),
                                    (vh as int) * (UNIT as int),
                                ),
                            )
                        } else {
                            Option::None
                        }
                    },
                    ProjectionParams::Orthographic { scale, near, far } => {
                        if near <= -(pos.z as int) <= far {
                            Option::Some(scale as int)
                        } else {
                            Option::None
                        }
                    },
                    ProjectionParams::Unsupported => Option::None,
                }
            }
        },
    }
}

/// The world-space size of one pixel located at the given view-space
/// position: how much of the world one pixel covers there on screen.
pub fn length_per_pixel_at_view_space_pos(
    proj: &ProjectionParams,
    viewport: Option<(u32, u32)>,
    pos: FxVec3,
) -> (r: Option<i64>)
    requires
        proj_wf(*proj),
        -ANCHOR_MAX <= pos.z <= ANCHOR_MAX,
    ensures
        match spec_length_per_pixel(*proj, viewport, pos) {
            Option::Some(v) => r is Some && r->Some_0 == v,
            Option::None => r is None,
        },
        r is Some ==> 0 <= r->Some_0 <= PIXEL_SIZE_MAX,
{
    let (vw, vh): (u32, u32) = match viewport {
        Some(d) => d,
        None => {
            return None;
        },
    };
    if vw == 0 || vh == 0 {
        return None;
    }
    match proj {
        ProjectionParams::Perspective { tan_half_fov, near, .. } => {
            if pos.z <= -near {
                let dz: i64 = -pos.z;
                let denom: i64 = (vh as i64) * UNIT;
                proof {
                    crate::fx::lemma_mul_abs_bound(
                        2 * (*tan_half_fov as int),
                        200_000_000_000int,
                        dz as int,
                        ANCHOR_MAX as int,
                    );
                    assert(200_000_000_000int * 1_000_000_000_000_000int
                        == 200_000_000_000_000_000_000_000_000int) by (nonlinear_arith);
                    assert(9_223_372_036_854_775_807int * 1_000_000_000int
                        == 9_223_372_036_854_775_807_000_000_000int) by (nonlinear_arith);
                    assert((i64::MAX as int) * (UNIT as int) <= (i64::MAX as int) * (
                    denom as int)) by {
                        vstd::arithmetic::mul::lemma_mul_left_inequality(
                            i64::MAX as int,
                            UNIT as int,
                            denom as int,
                        );
                    }
                    assert(ANCHOR_MAX == 1_000_000_000_000_000i64);
                    assert(2 * (*tan_half_fov as int) <= 200_000_000_000int);
                    assert(200_000_000_000int * (ANCHOR_MAX as int)
                        == 200_000_000_000_000_000_000_000_000int) by (nonlinear_arith)
                        requires
                            ANCHOR_MAX == 1_000_000_000_000_000i64,
                    ;
                    assert(2 * (*tan_half_fov as int) * (dz as int)
                        <= 200_000_000_000_000_000_000_000_000int);
                    assert((i64::MAX as int) * (denom as int)
                        >= 9_223_372_036_854_775_807_000_000_000int);
                }
                let k: i64 = mul_div(2 * tan_half_fov, dz, denom);
                proof {
                    crate::fx::lemma_tz_div_bounds(
                        2 * (*tan_half_fov as int) * (dz as int),
                        denom as int,
                    );
                    assert(200_000_000_000_000_000_000_000_000int / 1_000_000_000int
                        == 200_000_000_000_000_000int);
                    vstd::arithmetic::div_mod::lemma_div_is_ordered(
                        2 * (*tan_half_fov as int) * (dz as int),
                        200_000_000_000_000_000_000_000_000int,
                        denom as int,
                    );
                    vstd::arithmetic::div_mod::lemma_div_is_ordered_by_denominator(
                        200_000_000_000_000_000_000_000_000int,
                        UNIT as int,
                        denom as int,
                    );
                }
                Some(k)
            } else {
                None
            }
        },
        ProjectionParams::Orthographic { scale, near, far } => {
            let dz: i64 = -pos.z;
            if *near <= dz && dz <= *far {
                Some(*scale)
            } else {
                None
            }
        },
        ProjectionParams::Unsupported => None,
    }
}

/// Zoom input bounded by the limits, at the specification level: at or past
/// the minimum size only zooming out is allowed, at or past the maximum only
/// zooming in; in between the input passes through.
pub open spec fn spec_zoom_bounded(zoom: int, size_at_anchor: int, limits: ZoomLimits) -> int {
    if size_at_anchor <= limits.min_size_per_pixel {
        if zoom > 0 {
            0
        } else {
            zoom
        }
    } else if size_at_anchor >= limits.max_size_per_pixel {
        if zoom < 0 {
            0
        } else {
            zoom
        }
    } else {
        zoom
    }
}

/// Bound a zoom input against the limits, given the current size of a pixel
/// at the anchor. Positive zoom moves in, negative moves out.
pub fn bounded_zoom(zoom: i64, size_at_anchor: i64, limits: &ZoomLimits) -> (r: i64)
    ensures
        r == spec_zoom_bounded(zoom as int, size_at_anchor as int, *limits),
        size_at_anchor <= limits.min_size_per_pixel ==> r <= 0,
        size_at_anchor >= limits.max_size_per_pixel && size_at_anchor
            > limits.min_size_per_pixel ==> r >= 0,
        r == zoom || r == 0,
{
    if size_at_anchor <= limits.min_size_per_pixel {
        if zoom > 0 {
            0
        } else {
            zoom
        }
    } else if size_at_anchor >= limits.max_size_per_pixel {
        if zoom < 0 {
            0
        } else {
            zoom
        }
    } else {
        zoom
    }
}

/// The zoom-limit guard, as a law: when zoom-through is off and a pixel at
/// the anchor already covers no more world than the configured minimum,
/// a zoom-in input is discarded entirely — the bounded zoom never moves the
/// camera closer. Symmetrically at the maximum, zoom-out is discarded.
pub proof fn lemma_zoom_blocked_at_limits(zoom: int, size_at_anchor: int, limits: ZoomLimits)
    requires
        zoom_limits_wf(limits),
    ensures
        size_at_anchor <= limits.min_size_per_pixel && zoom > 0 ==> spec_zoom_bounded(
            zoom,
            size_at_anchor,
            limits,
        ) == 0,
        size_at_anchor >= limits.max_size_per_pixel && size_at_anchor
            > limits.min_size_per_pixel && zoom < 0 ==> spec_zoom_bounded(
            zoom,
            size_at_anchor,
            limits,
        ) == 0,
        spec_zoom_bounded(zoom, size_at_anchor, limits) == zoom || spec_zoom_bounded(
            zoom,
            size_at_anchor,
            limits,
        ) == 0,
{
}

} // verus!
