//! Fixed-point 2D and 3D vectors.
//!
//! Components are `i64` billionths, as everywhere in the crate (see [`crate::fx`]).

use vstd::prelude::*;

verus! {

use crate::fx::{abs_i64, isqrt};
use vstd::arithmetic::mul::{lemma_mul_cancels_negatives, lemma_mul_upper_bound};

/// Spec-level magnitude of an integer.
pub open spec fn abs_spec(a: int) -> int {
    if a >= 0 {
        a
    } else {
        -a
    }
}

/// Squaring ignores sign.
pub proof fn lemma_abs_sq(a: int)
    ensures
        abs_spec(a) * abs_spec(a) == a * a,
{
    if a < 0 {
        lemma_mul_cancels_negatives(a, a);
    }
}

/// A square of something no larger than `b` is at most `b * b`.
pub proof fn lemma_sq_bound(a: int, b: int)
    requires
        abs_spec(a) <= b,
    ensures
        a * a <= b * b,
{
    lemma_abs_sq(a);
    lemma_mul_upper_bound(abs_spec(a), b, abs_spec(a), b);
}

/// A 2D fixed-point vector: a screen-space delta, an input sample, a velocity.
#[derive(Clone, Copy, Debug, PartialEq, Eq, Structural)]
pub struct FxVec2 {
    pub x: i64,
    pub y: i64,
}

/// A 3D fixed-point vector: a view-space point or translation.
#[derive(Clone, Copy, Debug, PartialEq, Eq, Structural)]
pub struct FxVec3 {
    pub x: i64,
    pub y: i64,
    pub z: i64,
}

impl FxVec2 {
    /// The zero vector.
    pub fn zero() -> (r: FxVec2)
        ensures
            r.x == 0,
            r.y == 0,
    {
        FxVec2 { x: 0, y: 0 }
    }

    /// Squared Euclidean length as a spec-level integer.
    pub open spec fn len_sq_spec(self) -> int {
        (self.x as int) * (self.x as int) + (self.y as int) * (self.y as int)
    }

    /// Squared Euclidean length, exact.
    pub fn len_sq(self) -> (r: u128)
        requires
            self.x > i64::MIN,
            self.y > i64::MIN,
        ensures
            r == self.len_sq_spec(),
    {
        let ax: u128 = abs_i64(self.x) as u128;
        let ay: u128 = abs_i64(self.y) as u128;
        proof {
            lemma_mul_upper_bound(ax as int, i64::MAX as int, ax as int, i64::MAX as int);
            lemma_mul_upper_bound(ay as int, i64::MAX as int, ay as int, i64::MAX as int);
            lemma_abs_sq(self.x as int);
            lemma_abs_sq(self.y as int);
        }
        ax * ax + ay * ay
    }

    /// Euclidean length, rounded down.
    pub fn length(self) -> (r: u64)
        requires
            -0x4000_0000_0000_0000 <= self.x <= 0x4000_0000_0000_0000,
            -0x4000_0000_0000_0000 <= self.y <= 0x4000_0000_0000_0000,
        ensures
            (r as int) * (r as int) <= self.len_sq_spec(),
            self.len_sq_spec() < ((r as int) + 1) * ((r as int) + 1),
            r == crate::fx::sqrt_floor(self.len_sq_spec()),
    {
        proof {
            lemma_sq_bound(self.x as int, 0x4000_0000_0000_0000int);
            lemma_sq_bound(self.y as int, 0x4000_0000_0000_0000int);
            assert((1u128 << 126) > 2u128 * (0x4000_0000_0000_0000u128 * 0x4000_0000_0000_0000u128))
                by (bit_vector);
        }
        let sq: u128 = self.len_sq();
        isqrt(sq)
    }
}

impl FxVec3 {
    /// Squared Euclidean length as a spec-level integer.
    pub open spec fn len_sq_spec(self) -> int {
        (self.x as int) * (self.x as int) + (self.y as int) * (self.y as int) + (self.z as int) * (
        self.z as int)
    }

    /// Squared Euclidean length, exact.
    pub fn len_sq(self) -> (r: u128)
        requires
            self.x > i64::MIN,
            self.y > i64::MIN,
            self.z > i64::MIN,
        ensures
            r == self.len_sq_spec(),
    {
        let ax: u128 = abs_i64(self.x) as u128;
        let ay: u128 = abs_i64(self.y) as u128;
        let az: u128 = abs_i64(self.z) as u128;
        proof {
            lemma_mul_upper_bound(ax as int, i64::MAX as int, ax as int, i64::MAX as int);
            lemma_mul_upper_bound(ay as int, i64::MAX as int, ay as int, i64::MAX as int);
            lemma_mul_upper_bound(az as int, i64::MAX as int, az as int, i64::MAX as int);
            lemma_abs_sq(self.x as int);
            lemma_abs_sq(self.y as int);
            lemma_abs_sq(self.z as int);
        }
        ax * ax + ay * ay + az * az
    }

    /// Euclidean length, rounded down.
    pub fn length(self) -> (r: u64)
        requires
            -0x4000_0000_0000_0000 <= self.x <= 0x4000_0000_0000_0000,
            -0x4000_0000_0000_0000 <= self.y <= 0x4000_0000_0000_0000,
            -0x4000_0000_0000_0000 <= self.z <= 0x4000_0000_0000_0000,
        ensures
            (r as int) * (r as int) <= self.len_sq_spec(),
            self.len_sq_spec() < ((r as int) + 1) * ((r as int) + 1),
            r == crate::fx::sqrt_floor(self.len_sq_spec()),
    {
        proof {
            lemma_sq_bound(self.x as int, 0x4000_0000_0000_0000int);
            lemma_sq_bound(self.y as int, 0x4000_0000_0000_0000int);
            lemma_sq_bound(self.z as int, 0x4000_0000_0000_0000int);
            assert((1u128 << 126) > 3u128 * (0x4000_0000_0000_0000u128 * 0x4000_0000_0000_0000u128))
                by (bit_vector);
        }
        let sq: u128 = self.len_sq();
        isqrt(sq)
    }
}

} // verus!
