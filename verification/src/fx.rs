//! Fixed-point scalar arithmetic.
//!
//! Every length, velocity, angle and scale in this crate is an `i64` counting
//! billionths of a world unit (or of a radian). This module provides the
//! truncating (toward-zero) arithmetic that the controller is specified with,
//! together with an exact integer square root.

use vstd::prelude::*;

verus! {

use vstd::arithmetic::div_mod::{lemma_div_nonincreasing, lemma_div_pos_is_pos};

/// One world unit (or one radian): the fixed-point denominator.
pub open const UNIT: i64 = 1_000_000_000;

/// Truncating (toward-zero) division by a positive divisor, the semantics of
/// Rust's `/` on signed integers.
pub open spec fn tz_div(a: int, d: int) -> int
    recommends
        d > 0,
{
    if a >= 0 {
        a / d
    } else {
        -((-a) / d)
    }
}

/// Toward-zero division shrinks magnitude and keeps sign.
pub proof fn lemma_tz_div_bounds(a: int, d: int)
    requires
        d >= 1,
    ensures
        a >= 0 ==> 0 <= tz_div(a, d) <= a,
        a <= 0 ==> a <= tz_div(a, d) <= 0,
        d >= 2 && -d < a < d ==> tz_div(a, d) == 0,
{
    if a >= 0 {
        lemma_div_nonincreasing(a, d);
        lemma_div_pos_is_pos(a, d);
    } else {
        lemma_div_nonincreasing(-a, d);
        lemma_div_pos_is_pos(-a, d);
    }
    if d >= 2 && -d < a < d {
        if a >= 0 {
            assert(a / d == 0) by {
                vstd::arithmetic::div_mod::lemma_basic_div(a, d);
            }
        } else {
            assert((-a) / d == 0) by {
                vstd::arithmetic::div_mod::lemma_basic_div(-a, d);
            }
        }
    }
}

/// A product of a bounded factor and a nonnegative bounded factor is bounded
/// on both sides.
pub proof fn lemma_mul_abs_bound(a: int, amax: int, b: int, bmax: int)
    requires
        -amax <= a <= amax,
        0 <= b <= bmax,
    ensures
        -(amax * bmax) <= a * b <= amax * bmax,
{
    if a >= 0 {
        vstd::arithmetic::mul::lemma_mul_nonnegative(a, b);
        vstd::arithmetic::mul::lemma_mul_upper_bound(a, amax, b, bmax);
        vstd::arithmetic::mul::lemma_mul_nonnegative(amax, bmax);
    } else {
        vstd::arithmetic::mul::lemma_mul_unary_negation(a, b);
        vstd::arithmetic::mul::lemma_mul_nonnegative(-a, b);
        vstd::arithmetic::mul::lemma_mul_upper_bound(-a, amax, b, bmax);
        vstd::arithmetic::mul::lemma_mul_nonnegative(amax, bmax);
    }
}

/// A product of two factors bounded in magnitude is bounded on both sides.
pub proof fn lemma_mul_abs2(a: int, amax: int, b: int, bmax: int)
    requires
        -amax <= a <= amax,
        -bmax <= b <= bmax,
        0 <= bmax,
    ensures
        -(amax * bmax) <= a * b <= amax * bmax,
{
    if b >= 0 {
        lemma_mul_abs_bound(a, amax, b, bmax);
    } else {
        lemma_mul_abs_bound(a, amax, -b, bmax);
        vstd::arithmetic::mul::lemma_mul_unary_negation(a, b);
        assert(a * (-b) == -(a * b)) by {
            vstd::arithmetic::mul::lemma_mul_is_commutative(a, -b);
            vstd::arithmetic::mul::lemma_mul_unary_negation(b, a);
            vstd::arithmetic::mul::lemma_mul_is_commutative(a, b);
        }
    }
}

/// Toward-zero division of `a` by a positive divisor.
pub fn div_tz(a: i64, d: u64) -> (r: i64)
    requires
        1 <= d,
        a > i64::MIN,
    ensures
        r == tz_div(a as int, d as int),
        a >= 0 ==> 0 <= r <= a,
        a <= 0 ==> a <= r <= 0,
{
    proof {
        lemma_tz_div_bounds(a as int, d as int);
    }
    if a >= 0 {
        ((a as u64) / d) as i64
    } else {
        let m: u64 = (-a) as u64;
        -((m / d) as i64)
    }
}

/// `a * b / d` with the product taken exactly (128-bit) and the division
/// truncating toward zero.
pub fn mul_div(a: i64, b: i64, d: i64) -> (r: i64)
    requires
        1 <= d,
        -(i64::MAX as int) * (d as int) <= (a as int) * (b as int) <= (i64::MAX as int) * (
        d as int),
    ensures
        r == tz_div((a as int) * (b as int), d as int),
        (a as int) * (b as int) >= 0 ==> r >= 0,
        (a as int) * (b as int) <= 0 ==> r <= 0,
{
    let p: i128 = (a as i128) * (b as i128);
    proof {
        lemma_tz_div_bounds(p as int, d as int);
        if p >= 0 {
            vstd::arithmetic::div_mod::lemma_div_is_ordered(p as int, (i64::MAX as int) * (
            d as int), d as int);
            vstd::arithmetic::div_mod::lemma_div_multiples_vanish(i64::MAX as int, d as int);
        } else {
            vstd::arithmetic::div_mod::lemma_div_is_ordered(-(p as int), (i64::MAX as int) * (
            d as int), d as int);
            vstd::arithmetic::div_mod::lemma_div_multiples_vanish(i64::MAX as int, d as int);
        }
    }
    if p >= 0 {
        ((p as u128) / (d as u128)) as i64
    } else {
        let m: u128 = (-p) as u128;
        -((m / (d as u128)) as i64)
    }
}

/// Magnitude of a scalar, as the nonnegative of the pair.
pub fn abs_i64(a: i64) -> (r: i64)
    requires
        a > i64::MIN,
    ensures
        r == if a >= 0 { a as int } else { -(a as int) },
        r >= 0,
{
    if a >= 0 {
        a
    } else {
        -a
    }
}

/// Is `r` the floor of the square root of `x`?
pub open spec fn is_sqrt_floor(x: int, r: int) -> bool {
    r >= 0 && r * r <= x && x < (r + 1) * (r + 1)
}

/// The floor of the square root of a nonnegative number.
pub open spec fn sqrt_floor(x: int) -> int {
    choose|r: int| is_sqrt_floor(x, r)
}

/// There is only one floor of a square root, so a witness pins [`sqrt_floor`].
pub proof fn lemma_sqrt_floor_unique(x: int, r: int)
    requires
        is_sqrt_floor(x, r),
    ensures
        sqrt_floor(x) == r,
{
    assert(is_sqrt_floor(x, sqrt_floor(x)));
    let c = sqrt_floor(x);
    if c < r {
        assert(r * r >= (c + 1) * (c + 1)) by {
            vstd::arithmetic::mul::lemma_mul_inequality(c + 1, r, c + 1);
            vstd::arithmetic::mul::lemma_mul_left_inequality(r, c + 1, r);
            vstd::arithmetic::mul::lemma_mul_is_commutative(c + 1, r);
        }
        assert(false);
    }
    if r < c {
        assert(c * c >= (r + 1) * (r + 1)) by {
            vstd::arithmetic::mul::lemma_mul_inequality(r + 1, c, r + 1);
            vstd::arithmetic::mul::lemma_mul_left_inequality(c, r + 1, c);
            vstd::arithmetic::mul::lemma_mul_is_commutative(r + 1, c);
        }
        assert(false);
    }
}

/// Clamp a value into `[-cap, cap]`.
pub open spec fn clamp_spec(v: int, cap: int) -> int {
    if v > cap {
        cap
    } else if v < -cap {
        -cap
    } else {
        v
    }
}

/// `a * b / d`, exact in 128 bits, truncated toward zero and clamped into
/// `[-cap, cap]`.
pub fn mul_div_clamp(a: i64, b: i64, d: i64, cap: i64) -> (r: i64)
    requires
        1 <= d,
        0 <= cap,
    ensures
        r == clamp_spec(tz_div((a as int) * (b as int), d as int), cap as int),
{
    proof {
        lemma_mul_abs2(
            a as int,
            0x8000_0000_0000_0000int,
            b as int,
            0x8000_0000_0000_0000int,
        );
        assert(0x8000_0000_0000_0000int * 0x8000_0000_0000_0000int
            == 85070591730234615865843651857942052864int) by (nonlinear_arith);
    }
    let p: i128 = (a as i128) * (b as i128);
    proof {
        lemma_tz_div_bounds(p as int, d as int);
    }
    let q: i128 = if p >= 0 {
        ((p as u128) / (d as u128)) as i128
    } else {
        let m: u128 = (-p) as u128;
        -((m / (d as u128)) as i128)
    };
    proof {
        assert(q == tz_div(p as int, d as int));
    }
    if q > cap as i128 {
        cap
    } else if q < -(cap as i128) {
        -cap
    } else {
        q as i64
    }
}

/// Floor of the square root: the unique `r` with `r * r <= x < (r + 1) * (r + 1)`.
pub fn isqrt(x: u128) -> (r: u64)
    requires
        x < (1u128 << 126),
    ensures
        (r as int) * (r as int) <= x,
        x < ((r as int) + 1) * ((r as int) + 1),
        r == sqrt_floor(x as int),
{
    let r = isqrt_inner(x);
    proof {
        lemma_sqrt_floor_unique(x as int, r as int);
    }
    r
}

/// Binary search for the floor of the square root.
fn isqrt_inner(x: u128) -> (r: u64)
    requires
        x < (1u128 << 126),
    ensures
        (r as int) * (r as int) <= x,
        x < ((r as int) + 1) * ((r as int) + 1),
{
    let mut lo: u64 = 0;
    let mut hi: u64 = 1u64 << 63;
    proof {
        assert((1u64 << 63) as int == 0x8000_0000_0000_0000int) by (bit_vector);
        assert((1u128 << 126) as int == 0x8000_0000_0000_0000int * 0x8000_0000_0000_0000int)
            by (bit_vector);
    }
    while lo < hi
        invariant
            lo <= hi,
            hi <= 0x8000_0000_0000_0000u64,
            (lo as int) * (lo as int) <= x,
            x < ((hi as int) + 1) * ((hi as int) + 1),
        decreases hi - lo,
    {
        let mid: u64 = lo + (hi - lo + 1) / 2;
        proof {
            vstd::arithmetic::mul::lemma_mul_upper_bound(
                mid as int,
                0x8000_0000_0000_0000int,
                mid as int,
                0x8000_0000_0000_0000int,
            );
        }
        let sq: u128 = (mid as u128) * (mid as u128);
        if sq <= x {
            lo = mid;
        } else {
            hi = mid - 1;
        }
    }
    lo
}

} // verus!
