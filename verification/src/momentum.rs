//! Momentum: residual camera velocity after inputs end, decaying over time.
//!
//! A released orbit or pan leaves a [`Velocity`] behind. Each elapsed
//! millisecond multiplies it by a fixed per-millisecond decay factor derived
//! from an 8-bit momentum amount; once its magnitude falls under a fixed
//! threshold it collapses to [`Velocity::Idle`]. Because one millisecond of
//! decay is one application of the same step function, decaying in many small
//! steps and decaying once over the total elapsed time give exactly the same
//! velocity: the decay is frame-rate independent by construction.

use vstd::prelude::*;

verus! {

use crate::fx::{isqrt, tz_div};
use crate::linear::{FxVec2, FxVec3};
use crate::smoothing::Smoothness;

/// Fixed-point scale of the decay factor: `2^20`.
pub open const DECAY_ONE: u64 = 1_048_576;

/// A velocity magnitude below this threshold collapses to no motion
/// (`1e-3` of a unit, in billionths).
pub open const DECAY_THRESHOLD: i64 = 1_000_000;

/// Largest velocity component the decay functions accept.
pub open const VEL_MAX: i64 = 100_000_000_000_000_000;

/// Momentum configuration: how much residual motion a released drag leaves.
#[derive(Clone, Copy, Debug, PartialEq, Eq, Structural)]
pub struct Momentum {
    /// Smoothing windows used only to compute the initial momentum velocity
    /// at release. Decoupled from the live input smoothing on purpose: inputs
    /// can stay snappy while release velocities stay easy to "flick".
    pub smoothness: Smoothness,
    /// Momentum amount for panning, out of 256; zero means none.
    pub pan: u8,
    /// Momentum amount for orbiting, out of 256; zero means none.
    pub orbit: u8,
}

impl Momentum {
    /// The same momentum amount for panning and orbiting.
    pub fn same(amount: u8, smoothness: Smoothness) -> (r: Momentum)
        ensures
            r.pan == amount,
            r.orbit == amount,
            r.smoothness == smoothness,
    {
        Momentum { smoothness, pan: amount, orbit: amount }
    }

    /// Per-millisecond decay factor for orbit momentum: exactly
    /// [`spec_decay_factor`] of the orbit amount.
    pub fn orbit_decay(self) -> (r: u64)
        ensures
            r == spec_decay_factor(self.orbit),
            r < DECAY_ONE,
            self.orbit == 0 <==> r == 0,
    {
        decay_factor(self.orbit)
    }

    /// Per-millisecond decay factor for pan momentum: exactly
    /// [`spec_decay_factor`] of the pan amount.
    pub fn pan_decay(self) -> (r: u64)
        ensures
            r == spec_decay_factor(self.pan),
            r < DECAY_ONE,
            self.pan == 0 <==> r == 0,
    {
        decay_factor(self.pan)
    }
}

impl Default for Momentum {
    /// Moderate orbit momentum, stronger pan momentum, with the release
    /// velocity smoothed over a longer window than live input.
    fn default() -> (r: Momentum)
        ensures
            r.pan == 150,
            r.orbit == 100,
            r.smoothness.pan == 40_000,
            r.smoothness.orbit == 40_000,
            r.smoothness.zoom == 0,
    {
        Momentum {
            smoothness: Smoothness { pan: 40_000, orbit: 40_000, zoom: 0 },
            pan: 150,
            orbit: 100,
        }
    }
}

/// `x` raised to the tenth power, exactly.
pub open spec fn pow10_spec(x: int) -> int {
    let x2 = x * x;
    let x4 = x2 * x2;
    let x8 = x4 * x4;
    x8 * x2
}

/// Tenth power of a small number, exact in 128 bits.
fn pow10(x: u64) -> (r: u128)
    requires
        x <= 4096,
    ensures
        r == pow10_spec(x as int),
{
    proof {
        assert(4096int * 4096int == 16777216int) by (nonlinear_arith);
        vstd::arithmetic::mul::lemma_mul_upper_bound(x as int, 4096, x as int, 4096);
    }
    let x2: u128 = (x as u128) * (x as u128);
    proof {
        assert(16777216int * 16777216int == 281474976710656int) by (nonlinear_arith);
        vstd::arithmetic::mul::lemma_mul_upper_bound(x2 as int, 16777216, x2 as int, 16777216);
    }
    let x4: u128 = x2 * x2;
    proof {
        assert(281474976710656int * 281474976710656int == 79228162514264337593543950336int)
            by (nonlinear_arith);
        vstd::arithmetic::mul::lemma_mul_upper_bound(
            x4 as int,
            281474976710656,
            x4 as int,
            281474976710656,
        );
    }
    let x8: u128 = x4 * x4;
    proof {
        assert(79228162514264337593543950336int * 16777216int
            == 1329227995784915872903807060280344576int) by (nonlinear_arith);
        vstd::arithmetic::mul::lemma_mul_upper_bound(
            x8 as int,
            79228162514264337593543950336,
            x2 as int,
            16777216,
        );
    }
    x8 * x2
}

/// Is `y` the floor of the tenth root of `t`: the largest number whose tenth
/// power does not exceed `t`?
pub open spec fn is_tenth_root_floor(t: int, y: int) -> bool {
    y >= 0 && pow10_spec(y) <= t && t < pow10_spec(y + 1)
}

/// The floor of the tenth root of a nonnegative number.
pub open spec fn tenth_root_floor(t: int) -> int {
    choose|y: int| is_tenth_root_floor(t, y)
}

/// Two nonnegative ordered pairs multiply to ordered products.
proof fn lemma_mul_le(p: int, q: int, r: int, s: int)
    requires
        0 <= p <= q,
        0 <= r <= s,
    ensures
        p * r <= q * s,
{
    vstd::arithmetic::mul::lemma_mul_inequality(p, q, r);
    if q > 0 {
        vstd::arithmetic::mul::lemma_mul_left_inequality(q, r, s);
    } else {
        vstd::arithmetic::mul::lemma_mul_by_zero_is_zero(r);
        vstd::arithmetic::mul::lemma_mul_by_zero_is_zero(s);
    }
}

/// Tenth powers do not shrink as the base grows.
proof fn lemma_pow10_monotone(a: int, b: int)
    requires
        0 <= a <= b,
    ensures
        pow10_spec(a) <= pow10_spec(b),
{
    vstd::arithmetic::mul::lemma_mul_nonnegative(a, a);
    vstd::arithmetic::mul::lemma_mul_nonnegative(b, b);
    lemma_mul_le(a, b, a, b);
    vstd::arithmetic::mul::lemma_mul_nonnegative(a * a, a * a);
    vstd::arithmetic::mul::lemma_mul_nonnegative(b * b, b * b);
    lemma_mul_le(a * a, b * b, a * a, b * b);
    vstd::arithmetic::mul::lemma_mul_nonnegative((a * a) * (a * a), (a * a) * (a * a));
    lemma_mul_le((a * a) * (a * a), (b * b) * (b * b), (a * a) * (a * a), (b * b) * (b * b));
    lemma_mul_le(
        ((a * a) * (a * a)) * ((a * a) * (a * a)),
        ((b * b) * (b * b)) * ((b * b) * (b * b)),
        a * a,
        b * b,
    );
}

/// There is only one floor of a tenth root, so a witness pins
/// [`tenth_root_floor`].
proof fn lemma_tenth_root_floor_unique(t: int, y: int)
    requires
        is_tenth_root_floor(t, y),
    ensures
        tenth_root_floor(t) == y,
{
    assert(is_tenth_root_floor(t, tenth_root_floor(t)));
    let c = tenth_root_floor(t);
    if c < y {
        lemma_pow10_monotone(c + 1, y);
        assert(false);
    }
    if y < c {
        lemma_pow10_monotone(y + 1, c);
        assert(false);
    }
}

/// Every number up to the largest tenth power in range has a tenth-root
/// floor.
proof fn lemma_tenth_root_floor_exists(t: int, k: int)
    requires
        0 <= k,
        0 <= t < pow10_spec(k + 1),
    ensures
        exists|y: int| #[trigger] is_tenth_root_floor(t, y),
    decreases k,
{
    if pow10_spec(k) <= t {
        assert(is_tenth_root_floor(t, k));
    } else {
        if k == 0 {
            assert(pow10_spec(0) == 0) by {
                vstd::arithmetic::mul::lemma_mul_by_zero_is_zero(0int);
            }
            assert(false);
        }
        lemma_tenth_root_floor_exists(t, k - 1);
    }
}

/// The tenth-root floor does not shrink as its argument grows.
proof fn lemma_tenth_root_floor_monotone(s: int, t: int)
    requires
        0 <= s <= t,
        t < pow10_spec(4097),
    ensures
        tenth_root_floor(s) <= tenth_root_floor(t),
        0 <= tenth_root_floor(s),
{
    assert(pow10_spec(4097int) == 1332476748910942843283658124021506049int) by (nonlinear_arith);
    lemma_tenth_root_floor_exists(s, 4096);
    lemma_tenth_root_floor_exists(t, 4096);
    assert(is_tenth_root_floor(s, tenth_root_floor(s)));
    assert(is_tenth_root_floor(t, tenth_root_floor(t)));
    let ys = tenth_root_floor(s);
    let yt = tenth_root_floor(t);
    if ys > yt {
        lemma_pow10_monotone(yt + 1, ys);
        assert(false);
    }
}

/// Every nonnegative number has a square-root floor.
pub proof fn lemma_sqrt_floor_exists(x: int)
    requires
        0 <= x,
    ensures
        exists|r: int| #[trigger] crate::fx::is_sqrt_floor(x, r),
    decreases x,
{
    if x == 0 {
        assert((0int + 1) * (0int + 1) == 1) by (nonlinear_arith);
        assert(0int * 0int == 0) by (nonlinear_arith);
        assert(crate::fx::is_sqrt_floor(0, 0));
    } else {
        let x1 = x - 1;
        lemma_sqrt_floor_exists(x1);
        let r = choose|r: int| crate::fx::is_sqrt_floor(x1, r);
        assert(crate::fx::is_sqrt_floor(x1, r));
        if x < (r + 1) * (r + 1) {
            assert(crate::fx::is_sqrt_floor(x, r));
        } else {
            assert(x == (r + 1) * (r + 1));
            assert((r + 1) * (r + 1) < (r + 2) * (r + 2)) by {
                lemma_mul_le(r + 1, r + 2, r + 1, r + 1);
                vstd::arithmetic::mul::lemma_mul_strict_inequality(r + 1, r + 2, r + 2);
                vstd::arithmetic::mul::lemma_mul_is_commutative(r + 2, r + 1);
            }
            assert(crate::fx::is_sqrt_floor(x, r + 1));
        }
    }
}

/// The square-root floor does not shrink as its argument grows.
pub proof fn lemma_sqrt_floor_monotone(x: int, y: int)
    requires
        0 <= x <= y,
    ensures
        crate::fx::sqrt_floor(x) <= crate::fx::sqrt_floor(y),
        0 <= crate::fx::sqrt_floor(x),
{
    lemma_sqrt_floor_exists(x);
    lemma_sqrt_floor_exists(y);
    assert(crate::fx::is_sqrt_floor(x, crate::fx::sqrt_floor(x)));
    assert(crate::fx::is_sqrt_floor(y, crate::fx::sqrt_floor(y)));
    let sx = crate::fx::sqrt_floor(x);
    let sy = crate::fx::sqrt_floor(y);
    if sx > sy {
        assert((sy + 1) * (sy + 1) <= sx * sx) by {
            lemma_mul_le(sy + 1, sx, sy + 1, sx);
        }
        assert(false);
    }
}

/// The decay factor for a momentum amount, at the specification level: the
/// floor of the tenth root of `amount * 2^112` (the tenth root of
/// `amount / 256` at scale `2^12`), rescaled to `2^20`, then four fixed-point
/// square roots, each halving the exponent once more.
pub open spec fn spec_decay_factor(amount: u8) -> int {
    let t = (amount as int) * 5_192_296_858_534_827_628_530_496_329_220_096;
    let g0 = tenth_root_floor(t) * 256;
    let g1 = crate::fx::sqrt_floor(g0 * 1_048_576);
    let g2 = crate::fx::sqrt_floor(g1 * 1_048_576);
    let g3 = crate::fx::sqrt_floor(g2 * 1_048_576);
    crate::fx::sqrt_floor(g3 * 1_048_576)
}

/// Higher momentum amounts give a factor at least as large, so they decay no
/// faster: more momentum coasts longer.
pub proof fn lemma_decay_factor_monotone(a: u8, b: u8)
    requires
        a <= b,
    ensures
        0 <= spec_decay_factor(a) <= spec_decay_factor(b),
{
    let u = 5_192_296_858_534_827_628_530_496_329_220_096int;
    let ta = (a as int) * u;
    let tb = (b as int) * u;
    assert(ta <= tb) by {
        vstd::arithmetic::mul::lemma_mul_inequality(a as int, b as int, u);
    }
    vstd::arithmetic::mul::lemma_mul_nonnegative(a as int, u);
    assert(pow10_spec(4097int) == 1332476748910942843283658124021506049int) by (nonlinear_arith);
    assert(255int * 5_192_296_858_534_827_628_530_496_329_220_096int
        == 1324035698926381045275276563951124480int) by (nonlinear_arith);
    assert(tb <= 1324035698926381045275276563951124480int) by {
        vstd::arithmetic::mul::lemma_mul_inequality(b as int, 255, u);
    }
    lemma_tenth_root_floor_monotone(ta, tb);
    let ya = tenth_root_floor(ta);
    let yb = tenth_root_floor(tb);
    assert(ya * 256 <= yb * 256) by {
        vstd::arithmetic::mul::lemma_mul_inequality(ya, yb, 256);
    }
    vstd::arithmetic::mul::lemma_mul_nonnegative(ya, 256);
    let a0 = ya * 256;
    let b0 = yb * 256;
    assert(a0 * 1_048_576 <= b0 * 1_048_576) by {
        vstd::arithmetic::mul::lemma_mul_inequality(a0, b0, 1_048_576);
    }
    vstd::arithmetic::mul::lemma_mul_nonnegative(a0, 1_048_576);
    lemma_sqrt_floor_monotone(a0 * 1_048_576, b0 * 1_048_576);
    let a1 = crate::fx::sqrt_floor(a0 * 1_048_576);
    let b1 = crate::fx::sqrt_floor(b0 * 1_048_576);
    assert(a1 * 1_048_576 <= b1 * 1_048_576) by {
        vstd::arithmetic::mul::lemma_mul_inequality(a1, b1, 1_048_576);
    }
    vstd::arithmetic::mul::lemma_mul_nonnegative(a1, 1_048_576);
    lemma_sqrt_floor_monotone(a1 * 1_048_576, b1 * 1_048_576);
    let a2 = crate::fx::sqrt_floor(a1 * 1_048_576);
    let b2 = crate::fx::sqrt_floor(b1 * 1_048_576);
    assert(a2 * 1_048_576 <= b2 * 1_048_576) by {
        vstd::arithmetic::mul::lemma_mul_inequality(a2, b2, 1_048_576);
    }
    vstd::arithmetic::mul::lemma_mul_nonnegative(a2, 1_048_576);
    lemma_sqrt_floor_monotone(a2 * 1_048_576, b2 * 1_048_576);
    let a3 = crate::fx::sqrt_floor(a2 * 1_048_576);
    let b3 = crate::fx::sqrt_floor(b2 * 1_048_576);
    assert(a3 * 1_048_576 <= b3 * 1_048_576) by {
        vstd::arithmetic::mul::lemma_mul_inequality(a3, b3, 1_048_576);
    }
    vstd::arithmetic::mul::lemma_mul_nonnegative(a3, 1_048_576);
    lemma_sqrt_floor_monotone(a3 * 1_048_576, b3 * 1_048_576);
}

/// The per-millisecond decay factor for a momentum amount, at scale
/// [`DECAY_ONE`]: exactly [`spec_decay_factor`] — the tenth root of
/// `amount / 256`, halved in exponent four more times, so that the amount
/// decays smoothly over roughly a second.
///
/// It is always strictly below one (below [`DECAY_ONE`]), so every decaying
/// velocity eventually collapses; the factor is zero exactly at amount zero,
/// which is momentum that dies instantly.
pub fn decay_factor(amount: u8) -> (r: u64)
    ensures
        r == spec_decay_factor(amount),
        r < DECAY_ONE,
        amount == 0 <==> r == 0,
{
    // Tenth root of amount / 256 at scale 2^12: the largest y with
    // y^10 <= amount * 2^112.
    let target: u128 = (amount as u128) * 5_192_296_858_534_827_628_530_496_329_220_096;
    let mut lo: u64 = 0;
    let mut hi: u64 = 4096;
    proof {
        assert(pow10_spec(0) == 0) by {
            vstd::arithmetic::mul::lemma_mul_by_zero_is_zero(0int);
        }
        assert(pow10_spec(4097int) == 1332476748910942843283658124021506049int)
            by (nonlinear_arith);
        assert(255int * 5_192_296_858_534_827_628_530_496_329_220_096int
            == 1324035698926381045275276563951124480int) by (nonlinear_arith);
        assert(target <= 1324035698926381045275276563951124480int) by {
            vstd::arithmetic::mul::lemma_mul_inequality(
                amount as int,
                255,
                5_192_296_858_534_827_628_530_496_329_220_096int,
            );
        }
        vstd::arithmetic::mul::lemma_mul_nonnegative(
            amount as int,
            5_192_296_858_534_827_628_530_496_329_220_096int,
        );
    }
    while lo < hi
        invariant
            lo <= hi <= 4096,
            target == (amount as int) * 5_192_296_858_534_827_628_530_496_329_220_096int,
            amount <= 255,
            pow10_spec(lo as int) <= target,
            target < pow10_spec((hi + 1) as int),
        decreases hi - lo,
    {
        let mid: u64 = lo + (hi - lo + 1) / 2;
        let p: u128 = pow10(mid);
        if p <= target {
            lo = mid;
        } else {
            hi = mid - 1;
        }
    }
    // lo is the tenth-root floor; rescale from 2^12 to 2^20.
    proof {
        lemma_tenth_root_floor_unique(target as int, lo as int);
        assert(pow10_spec(4096int) == 1329227995784915872903807060280344576int)
            by (nonlinear_arith);
        assert(255int * 5_192_296_858_534_827_628_530_496_329_220_096int
            == 1324035698926381045275276563951124480int) by (nonlinear_arith);
        assert(target <= 1324035698926381045275276563951124480int) by {
            vstd::arithmetic::mul::lemma_mul_inequality(
                amount as int,
                255,
                5_192_296_858_534_827_628_530_496_329_220_096int,
            );
        }
        assert(lo <= 4095);
        if amount == 0 {
            if lo >= 1 {
                lemma_pow10_pos(lo as int);
                assert(target == 0) by {
                    vstd::arithmetic::mul::lemma_mul_by_zero_is_zero(
                        5_192_296_858_534_827_628_530_496_329_220_096int,
                    );
                }
            }
            assert(lo == 0);
        }
        if amount > 0 {
            assert(pow10_spec(1int) == 1) by (nonlinear_arith);
            assert(target >= 5_192_296_858_534_827_628_530_496_329_220_096int) by {
                vstd::arithmetic::mul::lemma_mul_inequality(
                    1,
                    amount as int,
                    5_192_296_858_534_827_628_530_496_329_220_096int,
                );
            }
            assert(lo >= 1);
        }
    }
    let g0: u64 = lo * 256;
    // Four integer square roots: halve the exponent four times.
    proof {
        assert((g0 as u128) * 1_048_576 < (1u128 << 126)) by (bit_vector)
            requires
                g0 < 1_048_576u64,
        ;
    }
    let g1: u64 = isqrt((g0 as u128) * 1_048_576);
    proof {
        lemma_isqrt_scale(g0 as int, g1 as int);
        assert((g1 as u128) * 1_048_576 < (1u128 << 126)) by (bit_vector)
            requires
                g1 < 1_048_576u64,
        ;
    }
    let g2: u64 = isqrt((g1 as u128) * 1_048_576);
    proof {
        lemma_isqrt_scale(g1 as int, g2 as int);
        assert((g2 as u128) * 1_048_576 < (1u128 << 126)) by (bit_vector)
            requires
                g2 < 1_048_576u64,
        ;
    }
    let g3: u64 = isqrt((g2 as u128) * 1_048_576);
    proof {
        lemma_isqrt_scale(g2 as int, g3 as int);
        assert((g3 as u128) * 1_048_576 < (1u128 << 126)) by (bit_vector)
            requires
                g3 < 1_048_576u64,
        ;
    }
    let g4: u64 = isqrt((g3 as u128) * 1_048_576);
    proof {
        lemma_isqrt_scale(g3 as int, g4 as int);
    }
    g4
}

/// Tenth powers of positive numbers are positive.
proof fn lemma_pow10_pos(a: int)
    requires
        a >= 1,
    ensures
        pow10_spec(a) >= 1,
{
    let a2 = a * a;
    vstd::arithmetic::mul::lemma_mul_strictly_positive(a, a);
    let a4 = a2 * a2;
    vstd::arithmetic::mul::lemma_mul_strictly_positive(a2, a2);
    let a8 = a4 * a4;
    vstd::arithmetic::mul::lemma_mul_strictly_positive(a4, a4);
    vstd::arithmetic::mul::lemma_mul_strictly_positive(a8, a2);
}

/// A fixed-point square root of a value below one stays below one, and stays
/// positive exactly on positive values.
proof fn lemma_isqrt_scale(g: int, root: int)
    requires
        0 <= g < 1_048_576,
        root * root <= g * 1_048_576,
        g * 1_048_576 < (root + 1) * (root + 1),
        root >= 0,
    ensures
        root < 1_048_576,
        g > 0 ==> root > 0,
        g == 0 ==> root == 0,
{
    assert(1_048_576int * 1_048_576int == 1099511627776int) by (nonlinear_arith);
    assert(g * 1_048_576 < 1099511627776) by {
        vstd::arithmetic::mul::lemma_mul_strict_inequality(g, 1_048_576, 1_048_576);
        vstd::arithmetic::mul::lemma_mul_is_commutative(g, 1_048_576);
    }
    if root >= 1_048_576 {
        assert(1099511627776 <= root * root) by {
            vstd::arithmetic::mul::lemma_mul_left_inequality(1_048_576, 1_048_576, root);
            vstd::arithmetic::mul::lemma_mul_inequality(1_048_576, root, root);
        }
        assert(false);
    }
    if g > 0 && root == 0 {
        assert((0int + 1) * (0int + 1) == 1) by (nonlinear_arith);
        assert(g * 1_048_576 >= 1_048_576) by {
            vstd::arithmetic::mul::lemma_mul_inequality(1, g, 1_048_576);
        }
        assert(false);
    }
    if g == 0 {
        assert(g * 1_048_576 == 0) by {
            vstd::arithmetic::mul::lemma_mul_by_zero_is_zero(1_048_576int);
        }
        if root > 0 {
            vstd::arithmetic::mul::lemma_mul_strictly_positive(root, root);
            assert(false);
        }
    }
}

/// One millisecond of decay on one velocity component: scale by
/// `g / DECAY_ONE`, truncating toward zero.
pub open spec fn decay_step(v: int, g: int) -> int {
    tz_div(v * g, DECAY_ONE as int)
}

/// `n` milliseconds of decay on one velocity component.
pub open spec fn decay_steps(v: int, g: int, n: nat) -> int
    decreases n,
{
    if n == 0 {
        v
    } else {
        decay_steps(decay_step(v, g), g, (n - 1) as nat)
    }
}

/// One decay step shrinks magnitude and keeps sign (or reaches zero).
pub proof fn lemma_decay_step_bounds(v: int, g: int)
    requires
        0 <= g < DECAY_ONE,
    ensures
        v >= 0 ==> 0 <= decay_step(v, g) <= v,
        v <= 0 ==> v <= decay_step(v, g) <= 0,
{
    crate::fx::lemma_tz_div_bounds(v * g, DECAY_ONE as int);
    if v == 0 {
        assert(v * g == 0) by {
            vstd::arithmetic::mul::lemma_mul_by_zero_is_zero(g);
        }
        assert(tz_div(0, DECAY_ONE as int) == 0) by {
            vstd::arithmetic::div_mod::lemma_div_of0(DECAY_ONE as int);
        }
    } else if v > 0 {
        vstd::arithmetic::mul::lemma_mul_nonnegative(v, g);
        assert(v * g <= v * DECAY_ONE) by {
            vstd::arithmetic::mul::lemma_mul_left_inequality(v, g, DECAY_ONE as int);
        }
        assert(tz_div(v * g, DECAY_ONE as int) <= v) by {
            vstd::arithmetic::div_mod::lemma_div_is_ordered(
                v * g,
                v * (DECAY_ONE as int),
                DECAY_ONE as int,
            );
            vstd::arithmetic::div_mod::lemma_div_multiples_vanish(v, DECAY_ONE as int);
            vstd::arithmetic::mul::lemma_mul_is_commutative(v, DECAY_ONE as int);
        }
    } else {
        vstd::arithmetic::mul::lemma_mul_nonnegative(-v, g);
        vstd::arithmetic::mul::lemma_mul_unary_negation(v, g);
        assert((-v) * g <= (-v) * DECAY_ONE) by {
            vstd::arithmetic::mul::lemma_mul_left_inequality(-v, g, DECAY_ONE as int);
        }
        assert(tz_div((-v) * g, DECAY_ONE as int) <= -v) by {
            vstd::arithmetic::div_mod::lemma_div_is_ordered(
                (-v) * g,
                (-v) * (DECAY_ONE as int),
                DECAY_ONE as int,
            );
            vstd::arithmetic::div_mod::lemma_div_multiples_vanish(-v, DECAY_ONE as int);
            vstd::arithmetic::mul::lemma_mul_is_commutative(-v, DECAY_ONE as int);
        }
    }
}

/// One decay step on a nonzero velocity strictly shrinks its magnitude: the
/// factor is strictly below one, so a decaying velocity never stalls above
/// zero and must eventually collapse.
pub proof fn lemma_decay_step_strict(v: int, g: int)
    requires
        0 <= g < DECAY_ONE,
        v != 0,
    ensures
        v > 0 ==> 0 <= decay_step(v, g) < v,
        v < 0 ==> v < decay_step(v, g) <= 0,
{
    lemma_decay_step_bounds(v, g);
    let one = DECAY_ONE as int;
    if v > 0 {
        assert(v * g <= v * (one - 1)) by {
            vstd::arithmetic::mul::lemma_mul_left_inequality(v, g, one - 1);
        }
        assert(v * (one - 1) == v * one - v) by {
            vstd::arithmetic::mul::lemma_mul_is_distributive_sub(v, one, 1);
            vstd::arithmetic::mul::lemma_mul_basics(v);
        }
        assert((v * one - 1) / one == v - 1) by {
            assert(v * one - 1 == one * (v - 1) + (one - 1)) by {
                vstd::arithmetic::mul::lemma_mul_is_distributive_sub(one, v, 1);
                vstd::arithmetic::mul::lemma_mul_basics(one);
                vstd::arithmetic::mul::lemma_mul_is_commutative(v, one);
            }
            vstd::arithmetic::div_mod::lemma_fundamental_div_mod_converse(
                v * one - 1,
                one,
                v - 1,
                one - 1,
            );
        }
        vstd::arithmetic::mul::lemma_mul_nonnegative(v, g);
        assert((v * g) / one <= (v * one - 1) / one) by {
            vstd::arithmetic::div_mod::lemma_div_is_ordered(v * g, v * one - 1, one);
        }
    } else {
        let w = -v;
        assert(w * g == -(v * g)) by {
            vstd::arithmetic::mul::lemma_mul_unary_negation(v, g);
        }
        assert(w * g <= w * (one - 1)) by {
            vstd::arithmetic::mul::lemma_mul_left_inequality(w, g, one - 1);
        }
        assert(w * (one - 1) == w * one - w) by {
            vstd::arithmetic::mul::lemma_mul_is_distributive_sub(w, one, 1);
            vstd::arithmetic::mul::lemma_mul_basics(w);
        }
        assert((w * one - 1) / one == w - 1) by {
            assert(w * one - 1 == one * (w - 1) + (one - 1)) by {
                vstd::arithmetic::mul::lemma_mul_is_distributive_sub(one, w, 1);
                vstd::arithmetic::mul::lemma_mul_basics(one);
                vstd::arithmetic::mul::lemma_mul_is_commutative(w, one);
            }
            vstd::arithmetic::div_mod::lemma_fundamental_div_mod_converse(
                w * one - 1,
                one,
                w - 1,
                one - 1,
            );
        }
        vstd::arithmetic::mul::lemma_mul_nonnegative(w, g);
        assert((w * g) / one <= (w * one - 1) / one) by {
            vstd::arithmetic::div_mod::lemma_div_is_ordered(w * g, w * one - 1, one);
        }
    }
}

/// At least one decay step on a nonzero velocity strictly shrinks its
/// magnitude: while momentum persists, the velocity keeps falling toward
/// (and eventually under) the collapse threshold; it never stalls.
pub proof fn lemma_decay_steps_strict(v: int, g: int, n: nat)
    requires
        0 <= g < DECAY_ONE,
        v != 0,
        n >= 1,
    ensures
        v > 0 ==> 0 <= decay_steps(v, g, n) < v,
        v < 0 ==> v < decay_steps(v, g, n) <= 0,
    decreases n,
{
    lemma_decay_step_strict(v, g);
    let v1 = decay_step(v, g);
    assert(decay_steps(v, g, n) == decay_steps(v1, g, (n - 1) as nat));
    if n == 1 {
        assert(decay_steps(v1, g, 0) == v1);
    } else {
        if v1 == 0 {
            lemma_decay_steps_bounds(v1, g, (n - 1) as nat);
        } else {
            lemma_decay_steps_strict(v1, g, (n - 1) as nat);
        }
    }
}

/// Any number of decay steps shrinks magnitude and keeps sign.
pub proof fn lemma_decay_steps_bounds(v: int, g: int, n: nat)
    requires
        0 <= g < DECAY_ONE,
    ensures
        v >= 0 ==> 0 <= decay_steps(v, g, n) <= v,
        v <= 0 ==> v <= decay_steps(v, g, n) <= 0,
    decreases n,
{
    if n > 0 {
        lemma_decay_step_bounds(v, g);
        lemma_decay_steps_bounds(decay_step(v, g), g, (n - 1) as nat);
    }
}

/// Frame-rate independence of decay: decaying over `a` milliseconds and then
/// over `b` more is exactly decaying over `a + b` milliseconds, for any split.
pub proof fn lemma_decay_steps_add(v: int, g: int, a: nat, b: nat)
    ensures
        decay_steps(decay_steps(v, g, a), g, b) == decay_steps(v, g, a + b),
    decreases a,
{
    if a > 0 {
        lemma_decay_steps_add(decay_step(v, g), g, (a - 1) as nat, b);
    }
}

/// One millisecond of decay on one velocity component, executable.
fn decay_step_exec(v: i64, g: u64) -> (r: i64)
    requires
        g < DECAY_ONE,
        -VEL_MAX <= v <= VEL_MAX,
    ensures
        r == decay_step(v as int, g as int),
        v >= 0 ==> 0 <= r <= v,
        v <= 0 ==> v <= r <= 0,
{
    proof {
        lemma_decay_step_bounds(v as int, g as int);
        crate::fx::lemma_mul_abs_bound(v as int, VEL_MAX as int, g as int, DECAY_ONE as int);
        assert(VEL_MAX * (DECAY_ONE as int) <= (i64::MAX as int) * (DECAY_ONE as int)) by {
            vstd::arithmetic::mul::lemma_mul_inequality(
                VEL_MAX as int,
                i64::MAX as int,
                DECAY_ONE as int,
            );
            vstd::arithmetic::mul::lemma_mul_is_commutative(VEL_MAX as int, DECAY_ONE as int);
            vstd::arithmetic::mul::lemma_mul_is_commutative(i64::MAX as int, DECAY_ONE as int);
        }
    }
    crate::fx::mul_div(v, g as i64, DECAY_ONE as i64)
}

/// `steps` milliseconds of decay on a 2D velocity, executable.
fn decay_vec(v: FxVec2, g: u64, steps: u64) -> (r: FxVec2)
    requires
        g < DECAY_ONE,
        -VEL_MAX <= v.x <= VEL_MAX,
        -VEL_MAX <= v.y <= VEL_MAX,
    ensures
        r.x == decay_steps(v.x as int, g as int, steps as nat),
        r.y == decay_steps(v.y as int, g as int, steps as nat),
        -VEL_MAX <= r.x <= VEL_MAX,
        -VEL_MAX <= r.y <= VEL_MAX,
{
    let mut out = v;
    let mut k: u64 = 0;
    proof {
        lemma_decay_steps_bounds(v.x as int, g as int, steps as nat);
        lemma_decay_steps_bounds(v.y as int, g as int, steps as nat);
    }
    while k < steps
        invariant
            g < DECAY_ONE,
            k <= steps,
            -VEL_MAX <= v.x <= VEL_MAX,
            -VEL_MAX <= v.y <= VEL_MAX,
            out.x == decay_steps(v.x as int, g as int, k as nat),
            out.y == decay_steps(v.y as int, g as int, k as nat),
            -VEL_MAX <= out.x <= VEL_MAX,
            -VEL_MAX <= out.y <= VEL_MAX,
        decreases steps - k,
    {
        proof {
            lemma_decay_steps_add(v.x as int, g as int, k as nat, 1);
            lemma_decay_steps_add(v.y as int, g as int, k as nat, 1);
            assert(decay_steps(decay_step(out.x as int, g as int), g as int, 0) == decay_step(
                out.x as int,
                g as int,
            ));
            assert(decay_steps(out.x as int, g as int, 1) == decay_steps(
                decay_step(out.x as int, g as int),
                g as int,
                0,
            ));
            assert(decay_steps(decay_step(out.y as int, g as int), g as int, 0) == decay_step(
                out.y as int,
                g as int,
            ));
            assert(decay_steps(out.y as int, g as int, 1) == decay_steps(
                decay_step(out.y as int, g as int),
                g as int,
                0,
            ));
            lemma_decay_steps_bounds(v.x as int, g as int, (k + 1) as nat);
            lemma_decay_steps_bounds(v.y as int, g as int, (k + 1) as nat);
        }
        out = FxVec2 { x: decay_step_exec(out.x, g), y: decay_step_exec(out.y, g) };
        k = k + 1;
    }
    out
}

/// Residual velocity of a released motion, if any.
#[derive(Clone, Copy, Debug, PartialEq, Eq, Structural)]
pub enum Velocity {
    /// No residual motion.
    Idle,
    /// Orbiting momentum about an anchor.
    Orbit {
        /// The view-space point the motion orbits about.
        anchor: FxVec3,
        /// Angular screen-space velocity.
        velocity: FxVec2,
    },
    /// Panning momentum with an anchor.
    Pan {
        /// The view-space point the motion pans with.
        anchor: FxVec3,
        /// Screen-space velocity.
        velocity: FxVec2,
    },
}

impl Default for Velocity {
    /// No residual motion.
    fn default() -> (r: Velocity)
        ensures
            r is Idle,
    {
        Velocity::Idle
    }
}

/// A bounded velocity.
pub open spec fn velocity_wf(v: Velocity) -> bool {
    match v {
        Velocity::Idle => true,
        Velocity::Orbit { velocity, .. } => -VEL_MAX <= velocity.x <= VEL_MAX && -VEL_MAX
            <= velocity.y <= VEL_MAX,
        Velocity::Pan { velocity, .. } => -VEL_MAX <= velocity.x <= VEL_MAX && -VEL_MAX
            <= velocity.y <= VEL_MAX,
    }
}

/// Does a decayed velocity pair fall under the collapse threshold? The bound
/// is the square of [`DECAY_THRESHOLD`], so no square root is needed.
pub open spec fn under_threshold(x: int, y: int) -> bool {
    x * x + y * y <= 1_000_000_000_000
}

impl Velocity {
    /// Decay this velocity by `steps` milliseconds, collapsing to
    /// [`Velocity::Idle`] once the magnitude falls to [`DECAY_THRESHOLD`] or
    /// below.
    ///
    /// Orbit velocities use `orbit_factor`, pan velocities `pan_factor`: the
    /// per-millisecond factors that [`Momentum::orbit_decay`] and
    /// [`Momentum::pan_decay`] derive from the configured momentum amounts.
    /// The anchor is untouched.
    pub fn decay(&mut self, orbit_factor: u64, pan_factor: u64, steps: u64)
        requires
            velocity_wf(*old(self)),
            orbit_factor < DECAY_ONE,
            pan_factor < DECAY_ONE,
        ensures
            velocity_wf(*final(self)),
            *old(self) is Idle ==> *final(self) is Idle,
            *final(self) is Orbit ==> *old(self) is Orbit,
            *final(self) is Pan ==> *old(self) is Pan,
            match (*old(self), *final(self)) {
                (Velocity::Orbit { anchor: a0, velocity: v0 }, Velocity::Orbit {
                    anchor: a1,
                    velocity: v1,
                }) => {
                    &&& a1 == a0
                    &&& v1.x == decay_steps(
                        v0.x as int,
                        orbit_factor as int,
                        steps as nat,
                    )
                    &&& v1.y == decay_steps(
                        v0.y as int,
                        orbit_factor as int,
                        steps as nat,
                    )
                    &&& !under_threshold(v1.x as int, v1.y as int)
                },
                (Velocity::Pan { anchor: a0, velocity: v0 }, Velocity::Pan {
                    anchor: a1,
                    velocity: v1,
                }) => {
                    &&& a1 == a0
                    &&& v1.x == decay_steps(
                        v0.x as int,
                        pan_factor as int,
                        steps as nat,
                    )
                    &&& v1.y == decay_steps(
                        v0.y as int,
                        pan_factor as int,
                        steps as nat,
                    )
                    &&& !under_threshold(v1.x as int, v1.y as int)
                },
                (Velocity::Orbit { velocity: v0, .. }, Velocity::Idle) => under_threshold(
                    decay_steps(v0.x as int, orbit_factor as int, steps as nat),
                    decay_steps(v0.y as int, orbit_factor as int, steps as nat),
                ),
                (Velocity::Pan { velocity: v0, .. }, Velocity::Idle) => under_threshold(
                    decay_steps(v0.x as int, pan_factor as int, steps as nat),
                    decay_steps(v0.y as int, pan_factor as int, steps as nat),
                ),
                (Velocity::Idle, Velocity::Idle) => true,
                _ => false,
            },
    {
        let next = match *self {
            Velocity::Idle => Velocity::Idle,
            Velocity::Orbit { anchor, velocity } => {
                let d = decay_vec(velocity, orbit_factor, steps);
                if Self::under_threshold_exec(d) {
                    Velocity::Idle
                } else {
                    Velocity::Orbit { anchor, velocity: d }
                }
            },
            Velocity::Pan { anchor, velocity } => {
                let d = decay_vec(velocity, pan_factor, steps);
                if Self::under_threshold_exec(d) {
                    Velocity::Idle
                } else {
                    Velocity::Pan { anchor, velocity: d }
                }
            },
        };
        *self = next;
    }

    /// Does the velocity pair fall at or under the collapse threshold?
    fn under_threshold_exec(v: FxVec2) -> (r: bool)
        requires
            -VEL_MAX <= v.x <= VEL_MAX,
            -VEL_MAX <= v.y <= VEL_MAX,
        ensures
            r == under_threshold(v.x as int, v.y as int),
    {
        let sq: u128 = v.len_sq();
        sq <= 1_000_000_000_000
    }
}

} // verus!
