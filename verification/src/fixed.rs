//! Fixed-point arithmetic.
//!
//! Every quantity of the simulation is a whole number of millionths: lengths
//! in millionths of the world's side, angles in millionths of a radian,
//! energies in millionths of the full signal. All operations here are exact
//! on those integers; none of them rounds silently or can overflow.

use vstd::prelude::*;
use vstd::arithmetic::div_mod::lemma_fundamental_div_mod;
use vstd::arithmetic::div_mod::lemma_fundamental_div_mod_converse;

verus! {

/// The number one: the side of the world, and the energy of a food item at
/// distance zero.
pub const UNIT: i64 = 1_000_000;

/// Half a turn. Even, so that a quarter turn and a full turn are exact.
pub const PI: i64 = 3_141_592;

/// A full turn.
pub const TAU: i64 = 6_283_184;

/// A quarter turn.
pub const FRAC_PI_2: i64 = 1_570_796;

/// An eighth of a turn.
pub const FRAC_PI_4: i64 = 785_398;

/// `value` limited to `[low, high]`.
pub open spec fn clamp_spec(value: int, low: int, high: int) -> int {
    if value < low {
        low
    } else if value > high {
        high
    } else {
        value
    }
}

/// The representative of `value` in `[low, high)` modulo `high - low`.
pub open spec fn wrap_spec(value: int, low: int, high: int) -> int {
    low + (value - low) % (high - low)
}

/// The representative of `angle` in `(-PI, PI]` modulo a full turn.
pub open spec fn wrap_angle_spec(angle: int) -> int {
    PI - (PI - angle) % (TAU as int)
}

/// `r` is the integer square root of `n`: the largest integer whose square
/// does not exceed `n`.
pub open spec fn is_sqrt_floor(n: int, r: int) -> bool {
    0 <= r && r * r <= n < (r + 1) * (r + 1)
}

/// The integer square root of `n`.
pub open spec fn sqrt_floor_spec(n: int) -> int {
    choose|r: int| is_sqrt_floor(n, r)
}

/// At most one integer is the integer square root of `n`.
pub proof fn lemma_sqrt_floor_unique(n: int, r: int, s: int)
    requires
        is_sqrt_floor(n, r),
        is_sqrt_floor(n, s),
    ensures
        r == s,
{
    if r < s {
        assert((r + 1) * (r + 1) <= s * s) by (nonlinear_arith)
            requires
                0 <= r + 1 <= s,
        ;
    }
    if s < r {
        assert((s + 1) * (s + 1) <= r * r) by (nonlinear_arith)
            requires
                0 <= s + 1 <= r,
        ;
    }
}

/// Every number that is not negative has an integer square root.
pub proof fn lemma_sqrt_floor_exists(n: int)
    requires
        n >= 0,
    ensures
        is_sqrt_floor(n, sqrt_floor_spec(n)),
{
    assert((n + 1) * (n + 1) > n) by (nonlinear_arith)
        requires
            n >= 0,
    ;
    lemma_sqrt_floor_below(n, n + 1);
}

/// Among the integers below `bound`, whose square exceeds `n`, one is the
/// integer square root of `n`.
proof fn lemma_sqrt_floor_below(n: int, bound: int)
    requires
        n >= 0,
        bound >= 0,
        bound * bound > n,
    ensures
        exists|r: int| is_sqrt_floor(n, r),
    decreases bound,
{
    if bound == 0 {
    } else if (bound - 1) * (bound - 1) <= n {
        assert(is_sqrt_floor(n, bound - 1));
    } else {
        lemma_sqrt_floor_below(n, bound - 1);
    }
}

/// An integer that passes the test is the integer square root.
pub proof fn lemma_sqrt_floor_is(n: int, r: int)
    requires
        is_sqrt_floor(n, r),
    ensures
        sqrt_floor_spec(n) == r,
{
    lemma_sqrt_floor_unique(n, r, sqrt_floor_spec(n));
}

/// What is wrapped lies in `[low, high)`, a whole number of widths away
/// from where it was.
pub proof fn lemma_wrap_lands(value: int, low: int, high: int)
    requires
        low < high,
    ensures
        low <= wrap_spec(value, low, high) < high,
        (wrap_spec(value, low, high) - value) % (high - low) == 0,
{
    let width = high - low;
    lemma_fundamental_div_mod(value - low, width);
    vstd::arithmetic::div_mod::lemma_mod_bound(value - low, width);
    let turns = (value - low) / width;
    assert(wrap_spec(value, low, high) - value == width * (-turns)) by (nonlinear_arith)
        requires
            value - low == width * turns + (wrap_spec(value, low, high) - low),
    ;
    vstd::arithmetic::div_mod::lemma_mod_multiples_basic(-turns, width);
    assert(width * (-turns) == (-turns) * width) by (nonlinear_arith);
}

/// A wrapped angle lies in `(-PI, PI]`, a whole number of turns away from
/// where it was.
pub proof fn lemma_wrap_angle_lands(angle: int)
    ensures
        -PI < wrap_angle_spec(angle) <= PI,
        (wrap_angle_spec(angle) - angle) % (TAU as int) == 0,
{
    let tau = TAU as int;
    lemma_fundamental_div_mod(PI - angle, tau);
    vstd::arithmetic::div_mod::lemma_mod_bound(PI - angle, tau);
    let turns = (PI - angle) / tau;
    assert(wrap_angle_spec(angle) - angle == turns * tau) by (nonlinear_arith)
        requires
            PI - angle == tau * turns + (PI - wrap_angle_spec(angle)),
    ;
    vstd::arithmetic::div_mod::lemma_mod_multiples_basic(turns, tau);
}

/// An angle in `(-PI, PI]` is its own wrapping.
pub proof fn lemma_wrap_angle_keeps(angle: int)
    requires
        -PI < angle <= PI,
    ensures
        wrap_angle_spec(angle) == angle,
{
    vstd::arithmetic::div_mod::lemma_small_mod((PI - angle) as nat, TAU as nat);
}

/// Limits `value` to `[low, high]`.
pub fn clamp(value: i64, low: i64, high: i64) -> (r: i64)
    requires
        low <= high,
    ensures
        r == clamp_spec(value as int, low as int, high as int),
        low <= r <= high,
{
    if value < low {
        low
    } else if value > high {
        high
    } else {
        value
    }
}

/// Floor division and its remainder, for a positive divisor.
pub fn div_floor(value: i128, divisor: i128) -> (qr: (i128, i128))
    requires
        divisor > 0,
        value > i128::MIN,
    ensures
        qr.0 == value as int / divisor as int,
        qr.1 == value as int % divisor as int,
        0 <= qr.1 < divisor,
{
    proof {
        lemma_fundamental_div_mod(value as int, divisor as int);
    }
    if value >= 0 {
        (value / divisor, value % divisor)
    } else {
        let flipped: i128 = -value;
        let q: i128 = flipped / divisor;
        let k: i128 = flipped % divisor;
        proof {
            lemma_fundamental_div_mod(flipped as int, divisor as int);
            assert(q * divisor == divisor * q) by (nonlinear_arith);
            assert(q >= 0 && q <= flipped) by (nonlinear_arith)
                requires
                    flipped == divisor * q + k,
                    0 <= k < divisor,
                    divisor >= 1,
                    flipped >= 0,
            ;
        }
        if k == 0 {
            proof {
                assert(value as int == (-q) * divisor + 0) by (nonlinear_arith)
                    requires
                        -value == divisor * q + k,
                        k == 0,
                ;
                lemma_fundamental_div_mod_converse(value as int, divisor as int, -q as int, 0);
            }
            (-q, 0)
        } else {
            proof {
                assert(value as int == (-q - 1) * divisor + (divisor - k)) by (nonlinear_arith)
                    requires
                        -value == divisor * q + k,
                ;
                lemma_fundamental_div_mod_converse(
                    value as int,
                    divisor as int,
                    -q - 1,
                    divisor - k,
                );
            }
            (-q - 1, divisor - k)
        }
    }
}

/// Wraps `value` into `[low, high)`, as on a circle of circumference
/// `high - low`.
pub fn wrap(value: i64, low: i64, high: i64) -> (r: i64)
    requires
        low < high,
    ensures
        r == wrap_spec(value as int, low as int, high as int),
        low <= r < high,
{
    let width: i128 = high as i128 - low as i128;
    let offset: i128 = value as i128 - low as i128;
    let (_, m) = div_floor(offset, width);
    (low as i128 + m) as i64
}

/// The angle that leads from the direction `from` to the direction `to`,
/// wrapped into `(-PI, PI]`.
pub fn angle_difference(to: i64, from: i64) -> (r: i64)
    ensures
        r == wrap_angle_spec(to - from),
        -PI < r <= PI,
{
    let turned: i128 = to as i128 - from as i128;
    let (_, m) = div_floor(PI as i128 - turned, TAU as i128);
    (PI as i128 - m) as i64
}

/// Wraps an angle into `(-PI, PI]`.
pub fn wrap_angle(angle: i64) -> (r: i64)
    ensures
        r == wrap_angle_spec(angle as int),
        -PI < r <= PI,
{
    angle_difference(angle, 0)
}

/// The integer square root of `n`.
pub fn sqrt_floor(n: u64) -> (r: u64)
    ensures
        is_sqrt_floor(n as int, r as int),
        r == sqrt_floor_spec(n as int),
{
    let mut low: u64 = 0;
    let mut high: u64 = 0x1_0000_0000;
    assert(n < 0x1_0000_0000 * 0x1_0000_0000);
    while high - low > 1
        invariant
            low < high <= 0x1_0000_0000,
            low * low <= n < high * high,
        decreases high - low,
    {
        let mid: u64 = low + (high - low) / 2;
        assert(mid * mid <= 0xffff_ffff * 0xffff_ffff) by (nonlinear_arith)
            requires
                0 <= mid <= 0xffff_ffff,
        ;
        if mid * mid <= n {
            low = mid;
        } else {
            high = mid;
        }
    }
    proof {
        lemma_sqrt_floor_is(n as int, low as int);
    }
    low
}

} // verus!
