//! The random source.
//!
//! Randomness is never ambient: every function that draws takes the
//! generator it draws from, so that a run is determined by the generator's
//! seed and the order of the calls.

use vstd::prelude::*;
use rand::Rng;
use rand::rngs::StdRng;
use crate::fixed::wrap_angle;
use crate::fixed::PI;
use crate::fixed::TAU;
use crate::fixed::UNIT;
use crate::geometry::Point;

verus! {

#[verifier::external_type_specification]
#[verifier::external_body]
pub struct ExStdRng(rand::rngs::StdRng);

/// `rand::Rng::gen_range` on the half-open range `low..high` of `i64`.
///
/// Trusted: `gen_range` panics on an empty range, which the precondition
/// rules out, and otherwise returns a member of the range. Nothing else is
/// claimed of the value drawn.
#[verifier::external_body]
fn draw(rng: &mut StdRng, low: i64, high: i64) -> (r: i64)
    requires
        low < high,
    ensures
        low <= r < high,
{
    rng.gen_range(low..high)
}

/// A place of the world, each coordinate drawn from `[0, 1)`.
pub fn random_point(rng: &mut StdRng) -> (point: Point)
    ensures
        point.in_world(),
{
    let x: i64 = draw(rng, 0, UNIT);
    let y: i64 = draw(rng, 0, UNIT);
    Point { x, y }
}

/// A heading, drawn from a full turn and wrapped into `(-PI, PI]`.
pub fn random_rotation(rng: &mut StdRng) -> (rotation: i64)
    ensures
        -PI < rotation <= PI,
{
    let angle: i64 = draw(rng, 0, TAU);
    wrap_angle(angle)
}

} // verus!
