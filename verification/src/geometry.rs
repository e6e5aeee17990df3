//! Points of the world.

use vstd::prelude::*;
use crate::fixed::sqrt_floor;
use crate::fixed::sqrt_floor_spec;
use crate::fixed::UNIT;

verus! {

/// A point of the plane, each coordinate in millionths of the world's side.
#[derive(Clone, Copy, Debug, PartialEq, Eq, Structural)]
pub struct Point {
    pub x: i64,
    pub y: i64,
}

impl Point {
    /// Both coordinates lie in `[0, 1)`: the point is a place of the world.
    pub open spec fn in_world(self) -> bool {
        0 <= self.x < UNIT && 0 <= self.y < UNIT
    }

    /// The square of the Euclidean distance between two points.
    pub open spec fn distance_squared_spec(self, other: Point) -> int {
        (other.x - self.x) * (other.x - self.x) + (other.y - self.y) * (other.y - self.y)
    }

    /// The Euclidean distance between two points, rounded down.
    pub open spec fn distance_spec(self, other: Point) -> int {
        sqrt_floor_spec(self.distance_squared_spec(other))
    }

    pub fn new(x: i64, y: i64) -> (point: Point)
        ensures
            point.x == x,
            point.y == y,
    {
        Point { x, y }
    }

    /// The square of the Euclidean distance between two places of the world.
    pub fn distance_squared(&self, other: &Point) -> (r: u64)
        requires
            self.in_world(),
            other.in_world(),
        ensures
            r == self.distance_squared_spec(*other),
            r < 2 * UNIT * UNIT,
    {
        let dx: i64 = other.x - self.x;
        let dy: i64 = other.y - self.y;
        assert(0 <= dx * dx < UNIT * UNIT) by (nonlinear_arith)
            requires
                -UNIT < dx < UNIT,
        ;
        assert(0 <= dy * dy < UNIT * UNIT) by (nonlinear_arith)
            requires
                -UNIT < dy < UNIT,
        ;
        (dx * dx + dy * dy) as u64
    }

    /// The Euclidean distance between two places of the world, rounded down.
    pub fn distance(&self, other: &Point) -> (r: i64)
        requires
            self.in_world(),
            other.in_world(),
        ensures
            r == self.distance_spec(*other),
            0 <= r < 2 * UNIT,
            r * r <= self.distance_squared_spec(*other) < (r + 1) * (r + 1),
    {
        let squared: u64 = self.distance_squared(other);
        let root: u64 = sqrt_floor(squared);
        assert(root < 2 * UNIT) by (nonlinear_arith)
            requires
                root * root <= squared,
                squared < 2 * UNIT * UNIT,
                UNIT == 1_000_000,
                root >= 0,
        ;
        root as i64
    }
}

/// A distance is never negative.
pub proof fn lemma_distance_not_negative(from: Point, to: Point)
    ensures
        from.distance_spec(to) >= 0,
{
    let n = from.distance_squared_spec(to);
    assert(n >= 0) by (nonlinear_arith)
        requires
            n == (to.x - from.x) * (to.x - from.x) + (to.y - from.y) * (to.y - from.y),
    ;
    crate::fixed::lemma_sqrt_floor_exists(n);
}

} // verus!
