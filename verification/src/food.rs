//! Food: what the animals forage for.

use vstd::prelude::*;
use rand::rngs::StdRng;
use crate::geometry::Point;
use crate::random::random_point;

verus! {

/// A food item. It is never destroyed: once eaten it reappears elsewhere.
pub struct Food {
    position: Point,
}

impl View for Food {
    type V = Point;

    /// A food item is its position.
    closed spec fn view(&self) -> Point {
        self.position
    }
}

/// Where each of `foods` lies, in order.
pub open spec fn places_of(foods: Seq<Food>) -> Seq<Point> {
    Seq::new(foods.len(), |i: int| foods[i]@)
}

impl Food {
    /// The item lies in the world.
    pub open spec fn wf(&self) -> bool {
        self@.in_world()
    }

    /// A food item at a given place of the world.
    pub fn new(position: Point) -> (food: Food)
        requires
            position.in_world(),
        ensures
            food@ == position,
            food.wf(),
    {
        Food { position }
    }

    /// A food item at a place drawn from `rng`.
    pub fn random(rng: &mut StdRng) -> (food: Food)
        ensures
            food.wf(),
    {
        Food::new(random_point(rng))
    }

    pub fn position(&self) -> (position: Point)
        ensures
            position == self@,
    {
        self.position
    }

    /// Moves the item to another place of the world.
    pub fn relocate(&mut self, position: Point)
        requires
            position.in_world(),
        ensures
            final(self)@ == position,
            final(self).wf(),
    {
        self.position = position;
    }
}

} // verus!
