//! Areas of rectangles, three ways, and a rectangle type.

use vstd::prelude::*;

verus! {

/// A rectangle with sides in pixels.
#[derive(Clone, Copy, Debug, PartialEq, Eq, Structural)]
pub struct Rectangle {
    pub width: u32,
    pub height: u32,
}

/// The area of a rectangle given by its two sides.
pub fn area(width: u32, height: u32) -> (area: u32)
    requires
        width * height <= u32::MAX,
    ensures
        area == width * height,
{
    width * height
}

/// The area of a rectangle given as a pair of width and height.
pub fn area_touple(dimensions: (u32, u32)) -> (area: u32)
    requires
        dimensions.0 * dimensions.1 <= u32::MAX,
    ensures
        area == dimensions.0 * dimensions.1,
{
    dimensions.0 * dimensions.1
}

/// The area of a rectangle.
pub fn area_struct(dimensions: &Rectangle) -> (area: u32)
    requires
        dimensions.width * dimensions.height <= u32::MAX,
    ensures
        area == dimensions.width * dimensions.height,
{
    dimensions.width * dimensions.height
}

impl Rectangle {
    /// The area of this rectangle.
    pub fn area(&self) -> (area: u32)
        requires
            self.width * self.height <= u32::MAX,
        ensures
            area == self.width * self.height,
    {
        self.width * self.height
    }

    /// Whether this rectangle has any width at all.
    pub fn width(&self) -> (wide: bool)
        ensures
            wide == (self.width > 0),
    {
        self.width > 0
    }

    /// Whether `other` fits inside this rectangle with room to spare on
    /// both sides.
    pub fn can_hold(&self, other: &Rectangle) -> (holds: bool)
        ensures
            holds == (self.width > other.width && self.height > other.height),
    {
        self.width > other.width && self.height > other.height
    }

    /// The square of side `size`.
    pub fn square(size: u32) -> (square: Rectangle)
        ensures
            square.width == size,
            square.height == size,
    {
        Rectangle { width: size, height: size }
    }
}

} // verus!
