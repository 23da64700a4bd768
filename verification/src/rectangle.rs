//! A rectangle measured in whole pixels.

use vstd::prelude::*;

verus! {

/// A rectangle with sides of `width` and `height` pixels.
#[derive(Debug)]
pub struct Rectangle {
    pub width: u32,
    pub height: u32,
}

impl Rectangle {
    /// The area in square pixels, as a mathematical integer.
    pub open spec fn spec_area(&self) -> int {
        self.width * self.height
    }
}

/// The area of `rectangle` in square pixels.
///
/// The product has to fit in a `u32`.
pub fn area(rectangle: &Rectangle) -> (pixels: u32)
    requires
        rectangle.spec_area() <= u32::MAX,
    ensures
        pixels == rectangle.spec_area(),
{
    rectangle.width * rectangle.height
}

} // verus!
