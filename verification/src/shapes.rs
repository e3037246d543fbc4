use vstd::prelude::*;

verus! {

/// A shape that a script describes.
#[derive(Debug, PartialEq, Eq, Structural)]
pub enum Shape {
    Rect(Rect),
    Cube(Cube),
}

/// A unit square in the plane.
#[derive(Debug, PartialEq, Eq, Structural)]
pub struct Rect {}

/// A unit cube.
#[derive(Debug, PartialEq, Eq, Structural)]
pub struct Cube {}

} // verus!
