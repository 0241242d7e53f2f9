//! Positions and rectangles on the screen.
//!
//! Coordinates are whole numbers of the smallest unit that the layout works
//! in. The `x` axis points right and the `y` axis points down.

use vstd::prelude::*;

verus! {

/// A position on the screen.
#[derive(Clone, Copy, Debug, PartialEq, Eq, Hash, Structural)]
pub struct Pos2 {
    pub x: i32,
    pub y: i32,
}

impl Pos2 {
    pub fn new(x: i32, y: i32) -> (pos: Pos2)
        ensures
            pos == (Pos2 { x, y }),
    {
        Pos2 { x, y }
    }
}

/// An axis-aligned rectangle, given by its top left and bottom right corners.
#[derive(Clone, Copy, Debug, PartialEq, Eq, Hash, Structural)]
pub struct Rect {
    pub min: Pos2,
    pub max: Pos2,
}

impl Rect {
    pub fn from_min_max(min: Pos2, max: Pos2) -> (rect: Rect)
        ensures
            rect == (Rect { min, max }),
    {
        Rect { min, max }
    }
}

} // verus!
