//! Positions and sizes on the canvas.

use vstd::prelude::*;

verus! {

/// A cell of the canvas, counted from the top left corner.
#[derive(Clone, Copy, Debug, PartialEq, Eq, Hash, Structural)]
pub struct Position {
    pub x: usize,
    pub y: usize,
}

/// A width and a height, in cells.
#[derive(Clone, Copy, Debug, PartialEq, Eq, Hash, Structural)]
pub struct Size {
    pub width: usize,
    pub height: usize,
}

impl Position {
    /// A cell that some canvas can hold: both coordinates lie below the
    /// largest width and height a canvas can have.
    pub open spec fn addressable(self) -> bool {
        self.x < usize::MAX && self.y < usize::MAX
    }

    pub fn new(x: usize, y: usize) -> (p: Position)
        ensures
            p == (Position { x, y }),
    {
        Position { x, y }
    }
}

impl Size {
    /// The number of cells in a rectangle of this size.
    pub open spec fn cells(self) -> nat {
        (self.width * self.height) as nat
    }

    /// Whether `p` lies inside a rectangle of this size that starts at the
    /// origin.
    pub open spec fn holds(self, p: Position) -> bool {
        p.x < self.width && p.y < self.height
    }

    pub fn new(width: usize, height: usize) -> (s: Size)
        ensures
            s == (Size { width, height }),
    {
        Size { width, height }
    }
}

} // verus!
