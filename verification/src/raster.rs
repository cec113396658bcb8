//! The mathematical model of a pixel buffer: a width, a height and the
//! cells row by row.

use vstd::prelude::*;
use vstd::arithmetic::div_mod::{
    lemma_fundamental_div_mod, lemma_fundamental_div_mod_converse, lemma_mod_pos_bound,
    lemma_multiply_divide_lt, lemma_div_pos_is_pos,
};
use vstd::arithmetic::mul::lemma_mul_is_commutative;
use crate::color::Color;
use crate::geometry::{Position, Size};

verus! {

/// What a pixel buffer holds. Cell `(x, y)` stands at index
/// `x + y * width` of `cells`.
pub struct Raster {
    pub width: nat,
    pub height: nat,
    pub cells: Seq<Color>,
}

/// The most bytes that one cell takes up in memory: its colour, and while
/// a buffer is copied its position beside it.
pub const CELL_BYTES: usize = 24;

/// The index of column `x` in row `y` of a grid `width` cells wide.
pub open spec fn offset(width: int, x: int, y: int) -> int {
    x + y * width
}

/// The column of the cell at index `i`.
pub open spec fn column(width: int, i: int) -> int {
    i % width
}

/// The row of the cell at index `i`.
pub open spec fn row(width: int, i: int) -> int {
    i / width
}

impl Raster {
    /// There is one cell for each position.
    pub open spec fn wf(self) -> bool {
        self.cells.len() == self.width * self.height
    }

    /// The cells fit one allocation, which holds `isize::MAX` bytes at
    /// most.
    pub open spec fn fits_memory(self) -> bool {
        self.width * self.height * CELL_BYTES <= isize::MAX
    }

    pub open spec fn has(self, x: int, y: int) -> bool {
        0 <= x < self.width && 0 <= y < self.height
    }

    pub open spec fn contains(self, p: Position) -> bool {
        self.has(p.x as int, p.y as int)
    }

    pub open spec fn cell(self, x: int, y: int) -> Color {
        self.cells[offset(self.width as int, x, y)]
    }

    pub open spec fn at(self, p: Position) -> Color {
        self.cell(p.x as int, p.y as int)
    }

    /// What a bounds-checked read of `p` gives.
    pub open spec fn read(self, p: Position) -> Option<Color> {
        if self.contains(p) {
            Some(self.at(p))
        } else {
            None
        }
    }

    /// A raster with every cell of one colour.
    pub open spec fn filled(width: nat, height: nat, color: Color) -> Raster {
        Raster { width, height, cells: Seq::new(width * height, |i: int| color) }
    }

    /// This raster with cell `p` set to `color`.
    pub open spec fn with_pixel(self, p: Position, color: Color) -> Raster {
        Raster {
            width: self.width,
            height: self.height,
            cells: self.cells.update(offset(self.width as int, p.x as int, p.y as int), color),
        }
    }

    /// The colour that cell `(x, y)` has after a resize: the old colour
    /// where the old raster had that cell, the background elsewhere.
    pub open spec fn carried(self, x: int, y: int) -> Color {
        if self.has(x, y) {
            self.cell(x, y)
        } else {
            Color::background()
        }
    }

    /// This raster cut or grown to `width` by `height`.
    pub open spec fn resized(self, width: nat, height: nat) -> Raster {
        Raster {
            width,
            height,
            cells: Seq::new(
                width * height,
                |i: int| self.carried(column(width as int, i), row(width as int, i)),
            ),
        }
    }

    /// Whether the window of `size` cells that starts at `min` lies inside
    /// this raster.
    pub open spec fn holds_window(self, min: Position, size: Size) -> bool {
        min.x + size.width <= self.width && min.y + size.height <= self.height
    }

    /// The cells of the window of `size` that starts at `min`, row by row.
    pub open spec fn window(self, min: Position, size: Size) -> Seq<Color> {
        Seq::new(
            size.cells(),
            |i: int|
                self.cell(
                    min.x + column(size.width as int, i),
                    min.y + row(size.width as int, i),
                ),
        )
    }
}

/// A cell inside a grid has an index inside the grid, and the index gives
/// the cell back.
pub proof fn lemma_offset_in_grid(width: int, height: int, x: int, y: int)
    requires
        0 <= x < width,
        0 <= y < height,
    ensures
        0 <= offset(width, x, y) < width * height,
        column(width, offset(width, x, y)) == x,
        row(width, offset(width, x, y)) == y,
{
    assert(0 <= y * width && y * width + width <= width * height) by (nonlinear_arith)
        requires
            0 <= y < height,
            0 <= width,
    ;
    lemma_fundamental_div_mod_converse(offset(width, x, y), width, y, x);
}

/// An index inside a grid names a cell inside the grid, and the cell gives
/// the index back.
pub proof fn lemma_cell_of_index(width: int, height: int, i: int)
    requires
        0 <= i < width * height,
        0 <= height,
        0 <= width,
    ensures
        0 <= column(width, i) < width,
        0 <= row(width, i) < height,
        offset(width, column(width, i), row(width, i)) == i,
{
    assert(width > 0) by (nonlinear_arith)
        requires
            0 <= i < width * height,
            0 <= height,
            0 <= width,
    ;
    lemma_mod_pos_bound(i, width);
    lemma_div_pos_is_pos(i, width);
    lemma_multiply_divide_lt(i, width, height);
    lemma_fundamental_div_mod(i, width);
    lemma_mul_is_commutative(width, i / width);
}

impl Raster {
    /// A pixel that was written is read back, and no other pixel changes.
    pub proof fn lemma_with_pixel(self, p: Position, color: Color, q: Position)
        requires
            self.wf(),
            self.contains(p),
        ensures
            self.with_pixel(p, color).wf(),
            self.with_pixel(p, color).read(p) == Some(color),
            q != p ==> self.with_pixel(p, color).read(q) == self.read(q),
    {
        let w = self.width as int;
        let h = self.height as int;
        lemma_offset_in_grid(w, h, p.x as int, p.y as int);
        if self.contains(q) {
            lemma_offset_in_grid(w, h, q.x as int, q.y as int);
        }
    }

    /// After a resize each cell holds what the old raster had there, or
    /// the background where the old raster had no such cell.
    pub proof fn lemma_resized(self, width: nat, height: nat, x: int, y: int)
        requires
            0 <= x < width,
            0 <= y < height,
        ensures
            self.resized(width, height).wf(),
            self.resized(width, height).cell(x, y) == self.carried(x, y),
    {
        lemma_offset_in_grid(width as int, height as int, x, y);
    }
}

} // verus!
