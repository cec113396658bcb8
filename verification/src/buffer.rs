//! The pixel buffer: the grid of colours that the canvas shows.

use vstd::prelude::*;
use vstd::slice::slice_to_vec;
use crate::color::Color;
use crate::geometry::{Position, Size};
use crate::grid::{
    grid_cells, grid_entries, grid_flat, grid_get, grid_get_mut, grid_height, grid_index,
    grid_new, grid_raster, grid_size, grid_width, Grid,
};
use crate::raster::{
    column, lemma_cell_of_index, lemma_offset_in_grid, offset, row, Raster, CELL_BYTES,
};

verus! {

/// A dense grid of pixels with a fixed width and height.
pub struct PixelBuffer {
    grid: Grid,
}

impl View for PixelBuffer {
    type V = Raster;

    closed spec fn view(&self) -> Raster {
        grid_raster(self.grid)
    }
}

/// What cell `(x, y)` of the new buffer holds while a resize is under
/// way, once the first `done` cells of the old buffer have been looked at.
spec fn carried_so_far(old: Raster, done: int, x: int, y: int) -> Color {
    if old.has(x, y) && offset(old.width as int, x, y) < done {
        old.cell(x, y)
    } else {
        Color::background()
    }
}

impl PixelBuffer {
    /// The buffer holds one cell for each position, and its cells fit one
    /// allocation.
    pub open spec fn wf(&self) -> bool {
        self@.wf() && self@.fits_memory()
    }

    /// Whether a buffer of `size` fits one allocation.
    pub open spec fn allocatable(size: Size) -> bool {
        size.width * size.height * CELL_BYTES <= isize::MAX
    }

    /// Whether a buffer of `size` fits one allocation.
    pub fn can_allocate(size: Size) -> (r: bool)
        ensures
            r == PixelBuffer::allocatable(size),
    {
        match size.width.checked_mul(size.height) {
            Some(cells) => cells <= (isize::MAX as usize) / CELL_BYTES,
            None => {
                proof {
                    assert(size.width * size.height * CELL_BYTES >= size.width * size.height)
                        by (nonlinear_arith)
                        requires
                            CELL_BYTES >= 1,
                    ;
                }
                false
            },
        }
    }

    /// A buffer of `size` with every cell set to `fill`.
    pub fn new(size: Size, fill: Color) -> (buffer: PixelBuffer)
        requires
            PixelBuffer::allocatable(size),
        ensures
            buffer.wf(),
            buffer@ == Raster::filled(size.width as nat, size.height as nat, fill),
    {
        PixelBuffer { grid: grid_new(size.width, size.height, fill) }
    }

    /// The buffer's width and height.
    pub fn size(&self) -> (s: Size)
        ensures
            s.width == self@.width,
            s.height == self@.height,
    {
        grid_size(&self.grid)
    }

    /// The number of cells.
    pub fn len(&self) -> (n: usize)
        ensures
            n == self@.cells.len(),
    {
        grid_flat(&self.grid).len()
    }

    /// The colour at `pos`, or `None` where `pos` lies outside the buffer.
    pub fn get(&self, pos: Position) -> (r: Option<Color>)
        ensures
            r == self@.read(pos),
    {
        match grid_get(&self.grid, pos) {
            Some(color) => Some(*color),
            None => None,
        }
    }

    /// The colour at `pos`, which must lie inside the buffer.
    pub fn at(&self, pos: Position) -> (color: Color)
        requires
            self@.contains(pos),
        ensures
            color == self@.at(pos),
    {
        *grid_index(&self.grid, pos)
    }

    /// Sets the cell at `pos`, which must lie inside the buffer.
    pub fn set(&mut self, pos: Position, color: Color)
        requires
            old(self).wf(),
            old(self)@.contains(pos),
        ensures
            final(self).wf(),
            final(self)@ == old(self)@.with_pixel(pos, color),
    {
        proof {
            lemma_offset_in_grid(
                self@.width as int,
                self@.height as int,
                pos.x as int,
                pos.y as int,
            );
        }
        match grid_get_mut(&mut self.grid, pos) {
            Some(cell) => {
                *cell = color;
            },
            None => {},
        }
    }

    /// A new buffer of `size`: each cell that this buffer also has keeps
    /// its colour, every other cell is white.
    pub fn resize(&self, size: Size) -> (out: PixelBuffer)
        requires
            self.wf(),
            PixelBuffer::allocatable(size),
        ensures
            out.wf(),
            out@ == self@.resized(size.width as nat, size.height as nat),
    {
        let mut grid = grid_new(size.width, size.height, Color::white());
        let entries = grid_entries(&self.grid);
        let ghost before = self@;
        let ghost w = size.width as int;
        let ghost h = size.height as int;
        proof {
            assert forall|j: int| 0 <= j < w * h implies #[trigger] grid_cells(grid)[j]
                == carried_so_far(before, 0, column(w, j), row(w, j)) by {
                lemma_cell_of_index(w, h, j);
                if before.has(column(w, j), row(w, j)) {
                    lemma_offset_in_grid(
                        before.width as int,
                        before.height as int,
                        column(w, j),
                        row(w, j),
                    );
                }
            }
        }
        let mut i: usize = 0;
        while i < entries.len()
            invariant
                i <= entries.len(),
                before == self@,
                before.wf(),
                w == size.width,
                h == size.height,
                entries@.len() == before.cells.len(),
                forall|k: int|
                    0 <= k < entries@.len() ==> {
                        &&& (#[trigger] entries@[k]).0.x == column(before.width as int, k)
                        &&& entries@[k].0.y == row(before.width as int, k)
                        &&& entries@[k].1 == before.cells[k]
                    },
                grid_width(grid) == w,
                grid_height(grid) == h,
                grid_cells(grid).len() == w * h,
                forall|j: int|
                    0 <= j < w * h ==> #[trigger] grid_cells(grid)[j] == carried_so_far(
                        before,
                        i as int,
                        column(w, j),
                        row(w, j),
                    ),
            decreases entries.len() - i,
        {
            let (pos, color) = entries[i];
            let ghost cells_before = grid_cells(grid);
            let ghost target = offset(w, pos.x as int, pos.y as int);
            let ghost written = grid_raster(grid).contains(pos);
            match grid_get_mut(&mut grid, pos) {
                Some(cell) => {
                    *cell = color;
                },
                None => {},
            }
            proof {
                let ow = before.width as int;
                let oh = before.height as int;
                lemma_cell_of_index(ow, oh, i as int);
                assert(entries@[i as int].0 == pos);
                assert(before.has(pos.x as int, pos.y as int));
                assert(offset(ow, pos.x as int, pos.y as int) == i);
                assert(color == before.cell(pos.x as int, pos.y as int));
                if written {
                    lemma_offset_in_grid(w, h, pos.x as int, pos.y as int);
                    assert(grid_cells(grid) == cells_before.update(target, color));
                } else {
                    assert(grid_cells(grid) == cells_before);
                }
                assert forall|j: int| 0 <= j < w * h implies #[trigger] grid_cells(grid)[j]
                    == carried_so_far(before, i + 1, column(w, j), row(w, j)) by {
                    lemma_cell_of_index(w, h, j);
                    let x = column(w, j);
                    let y = row(w, j);
                    if written && j == target {
                    } else {
                        assert(grid_cells(grid)[j] == cells_before[j]);
                        if before.has(x, y) {
                            lemma_offset_in_grid(ow, oh, x, y);
                            if offset(ow, x, y) == i {
                                assert(x == pos.x && y == pos.y);
                                assert(j == target);
                            }
                        }
                    }
                }
            }
            i += 1;
        }
        let out = PixelBuffer { grid };
        proof {
            let goal = before.resized(size.width as nat, size.height as nat);
            assert(out@.cells.len() == goal.cells.len());
            assert forall|j: int| 0 <= j < out@.cells.len() implies out@.cells[j]
                == goal.cells[j] by {
                lemma_cell_of_index(w, h, j);
                let x = column(w, j);
                let y = row(w, j);
                if before.has(x, y) {
                    lemma_offset_in_grid(before.width as int, before.height as int, x, y);
                }
            }
            assert(out@.cells =~= goal.cells);
        }
        out
    }

    /// The window of `size` cells that starts at `min`, row by row, or
    /// `None` where the window reaches outside the buffer.
    pub fn area_flat(&self, min: Position, size: Size) -> (r: Option<Vec<Color>>)
        requires
            self.wf(),
        ensures
            r is Some <==> self@.holds_window(min, size),
            r matches Some(pixels) ==> pixels@ == self@.window(min, size),
    {
        let dims = self.size();
        if min.x > dims.width || size.width > dims.width - min.x || min.y > dims.height
            || size.height > dims.height - min.y {
            return None;
        }
        let ghost sw = size.width as int;
        let ghost sh = size.height as int;
        let mut pixels: Vec<Color> = Vec::new();
        let mut dy: usize = 0;
        while dy < size.height
            invariant
                self.wf(),
                self@.holds_window(min, size),
                self@.width == dims.width,
                self@.height == dims.height,
                sw == size.width,
                sh == size.height,
                dy <= size.height,
                pixels@.len() == dy * sw,
                forall|k: int|
                    0 <= k < pixels@.len() ==> #[trigger] pixels@[k] == self@.cell(
                        min.x + column(sw, k),
                        min.y + row(sw, k),
                    ),
            decreases size.height - dy,
        {
            let mut dx: usize = 0;
            while dx < size.width
                invariant
                    self.wf(),
                    self@.holds_window(min, size),
                    self@.width == dims.width,
                    self@.height == dims.height,
                    sw == size.width,
                    sh == size.height,
                    dy < size.height,
                    dx <= size.width,
                    pixels@.len() == dy * sw + dx,
                    forall|k: int|
                        0 <= k < pixels@.len() ==> #[trigger] pixels@[k] == self@.cell(
                            min.x + column(sw, k),
                            min.y + row(sw, k),
                        ),
                decreases size.width - dx,
            {
                let color = self.at(Position { x: min.x + dx, y: min.y + dy });
                proof {
                    lemma_offset_in_grid(sw, sh, dx as int, dy as int);
                    assert(offset(sw, dx as int, dy as int) == pixels@.len());
                }
                pixels.push(color);
                dx += 1;
            }
            proof {
                assert((dy + 1) * sw == dy * sw + sw) by (nonlinear_arith);
            }
            dy += 1;
        }
        proof {
            assert(sh * sw == sw * sh) by (nonlinear_arith);
            assert(pixels@ =~= self@.window(min, size));
        }
        Some(pixels)
    }

    /// Every cell, row by row.
    pub fn flattened(&self) -> (pixels: Vec<Color>)
        ensures
            pixels@ == self@.cells,
    {
        slice_to_vec(grid_flat(&self.grid))
    }
}

} // verus!
