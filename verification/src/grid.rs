//! The two-dimensional array that stores the pixels.
//!
//! The storage is `micro_ndarray::Array`. Nothing in this file is proved:
//! each function states what the array's code does, and the rest of the
//! crate is verified against those statements.

use vstd::prelude::*;
use crate::color::Color;
use crate::geometry::{Position, Size};
use crate::raster::{column, offset, row, Raster};

verus! {

/// A `micro_ndarray::Array` of colours with two dimensions.
#[verifier::external_body]
pub struct Grid {
    inner: micro_ndarray::Array<Color, 2>,
}

/// The elements of the array in storage order: first all of row 0 from
/// left to right, then row 1, and so on.
pub uninterp spec fn grid_cells(g: Grid) -> Seq<Color>;

/// The array's extent in its first dimension.
pub uninterp spec fn grid_width(g: Grid) -> nat;

/// The array's extent in its second dimension.
pub uninterp spec fn grid_height(g: Grid) -> nat;

/// The array as a raster.
pub open spec fn grid_raster(g: Grid) -> Raster {
    Raster { width: grid_width(g), height: grid_height(g), cells: grid_cells(g) }
}

/// `Array::new_with`: an array of `width` by `height` elements, each a
/// copy of `fill`. The element count, and the four bytes each element
/// takes, must fit an allocation; the call panics otherwise.
#[verifier::external_body]
pub(crate) fn grid_new(width: usize, height: usize, fill: Color) -> (g: Grid)
    requires
        width * height * 4 <= isize::MAX,
    ensures
        grid_width(g) == width,
        grid_height(g) == height,
        grid_cells(g) == Seq::new((width * height) as nat, |i: int| fill),
{
    Grid { inner: micro_ndarray::Array::new_with([width, height], fill) }
}

/// `Array::size`: the two extents.
#[verifier::external_body]
pub(crate) fn grid_size(g: &Grid) -> (s: Size)
    ensures
        s.width == grid_width(*g),
        s.height == grid_height(*g),
{
    let [width, height] = g.inner.size();
    Size { width, height }
}

/// `Array::get`: the element at `p`, or nothing where `p` lies outside
/// the array.
#[verifier::external_body]
pub(crate) fn grid_get(g: &Grid, p: Position) -> (r: Option<&Color>)
    ensures
        grid_raster(*g).contains(p) ==> r == Some(&grid_raster(*g).at(p)),
        !grid_raster(*g).contains(p) ==> r is None,
{
    g.inner.get([p.x, p.y])
}

/// Indexing the array with `[x, y]`: the element at `p`. Outside the
/// array the index operation panics.
#[verifier::external_body]
pub(crate) fn grid_index(g: &Grid, p: Position) -> (c: &Color)
    requires
        grid_raster(*g).contains(p),
    ensures
        *c == grid_raster(*g).at(p),
{
    &g.inner[[p.x, p.y]]
}

/// `Array::get_mut`: a reference through which the element at `p` can be
/// replaced, or nothing where `p` lies outside the array. No other
/// element and neither extent changes.
#[verifier::external_body]
pub(crate) fn grid_get_mut(g: &mut Grid, p: Position) -> (r: Option<&mut Color>)
    ensures
        grid_width(*final(g)) == grid_width(*old(g)),
        grid_height(*final(g)) == grid_height(*old(g)),
        grid_raster(*old(g)).contains(p) ==> r is Some,
        !grid_raster(*old(g)).contains(p) ==> r is None,
        r is None ==> grid_cells(*final(g)) == grid_cells(*old(g)),
        r matches Some(c) ==> *c == grid_raster(*old(g)).at(p) && grid_cells(*final(g))
            == grid_cells(*old(g)).update(
            offset(grid_width(*old(g)) as int, p.x as int, p.y as int),
            *final(c),
        ),
{
    g.inner.get_mut([p.x, p.y])
}

/// `Array::iter`, collected: every element in storage order, each with
/// its position. The collected pairs, of up to 24 bytes each, must fit an
/// allocation.
#[verifier::external_body]
pub(crate) fn grid_entries(g: &Grid) -> (v: Vec<(Position, Color)>)
    requires
        grid_cells(*g).len() * 24 <= isize::MAX,
    ensures
        v@.len() == grid_cells(*g).len(),
        forall|i: int|
            0 <= i < v@.len() ==> {
                &&& (#[trigger] v@[i]).0.x == column(grid_width(*g) as int, i)
                &&& v@[i].0.y == row(grid_width(*g) as int, i)
                &&& v@[i].1 == grid_cells(*g)[i]
            },
{
    g.inner.iter().map(|(at, color)| (Position { x: at[0], y: at[1] }, *color)).collect()
}

/// `Array::as_flattened`: the elements in storage order.
#[verifier::external_body]
pub(crate) fn grid_flat(g: &Grid) -> (s: &[Color])
    ensures
        s@ == grid_cells(*g),
{
    g.inner.as_flattened()
}

} // verus!
