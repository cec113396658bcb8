//! Bringing the texture up to date with the least transfer.
//!
//! A few scattered cells go out as patches of one pixel each. A region
//! goes out as one patch, unless its writes number half the canvas or
//! more: then the whole canvas is replaced.

use vstd::prelude::*;
use epaint::{TextureId, TextureManager};
use crate::buffer::PixelBuffer;
use crate::damage::{Damage, DamageSummary};
use crate::geometry::{Position, Size};
use crate::raster::Raster;
use crate::texture::{
    tex_freed, tex_next, tex_queue, tex_set, tex_slots, without, Filter, Sampling, Upload,
};

verus! {

/// How a summary of damage is sent to the texture.
#[derive(Clone, Copy, Debug, PartialEq, Eq, Structural)]
pub enum Strategy {
    /// Nothing is sent.
    Nothing,
    /// One patch of a single pixel for each listed cell.
    Pixels,
    /// One patch that covers the region.
    Patch,
    /// The whole canvas.
    Replace,
}

/// Why a summary could not be sent.
#[derive(Clone, Copy, Debug, PartialEq, Eq, Structural)]
pub enum SyncError {
    /// The summary names a cell, or for a patch a region, that the
    /// canvas does not have.
    OutsideCanvas,
}

/// The filters of the canvas texture: crisp pixels when it is enlarged,
/// a smooth picture when it is reduced.
pub open spec fn canvas_sampling() -> Sampling {
    Sampling { magnification: Filter::Nearest, minification: Filter::Linear }
}

/// The patch of one pixel that sends cell `p`.
pub open spec fn pixel_upload(texture: TextureId, raster: Raster, p: Position) -> Upload {
    Upload {
        texture,
        origin: Some(p),
        size: Size { width: 1, height: 1 },
        pixels: seq![raster.at(p)],
        sampling: canvas_sampling(),
    }
}

/// The patch that sends the window of `size` that starts at `min`.
pub open spec fn patch_upload(texture: TextureId, raster: Raster, min: Position, size: Size)
    -> Upload {
    Upload {
        texture,
        origin: Some(min),
        size,
        pixels: raster.window(min, size),
        sampling: canvas_sampling(),
    }
}

/// The upload that sends the whole canvas.
pub open spec fn full_upload(texture: TextureId, raster: Raster) -> Upload {
    Upload {
        texture,
        origin: None,
        size: Size { width: raster.width as usize, height: raster.height as usize },
        pixels: raster.cells,
        sampling: canvas_sampling(),
    }
}

/// The texture `id` is allocated and has the size of `raster`.
pub open spec fn mirrors(t: TextureManager, id: TextureId, raster: Raster) -> bool {
    &&& tex_slots(t).contains_key(id)
    &&& tex_slots(t)[id].size.width == raster.width
    &&& tex_slots(t)[id].size.height == raster.height
}

impl Damage {
    /// How the damage is sent to the texture of a canvas with `total`
    /// cells.
    pub open spec fn strategy(self, total: nat) -> Strategy {
        match self {
            Damage::Empty => Strategy::Nothing,
            Damage::Sparse(cells) => Strategy::Pixels,
            Damage::Region { bounds, area } => if area < total / 2 {
                Strategy::Patch
            } else {
                Strategy::Replace
            },
        }
    }

    /// Whether the damage can be sent from `raster`: every cell that is
    /// sent by itself, and a region that is sent as a patch, lies inside
    /// it.
    pub open spec fn fits(self, raster: Raster) -> bool {
        match self.strategy(raster.cells.len()) {
            Strategy::Nothing => true,
            Strategy::Pixels => forall|i: int|
                0 <= i < self.listed().len() ==> raster.contains(#[trigger] self.listed()[i]),
            Strategy::Patch => raster.holds_window(self->bounds.corner(), self->bounds.extent()),
            Strategy::Replace => true,
        }
    }

    /// The queue of uploads after the damage was sent from `raster` to
    /// the texture `texture`.
    pub open spec fn issued(self, queue: Seq<Upload>, texture: TextureId, raster: Raster) -> Seq<
        Upload,
    > {
        match self.strategy(raster.cells.len()) {
            Strategy::Nothing => queue,
            Strategy::Pixels => queue + self.listed().map_values(
                |p: Position| pixel_upload(texture, raster, p),
            ),
            Strategy::Patch => queue.push(
                patch_upload(texture, raster, self->bounds.corner(), self->bounds.extent()),
            ),
            Strategy::Replace => without(queue, texture).push(full_upload(texture, raster)),
        }
    }

    /// Once a whole canvas was declared dirty, the whole canvas is
    /// replaced, whatever is written before the damage is sent.
    pub proof fn lemma_all_forces_replace(size: Size, capacity: nat, writes: Seq<Position>)
        ensures
            Damage::all(size).replay(capacity, writes).strategy(size.cells()) == Strategy::Replace,
            Damage::all(size).replay(capacity, writes) matches Damage::Region { bounds, area }
                && area >= size.cells(),
        decreases writes.len(),
    {
        if writes.len() > 0 {
            Damage::lemma_all_forces_replace(size, capacity, writes.drop_last());
        }
    }
}

/// The filters of the canvas texture.
pub fn sampling() -> (s: Sampling)
    ensures
        s == canvas_sampling(),
{
    Sampling { magnification: Filter::Nearest, minification: Filter::Linear }
}

/// How `summary` is sent to the texture of a canvas with `total` cells.
pub fn choose_strategy(summary: &DamageSummary, total: usize) -> (s: Strategy)
    ensures
        s == summary@.strategy(total as nat),
{
    match summary {
        DamageSummary::Empty => Strategy::Nothing,
        DamageSummary::Sparse(_) => Strategy::Pixels,
        DamageSummary::Region { min, size, area } => {
            if *area < total / 2 {
                Strategy::Patch
            } else {
                Strategy::Replace
            }
        },
    }
}

/// Whether every one of `cells` lies inside `buffer`.
fn all_inside(buffer: &PixelBuffer, cells: &Vec<Position>) -> (r: bool)
    ensures
        r == forall|i: int| 0 <= i < cells@.len() ==> buffer@.contains(#[trigger] cells@[i]),
{
    let dims = buffer.size();
    let mut i: usize = 0;
    while i < cells.len()
        invariant
            i <= cells.len(),
            dims.width == buffer@.width,
            dims.height == buffer@.height,
            forall|j: int| 0 <= j < i ==> buffer@.contains(#[trigger] cells@[j]),
        decreases cells.len() - i,
    {
        let p = cells[i];
        if p.x >= dims.width || p.y >= dims.height {
            return false;
        }
        i += 1;
    }
    true
}

/// Sends the damage in `summary` from `buffer` to the texture `texture`
/// of `texman`, by the strategy that `choose_strategy` gives. Where the
/// summary does not fit the buffer, nothing is sent.
pub fn sync(
    buffer: &PixelBuffer,
    summary: &DamageSummary,
    texman: &mut TextureManager,
    texture: TextureId,
) -> (r: Result<(), SyncError>)
    requires
        buffer.wf(),
        mirrors(*old(texman), texture, buffer@),
    ensures
        r is Ok <==> summary@.fits(buffer@),
        r is Err ==> *final(texman) == *old(texman),
        r is Ok ==> tex_queue(*final(texman)) == summary@.issued(
            tex_queue(*old(texman)),
            texture,
            buffer@,
        ),
        tex_slots(*final(texman)) == tex_slots(*old(texman)),
        tex_freed(*final(texman)) == tex_freed(*old(texman)),
        tex_next(*final(texman)) == tex_next(*old(texman)),
{
    let total = buffer.len();
    match choose_strategy(summary, total) {
        Strategy::Nothing => Ok(()),
        Strategy::Pixels => {
            let cells = match summary {
                DamageSummary::Sparse(cells) => cells,
                _ => { return Ok(()); },
            };
            proof {
                assert(summary@.listed() == cells@);
            }
            if !all_inside(buffer, cells) {
                return Err(SyncError::OutsideCanvas);
            }
            let ghost queue = tex_queue(*texman);
            let ghost each = |p: Position| pixel_upload(texture, buffer@, p);
            let mut i: usize = 0;
            while i < cells.len()
                invariant
                    i <= cells.len(),
                    buffer.wf(),
                    each == |p: Position| pixel_upload(texture, buffer@, p),
                    forall|j: int| 0 <= j < cells@.len() ==> buffer@.contains(#[trigger] cells@[j]),
                    mirrors(*texman, texture, buffer@),
                    tex_queue(*texman) == queue + cells@.take(i as int).map_values(each),
                    tex_slots(*texman) == tex_slots(*old(texman)),
                    tex_freed(*texman) == tex_freed(*old(texman)),
                    tex_next(*texman) == tex_next(*old(texman)),
                decreases cells.len() - i,
            {
                let p = cells[i];
                let color = buffer.at(p);
                let ghost sent = tex_queue(*texman);
                let pixels = vec![color];
                proof {
                    assert(pixels@ =~= seq![color]);
                }
                tex_set(texman, texture, Some(p), Size { width: 1, height: 1 }, pixels, sampling());
                proof {
                    assert(tex_queue(*texman) == sent.push(each(p)));
                    assert(cells@.take(i + 1).map_values(each) =~= cells@.take(i as int).map_values(
                        each,
                    ).push(each(p)));
                    assert(tex_queue(*texman) =~= queue + cells@.take(i + 1).map_values(each));
                }
                i += 1;
            }
            proof {
                assert(cells@.take(i as int) == cells@);
            }
            Ok(())
        },
        Strategy::Patch => {
            let (min, size) = match summary {
                DamageSummary::Region { min, size, area } => (*min, *size),
                _ => { return Ok(()); },
            };
            match buffer.area_flat(min, size) {
                Some(pixels) => {
                    tex_set(texman, texture, Some(min), size, pixels, sampling());
                    Ok(())
                },
                None => Err(SyncError::OutsideCanvas),
            }
        },
        Strategy::Replace => {
            let size = buffer.size();
            let pixels = buffer.flattened();
            tex_set(texman, texture, None, size, pixels, sampling());
            proof {
                assert(tex_slots(*texman) =~= tex_slots(*old(texman)));
            }
            Ok(())
        },
    }
}

} // verus!
