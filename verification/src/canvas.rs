//! The canvas: a pixel buffer, the damage done to it, and the texture
//! that shows it.

use vstd::prelude::*;
use epaint::{TextureId, TextureManager};
use crate::buffer::PixelBuffer;
use crate::color::Color;
use crate::damage::{Bounds, Damage, DamageTracker, DEFAULT_CAPACITY};
use crate::geometry::{Position, Size};
use crate::raster::Raster;
use crate::sync::{full_upload, mirrors, sync};
use crate::texture::{
    freed_with, released, tex_alloc, tex_free, tex_freed, tex_next, tex_queue, tex_slots,
    without, Slot,
};

verus! {

impl Damage {
    /// Whether every cell that the damage accounts for lies inside
    /// `raster`.
    pub open spec fn inside(self, raster: Raster) -> bool {
        match self {
            Damage::Empty => true,
            Damage::Sparse(cells) => forall|i: int|
                0 <= i < cells.len() ==> raster.contains(#[trigger] cells[i]),
            Damage::Region { bounds, area } => bounds.x + bounds.width <= raster.width && bounds.y
                + bounds.height <= raster.height,
        }
    }

    /// The bounding box of cells of a raster lies inside the raster.
    pub proof fn lemma_bounds_inside(cells: Seq<Position>, raster: Raster)
        requires
            forall|i: int| 0 <= i < cells.len() ==> raster.contains(#[trigger] cells[i]),
        ensures
            Bounds::of(cells).x + Bounds::of(cells).width <= raster.width,
            Bounds::of(cells).y + Bounds::of(cells).height <= raster.height,
        decreases cells.len(),
    {
        if cells.len() > 0 {
            Damage::lemma_bounds_inside(cells.drop_last(), raster);
            assert(raster.contains(cells[cells.len() - 1]));
        }
    }

    /// A write to a cell of the raster keeps the damage inside the
    /// raster.
    pub proof fn lemma_record_inside(self, capacity: nat, p: Position, raster: Raster)
        requires
            self.inside(raster),
            raster.contains(p),
        ensures
            self.record(capacity, p).inside(raster),
    {
        match self {
            Damage::Region { bounds, area } => {},
            _ => {
                let cells = self.listed();
                let more = cells.push(p);
                assert forall|i: int| 0 <= i < more.len() implies raster.contains(
                    #[trigger] more[i],
                ) by {
                    if i < cells.len() {
                        assert(more[i] == cells[i]);
                    }
                }
                Damage::lemma_bounds_inside(more, raster);
            },
        }
    }

    /// Damage that lies inside a raster can be sent from it.
    pub proof fn lemma_inside_fits(self, capacity: nat, raster: Raster)
        requires
            self.valid(capacity),
            self.inside(raster),
        ensures
            self.fits(raster),
    {
    }
}

/// A canvas and its texture.
pub struct App {
    image: PixelBuffer,
    changes: DamageTracker,
    tex: TextureId,
}

impl App {
    /// The pixels of the canvas.
    pub closed spec fn image(&self) -> Raster {
        self.image@
    }

    /// The damage done since the texture was last brought up to date.
    pub closed spec fn damage(&self) -> Damage {
        self.changes@
    }

    /// The largest number of cells that are tracked one by one.
    pub closed spec fn capacity(&self) -> nat {
        self.changes.capacity()
    }

    /// The handle of the texture that shows the canvas.
    pub closed spec fn texture(&self) -> TextureId {
        self.tex
    }

    /// The buffer is whole, and the damage is valid and lies inside it.
    pub open spec fn wf(&self) -> bool {
        &&& self.image().wf()
        &&& self.image().fits_memory()
        &&& self.damage().valid(self.capacity())
        &&& self.capacity() < usize::MAX
        &&& self.damage().inside(self.image())
    }

    /// The canvas texture is allocated in `t`, with the size of the
    /// canvas.
    pub open spec fn attached(&self, t: TextureManager) -> bool {
        mirrors(t, self.texture(), self.image()) && tex_slots(t)[self.texture()].retain >= 1
    }

    /// Whether the canvas already has the size `window_size`.
    pub open spec fn has_size(&self, window_size: [usize; 2]) -> bool {
        self.image().width == window_size[0] && self.image().height == window_size[1]
    }

    /// A white canvas of `window_size`, with a new texture in `texman`
    /// that shows it.
    pub fn new(texman: &mut TextureManager, window_size: [usize; 2]) -> (app: App)
        requires
            PixelBuffer::allocatable(Size { width: window_size[0], height: window_size[1] }),
            tex_next(*old(texman)) < u64::MAX,
        ensures
            app.wf(),
            app.attached(*final(texman)),
            app.image() == Raster::filled(
                window_size[0] as nat,
                window_size[1] as nat,
                Color::background(),
            ),
            app.damage() == Damage::Empty,
            app.capacity() == DEFAULT_CAPACITY,
            tex_slots(*final(texman)) == tex_slots(*old(texman)).insert(
                app.texture(),
                Slot { size: Size { width: window_size[0], height: window_size[1] }, retain: 1 },
            ),
            tex_queue(*final(texman)) == tex_queue(*old(texman)).push(
                full_upload(app.texture(), app.image()),
            ),
            tex_freed(*final(texman)) == tex_freed(*old(texman)),
            tex_next(*final(texman)) == tex_next(*old(texman)) + 1,
    {
        let size = Size { width: window_size[0], height: window_size[1] };
        let image = PixelBuffer::new(size, Color::white());
        let tex = tex_alloc(texman, "canvas", size, image.flattened(), crate::sync::sampling());
        App { image, changes: DamageTracker::new(), tex }
    }

    /// The width and height of the canvas.
    pub fn size(&self) -> (s: [usize; 2])
        ensures
            self.has_size(s),
    {
        let dims = self.image.size();
        [dims.width, dims.height]
    }

    /// The handle of the texture that shows the canvas.
    pub fn texture_id(&self) -> (id: TextureId)
        ensures
            id == self.texture(),
    {
        self.tex
    }

    /// The colour at `pos`, or `None` where `pos` lies outside the
    /// canvas.
    pub fn pixel(&self, pos: Position) -> (r: Option<Color>)
        ensures
            r == self.image().read(pos),
    {
        self.image.get(pos)
    }

    /// Whether anything was painted since the texture was last brought up
    /// to date.
    pub fn is_dirty(&self) -> (r: bool)
        ensures
            r == !(self.damage() is Empty),
    {
        !self.changes.is_empty()
    }

    /// Paints the cell at `pos`, which must lie inside the canvas, and
    /// records the damage.
    pub fn paint(&mut self, pos: Position, color: Color)
        requires
            old(self).wf(),
            old(self).image().contains(pos),
            old(self).damage().load() < usize::MAX,
        ensures
            final(self).wf(),
            final(self).image() == old(self).image().with_pixel(pos, color),
            final(self).damage() == old(self).damage().record(old(self).capacity(), pos),
            final(self).capacity() == old(self).capacity(),
            final(self).texture() == old(self).texture(),
    {
        // The size is a pair of `usize`, so a cell inside it is addressable.
        let _ = self.image.size();
        proof {
            self.damage().lemma_record_inside(self.capacity(), pos, self.image());
        }
        self.image.set(pos, color);
        self.changes.mark_pixel(pos);
    }

    /// Paints the cell at `pos` and records the damage, where `pos` lies
    /// inside the canvas and the count of writes has room for one more.
    /// Says whether it did.
    pub fn try_paint(&mut self, pos: Position, color: Color) -> (painted: bool)
        requires
            old(self).wf(),
        ensures
            final(self).wf(),
            painted == (old(self).image().contains(pos) && old(self).damage().load()
                < usize::MAX),
            painted ==> final(self).image() == old(self).image().with_pixel(pos, color)
                && final(self).damage() == old(self).damage().record(old(self).capacity(), pos),
            !painted ==> *final(self) == *old(self),
            final(self).capacity() == old(self).capacity(),
            final(self).texture() == old(self).texture(),
    {
        let dims = self.image.size();
        if pos.x < dims.width && pos.y < dims.height && self.changes.load() < usize::MAX {
            self.paint(pos, color);
            true
        } else {
            false
        }
    }

    /// A painted colour is read back once the texture was brought up to
    /// date, whichever way the damage was sent: `painted` is the canvas
    /// after `paint`, `synced` the canvas after `image_to_texture`.
    pub proof fn lemma_painted_is_read_back(
        before: App,
        painted: App,
        synced: App,
        pos: Position,
        color: Color,
    )
        requires
            before.wf(),
            before.image().contains(pos),
            painted.image() == before.image().with_pixel(pos, color),
            synced.image() == painted.image(),
        ensures
            synced.image().read(pos) == Some(color),
    {
        before.image().lemma_with_pixel(pos, color, pos);
    }

    /// Brings the texture up to date with what was painted, and forgets
    /// the damage.
    pub fn image_to_texture(&mut self, texman: &mut TextureManager)
        requires
            old(self).wf(),
            old(self).attached(*old(texman)),
        ensures
            final(self).wf(),
            final(self).attached(*final(texman)),
            final(self).image() == old(self).image(),
            final(self).texture() == old(self).texture(),
            final(self).capacity() == old(self).capacity(),
            final(self).damage() == Damage::Empty,
            tex_queue(*final(texman)) == old(self).damage().issued(
                tex_queue(*old(texman)),
                old(self).texture(),
                old(self).image(),
            ),
            tex_slots(*final(texman)) == tex_slots(*old(texman)),
            tex_freed(*final(texman)) == tex_freed(*old(texman)),
            tex_next(*final(texman)) == tex_next(*old(texman)),
    {
        let changes = self.changes.drain();
        proof {
            changes@.lemma_inside_fits(self.capacity(), self.image());
        }
        match sync(&self.image, &changes, texman, self.tex) {
            Ok(()) => {},
            Err(_) => {
                proof {
                    assert(false);
                }
            },
        }
    }

    /// Gives the canvas the size `window_size`. Where it has that size
    /// already, nothing happens. Else the pixels move to a buffer of the
    /// new size, the old texture is let go, and a new texture is
    /// allocated and filled with the whole canvas.
    pub fn correct_tex_size(&mut self, texman: &mut TextureManager, window_size: [usize; 2])
        requires
            old(self).wf(),
            old(self).attached(*old(texman)),
            !old(self).has_size(window_size) ==> PixelBuffer::allocatable(
                Size { width: window_size[0], height: window_size[1] },
            ) && tex_next(*old(texman)) < u64::MAX,
        ensures
            final(self).wf(),
            final(self).attached(*final(texman)),
            final(self).has_size(window_size),
            final(self).capacity() == old(self).capacity(),
            old(self).has_size(window_size) ==> *final(self) == *old(self) && *final(texman)
                == *old(texman),
            !old(self).has_size(window_size) ==> {
                &&& final(self).image() == old(self).image().resized(
                    window_size[0] as nat,
                    window_size[1] as nat,
                )
                &&& final(self).damage() == Damage::Empty
                &&& tex_slots(*final(texman)) == released(
                    tex_slots(*old(texman)),
                    old(self).texture(),
                ).insert(
                    final(self).texture(),
                    Slot {
                        size: Size { width: window_size[0], height: window_size[1] },
                        retain: 1,
                    },
                )
                &&& tex_freed(*final(texman)) == freed_with(
                    tex_freed(*old(texman)),
                    tex_slots(*old(texman)),
                    old(self).texture(),
                )
                &&& tex_queue(*final(texman)) == without(
                    tex_queue(*old(texman)),
                    final(self).texture(),
                ).push(full_upload(final(self).texture(), final(self).image()))
                &&& tex_next(*final(texman)) == tex_next(*old(texman)) + 1
            },
    {
        let dims = self.image.size();
        if dims.width == window_size[0] && dims.height == window_size[1] {
            return;
        }
        let size = Size { width: window_size[0], height: window_size[1] };
        let new_image = self.image.resize(size);
        self.image = new_image;
        self.changes.mark_all(size);

        let pixels = self.image.flattened();
        tex_free(texman, self.tex);
        let ghost queue = tex_queue(*texman);
        self.tex = tex_alloc(texman, "canvas", size, pixels, crate::sync::sampling());
        proof {
            let first = full_upload(self.tex, self.image@);
            let tex = self.tex;
            queue.lemma_filter_push(first, |u: crate::texture::Upload| u.texture != tex);
        }
        self.image_to_texture(texman);
    }
}

} // verus!
