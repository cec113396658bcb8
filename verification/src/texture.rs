//! The texture manager that receives the canvas.
//!
//! The manager is `epaint::TextureManager`. Nothing in this file is
//! proved: each function states what the manager's code does, and the
//! rest of the crate is verified against those statements.

use std::sync::Arc;
use vstd::prelude::*;
use epaint::textures::{TextureFilter, TextureOptions};
use epaint::{Color32, ColorImage, ImageData, ImageDelta, TextureId, TextureManager};
use crate::color::Color;
use crate::geometry::{Position, Size};

verus! {

/// `epaint::TextureManager`: the textures that are allocated, and the
/// changes to them that the painter has not taken yet.
#[verifier::external_type_specification]
#[verifier::external_body]
pub struct ExTextureManager(TextureManager);

/// `epaint::TextureId`: the handle of one texture.
#[verifier::external_type_specification]
#[verifier::external_body]
pub struct ExTextureId(TextureId);

/// How a texture is filtered when it is drawn larger or smaller than it
/// is.
#[derive(Clone, Copy, Debug, PartialEq, Eq, Structural)]
pub enum Filter {
    /// The nearest texel, which keeps pixels crisp.
    Nearest,
    /// A blend of the neighbouring texels.
    Linear,
}

/// The two filters of a texture.
#[derive(Clone, Copy, Debug, PartialEq, Eq, Structural)]
pub struct Sampling {
    pub magnification: Filter,
    pub minification: Filter,
}

/// One queued change of a texture: a whole new image where `origin` is
/// `None`, else a patch whose top left corner lies at `origin`.
pub struct Upload {
    pub texture: TextureId,
    pub origin: Option<Position>,
    pub size: Size,
    pub pixels: Seq<Color>,
    pub sampling: Sampling,
}

/// What the manager knows of an allocated texture: its size, and how
/// many holders must free it before it goes.
pub struct Slot {
    pub size: Size,
    pub retain: nat,
}

/// The textures that are allocated.
pub uninterp spec fn tex_slots(t: TextureManager) -> Map<TextureId, Slot>;

/// The changes that are queued for the painter, oldest first.
pub uninterp spec fn tex_queue(t: TextureManager) -> Seq<Upload>;

/// The textures that are queued to be freed by the painter, oldest
/// first.
pub uninterp spec fn tex_freed(t: TextureManager) -> Seq<TextureId>;

/// The number of textures that were ever allocated.
pub uninterp spec fn tex_next(t: TextureManager) -> nat;

/// The queue without the changes of texture `id`.
pub open spec fn without(queue: Seq<Upload>, id: TextureId) -> Seq<Upload> {
    queue.filter(|u: Upload| u.texture != id)
}

/// The allocated textures after one holder of texture `id` let go of it:
/// with its last holder the texture goes.
pub open spec fn released(slots: Map<TextureId, Slot>, id: TextureId) -> Map<TextureId, Slot> {
    if slots[id].retain <= 1 {
        slots.remove(id)
    } else {
        slots.insert(id, Slot { size: slots[id].size, retain: (slots[id].retain - 1) as nat })
    }
}

/// The textures to free after one holder of texture `id` let go of it.
pub open spec fn freed_with(freed: Seq<TextureId>, slots: Map<TextureId, Slot>, id: TextureId)
    -> Seq<TextureId> {
    if slots[id].retain <= 1 {
        freed.push(id)
    } else {
        freed
    }
}

/// `TextureManager::alloc`: allocates a texture of `size` with one
/// holder, and queues its whole image. The manager numbers its textures
/// with a `u64` counter, which must not be used up; the new handle is
/// one that the counter has not given out before.
#[verifier::external_body]
pub(crate) fn tex_alloc(
    t: &mut TextureManager,
    name: &str,
    size: Size,
    pixels: Vec<Color>,
    sampling: Sampling,
) -> (id: TextureId)
    requires
        tex_next(*old(t)) < u64::MAX,
    ensures
        tex_slots(*final(t)) == tex_slots(*old(t)).insert(id, Slot { size, retain: 1 }),
        tex_queue(*final(t)) == tex_queue(*old(t)).push(
            Upload { texture: id, origin: None, size, pixels: pixels@, sampling },
        ),
        tex_freed(*final(t)) == tex_freed(*old(t)),
        tex_next(*final(t)) == tex_next(*old(t)) + 1,
{
    let pixels = pixels.iter().map(|c| Color32::from_rgba_premultiplied(c.r, c.g, c.b, c.a));
    let image = ColorImage { size: [size.width, size.height], pixels: pixels.collect() };
    let magnification = match sampling.magnification {
        Filter::Nearest => TextureFilter::Nearest,
        Filter::Linear => TextureFilter::Linear,
    };
    let minification = match sampling.minification {
        Filter::Nearest => TextureFilter::Nearest,
        Filter::Linear => TextureFilter::Linear,
    };
    let options = TextureOptions { magnification, minification };
    t.alloc(name.to_owned(), ImageData::Color(Arc::new(image)), options)
}

/// `TextureManager::set`: queues a change of the allocated texture `id`.
/// A patch (`origin` is `Some`) must lie inside the texture and joins the
/// queue. A whole image (`origin` is `None`) gives the texture its size,
/// takes every earlier change of this texture out of the queue, and
/// joins the queue.
#[verifier::external_body]
pub(crate) fn tex_set(
    t: &mut TextureManager,
    id: TextureId,
    origin: Option<Position>,
    size: Size,
    pixels: Vec<Color>,
    sampling: Sampling,
)
    requires
        tex_slots(*old(t)).contains_key(id),
        origin matches Some(p) ==> p.x + size.width <= tex_slots(*old(t))[id].size.width && p.y
            + size.height <= tex_slots(*old(t))[id].size.height,
    ensures
        origin is Some ==> tex_slots(*final(t)) == tex_slots(*old(t)) && tex_queue(*final(t))
            == tex_queue(*old(t)).push(
            Upload { texture: id, origin, size, pixels: pixels@, sampling },
        ),
        origin is None ==> tex_slots(*final(t)) == tex_slots(*old(t)).insert(
            id,
            Slot { size, retain: tex_slots(*old(t))[id].retain },
        ) && tex_queue(*final(t)) == without(tex_queue(*old(t)), id).push(
            Upload { texture: id, origin, size, pixels: pixels@, sampling },
        ),
        tex_freed(*final(t)) == tex_freed(*old(t)),
        tex_next(*final(t)) == tex_next(*old(t)),
{
    let pixels = pixels.iter().map(|c| Color32::from_rgba_premultiplied(c.r, c.g, c.b, c.a));
    let image = ColorImage { size: [size.width, size.height], pixels: pixels.collect() };
    let magnification = match sampling.magnification {
        Filter::Nearest => TextureFilter::Nearest,
        Filter::Linear => TextureFilter::Linear,
    };
    let minification = match sampling.minification {
        Filter::Nearest => TextureFilter::Nearest,
        Filter::Linear => TextureFilter::Linear,
    };
    let options = TextureOptions { magnification, minification };
    let pos = origin.map(|p| [p.x, p.y]);
    t.set(id, ImageDelta { image: ImageData::Color(Arc::new(image)), options, pos })
}

/// `TextureManager::free`: takes one holder from the allocated texture
/// `id`. With the last holder the texture goes, and its handle joins the
/// queue of textures to free.
#[verifier::external_body]
pub(crate) fn tex_free(t: &mut TextureManager, id: TextureId)
    requires
        tex_slots(*old(t)).contains_key(id),
        tex_slots(*old(t))[id].retain >= 1,
    ensures
        tex_slots(*final(t)) == released(tex_slots(*old(t)), id),
        tex_freed(*final(t)) == freed_with(tex_freed(*old(t)), tex_slots(*old(t)), id),
        tex_queue(*final(t)) == tex_queue(*old(t)),
        tex_next(*final(t)) == tex_next(*old(t)),
{
    t.free(id)
}

} // verus!
