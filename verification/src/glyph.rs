//! What the atlas remembers about each rasterized glyph.

use vstd::prelude::*;
use crate::atlas::{
    keys_apart, lemma_placed_keys, lemma_promoted_same_keys, lookup_outcome, place_outcome,
    unchanged, GlyphAtlas,
};
use crate::glyph_cache::{has_key, promoted};

verus! {

/// Pixel layout of a rasterized glyph. Most text is a coverage mask with
/// one value per pixel; colour glyphs carry four.
#[derive(Debug, Clone, Copy, PartialEq, Eq, Hash, Structural)]
pub enum ContentType {
    Mask,
    Color,
}

impl ContentType {
    /// Values stored per pixel.
    pub open spec fn spec_channel_count(self) -> usize {
        match self {
            ContentType::Mask => 1,
            ContentType::Color => 4,
        }
    }

    /// Values stored per pixel: one for a mask, four for colour.
    #[verifier::when_used_as_spec(spec_channel_count)]
    pub fn channel_count(self) -> (count: usize)
        ensures
            count == self.spec_channel_count(),
    {
        match self {
            ContentType::Mask => 1,
            ContentType::Color => 4,
        }
    }

    /// Tag by which the renderer samples a glyph quad: the mask atlas is
    /// tag one, the colour atlas tag two. Plain geometry uses zero.
    pub open spec fn spec_render_mode(self) -> u32 {
        match self {
            ContentType::Mask => 1,
            ContentType::Color => 2,
        }
    }

    /// Render-mode tag carried by every instance of a glyph quad.
    #[verifier::when_used_as_spec(spec_render_mode)]
    pub fn render_mode(self) -> (mode: u32)
        ensures
            mode == self.spec_render_mode(),
    {
        match self {
            ContentType::Mask => 1,
            ContentType::Color => 2,
        }
    }
}

/// Where a cached glyph lives.
#[derive(Debug, Clone, Copy, PartialEq, Eq, Hash, Structural)]
pub enum GlyphCacheStatus {
    /// The bitmap occupies a packer slot whose top-left corner is `(x, y)`.
    /// `alloc_id` is the packer's handle for the slot, kept only so that the
    /// slot can be released again.
    InAtlas { x: u16, y: u16, content_type: ContentType, alloc_id: u32 },
    /// The glyph has no pixels (whitespace) and holds no slot.
    ZeroSized,
}

/// Cached metrics and placement of one glyph.
#[derive(Debug, Clone, Copy, PartialEq, Eq, Hash, Structural)]
pub struct GlyphData {
    pub width: u16,
    pub height: u16,
    pub top: i16,
    pub left: i16,
    pub cache_status: GlyphCacheStatus,
}

/// What a rasterizer reports about the bitmap of one glyph.
#[derive(Debug, Clone, Copy, PartialEq, Eq, Hash, Structural)]
pub struct GlyphImage {
    pub content: ContentType,
    pub width: u32,
    pub height: u32,
    pub top: i32,
    pub left: i32,
}

/// The textured rectangle that draws one glyph: its size and its offset
/// from the pen position, the corner of its bitmap on the atlas surface,
/// and the render mode that selects the atlas.
#[derive(Debug, Clone, Copy, PartialEq, Eq, Hash, Structural)]
pub struct GlyphQuad {
    pub left: i16,
    pub top: i16,
    pub width: u16,
    pub height: u16,
    pub atlas_x: u16,
    pub atlas_y: u16,
    pub mode: u32,
}

impl GlyphData {
    /// The rectangle that draws the glyph, or `None` for a glyph without
    /// pixels.
    pub open spec fn spec_quad(&self) -> Option<GlyphQuad> {
        match self.cache_status {
            GlyphCacheStatus::InAtlas { x, y, content_type, .. } => Some(
                GlyphQuad {
                    left: self.left,
                    top: self.top,
                    width: self.width,
                    height: self.height,
                    atlas_x: x,
                    atlas_y: y,
                    mode: content_type.render_mode(),
                },
            ),
            GlyphCacheStatus::ZeroSized => None,
        }
    }

    /// The rectangle that draws the glyph, or `None` for a glyph without
    /// pixels.
    #[verifier::when_used_as_spec(spec_quad)]
    pub fn quad(&self) -> (quad: Option<GlyphQuad>)
        ensures
            quad == self.spec_quad(),
    {
        match self.cache_status {
            GlyphCacheStatus::InAtlas { x, y, content_type, .. } => Some(
                GlyphQuad {
                    left: self.left,
                    top: self.top,
                    width: self.width,
                    height: self.height,
                    atlas_x: x,
                    atlas_y: y,
                    mode: content_type.render_mode(),
                },
            ),
            GlyphCacheStatus::ZeroSized => None,
        }
    }

    /// Whether the glyph occupies a packer slot.
    pub open spec fn spec_in_atlas(&self) -> bool {
        self.cache_status is InAtlas
    }

    /// Whether the glyph occupies a packer slot.
    #[verifier::when_used_as_spec(spec_in_atlas)]
    pub fn in_atlas(&self) -> (held: bool)
        ensures
            held == self.spec_in_atlas(),
    {
        match self.cache_status {
            GlyphCacheStatus::InAtlas { .. } => true,
            GlyphCacheStatus::ZeroSized => false,
        }
    }
}

/// What `lookup_glyph` does to the two atlases and returns: the mask
/// atlas is asked first, the colour atlas only after a miss there.
pub open spec fn found_in_either(
    mask_before: GlyphAtlas,
    mask_after: GlyphAtlas,
    color_before: GlyphAtlas,
    color_after: GlyphAtlas,
    key: u64,
    found: Option<GlyphData>,
) -> bool {
    if lookup_outcome(mask_before, mask_after, key, None) {
        lookup_outcome(color_before, color_after, key, found)
    } else {
        found is Some && lookup_outcome(mask_before, mask_after, key, found) && unchanged(
            color_before,
            color_after,
        )
    }
}

/// The quad of a glyph that may not have been placed.
pub open spec fn quad_of(placed: Option<GlyphData>) -> Option<GlyphQuad> {
    match placed {
        Some(data) => data.quad(),
        None => None,
    }
}

/// Whether two atlases are the pair that text is drawn from: the first
/// holds masks, the second colour, and no glyph is cached in both.
pub open spec fn paired(mask: GlyphAtlas, color: GlyphAtlas) -> bool {
    &&& mask.wf()
    &&& color.wf()
    &&& mask.spec_typ() == ContentType::Mask
    &&& color.spec_typ() == ContentType::Color
    &&& keys_apart(mask.entries(), color.entries())
}

/// Whether the glyph `key` is ready to be drawn as `quad`: it is cached
/// with that quad in the atlas whose content type the quad's mode names,
/// the frame being built has used it there, and the other atlas does
/// not cache it.
pub open spec fn glyph_ready(mask: GlyphAtlas, color: GlyphAtlas, key: u64, quad: GlyphQuad) -> bool {
    let in_mask = quad.mode == ContentType::Mask.render_mode();
    let home = if in_mask {
        mask
    } else {
        color
    };
    let other = if in_mask {
        color
    } else {
        mask
    };
    &&& in_mask || quad.mode == ContentType::Color.render_mode()
    &&& home.entries().len() > 0
    &&& home.entries()[0].0 == key
    &&& home.entries()[0].1.quad() == Some(quad)
    &&& home.in_use().contains(key)
    &&& !has_glyph(other, key)
}

/// Looks a glyph up in both atlases, the mask atlas first. A hit marks
/// the glyph as used by this frame in the atlas that holds it.
pub fn lookup_glyph(mask: &mut GlyphAtlas, color: &mut GlyphAtlas, key: u64) -> (found: Option<
    GlyphData,
>)
    requires
        old(mask).wf(),
        old(color).wf(),
    ensures
        final(mask).wf(),
        final(color).wf(),
        found_in_either(*old(mask), *final(mask), *old(color), *final(color), key, found),
        paired(*old(mask), *old(color)) ==> paired(*final(mask), *final(color)),
        paired(*old(mask), *old(color)) ==> match found {
            Some(data) => data.quad() is Some ==> glyph_ready(
                *final(mask),
                *final(color),
                key,
                data.quad().unwrap(),
            ),
            None => true,
        },
{
    let ghost mask_entries = mask.entries();
    let ghost color_entries = color.entries();
    match mask.lookup(key) {
        Some(data) => {
            proof {
                let i = choose|i: int|
                    0 <= i < mask_entries.len() && #[trigger] mask_entries[i] == (key, data)
                        && mask.entries() == promoted(mask_entries, i);
                lemma_promoted_same_keys(mask_entries, i);
                assert(has_key(mask_entries, key));
            }
            Some(data)
        },
        None => {
            let found = color.lookup(key);
            proof {
                if let Some(data) = found {
                    let i = choose|i: int|
                        0 <= i < color_entries.len() && #[trigger] color_entries[i] == (key, data)
                            && color.entries() == promoted(color_entries, i);
                    lemma_promoted_same_keys(color_entries, i);
                    assert(has_key(color_entries, key));
                }
            }
            found
        },
    }
}

/// Makes a glyph ready to draw and returns its quad.
///
/// A cached glyph is found in one of the atlases and marked as used. A
/// glyph that is not cached needs `image`, what the rasterizer reported
/// of it: without one nothing is drawn; with one the glyph is placed in
/// the atlas of its content type, and in that one only. The result is
/// `None` for a glyph without pixels and for one that found no room.
pub fn prepare_glyph(
    mask: &mut GlyphAtlas,
    color: &mut GlyphAtlas,
    key: u64,
    image: Option<GlyphImage>,
) -> (quad: Option<GlyphQuad>)
    requires
        paired(*old(mask), *old(color)),
    ensures
        paired(*final(mask), *final(color)),
        quad is Some ==> glyph_ready(*final(mask), *final(color), key, quad.unwrap()),
        has_glyph(*old(mask), key) || has_glyph(*old(color), key) ==> exists|data: GlyphData|
            #[trigger] found_in_either(
                *old(mask),
                *final(mask),
                *old(color),
                *final(color),
                key,
                Some(data),
            ) && quad == data.quad(),
        !has_glyph(*old(mask), key) && !has_glyph(*old(color), key) ==> match image {
            None => quad is None && unchanged(*old(mask), *final(mask)) && unchanged(
                *old(color),
                *final(color),
            ),
            Some(img) => match img.content {
                ContentType::Mask => unchanged(*old(color), *final(color)) && exists|
                    placed: Option<GlyphData>,
                |
                    #[trigger] place_outcome(
                        *old(mask),
                        *final(mask),
                        key,
                        img.width,
                        img.height,
                        img.top,
                        img.left,
                        placed,
                    ) && quad == quad_of(placed),
                ContentType::Color => unchanged(*old(mask), *final(mask)) && exists|
                    placed: Option<GlyphData>,
                |
                    #[trigger] place_outcome(
                        *old(color),
                        *final(color),
                        key,
                        img.width,
                        img.height,
                        img.top,
                        img.left,
                        placed,
                    ) && quad == quad_of(placed),
            },
        },
{
    let ghost mask_entries = mask.entries();
    let ghost color_entries = color.entries();
    match lookup_glyph(mask, color, key) {
        Some(data) => data.quad(),
        None => match image {
            None => None,
            Some(img) => {
                let placed = match img.content {
                    ContentType::Mask => mask.place(key, img.width, img.height, img.top, img.left),
                    ContentType::Color => color.place(
                        key,
                        img.width,
                        img.height,
                        img.top,
                        img.left,
                    ),
                };
                proof {
                    match img.content {
                        ContentType::Mask => {
                            assert(place_outcome(
                                *old(mask),
                                *mask,
                                key,
                                img.width,
                                img.height,
                                img.top,
                                img.left,
                                placed,
                            ));
                            let n = (mask_entries.len() + (if placed is Some {
                                1int
                            } else {
                                0int
                            }) - mask.entries().len()) as nat;
                            lemma_placed_keys(
                                mask_entries,
                                old(mask).in_use(),
                                n,
                                key,
                                placed.unwrap_or(arbitrary()),
                            );
                        },
                        ContentType::Color => {
                            assert(place_outcome(
                                *old(color),
                                *color,
                                key,
                                img.width,
                                img.height,
                                img.top,
                                img.left,
                                placed,
                            ));
                            let n = (color_entries.len() + (if placed is Some {
                                1int
                            } else {
                                0int
                            }) - color.entries().len()) as nat;
                            lemma_placed_keys(
                                color_entries,
                                old(color).in_use(),
                                n,
                                key,
                                placed.unwrap_or(arbitrary()),
                            );
                        },
                    }
                }
                match placed {
                    Some(data) => data.quad(),
                    None => None,
                }
            },
        },
    }
}

/// Whether the atlas caches the glyph `key`.
pub open spec fn has_glyph(atlas: GlyphAtlas, key: u64) -> bool {
    has_key(atlas.entries(), key)
}

} // verus!
