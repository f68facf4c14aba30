//! Retained-immediate 2D drawing core: per-frame geometry batching with
//! draw-call spans, a pointer hit-testing layer, a glyph atlas with
//! least-recently-used eviction, and a generational per-frame cache.

pub mod atlas;
pub mod cache;
pub mod draw;
pub mod glyph;
pub mod glyph_cache;
pub mod mesh;
pub mod packer;
pub mod sense;
pub mod stage;
pub mod texture;

pub use atlas::{AtlasSlot, Attempt, GlyphAtlas};
pub use cache::{CacheKey, FrameCache};
pub use draw::{draw_ranges, BlendMode, DrawCall, DrawRange, RenderPass};
pub use glyph::{
    lookup_glyph, prepare_glyph, ContentType, GlyphCacheStatus, GlyphData, GlyphImage, GlyphQuad,
};
pub use mesh::{fan_triangles, quad_triangles, stroke_triangles};
pub use sense::{Interactions, PointerButton, SenseSave, SenseShape, SenseShapeType};
pub use stage::{start_frame, ClipID, ClipPolygon, Stage};
pub use texture::{TextureInfo, TextureKey};
