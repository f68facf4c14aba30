//! Handles for textures that the application has loaded.

use vstd::prelude::*;

verus! {

/// Identity of a loaded texture: the integer form of the slot key under
/// which the texture store holds it.
#[derive(Debug, Clone, Copy, PartialEq, Eq, Hash, Structural)]
pub struct TextureKey(pub u64);

/// A loaded texture's identity together with its pixel dimensions.
#[derive(Debug, Clone, Copy, PartialEq, Eq, Hash, Structural)]
pub struct TextureInfo {
    pub key: TextureKey,
    pub width: u32,
    pub height: u32,
}

impl TextureInfo {
    /// Describes the texture stored under `key` with the given size.
    pub fn new(key: TextureKey, width: u32, height: u32) -> (info: TextureInfo)
        ensures
            info.key == key,
            info.width == width,
            info.height == height,
    {
        TextureInfo { key, width, height }
    }

    /// The key under which the texture is stored.
    pub fn key(&self) -> (key: TextureKey)
        ensures
            key == self.key,
    {
        self.key
    }

    /// Width of the texture in pixels.
    pub fn width(&self) -> (width: u32)
        ensures
            width == self.width,
    {
        self.width
    }

    /// Height of the texture in pixels.
    pub fn height(&self) -> (height: u32)
        ensures
            height == self.height,
    {
        self.height
    }
}

} // verus!
