//! What can go wrong while a frame is turned into a display list.

use vstd::prelude::*;

verus! {

/// The identifier of a texture: stable across frames until it is freed.
#[derive(Clone, Copy, Debug, PartialEq, Eq, Structural)]
pub enum TextureId {
    /// A texture that the user interface manages. Number 0 is the font atlas.
    Managed(u64),
    /// A texture that the application supplied.
    User(u64),
}

/// The reserved identifier of the font atlas.
pub open spec fn font_atlas() -> TextureId {
    TextureId::Managed(0)
}

/// The reserved identifier of the font atlas.
pub fn font_atlas_id() -> (id: TextureId)
    ensures
        id == font_atlas(),
{
    TextureId::Managed(0)
}

/// The kinds of draw command that this renderer refuses.
#[derive(Clone, Copy, Debug, PartialEq, Eq, Structural)]
pub enum UnsupportedKind {
    QuadraticBezier,
    CubicBezier,
    Callback,
}

/// Why a frame, or one step of it, failed.
#[derive(Clone, Copy, Debug, PartialEq, Eq, Structural)]
pub enum RenderError {
    /// A draw command of a kind that is not rendered.
    Unsupported(UnsupportedKind),
    /// A texture that an operation needs is not in the cache.
    MissingTexture(TextureId),
    /// A pixel buffer of this width and height cannot be made.
    Allocation { width: u32, height: u32 },
    /// Groups are nested deeper than the renderer follows.
    NestingTooDeep,
}

} // verus!
