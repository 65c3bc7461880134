//! A software rendering front end: it turns one frame of retained vector
//! draw commands into a display list of fills, strokes, clips and glyph
//! stamps over a blank RGBA canvas, and keeps the texture cache that lives
//! across frames.
//!
//! All coordinates are fixed-point integers, [`geometry::UNITS_PER_PIXEL`]
//! units to one destination pixel.

pub mod backend;
pub mod error;
pub mod geometry;
pub mod image;
pub mod render;
pub mod shape;
pub mod texture;
