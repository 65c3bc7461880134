//! Draw commands as the user interface emits them, and the display list that
//! they are turned into.

use vstd::prelude::*;

use crate::error::UnsupportedKind;
use crate::geometry::{Path, PathPoint, Point, Rect, Rounding, Segment};
use crate::image::{Color, Image, ImageModel};

verus! {

/// The pen of an outline: its width in fixed-point units and its colour.
#[derive(Clone, Copy, Debug, PartialEq, Eq, Structural)]
pub struct Stroke {
    pub width: i32,
    pub color: Color,
}

/// A vertex of a mesh.
#[derive(Clone, Copy, Debug, PartialEq, Eq, Structural)]
pub struct Vertex {
    pub pos: Point,
    pub color: Color,
}

/// Where a glyph lies in the font atlas, in texels, and how it is placed on
/// the screen.
#[derive(Clone, Copy, Debug, PartialEq, Eq, Structural)]
pub struct UvRect {
    /// Offset of the bitmap from the glyph's position.
    pub offset: Point,
    /// Size of the bitmap on the screen.
    pub size: Point,
    pub min_x: u16,
    pub min_y: u16,
    /// Exclusive.
    pub max_x: u16,
    /// Exclusive.
    pub max_y: u16,
}

/// One laid-out glyph.
#[derive(Clone, Copy, Debug, PartialEq, Eq, Structural)]
pub struct Glyph {
    /// Relative to the origin of the text.
    pub pos: Point,
    pub uv_rect: UvRect,
    /// Which section of the text gives the glyph its colour.
    pub section_index: u32,
}

/// One row of laid-out text.
#[derive(Clone, Debug, PartialEq, Eq)]
pub struct Row {
    pub glyphs: Vec<Glyph>,
}

/// Laid-out text at a position.
#[derive(Clone, Debug, PartialEq, Eq)]
pub struct TextShape {
    pub pos: Point,
    pub rows: Vec<Row>,
    /// The colour of each section of the text.
    pub section_colors: Vec<Color>,
    /// Where present, every glyph takes this colour.
    pub override_text_color: Option<Color>,
}

/// A draw command.
#[derive(Debug)]
pub enum Shape {
    /// Draws nothing.
    Empty,
    /// Commands drawn in order under one clip rectangle.
    Group(Vec<Shape>),
    /// Coloured vertices; every three in a row make a triangle.
    Mesh(Vec<Vertex>),
    Rect { rect: Rect, rounding: Rounding, fill: Color, stroke: Stroke },
    LineSegment { from: Point, to: Point, stroke: Stroke },
    Circle { center: Point, radius: i32, fill: Color, stroke: Stroke },
    Path { points: Vec<Point>, closed: bool, fill: Color, stroke: Stroke },
    Text(TextShape),
    /// A command of a kind that is refused.
    Unsupported(UnsupportedKind),
}

/// A draw command with the rectangle that clips it.
#[derive(Debug)]
pub struct ClippedShape {
    pub clip: Rect,
    pub shape: Shape,
}

/// One step of the display list.
#[derive(Clone, Debug, PartialEq, Eq)]
pub enum DrawOp {
    /// Replace the clip mask by the coverage of the rectangle.
    Clip(Rect),
    /// Fill the outline with `fill`, then stroke it with `stroke`, through
    /// the clip mask.
    Draw { path: Path, fill: Option<Color>, stroke: Option<Stroke> },
    /// Fill `path` with `image` as a pattern whose top-left texel lies at
    /// `origin`, one texel to `pixels_per_point` points, through the clip
    /// mask.
    Stamp { image: Image, path: Path, origin: PathPoint, pixels_per_point: i32 },
}

/// What a [`DrawOp`] holds, as plain values.
pub enum OpModel {
    Clip(Rect),
    Draw { path: Seq<Segment>, fill: Option<Color>, stroke: Option<Stroke> },
    Stamp { image: ImageModel, path: Seq<Segment>, origin: PathPoint, pixels_per_point: i32 },
}

impl View for DrawOp {
    type V = OpModel;

    open spec fn view(&self) -> OpModel {
        match *self {
            DrawOp::Clip(rect) => OpModel::Clip(rect),
            DrawOp::Draw { path, fill, stroke } => OpModel::Draw { path: path@, fill, stroke },
            DrawOp::Stamp { image, path, origin, pixels_per_point } => OpModel::Stamp {
                image: image@,
                path: path@,
                origin,
                pixels_per_point,
            },
        }
    }
}

/// A display list as plain values.
pub open spec fn ops_model(ops: Seq<DrawOp>) -> Seq<OpModel> {
    ops.map_values(|op: DrawOp| op@)
}

/// Zero or one step as a display list.
pub open spec fn maybe(op: Option<OpModel>) -> Seq<OpModel> {
    match op {
        Some(op) => seq![op],
        None => Seq::empty(),
    }
}

} // verus!
