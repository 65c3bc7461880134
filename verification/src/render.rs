//! Commands to display list: which outlines are filled and stroked, with
//! what paint, under which clip, and where each glyph is stamped.

use vstd::prelude::*;

use crate::error::{font_atlas, font_atlas_id, RenderError};
use crate::geometry::{
    at, circle_outline, circle_path, drawable, line_outline, line_path, polyline_outline, polyline_path,
    rect_outline, rect_path, triangle_outline, triangle_path, window_count, Path, PathPoint, Point,
    Rect, Segment,
};
use crate::image::{crop_of, inside, tint_of, Color, Image, ImageModel};
use crate::shape::{
    maybe, ops_model, ClippedShape, DrawOp, Glyph, OpModel, Row, Shape, Stroke, TextShape, UvRect,
    Vertex,
};

verus! {

/// The thinnest stroke: a stroke that asks for less is drawn this wide, so
/// that it stays visible as a hairline.
pub const HAIRLINE: i32 = 1;

/// The width of the stroke around each triangle of a mesh: half a pixel.
pub const MESH_STROKE: i32 = 5_000;

/// A tenth of a pixel: the rectangle of a glyph is moved right and up by
/// this much against its bitmap, which hides the seams between glyphs.
pub const GLYPH_NUDGE: i64 = 1_000;

/// How many groups may be nested in one another.
pub const MAX_NESTING: u32 = 64;

/// The pen as it is drawn: never thinner than a hairline, and opaque
/// whatever the alpha of its colour.
pub open spec fn stroke_as_drawn(s: Stroke) -> Stroke {
    Stroke {
        width: if s.width < HAIRLINE {
            HAIRLINE
        } else {
            s.width
        },
        color: Color { r: s.color.r, g: s.color.g, b: s.color.b, a: 255 },
    }
}

/// The step that draws `path` with an optional fill and an optional stroke.
pub open spec fn draw_model(path: Seq<Segment>, fill: Option<Color>, stroke: Option<Stroke>) -> OpModel {
    OpModel::Draw {
        path,
        fill,
        stroke: match stroke {
            Some(s) => Some(stroke_as_drawn(s)),
            None => None,
        },
    }
}

/// The step for `path`, if anything can be drawn from it: a path that is
/// empty or a lone `MoveTo` has no step.
pub open spec fn draw_step(path: Seq<Segment>, fill: Option<Color>, stroke: Option<Stroke>) -> Option<
    OpModel,
> {
    if drawable(path) {
        Some(draw_model(path, fill, stroke))
    } else {
        None
    }
}

/// The steps for an outline that may be missing: a missing outline draws
/// nothing.
pub open spec fn outline_ops(
    outline: Option<Seq<Segment>>,
    fill: Option<Color>,
    stroke: Option<Stroke>,
) -> Seq<OpModel> {
    match outline {
        Some(path) => maybe(draw_step(path, fill, stroke)),
        None => Seq::empty(),
    }
}

/// The steps of a mesh: one triangle for every three vertices in a row,
/// filled and stroked in the colour of its first vertex.
pub open spec fn mesh_ops(vertices: Seq<Vertex>) -> Seq<OpModel> {
    Seq::new(
        window_count(vertices.len()),
        |i: int|
            draw_model(
                triangle_outline(vertices[i].pos, vertices[i + 1].pos, vertices[i + 2].pos),
                Some(vertices[i].color),
                Some(Stroke { width: MESH_STROKE, color: vertices[i].color }),
            ),
    )
}

/// The colour of a glyph: the override of its text where there is one, else
/// the colour of its section, if the text has that section.
pub open spec fn glyph_color(text: TextShape, glyph: Glyph) -> Option<Color> {
    match text.override_text_color {
        Some(c) => Some(c),
        None => if glyph.section_index < text.section_colors@.len() {
            Some(text.section_colors@[glyph.section_index as int])
        } else {
            None
        },
    }
}

/// The texels of the glyph are a rectangle that is not empty and lies in the
/// atlas.
pub open spec fn uv_usable(uv: UvRect, atlas: ImageModel) -> bool {
    inside(uv.min_x, uv.min_y, uv.max_x, uv.max_y, atlas.width, atlas.height)
}

/// Whether a glyph is drawn at all: its texels are usable, its size on the
/// screen is not negative, and it has a colour.
pub open spec fn glyph_drawn(text: TextShape, glyph: Glyph, atlas: ImageModel) -> bool {
    &&& uv_usable(glyph.uv_rect, atlas)
    &&& glyph.uv_rect.size.x >= 0
    &&& glyph.uv_rect.size.y >= 0
    &&& glyph_color(text, glyph) is Some
}

/// Where the top-left texel of a glyph lies on the screen.
pub open spec fn stamp_origin(origin: Point, glyph: Glyph) -> PathPoint {
    at(
        origin.x + glyph.pos.x + glyph.uv_rect.offset.x,
        origin.y + glyph.pos.y + glyph.uv_rect.offset.y,
    )
}

/// The rectangle that a glyph fills: its bitmap's place, nudged right and
/// up.
pub open spec fn stamp_outline(origin: Point, glyph: Glyph) -> Seq<Segment> {
    let left = origin.x + glyph.pos.x + glyph.uv_rect.offset.x + GLYPH_NUDGE;
    let top = origin.y + glyph.pos.y + glyph.uv_rect.offset.y - GLYPH_NUDGE;
    let right = left + glyph.uv_rect.size.x;
    let bottom = top + glyph.uv_rect.size.y;
    seq![
        Segment::MoveTo(at(left, top)),
        Segment::LineTo(at(right, top)),
        Segment::LineTo(at(right, bottom)),
        Segment::LineTo(at(left, bottom)),
        Segment::Close,
    ]
}

/// The step that stamps `image` for a glyph.
pub open spec fn stamp_model(
    origin: Point,
    glyph: Glyph,
    image: ImageModel,
    pixels_per_point: i32,
) -> OpModel {
    OpModel::Stamp {
        image,
        path: stamp_outline(origin, glyph),
        origin: stamp_origin(origin, glyph),
        pixels_per_point,
    }
}

/// The bitmap of a glyph: its texels cut from the atlas and recoloured.
pub open spec fn glyph_image(atlas: ImageModel, glyph: Glyph, color: Color) -> ImageModel {
    tint_of(
        crop_of(
            atlas,
            glyph.uv_rect.min_x,
            glyph.uv_rect.min_y,
            glyph.uv_rect.max_x,
            glyph.uv_rect.max_y,
        ),
        color,
    )
}

/// The step of a glyph, if it is drawn.
pub open spec fn glyph_op(
    text: TextShape,
    glyph: Glyph,
    atlas: ImageModel,
    pixels_per_point: i32,
) -> Option<OpModel> {
    if glyph_drawn(text, glyph, atlas) {
        Some(
            stamp_model(
                text.pos,
                glyph,
                glyph_image(atlas, glyph, glyph_color(text, glyph)->0),
                pixels_per_point,
            ),
        )
    } else {
        None
    }
}

/// The steps of the glyphs of one row, in order.
pub open spec fn row_ops(
    text: TextShape,
    glyphs: Seq<Glyph>,
    atlas: ImageModel,
    pixels_per_point: i32,
) -> Seq<OpModel>
    decreases glyphs.len(),
{
    if glyphs.len() == 0 {
        Seq::empty()
    } else {
        maybe(glyph_op(text, glyphs[0], atlas, pixels_per_point)) + row_ops(
            text,
            glyphs.drop_first(),
            atlas,
            pixels_per_point,
        )
    }
}

/// The steps of rows of glyphs, in order.
pub open spec fn rows_ops(
    text: TextShape,
    rows: Seq<Row>,
    atlas: ImageModel,
    pixels_per_point: i32,
) -> Seq<OpModel>
    decreases rows.len(),
{
    if rows.len() == 0 {
        Seq::empty()
    } else {
        row_ops(text, rows[0].glyphs@, atlas, pixels_per_point) + rows_ops(
            text,
            rows.drop_first(),
            atlas,
            pixels_per_point,
        )
    }
}

/// The steps of a text: an error without the font atlas, whatever the text
/// holds; else the steps of its rows.
pub open spec fn text_ops(
    text: TextShape,
    atlas: Option<ImageModel>,
    pixels_per_point: i32,
) -> Result<Seq<OpModel>, RenderError> {
    match atlas {
        None => Err(RenderError::MissingTexture(font_atlas())),
        Some(a) => Ok(rows_ops(text, text.rows@, a, pixels_per_point)),
    }
}

/// The step that sets the clip: none for a rectangle with a negative side,
/// which leaves the clip of the command before in force.
pub open spec fn clip_ops(clip: Rect) -> Seq<OpModel> {
    if clip.valid() {
        seq![OpModel::Clip(clip)]
    } else {
        Seq::empty()
    }
}

/// `first`, then `rest`, unless `rest` is an error.
pub open spec fn followed_by(first: Seq<OpModel>, rest: Result<Seq<OpModel>, RenderError>) -> Result<
    Seq<OpModel>,
    RenderError,
> {
    match rest {
        Ok(ops) => Ok(first + ops),
        Err(e) => Err(e),
    }
}

/// The steps of one command under `clip`: the clip is set, then the command
/// is drawn. `depth` is how many more groups may be entered.
pub open spec fn shape_ops(
    shape: Shape,
    clip: Rect,
    atlas: Option<ImageModel>,
    pixels_per_point: i32,
    depth: nat,
) -> Result<Seq<OpModel>, RenderError>
    decreases depth, 0nat,
{
    followed_by(
        clip_ops(clip),
        match shape {
            Shape::Empty => Ok(Seq::empty()),
            Shape::Group(children) => if depth == 0 {
                Err(RenderError::NestingTooDeep)
            } else {
                group_ops(children@, clip, atlas, pixels_per_point, (depth - 1) as nat)
            },
            Shape::Mesh(vertices) => Ok(mesh_ops(vertices@)),
            Shape::Rect { rect, rounding, fill, stroke } => Ok(
                outline_ops(rect_outline(rect, rounding), Some(fill), Some(stroke)),
            ),
            Shape::LineSegment { from, to, stroke } => Ok(
                maybe(draw_step(line_outline(from, to), None, Some(stroke))),
            ),
            Shape::Circle { center, radius, fill, stroke } => Ok(
                outline_ops(circle_outline(center, radius), Some(fill), Some(stroke)),
            ),
            Shape::Path { points, closed, fill, stroke } => Ok(
                outline_ops(polyline_outline(points@, closed), Some(fill), Some(stroke)),
            ),
            Shape::Text(text) => text_ops(text, atlas, pixels_per_point),
            Shape::Unsupported(kind) => Err(RenderError::Unsupported(kind)),
        },
    )
}

/// The steps of the commands of a group, in order, up to the first error.
pub open spec fn group_ops(
    children: Seq<Shape>,
    clip: Rect,
    atlas: Option<ImageModel>,
    pixels_per_point: i32,
    depth: nat,
) -> Result<Seq<OpModel>, RenderError>
    decreases depth, 1 + children.len(),
{
    if children.len() == 0 {
        Ok(Seq::empty())
    } else {
        match shape_ops(children[0], clip, atlas, pixels_per_point, depth) {
            Err(e) => Err(e),
            Ok(ops) => followed_by(
                ops,
                group_ops(children.drop_first(), clip, atlas, pixels_per_point, depth),
            ),
        }
    }
}

/// The steps of the commands of a frame, in order, up to the first error.
pub open spec fn shapes_ops(
    shapes: Seq<ClippedShape>,
    atlas: Option<ImageModel>,
    pixels_per_point: i32,
) -> Result<Seq<OpModel>, RenderError>
    decreases shapes.len(),
{
    if shapes.len() == 0 {
        Ok(Seq::empty())
    } else {
        match shape_ops(
            shapes[0].shape,
            shapes[0].clip,
            atlas,
            pixels_per_point,
            MAX_NESTING as nat,
        ) {
            Err(e) => Err(e),
            Ok(ops) => followed_by(ops, shapes_ops(shapes.drop_first(), atlas, pixels_per_point)),
        }
    }
}

/// The outcome of a step of the renderer as plain values.
pub open spec fn result_model(out: Result<Vec<DrawOp>, RenderError>) -> Result<
    Seq<OpModel>,
    RenderError,
> {
    match out {
        Ok(ops) => Ok(ops_model(ops@)),
        Err(e) => Err(e),
    }
}

/// The atlas as plain values.
pub open spec fn atlas_model(atlas: Option<&Image>) -> Option<ImageModel> {
    match atlas {
        Some(a) => Some(a@),
        None => None,
    }
}

/// Appending display lists appends their models.
pub proof fn lemma_ops_model_add(a: Seq<DrawOp>, b: Seq<DrawOp>)
    ensures
        ops_model(a + b) == ops_model(a) + ops_model(b),
{
    assert(ops_model(a + b) =~= ops_model(a) + ops_model(b));
}

fn no_ops() -> (ops: Vec<DrawOp>)
    ensures
        ops_model(ops@) == Seq::<OpModel>::empty(),
{
    let ops: Vec<DrawOp> = Vec::new();
    assert(ops_model(ops@) =~= Seq::<OpModel>::empty());
    ops
}

fn push_op(ops: &mut Vec<DrawOp>, op: DrawOp)
    ensures
        ops_model(final(ops)@) == ops_model(old(ops)@).push(op@),
{
    ops.push(op);
    assert(ops_model(ops@) =~= ops_model(old(ops)@).push(op@));
}

fn append_ops(ops: &mut Vec<DrawOp>, more: Vec<DrawOp>)
    ensures
        ops_model(final(ops)@) == ops_model(old(ops)@) + ops_model(more@),
{
    let mut more = more;
    let ghost tail = more@;
    ops.append(&mut more);
    proof {
        lemma_ops_model_add(old(ops)@, tail);
    }
}

/// The pen as it is drawn.
pub fn drawn_stroke(stroke: Stroke) -> (out: Stroke)
    ensures
        out == stroke_as_drawn(stroke),
{
    Stroke {
        width: if stroke.width < HAIRLINE {
            HAIRLINE
        } else {
            stroke.width
        },
        color: Color { r: stroke.color.r, g: stroke.color.g, b: stroke.color.b, a: 255 },
    }
}

/// Whether anything can be drawn from `path`.
pub fn is_drawable(path: &Path) -> (ok: bool)
    ensures
        ok == drawable(path@),
{
    let n = path.segments.len();
    if n >= 2 {
        true
    } else if n == 1 {
        match path.segments[0] {
            Segment::Oval { .. } => true,
            _ => false,
        }
    } else {
        false
    }
}

/// The step that fills `path` where a fill is given and strokes it where a
/// stroke is given. The stroke is opaque and at least a hairline wide. A
/// path from which nothing can be drawn has no step, which is no error.
pub fn draw_path(path: Path, fill: Option<Color>, stroke: Option<Stroke>) -> (op: Option<DrawOp>)
    ensures
        op is Some <==> drawable(path@),
        op matches Some(o) ==> o@ == draw_model(path@, fill, stroke),
{
    if !is_drawable(&path) {
        return None;
    }
    let stroke = match stroke {
        Some(s) => Some(drawn_stroke(s)),
        None => None,
    };
    Some(DrawOp::Draw { path, fill, stroke })
}

fn push_step(ops: &mut Vec<DrawOp>, path: Path, fill: Option<Color>, stroke: Option<Stroke>)
    ensures
        ops_model(final(ops)@) == ops_model(old(ops)@) + maybe(draw_step(path@, fill, stroke)),
{
    let ghost before = ops_model(ops@);
    match draw_path(path, fill, stroke) {
        Some(op) => {
            push_op(ops, op);
            assert(before.push(op@) =~= before + seq![op@]);
        },
        None => {
            assert(before + Seq::<OpModel>::empty() =~= before);
        },
    }
}

fn draw_outline(path: Option<Path>, fill: Color, stroke: Stroke) -> (ops: Vec<DrawOp>)
    ensures
        ops_model(ops@) == outline_ops(
            match path {
                Some(p) => Some(p@),
                None => None,
            },
            Some(fill),
            Some(stroke),
        ),
{
    let mut ops = no_ops();
    match path {
        Some(p) => {
            let ghost step = maybe(draw_step(p@, Some(fill), Some(stroke)));
            push_step(&mut ops, p, Some(fill), Some(stroke));
            assert(Seq::<OpModel>::empty() + step =~= step);
        },
        None => {},
    }
    ops
}

/// The steps of a mesh. Fewer than three vertices make no triangle, which
/// is no error.
pub fn draw_mesh(vertices: &Vec<Vertex>) -> (ops: Vec<DrawOp>)
    ensures
        ops_model(ops@) == mesh_ops(vertices@),
        ops@.len() == window_count(vertices@.len()),
{
    let mut ops = no_ops();
    let n = vertices.len();
    if n < 3 {
        assert(ops_model(ops@) =~= mesh_ops(vertices@));
        assert(ops_model(ops@).len() == ops@.len());
        return ops;
    }
    let mut i: usize = 0;
    while i < n - 2
        invariant
            3 <= n == vertices.len(),
            i <= n - 2,
            ops_model(ops@).len() == i,
            forall|k: int| 0 <= k < i ==> ops_model(ops@)[k] == #[trigger] mesh_ops(vertices@)[k],
        decreases n - i,
    {
        let a = vertices[i];
        let b = vertices[i + 1];
        let c = vertices[i + 2];
        let path = triangle_path(a.pos, b.pos, c.pos);
        let ghost before = ops_model(ops@);
        let ghost step = draw_model(
            path@,
            Some(a.color),
            Some(Stroke { width: MESH_STROKE, color: a.color }),
        );
        push_step(
            &mut ops,
            path,
            Some(a.color),
            Some(Stroke { width: MESH_STROKE, color: a.color }),
        );
        assert(ops_model(ops@) =~= before.push(step));
        i += 1;
    }
    assert(ops_model(ops@) =~= mesh_ops(vertices@));
    assert(ops_model(ops@).len() == ops@.len());
    ops
}

/// The step that stamps the recoloured bitmap `image` of `glyph` for a
/// text at `origin`.
pub fn stamp_op(origin: Point, glyph: &Glyph, image: Image, pixels_per_point: i32) -> (op: DrawOp)
    ensures
        op@ == stamp_model(origin, *glyph, image@, pixels_per_point),
{
    let x: i64 = origin.x as i64 + glyph.pos.x as i64 + glyph.uv_rect.offset.x as i64;
    let y: i64 = origin.y as i64 + glyph.pos.y as i64 + glyph.uv_rect.offset.y as i64;
    let left: i64 = x + GLYPH_NUDGE;
    let top: i64 = y - GLYPH_NUDGE;
    let right: i64 = left + glyph.uv_rect.size.x as i64;
    let bottom: i64 = top + glyph.uv_rect.size.y as i64;
    let mut segments: Vec<Segment> = Vec::new();
    segments.push(Segment::MoveTo(PathPoint { x: left, y: top }));
    segments.push(Segment::LineTo(PathPoint { x: right, y: top }));
    segments.push(Segment::LineTo(PathPoint { x: right, y: bottom }));
    segments.push(Segment::LineTo(PathPoint { x: left, y: bottom }));
    segments.push(Segment::Close);
    assert(segments@ =~= stamp_outline(origin, *glyph));
    DrawOp::Stamp {
        image,
        path: Path { segments },
        origin: PathPoint { x, y },
        pixels_per_point,
    }
}

/// The colour that a glyph of `text` is drawn in, if it has one.
pub fn color_of_glyph(text: &TextShape, glyph: &Glyph) -> (out: Option<Color>)
    ensures
        out == glyph_color(*text, *glyph),
{
    match text.override_text_color {
        Some(c) => Some(c),
        None => {
            let k = glyph.section_index as usize;
            if k < text.section_colors.len() {
                Some(text.section_colors[k])
            } else {
                None
            }
        },
    }
}

/// Cuts the texels of `glyph` from the atlas, recolours them, and gives the
/// step that stamps them. A glyph whose texels are empty or reach outside
/// the atlas is skipped, as is one of negative size or without a colour.
pub fn composite_glyph(text: &TextShape, glyph: &Glyph, atlas: &Image, pixels_per_point: i32) -> (out:
    Option<DrawOp>)
    requires
        atlas.wf(),
    ensures
        match out {
            Some(op) => Some(op@),
            None => None,
        } == glyph_op(*text, *glyph, atlas@, pixels_per_point),
{
    let uv = glyph.uv_rect;
    if uv.size.x < 0 || uv.size.y < 0 {
        return None;
    }
    let color = match color_of_glyph(text, glyph) {
        Some(c) => c,
        None => {
            return None;
        },
    };
    let mut image = match atlas.crop(uv.min_x, uv.min_y, uv.max_x, uv.max_y) {
        Some(image) => image,
        None => {
            return None;
        },
    };
    image.tint(color);
    Some(stamp_op(text.pos, glyph, image, pixels_per_point))
}

fn draw_row(text: &TextShape, row: &Row, atlas: &Image, pixels_per_point: i32) -> (ops: Vec<DrawOp>)
    requires
        atlas.wf(),
    ensures
        ops_model(ops@) == row_ops(*text, row.glyphs@, atlas@, pixels_per_point),
{
    let mut ops = no_ops();
    let mut i: usize = 0;
    assert(row.glyphs@.skip(0) =~= row.glyphs@);
    while i < row.glyphs.len()
        invariant
            i <= row.glyphs.len(),
            atlas.wf(),
            ops_model(ops@) + row_ops(*text, row.glyphs@.skip(i as int), atlas@, pixels_per_point)
                == row_ops(*text, row.glyphs@, atlas@, pixels_per_point),
        decreases row.glyphs.len() - i,
    {
        let ghost before = ops_model(ops@);
        let ghost rest = row.glyphs@.skip(i as int);
        assert(rest[0] == row.glyphs@[i as int]);
        assert(rest.drop_first() =~= row.glyphs@.skip(i + 1));
        let ghost step = maybe(glyph_op(*text, rest[0], atlas@, pixels_per_point));
        match composite_glyph(text, &row.glyphs[i], atlas, pixels_per_point) {
            Some(op) => {
                push_op(&mut ops, op);
            },
            None => {},
        }
        assert(ops_model(ops@) =~= before + step);
        assert((before + step) + row_ops(
            *text,
            row.glyphs@.skip(i + 1),
            atlas@,
            pixels_per_point,
        ) =~= before + (step + row_ops(*text, row.glyphs@.skip(i + 1), atlas@, pixels_per_point)));
        i += 1;
    }
    assert(row.glyphs@.skip(i as int).len() == 0);
    assert(ops_model(ops@) + Seq::<OpModel>::empty() =~= ops_model(ops@));
    ops
}

/// The steps of a text. Without the font atlas the text is an error, never
/// skipped; with it, every glyph of every row is composited in order.
pub fn draw_text(text: &TextShape, atlas: Option<&Image>, pixels_per_point: i32) -> (out: Result<
    Vec<DrawOp>,
    RenderError,
>)
    requires
        atlas matches Some(a) ==> a.wf(),
    ensures
        result_model(out) == text_ops(*text, atlas_model(atlas), pixels_per_point),
{
    let atlas = match atlas {
        Some(a) => a,
        None => {
            return Err(RenderError::MissingTexture(font_atlas_id()));
        },
    };
    let mut ops = no_ops();
    let mut i: usize = 0;
    assert(text.rows@.skip(0) =~= text.rows@);
    while i < text.rows.len()
        invariant
            i <= text.rows.len(),
            atlas.wf(),
            ops_model(ops@) + rows_ops(*text, text.rows@.skip(i as int), atlas@, pixels_per_point)
                == rows_ops(*text, text.rows@, atlas@, pixels_per_point),
        decreases text.rows.len() - i,
    {
        let ghost before = ops_model(ops@);
        let ghost rest = text.rows@.skip(i as int);
        assert(rest[0] == text.rows@[i as int]);
        assert(rest.drop_first() =~= text.rows@.skip(i + 1));
        let row = draw_row(text, &text.rows[i], atlas, pixels_per_point);
        let ghost step = ops_model(row@);
        append_ops(&mut ops, row);
        assert((before + step) + rows_ops(
            *text,
            text.rows@.skip(i + 1),
            atlas@,
            pixels_per_point,
        ) =~= before + (step + rows_ops(*text, text.rows@.skip(i + 1), atlas@, pixels_per_point)));
        i += 1;
    }
    assert(text.rows@.skip(i as int).len() == 0);
    assert(ops_model(ops@) + Seq::<OpModel>::empty() =~= ops_model(ops@));
    Ok(ops)
}

fn set_clip(clip: Rect) -> (ops: Vec<DrawOp>)
    ensures
        ops_model(ops@) == clip_ops(clip),
{
    let mut ops = no_ops();
    if clip.is_valid() {
        push_op(&mut ops, DrawOp::Clip(clip));
        assert(ops_model(ops@) =~= seq![OpModel::Clip(clip)]);
    }
    ops
}

/// Turns one command into its steps: first the clip, then what the command
/// draws. A group is expanded in order under the same clip, `depth` groups
/// deep at most; the first error ends the command.
pub fn draw_shape(
    shape: &Shape,
    clip: Rect,
    atlas: Option<&Image>,
    pixels_per_point: i32,
    depth: u32,
) -> (out: Result<Vec<DrawOp>, RenderError>)
    requires
        atlas matches Some(a) ==> a.wf(),
    ensures
        result_model(out) == shape_ops(*shape, clip, atlas_model(atlas), pixels_per_point, depth as nat),
    decreases depth, 0nat,
{
    let mut ops = set_clip(clip);
    let body = match shape {
        Shape::Empty => no_ops(),
        Shape::Group(children) => {
            if depth == 0 {
                return Err(RenderError::NestingTooDeep);
            }
            match draw_group(children, clip, atlas, pixels_per_point, depth - 1) {
                Ok(body) => body,
                Err(e) => {
                    return Err(e);
                },
            }
        },
        Shape::Mesh(vertices) => draw_mesh(vertices),
        Shape::Rect { rect, rounding, fill, stroke } => draw_outline(
            rect_path(*rect, *rounding),
            *fill,
            *stroke,
        ),
        Shape::LineSegment { from, to, stroke } => {
            let mut body = no_ops();
            let path = line_path(*from, *to);
            let ghost step = maybe(draw_step(path@, None, Some(*stroke)));
            push_step(&mut body, path, None, Some(*stroke));
            assert(Seq::<OpModel>::empty() + step =~= step);
            body
        },
        Shape::Circle { center, radius, fill, stroke } => draw_outline(
            circle_path(*center, *radius),
            *fill,
            *stroke,
        ),
        Shape::Path { points, closed, fill, stroke } => draw_outline(
            polyline_path(points, *closed),
            *fill,
            *stroke,
        ),
        Shape::Text(text) => match draw_text(text, atlas, pixels_per_point) {
            Ok(body) => body,
            Err(e) => {
                return Err(e);
            },
        },
        Shape::Unsupported(kind) => {
            return Err(RenderError::Unsupported(*kind));
        },
    };
    append_ops(&mut ops, body);
    Ok(ops)
}

/// Turns the commands of a group into their steps, in order.
pub fn draw_group(
    children: &Vec<Shape>,
    clip: Rect,
    atlas: Option<&Image>,
    pixels_per_point: i32,
    depth: u32,
) -> (out: Result<Vec<DrawOp>, RenderError>)
    requires
        atlas matches Some(a) ==> a.wf(),
    ensures
        result_model(out) == group_ops(
            children@,
            clip,
            atlas_model(atlas),
            pixels_per_point,
            depth as nat,
        ),
    decreases depth, 1nat,
{
    let mut ops = no_ops();
    let mut i: usize = 0;
    assert(children@.skip(0) =~= children@);
    assert(Seq::<OpModel>::empty() + Seq::<OpModel>::empty() =~= Seq::<OpModel>::empty());
    while i < children.len()
        invariant
            i <= children.len(),
            atlas matches Some(a) ==> a.wf(),
            followed_by(
                ops_model(ops@),
                group_ops(
                    children@.skip(i as int),
                    clip,
                    atlas_model(atlas),
                    pixels_per_point,
                    depth as nat,
                ),
            ) == group_ops(children@, clip, atlas_model(atlas), pixels_per_point, depth as nat),
        decreases children.len() - i,
    {
        let ghost before = ops_model(ops@);
        let ghost rest = children@.skip(i as int);
        assert(rest[0] == children@[i as int]);
        assert(rest.drop_first() =~= children@.skip(i + 1));
        let ghost tail = group_ops(
            children@.skip(i + 1),
            clip,
            atlas_model(atlas),
            pixels_per_point,
            depth as nat,
        );
        match draw_shape(&children[i], clip, atlas, pixels_per_point, depth) {
            Ok(step) => {
                let ghost s = ops_model(step@);
                append_ops(&mut ops, step);
                assert(tail matches Ok(t) ==> (before + s) + t =~= before + (s + t));
            },
            Err(e) => {
                return Err(e);
            },
        }
        i += 1;
    }
    assert(children@.skip(i as int).len() == 0);
    assert(ops_model(ops@) + Seq::<OpModel>::empty() =~= ops_model(ops@));
    Ok(ops)
}

/// Turns the commands of a frame into their steps, in order. Each command
/// may nest groups `MAX_NESTING` deep.
pub fn draw_shapes(shapes: &Vec<ClippedShape>, atlas: Option<&Image>, pixels_per_point: i32) -> (out:
    Result<Vec<DrawOp>, RenderError>)
    requires
        atlas matches Some(a) ==> a.wf(),
    ensures
        result_model(out) == shapes_ops(shapes@, atlas_model(atlas), pixels_per_point),
{
    let mut ops = no_ops();
    let mut i: usize = 0;
    assert(shapes@.skip(0) =~= shapes@);
    assert(Seq::<OpModel>::empty() + Seq::<OpModel>::empty() =~= Seq::<OpModel>::empty());
    while i < shapes.len()
        invariant
            i <= shapes.len(),
            atlas matches Some(a) ==> a.wf(),
            followed_by(
                ops_model(ops@),
                shapes_ops(shapes@.skip(i as int), atlas_model(atlas), pixels_per_point),
            ) == shapes_ops(shapes@, atlas_model(atlas), pixels_per_point),
        decreases shapes.len() - i,
    {
        let ghost before = ops_model(ops@);
        let ghost rest = shapes@.skip(i as int);
        assert(rest[0] == shapes@[i as int]);
        assert(rest.drop_first() =~= shapes@.skip(i + 1));
        let ghost tail = shapes_ops(shapes@.skip(i + 1), atlas_model(atlas), pixels_per_point);
        match draw_shape(&shapes[i].shape, shapes[i].clip, atlas, pixels_per_point, MAX_NESTING) {
            Ok(step) => {
                let ghost s = ops_model(step@);
                append_ops(&mut ops, step);
                assert(tail matches Ok(t) ==> (before + s) + t =~= before + (s + t));
            },
            Err(e) => {
                return Err(e);
            },
        }
        i += 1;
    }
    assert(shapes@.skip(i as int).len() == 0);
    assert(ops_model(ops@) + Seq::<OpModel>::empty() =~= ops_model(ops@));
    Ok(ops)
}

} // verus!
