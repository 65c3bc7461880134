use egui_rasterizer::backend::{rasterize, Frame, FullOutput};
use egui_rasterizer::geometry::{Path, Point, Rect, Rounding, Segment};
use egui_rasterizer::image::Color;
use egui_rasterizer::shape::{ClippedShape, DrawOp, Shape, Stroke};
use egui_rasterizer::texture::TexturesDelta;
use tiny_skia::{ClipMask, FillRule, Paint, PathBuilder, Pixmap, Shader, Transform};

const RED: Color = Color { r: 255, g: 0, b: 0, a: 255 };

fn px(units: i64) -> f32 {
    units as f32 / 10_000.0
}

fn pt(x: i32, y: i32) -> Point {
    Point { x, y }
}

fn rect(left: i32, top: i32, right: i32, bottom: i32) -> Rect {
    Rect { min: pt(10_000 * left, 10_000 * top), max: pt(10_000 * right, 10_000 * bottom) }
}

fn outline(path: &Path) -> Option<tiny_skia::Path> {
    let mut builder = PathBuilder::new();
    for segment in &path.segments {
        match *segment {
            Segment::MoveTo(p) => builder.move_to(px(p.x), px(p.y)),
            Segment::LineTo(p) => builder.line_to(px(p.x), px(p.y)),
            Segment::QuadTo(c, p) => builder.quad_to(px(c.x), px(c.y), px(p.x), px(p.y)),
            Segment::Oval { left, top, right, bottom } => {
                builder.push_oval(tiny_skia::Rect::from_ltrb(px(left), px(top), px(right), px(bottom))?)
            }
            Segment::Close => builder.close(),
        }
    }
    builder.finish()
}

fn solid(color: Color) -> Paint<'static> {
    Paint {
        shader: Shader::SolidColor(tiny_skia::Color::from_rgba8(color.r, color.g, color.b, color.a)),
        anti_alias: true,
        ..Default::default()
    }
}

/// Draws the fills and strokes of `frame` on a white canvas, through the
/// clip where `masked` is set and without any mask where it is not.
fn paint_on_white(frame: &Frame, masked: bool) -> Pixmap {
    let mut target = Pixmap::new(frame.width, frame.height).unwrap();
    target.fill(tiny_skia::Color::WHITE);
    let mut mask = ClipMask::new();
    for op in &frame.ops {
        match op {
            DrawOp::Clip(r) => {
                let mut builder = PathBuilder::new();
                builder.push_rect(
                    px(r.min.x as i64),
                    px(r.min.y as i64),
                    px(r.max.x as i64 - r.min.x as i64),
                    px(r.max.y as i64 - r.min.y as i64),
                );
                if let Some(path) = builder.finish() {
                    mask.set_path(frame.width, frame.height, &path, FillRule::default(), false);
                }
            }
            DrawOp::Draw { path, fill, stroke } => {
                let path = outline(path).unwrap();
                let through = if masked { Some(&mask) } else { None };
                if let Some(color) = fill {
                    target.fill_path(&path, &solid(*color), FillRule::EvenOdd, Transform::identity(), through);
                }
                if let Some(pen) = stroke {
                    let width = tiny_skia::Stroke { width: px(pen.width as i64), ..Default::default() };
                    target.stroke_path(&path, &solid(pen.color), &width, Transform::identity(), through);
                }
            }
            DrawOp::Stamp { .. } => {}
        }
    }
    target
}

fn red_rect_frame(clip: Rect) -> Frame {
    let shape = Shape::Rect {
        rect: rect(2, 3, 6, 5),
        rounding: Rounding { nw: 0, ne: 0, sw: 0, se: 0 },
        fill: RED,
        stroke: Stroke { width: 0, color: Color { r: 0, g: 0, b: 0, a: 0 } },
    };
    let output = FullOutput {
        textures_delta: TexturesDelta { set: vec![], free: vec![] },
        shapes: vec![ClippedShape { clip, shape }],
    };
    rasterize((8, 8), &output).unwrap()
}

fn pixel(pixmap: &Pixmap, x: u32, y: u32) -> [u8; 4] {
    let at = 4 * (y * pixmap.width() + x) as usize;
    let data = pixmap.data();
    [data[at], data[at + 1], data[at + 2], data[at + 3]]
}

#[test]
fn red_rect_on_white_is_red_inside_and_white_outside() {
    let pixmap = paint_on_white(&red_rect_frame(rect(0, 0, 8, 8)), true);
    for y in 0..8 {
        for x in 0..8 {
            let inside = (2..6).contains(&x) && (3..5).contains(&y);
            let expected = if inside { [255, 0, 0, 255] } else { [255, 255, 255, 255] };
            assert_eq!(pixel(&pixmap, x, y), expected, "pixel ({}, {})", x, y);
        }
    }
}

#[test]
fn clip_of_the_whole_destination_changes_nothing() {
    let frame = red_rect_frame(rect(0, 0, 8, 8));
    assert_eq!(frame.ops[0], DrawOp::Clip(rect(0, 0, 8, 8)));
    let masked = paint_on_white(&frame, true);
    let unmasked = paint_on_white(&frame, false);
    assert_eq!(masked.data(), unmasked.data());
}

#[test]
fn clip_cuts_what_lies_outside_it() {
    let pixmap = paint_on_white(&red_rect_frame(rect(4, 0, 8, 8)), true);
    assert_eq!(pixel(&pixmap, 3, 3), [255, 255, 255, 255]);
    assert_eq!(pixel(&pixmap, 4, 3), [255, 0, 0, 255]);
    assert_eq!(pixel(&pixmap, 5, 4), [255, 0, 0, 255]);
    assert_eq!(pixel(&pixmap, 5, 5), [255, 255, 255, 255]);
}

#[test]
fn same_frame_painted_twice_gives_the_same_bytes() {
    let one = paint_on_white(&red_rect_frame(rect(0, 0, 8, 8)), true);
    let two = paint_on_white(&red_rect_frame(rect(0, 0, 8, 8)), true);
    assert_eq!(one.data(), two.data());
}
