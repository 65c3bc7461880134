//! The frame driver: one frame goes from the output of the user interface
//! to a blank canvas and the display list to draw on it.

use vstd::prelude::*;

use crate::error::{font_atlas, font_atlas_id, RenderError};
use crate::geometry::{Rect, UNITS_PER_PIXEL};
use crate::image::{blank_canvas, can_allocate, is_patched, lemma_patch_is_a_copy, ImageModel};
use crate::render::{
    clip_ops, draw_shape, draw_shapes, mesh_ops, result_model, shape_ops, shapes_ops,
    MAX_NESTING,
};
use crate::shape::{ops_model, ClippedShape, DrawOp, OpModel, Shape, TextShape, Vertex};
use crate::texture::{
    after_frees, after_sets, decoded, lemma_frees_remove, lemma_single_set, sets_error,
    CacheModel, TextureCache, TexturesDelta,
};

verus! {

/// Units of squared scale: an extent times a scale, divided by this, is a
/// number of pixels.
pub const UNITS_SQUARED: u64 = 100_000_000;

/// What the caller asks of a frame. A rectangle or a scale that is not set
/// falls back to the value that the user interface last knew.
#[derive(Clone, Copy, Debug, PartialEq, Eq, Structural)]
pub struct FrameInput {
    pub screen_rect: Option<Rect>,
    /// Pixels per point in fixed-point units: `UNITS_PER_PIXEL` is 1.
    pub pixels_per_point: Option<i32>,
    pub known_screen_rect: Rect,
    pub known_pixels_per_point: i32,
}

/// What the user interface produced for a frame.
#[derive(Debug)]
pub struct FullOutput {
    pub textures_delta: TexturesDelta,
    pub shapes: Vec<ClippedShape>,
}

/// A finished frame: the blank canvas, RGBA row by row, and the steps to
/// draw on it in order.
#[derive(Clone, Debug, PartialEq, Eq)]
pub struct Frame {
    pub width: u32,
    pub height: u32,
    pub pixels: Vec<u8>,
    pub ops: Vec<DrawOp>,
}

/// What a [`Frame`] holds, as plain values.
pub struct FrameModel {
    pub width: u32,
    pub height: u32,
    pub pixels: Seq<u8>,
    pub ops: Seq<OpModel>,
}

impl View for Frame {
    type V = FrameModel;

    open spec fn view(&self) -> FrameModel {
        FrameModel {
            width: self.width,
            height: self.height,
            pixels: self.pixels@,
            ops: ops_model(self.ops@),
        }
    }
}

/// The outcome of a frame: what is returned, and the cache afterwards.
pub struct Outcome {
    pub result: Result<FrameModel, RenderError>,
    pub cache: CacheModel,
}

/// The rectangle of the frame.
pub open spec fn frame_rect(input: FrameInput) -> Rect {
    match input.screen_rect {
        Some(rect) => rect,
        None => input.known_screen_rect,
    }
}

/// The scale of the frame.
pub open spec fn frame_scale(input: FrameInput) -> i32 {
    match input.pixels_per_point {
        Some(scale) => scale,
        None => input.known_pixels_per_point,
    }
}

/// An extent at a scale, in whole pixels: rounded down, 0 where either is
/// not positive, and no more than a `u32` holds.
pub open spec fn scaled_pixels(extent: int, scale: int) -> u32 {
    if extent <= 0 || scale <= 0 {
        0
    } else if (extent * scale) / (UNITS_SQUARED as int) > u32::MAX {
        u32::MAX
    } else {
        ((extent * scale) / (UNITS_SQUARED as int)) as u32
    }
}

/// The width of the canvas of a frame.
pub open spec fn canvas_width(input: FrameInput) -> u32 {
    scaled_pixels(frame_rect(input).width(), frame_scale(input) as int)
}

/// The height of the canvas of a frame.
pub open spec fn canvas_height(input: FrameInput) -> u32 {
    scaled_pixels(frame_rect(input).height(), frame_scale(input) as int)
}

/// A blank canvas: every byte 0.
pub open spec fn blank(width: u32, height: u32) -> Seq<u8> {
    Seq::new((4 * (width * height)) as nat, |k: int| 0u8)
}

/// The font atlas of a cache, if it has one.
pub open spec fn atlas_of(cache: CacheModel) -> Option<ImageModel> {
    if cache.contains_key(font_atlas()) {
        Some(cache[font_atlas()])
    } else {
        None
    }
}

/// What a frame on a canvas of `width` by `height` pixels comes to. A
/// canvas that cannot be sized fails the frame before anything is touched.
/// Else the uploads are applied; the first upload in error fails the frame.
/// Else the commands are turned into steps against the cache as it then
/// is; the first command in error fails the frame. Only a frame that
/// succeeds frees its textures.
pub open spec fn render_sized(
    cache: CacheModel,
    width: u32,
    height: u32,
    scale: i32,
    output: FullOutput,
) -> Outcome {
    let loaded = after_sets(cache, output.textures_delta.set@);
    if !can_allocate(width, height) {
        Outcome { result: Err(RenderError::Allocation { width, height }), cache }
    } else if sets_error(cache, output.textures_delta.set@) is Some {
        Outcome { result: Err(sets_error(cache, output.textures_delta.set@)->0), cache: loaded }
    } else {
        match shapes_ops(output.shapes@, atlas_of(loaded), scale) {
            Err(e) => Outcome { result: Err(e), cache: loaded },
            Ok(ops) => Outcome {
                result: Ok(FrameModel { width, height, pixels: blank(width, height), ops }),
                cache: after_frees(loaded, output.textures_delta.free@),
            },
        }
    }
}

/// What a frame comes to: the frame on the canvas that its rectangle and
/// scale ask for.
pub open spec fn render(cache: CacheModel, input: FrameInput, output: FullOutput) -> Outcome {
    render_sized(cache, canvas_width(input), canvas_height(input), frame_scale(input), output)
}

/// The outcome of a frame as plain values.
pub open spec fn frame_result(out: Result<Frame, RenderError>) -> Result<FrameModel, RenderError> {
    match out {
        Ok(frame) => Ok(frame@),
        Err(e) => Err(e),
    }
}

/// What `rasterize` comes to: the frame of a renderer without textures on
/// a canvas of exactly `size` pixels, at scale 1.
pub open spec fn rasterized(size: (u32, u32), output: FullOutput) -> Result<FrameModel, RenderError> {
    render_sized(CacheModel::empty(), size.0, size.1, UNITS_PER_PIXEL, output).result
}

/// An extent at a scale, in whole pixels.
pub fn scale_to_pixels(extent: i64, scale: i32) -> (out: u32)
    requires
        extent <= u32::MAX,
    ensures
        out == scaled_pixels(extent as int, scale as int),
{
    if extent <= 0 || scale <= 0 {
        return 0;
    }
    assert(extent * scale <= 0xffff_ffff * 0x7fff_ffff) by (nonlinear_arith)
        requires
            0 < extent <= 0xffff_ffff,
            0 < scale <= 0x7fff_ffff,
    ;
    let product: u64 = (extent as u64) * (scale as u64);
    let pixels: u64 = product / UNITS_SQUARED;
    if pixels > u32::MAX as u64 {
        u32::MAX
    } else {
        pixels as u32
    }
}

/// The renderer: the texture cache that lasts from frame to frame.
pub struct TinySkiaBackend {
    textures: TextureCache,
}

impl View for TinySkiaBackend {
    type V = CacheModel;

    closed spec fn view(&self) -> CacheModel {
        self.textures@
    }
}

impl TinySkiaBackend {
    /// Every texture of the renderer is well-formed.
    pub closed spec fn wf(&self) -> bool {
        self.textures.wf()
    }

    /// A renderer without textures.
    pub fn new() -> (backend: TinySkiaBackend)
        ensures
            backend@ == CacheModel::empty(),
            backend.wf(),
    {
        TinySkiaBackend { textures: TextureCache::new() }
    }

    /// The texture cache.
    pub fn textures(&self) -> (cache: &TextureCache)
        ensures
            cache@ == self@,
            self.wf() ==> cache.wf(),
    {
        &self.textures
    }

    /// Turns one clipped command into its steps against the textures as
    /// they are.
    pub fn draw_shape(&self, shape: &ClippedShape, scale: i32) -> (out: Result<
        Vec<DrawOp>,
        RenderError,
    >)
        requires
            self.wf(),
        ensures
            result_model(out) == shape_ops(
                shape.shape,
                shape.clip,
                atlas_of(self@),
                scale,
                MAX_NESTING as nat,
            ),
    {
        let atlas = self.textures.get(font_atlas_id());
        draw_shape(&shape.shape, shape.clip, atlas, scale, MAX_NESTING)
    }

    /// Renders one frame on a canvas of `width` by `height` pixels:
    /// allocates the canvas, applies the uploads, turns the commands into
    /// steps in order, and frees the textures that the frame gave up.
    pub fn render_frame(&mut self, width: u32, height: u32, scale: i32, output: &FullOutput) -> (out:
        Result<Frame, RenderError>)
        requires
            old(self).wf(),
        ensures
            final(self).wf(),
            frame_result(out) == render_sized(old(self)@, width, height, scale, *output).result,
            final(self)@ == render_sized(old(self)@, width, height, scale, *output).cache,
    {
        let pixels = match blank_canvas(width, height) {
            Some(pixels) => pixels,
            None => {
                return Err(RenderError::Allocation { width, height });
            },
        };
        match self.textures.apply_sets(&output.textures_delta.set) {
            Ok(()) => {},
            Err(e) => {
                return Err(e);
            },
        }
        let atlas = self.textures.get(font_atlas_id());
        let ops = match draw_shapes(&output.shapes, atlas, scale) {
            Ok(ops) => ops,
            Err(e) => {
                return Err(e);
            },
        };
        self.textures.apply_frees(&output.textures_delta.free);
        Ok(Frame { width, height, pixels, ops })
    }

    /// Renders one frame: sizes the canvas from the rectangle and the scale
    /// of the request, each falling back to the value last known, and
    /// renders on it.
    pub fn output_to_pixmap(&mut self, input: FrameInput, output: &FullOutput) -> (out: Result<
        Frame,
        RenderError,
    >)
        requires
            old(self).wf(),
        ensures
            final(self).wf(),
            frame_result(out) == render(old(self)@, input, *output).result,
            final(self)@ == render(old(self)@, input, *output).cache,
    {
        let rect = match input.screen_rect {
            Some(rect) => rect,
            None => input.known_screen_rect,
        };
        let scale = match input.pixels_per_point {
            Some(scale) => scale,
            None => input.known_pixels_per_point,
        };
        let width = scale_to_pixels(rect.max.x as i64 - rect.min.x as i64, scale);
        let height = scale_to_pixels(rect.max.y as i64 - rect.min.y as i64, scale);
        self.render_frame(width, height, scale, output)
    }
}

/// Renders one frame of `size` pixels with a new renderer, at scale 1.
pub fn rasterize(size: (u32, u32), output: &FullOutput) -> (out: Result<Frame, RenderError>)
    ensures
        frame_result(out) == rasterized(size, *output),
{
    let mut backend = TinySkiaBackend::new();
    backend.render_frame(size.0, size.1, UNITS_PER_PIXEL, output)
}

/// A text that is drawn while the cache has no font atlas is an error that
/// names the atlas, whatever the text holds.
pub proof fn lemma_text_needs_font_atlas(
    text: TextShape,
    clip: Rect,
    pixels_per_point: i32,
    depth: nat,
)
    ensures
        shape_ops(Shape::Text(text), clip, None, pixels_per_point, depth) == Err::<
            Seq<OpModel>,
            RenderError,
        >(RenderError::MissingTexture(font_atlas())),
{
}

/// A frame whose only command is a text, rendered before any upload has
/// brought the font atlas, fails with the missing atlas and leaves the
/// cache as it was.
pub proof fn lemma_text_before_font_atlas(cache: CacheModel, input: FrameInput, output: FullOutput)
    requires
        !cache.contains_key(font_atlas()),
        output.textures_delta.set@.len() == 0,
        output.shapes@.len() == 1,
        output.shapes@[0].shape is Text,
        can_allocate(canvas_width(input), canvas_height(input)),
    ensures
        render(cache, input, output).result == Err::<FrameModel, RenderError>(
            RenderError::MissingTexture(font_atlas()),
        ),
        render(cache, input, output).cache == cache,
{
}

/// A mesh with fewer than three vertices draws no triangle and is no
/// error: only the clip is set.
pub proof fn lemma_small_mesh_draws_nothing(
    vertices: Vec<Vertex>,
    clip: Rect,
    atlas: Option<ImageModel>,
    pixels_per_point: i32,
    depth: nat,
)
    requires
        vertices@.len() < 3,
    ensures
        mesh_ops(vertices@).len() == 0,
        shape_ops(Shape::Mesh(vertices), clip, atlas, pixels_per_point, depth) == Ok::<
            Seq<OpModel>,
            RenderError,
        >(clip_ops(clip)),
{
    assert(mesh_ops(vertices@) =~= Seq::<OpModel>::empty());
    assert(clip_ops(clip) + Seq::<OpModel>::empty() =~= clip_ops(clip));
}

/// A frame without texture operations leaves the cache as it was, so the
/// same input rendered again comes to the same frame, step for step and
/// byte for byte.
pub proof fn lemma_render_again_is_same(cache: CacheModel, input: FrameInput, output: FullOutput)
    requires
        output.textures_delta.set@.len() == 0,
        output.textures_delta.free@.len() == 0,
    ensures
        render(cache, input, output).cache == cache,
        render(render(cache, input, output).cache, input, output) == render(cache, input, output),
{
}

/// A frame that succeeds, and whose only upload is a patch of a texture
/// that it does not free, leaves that texture at its size with the patch
/// copied into it: the pixels that the patch covers hold the decoded
/// image, every other byte is as it was.
pub proof fn lemma_frame_patches_in_place(
    cache: CacheModel,
    width: u32,
    height: u32,
    scale: i32,
    output: FullOutput,
    x: u32,
    y: u32,
)
    requires
        output.textures_delta.set@.len() == 1,
        output.textures_delta.set@[0].pos == Some((x, y)),
        cache.contains_key(output.textures_delta.set@[0].id),
        !output.textures_delta.free@.contains(output.textures_delta.set@[0].id),
        render_sized(cache, width, height, scale, output).result is Ok,
    ensures
        render_sized(cache, width, height, scale, output).cache.contains_key(
            output.textures_delta.set@[0].id,
        ),
        is_patched(
            cache[output.textures_delta.set@[0].id],
            render_sized(cache, width, height, scale, output).cache[output.textures_delta.set@[0].id],
            decoded(output.textures_delta.set@[0].image),
            x,
            y,
        ),
{
    let set = output.textures_delta.set@[0];
    lemma_single_set(cache, output.textures_delta.set@);
    lemma_patch_is_a_copy(cache[set.id], decoded(set.image), x, y);
    lemma_frees_remove(after_sets(cache, output.textures_delta.set@), output.textures_delta.free@, set.id);
}

/// A frame that succeeds, uploads a whole texture and frees it, leaves a
/// cache with no entry for it, whether or not the cache held it before.
pub proof fn lemma_frame_set_then_free(
    cache: CacheModel,
    width: u32,
    height: u32,
    scale: i32,
    output: FullOutput,
)
    requires
        output.textures_delta.set@.len() == 1,
        output.textures_delta.set@[0].pos is None,
        output.textures_delta.free@.contains(output.textures_delta.set@[0].id),
        render_sized(cache, width, height, scale, output).result is Ok,
    ensures
        !render_sized(cache, width, height, scale, output).cache.contains_key(
            output.textures_delta.set@[0].id,
        ),
{
    let set = output.textures_delta.set@[0];
    lemma_frees_remove(after_sets(cache, output.textures_delta.set@), output.textures_delta.free@, set.id);
}

/// A frame on a canvas that can be allocated, whose first upload is a patch
/// of a texture that the cache does not hold, fails with the missing
/// texture and leaves the cache as it was.
pub proof fn lemma_frame_patch_of_missing_texture(
    cache: CacheModel,
    width: u32,
    height: u32,
    scale: i32,
    output: FullOutput,
)
    requires
        can_allocate(width, height),
        output.textures_delta.set@.len() >= 1,
        output.textures_delta.set@[0].pos is Some,
        !cache.contains_key(output.textures_delta.set@[0].id),
    ensures
        render_sized(cache, width, height, scale, output).result == Err::<FrameModel, RenderError>(
            RenderError::MissingTexture(output.textures_delta.set@[0].id),
        ),
        render_sized(cache, width, height, scale, output).cache == cache,
{
}

/// `rasterize` succeeds on a canvas that can be allocated if the uploads and
/// the commands are in order, and its canvas then has exactly the size that
/// was asked for.
pub proof fn lemma_raster_size(size: (u32, u32), output: FullOutput)
    ensures
        rasterized(size, output) matches Ok(frame) ==> frame.width == size.0 && frame.height
            == size.1 && frame.pixels == blank(size.0, size.1),
        !can_allocate(size.0, size.1) ==> rasterized(size, output) == Err::<
            FrameModel,
            RenderError,
        >(RenderError::Allocation { width: size.0, height: size.1 }),
{
}

} // verus!
