//! Pixel buffers: RGBA, four bytes per pixel, row by row without padding.

use tiny_skia::{BlendMode, Color as SkColor, IntRect, Paint, Pixmap, PixmapMut, Shader, Transform};
use vstd::arithmetic::div_mod::{
    lemma_fundamental_div_mod, lemma_fundamental_div_mod_converse, lemma_mod_pos_bound,
};
use vstd::prelude::*;

use crate::error::RenderError;

verus! {

/// The widest buffer: the bytes of a row must fit in 31 bits.
pub const MAX_ROW: u32 = 536_870_911;

/// A colour: red, green, blue and alpha, as a command or a texel carries
/// them.
#[derive(Clone, Copy, Debug, PartialEq, Eq, Structural)]
pub struct Color {
    pub r: u8,
    pub g: u8,
    pub b: u8,
    pub a: u8,
}

/// Pixels as they arrive with a texture upload.
#[derive(Clone, Debug, PartialEq, Eq)]
pub struct ImageData {
    pub width: u32,
    pub height: u32,
    pub pixels: Vec<Color>,
}

/// An owned pixel buffer.
#[derive(Clone, Debug, PartialEq, Eq)]
pub struct Image {
    pub width: u32,
    pub height: u32,
    pub data: Vec<u8>,
}

/// What an [`Image`] holds, as plain values.
pub struct ImageModel {
    pub width: u32,
    pub height: u32,
    pub bytes: Seq<u8>,
}

impl View for Image {
    type V = ImageModel;

    open spec fn view(&self) -> ImageModel {
        ImageModel { width: self.width, height: self.height, bytes: self.data@ }
    }
}

/// A buffer of this size can be allocated: neither side is 0, a row fits
/// in 31 bits, and the bytes can be counted.
pub open spec fn can_allocate(width: u32, height: u32) -> bool {
    &&& 1 <= width <= MAX_ROW
    &&& 1 <= height
    &&& 4 * (width * height) <= isize::MAX
}

/// A buffer of this size can be allocated, and `len` bytes hold exactly its
/// pixels.
pub open spec fn sized(width: u32, height: u32, len: int) -> bool {
    can_allocate(width, height) && len == 4 * (width * height)
}

/// The bytes of `pixels`, four for each, in order.
pub open spec fn flattened(pixels: Seq<Color>) -> Seq<u8> {
    Seq::new(
        4 * pixels.len(),
        |k: int|
            if k % 4 == 0 {
                pixels[k / 4].r
            } else if k % 4 == 1 {
                pixels[k / 4].g
            } else if k % 4 == 2 {
                pixels[k / 4].b
            } else {
                pixels[k / 4].a
            },
    )
}

/// The bytes of the rows `top..bottom`, columns `left..right`, of a buffer
/// that is `width` pixels wide.
pub open spec fn cropped(
    bytes: Seq<u8>,
    width: u32,
    left: int,
    top: int,
    right: int,
    bottom: int,
) -> Seq<u8> {
    Seq::new(
        (4 * ((right - left) * (bottom - top))) as nat,
        |k: int|
            bytes[4 * ((top + (k / 4) / (right - left)) * width + left + (k / 4) % (right - left))
                + k % 4],
    )
}

/// The row of the pixel that byte `k` of a buffer `width` pixels wide
/// belongs to.
pub open spec fn row_of(k: int, width: u32) -> int {
    (k / 4) / (width as int)
}

/// The column of the pixel that byte `k` of a buffer `width` pixels wide
/// belongs to.
pub open spec fn col_of(k: int, width: u32) -> int {
    (k / 4) % (width as int)
}

/// Byte `k` of a buffer `width` pixels wide belongs to a pixel in the
/// rectangle of size `w` by `h` at `(x, y)`.
pub open spec fn in_patch(k: int, width: u32, x: int, y: int, w: int, h: int) -> bool {
    &&& x <= col_of(k, width) < x + w
    &&& y <= row_of(k, width) < y + h
}

/// The byte of `patch` that lies over byte `k` of a buffer `width` pixels
/// wide when the patch has its corner at `(x, y)`.
pub open spec fn patch_byte(patch: ImageModel, width: u32, x: int, y: int, k: int) -> u8 {
    let row = row_of(k, width) - y;
    let col = col_of(k, width) - x;
    patch.bytes[4 * (row * patch.width + col) + k % 4]
}

/// The bytes of a buffer after the colour was composited onto all of it with
/// the source-atop rule.
pub uninterp spec fn source_atop_fill(
    bytes: Seq<u8>,
    width: u32,
    height: u32,
    r: u8,
    g: u8,
    b: u8,
    a: u8,
) -> Seq<u8>;

/// `tiny_skia::Pixmap::new`, then `Pixmap::take`: the bytes of a new
/// pixmap. For a size that can be allocated the pixmap is made, and its
/// bytes are all 0, which is transparent black.
#[verifier::external_body]
fn zeroed_pixels(width: u32, height: u32) -> (out: Option<Vec<u8>>)
    requires
        can_allocate(width, height),
    ensures
        out is Some,
        out matches Some(v) ==> v@ == Seq::new((4 * (width * height)) as nat, |k: int| 0u8),
{
    match Pixmap::new(width, height) {
        Some(pixmap) => Some(pixmap.take()),
        None => None,
    }
}

/// `tiny_skia::PixmapMut::fill_rect` over the whole buffer, with a solid
/// colour and `BlendMode::SourceAtop`. What the blend computes is left to
/// `source_atop_fill`; the buffer keeps its size. The rows are counted in
/// an `i32`.
#[verifier::external_body]
fn tint_pixels(bytes: &mut Vec<u8>, width: u32, height: u32, color: Color)
    requires
        sized(width, height, old(bytes)@.len() as int),
        height <= i32::MAX,
    ensures
        final(bytes)@ == source_atop_fill(
            old(bytes)@,
            width,
            height,
            color.r,
            color.g,
            color.b,
            color.a,
        ),
        final(bytes)@.len() == old(bytes)@.len(),
{
    let mut target = PixmapMut::from_bytes(bytes.as_mut_slice(), width, height).unwrap();
    let whole = IntRect::from_xywh(0, 0, width, height).unwrap().to_rect();
    let paint = Paint {
        shader: Shader::SolidColor(SkColor::from_rgba8(color.r, color.g, color.b, color.a)),
        blend_mode: BlendMode::SourceAtop,
        ..Paint::default()
    };
    let _ = target.fill_rect(whole, &paint, Transform::identity(), None);
}

/// Whether a buffer of this size can be allocated.
pub fn fits(width: u32, height: u32) -> (ok: bool)
    ensures
        ok == can_allocate(width, height),
{
    if width < 1 || width > MAX_ROW || height < 1 {
        return false;
    }
    assert(width * height <= 536_870_911 * 0xffff_ffff) by (nonlinear_arith)
        requires
            width <= 536_870_911,
            height <= 0xffff_ffff,
    ;
    let bytes: u64 = 4 * ((width as u64) * (height as u64));
    bytes <= isize::MAX as u64
}

/// Allocates a blank canvas, transparent black, where one of this size can
/// be allocated.
pub fn blank_canvas(width: u32, height: u32) -> (out: Option<Vec<u8>>)
    ensures
        out is Some <==> can_allocate(width, height),
        out matches Some(v) ==> v@ == Seq::new((4 * (width * height)) as nat, |k: int| 0u8),
{
    if !fits(width, height) {
        return None;
    }
    zeroed_pixels(width, height)
}

/// The rectangle is not empty and lies inside a `width` by `height` buffer.
pub open spec fn inside(left: u16, top: u16, right: u16, bottom: u16, width: u32, height: u32) -> bool {
    left < right <= width && top < bottom <= height
}

/// The copy of a rectangle of `image`.
pub open spec fn crop_of(image: ImageModel, left: u16, top: u16, right: u16, bottom: u16) -> ImageModel {
    ImageModel {
        width: (right - left) as u32,
        height: (bottom - top) as u32,
        bytes: cropped(image.bytes, image.width, left as int, top as int, right as int, bottom as int),
    }
}

/// `image` with `color` composited onto it by the source-atop rule.
pub open spec fn tint_of(image: ImageModel, color: Color) -> ImageModel {
    ImageModel {
        width: image.width,
        height: image.height,
        bytes: source_atop_fill(
            image.bytes,
            image.width,
            image.height,
            color.r,
            color.g,
            color.b,
            color.a,
        ),
    }
}

/// `target` with `patch` copied into it, the patch's corner at `(x, y)`:
/// every byte of a pixel that the patch covers is the patch's byte, every
/// other byte stays. What of the patch reaches outside `target` is cut off.
pub open spec fn drawn_over(target: ImageModel, patch: ImageModel, x: u32, y: u32) -> ImageModel {
    ImageModel {
        width: target.width,
        height: target.height,
        bytes: Seq::new(
            target.bytes.len(),
            |k: int|
                if in_patch(
                    k,
                    target.width,
                    x as int,
                    y as int,
                    patch.width as int,
                    patch.height as int,
                ) {
                    patch_byte(patch, target.width, x as int, y as int, k)
                } else {
                    target.bytes[k]
                },
        ),
    }
}

/// Byte `k` of `target` while `patch` is being copied into it: the rows
/// before `row` are done, and of row `row` the bytes before `upto`.
spec fn copied_so_far(
    target: ImageModel,
    patch: ImageModel,
    x: u32,
    y: u32,
    row: int,
    upto: int,
    k: int,
) -> u8 {
    if in_patch(k, target.width, x as int, y as int, patch.width as int, patch.height as int) && (
    row_of(k, target.width) < row || (row_of(k, target.width) == row && k < upto)) {
        patch_byte(patch, target.width, x as int, y as int, k)
    } else {
        target.bytes[k]
    }
}

/// The first byte of the pixel in row `row`, column `col`, of a buffer
/// `width` pixels wide.
pub open spec fn byte_at(width: u32, row: int, col: int) -> int {
    4 * (row * width + col)
}

/// Every byte of a buffer belongs to a pixel in one of its rows and columns.
pub proof fn lemma_place_of(k: int, width: u32, height: u32)
    requires
        0 < width,
        0 <= k < 4 * (width * height),
    ensures
        0 <= col_of(k, width) < width,
        0 <= row_of(k, width) < height,
        k / 4 == row_of(k, width) * width + col_of(k, width),
{
    let p = k / 4;
    let w = width as int;
    lemma_fundamental_div_mod(p, w);
    lemma_mod_pos_bound(p, w);
    let q = p / w;
    let r = p % w;
    assert(w * q == q * w) by (nonlinear_arith);
    assert(0 <= q < height) by (nonlinear_arith)
        requires
            p == q * w + r,
            0 <= r < w,
            0 <= p < w * height,
    ;
}

/// The bytes of the pixel in row `row`, column `col`, belong to that row
/// and column.
pub proof fn lemma_byte_place(width: u32, row: int, col: int, c: int)
    requires
        0 <= row,
        0 <= col < width,
        0 <= c < 4,
    ensures
        row_of(byte_at(width, row, col) + c, width) == row,
        col_of(byte_at(width, row, col) + c, width) == col,
        (byte_at(width, row, col) + c) % 4 == c,
{
    let p = row * width + col;
    let k = 4 * p + c;
    assert(k / 4 == p && k % 4 == c);
    lemma_fundamental_div_mod_converse(p, width as int, row, col);
}

proof fn lemma_copy_step(
    target: ImageModel,
    patch: ImageModel,
    x: u32,
    y: u32,
    r: int,
    j: int,
    before: Seq<u8>,
    after: Seq<u8>,
)
    requires
        0 < target.width,
        0 < patch.width,
        0 <= r,
        r < patch.height,
        0 <= j,
        j / 4 < patch.width,
        x + j / 4 < target.width,
        before.len() == target.bytes.len(),
        0 <= byte_at(target.width, y + r, x as int) + j < before.len(),
        forall|k: int|
            0 <= k < before.len() ==> #[trigger] before[k] == copied_so_far(
                target,
                patch,
                x,
                y,
                y + r,
                byte_at(target.width, y + r, x as int) + j,
                k,
            ),
        after == before.update(
            byte_at(target.width, y + r, x as int) + j,
            patch.bytes[byte_at(patch.width, r, 0) + j],
        ),
    ensures
        forall|k: int|
            0 <= k < after.len() ==> #[trigger] after[k] == copied_so_far(
                target,
                patch,
                x,
                y,
                y + r,
                byte_at(target.width, y + r, x as int) + j + 1,
                k,
            ),
{
    let start = byte_at(target.width, y + r, x as int);
    let here = start + j;
    assert forall|k: int| 0 <= k < after.len() implies #[trigger] after[k] == copied_so_far(
        target,
        patch,
        x,
        y,
        y + r,
        start + j + 1,
        k,
    ) by {
        assert(before[k] == copied_so_far(target, patch, x, y, y + r, start + j, k));
        if k == here {
            lemma_byte_place(target.width, y + r, x + j / 4, j % 4);
            assert(byte_at(target.width, y + r, x + j / 4) + j % 4 == here);
            let row = row_of(k, target.width) - y;
            let col = col_of(k, target.width) - x;
            assert(row == r && col == j / 4);
            assert(4 * (row * patch.width + col) + k % 4 == byte_at(patch.width, r, 0) + j);
        }
    }
}

proof fn lemma_copy_row_start(
    target: ImageModel,
    patch: ImageModel,
    x: u32,
    y: u32,
    r: int,
    k: int,
)
    requires
        sized(target.width, target.height, target.bytes.len() as int),
        0 <= k < target.bytes.len(),
        0 <= r,
    ensures
        copied_so_far(target, patch, x, y, y + r, 0, k) == copied_so_far(
            target,
            patch,
            x,
            y,
            y + r,
            byte_at(target.width, y + r, x as int),
            k,
        ),
{
    lemma_place_of(k, target.width, target.height);
}

proof fn lemma_copy_row_end(
    target: ImageModel,
    patch: ImageModel,
    x: u32,
    y: u32,
    r: int,
    cols: int,
    k: int,
)
    requires
        sized(target.width, target.height, target.bytes.len() as int),
        0 <= k < target.bytes.len(),
        0 <= r,
        x < target.width,
        cols == if patch.width <= target.width - x {
            patch.width as int
        } else {
            target.width - x
        },
    ensures
        copied_so_far(
            target,
            patch,
            x,
            y,
            y + r,
            byte_at(target.width, y + r, x as int) + 4 * cols,
            k,
        ) == copied_so_far(target, patch, x, y, y + r + 1, 0, k),
{
    lemma_place_of(k, target.width, target.height);
}

proof fn lemma_copy_done(
    target: ImageModel,
    patch: ImageModel,
    x: u32,
    y: u32,
    rows: int,
    k: int,
)
    requires
        sized(target.width, target.height, target.bytes.len() as int),
        0 <= k < target.bytes.len(),
        rows == if y >= target.height {
            0
        } else if patch.height <= target.height - y {
            patch.height as int
        } else {
            target.height - y
        },
    ensures
        copied_so_far(target, patch, x, y, y + rows, 0, k) == drawn_over(target, patch, x, y).bytes[k],
{
    lemma_place_of(k, target.width, target.height);
}

/// Byte `j` of row `r` of the rectangle is byte `j` of that row's part of
/// the buffer.
proof fn lemma_crop_byte(
    bytes: Seq<u8>,
    width: u32,
    left: int,
    top: int,
    right: int,
    bottom: int,
    r: int,
    j: int,
)
    requires
        0 <= left < right <= u32::MAX,
        0 <= top <= r < bottom,
        0 <= j < 4 * (right - left),
    ensures
        0 <= 4 * ((r - top) * (right - left)) + j < 4 * ((right - left) * (bottom - top)),
        cropped(bytes, width, left, top, right, bottom)[4 * ((r - top) * (right - left)) + j]
            == bytes[4 * (r * width + left) + j],
{
    let cw = right - left;
    let ch = bottom - top;
    let row = r - top;
    let k = 4 * (row * cw) + j;
    assert(0 <= row * cw && row * cw + cw <= cw * ch) by (nonlinear_arith)
        requires
            0 <= row <= ch - 1,
            0 < cw,
    ;
    lemma_byte_place(cw as u32, row, j / 4, j % 4);
    assert(byte_at(cw as u32, row, j / 4) + j % 4 == k);
    assert((k / 4) / cw == row && (k / 4) % cw == j / 4 && k % 4 == j % 4);
    assert((top + row) * width == r * width) by (nonlinear_arith)
        requires
            row == r - top,
    ;
}

/// `after` is `before` with `patch` copied into it at `(x, y)`: the size
/// is kept, the pixels that the patch covers hold the patch's bytes, and
/// every other byte is as it was.
pub open spec fn is_patched(
    before: ImageModel,
    after: ImageModel,
    patch: ImageModel,
    x: u32,
    y: u32,
) -> bool {
    &&& after.width == before.width
    &&& after.height == before.height
    &&& after.bytes.len() == before.bytes.len()
    &&& forall|k: int|
        0 <= k < before.bytes.len() && in_patch(
            k,
            before.width,
            x as int,
            y as int,
            patch.width as int,
            patch.height as int,
        ) ==> #[trigger] after.bytes[k] == patch_byte(patch, before.width, x as int, y as int, k)
    &&& forall|k: int|
        0 <= k < before.bytes.len() && !in_patch(
            k,
            before.width,
            x as int,
            y as int,
            patch.width as int,
            patch.height as int,
        ) ==> #[trigger] after.bytes[k] == before.bytes[k]
}

/// Drawing a patch over a buffer is a copy: the buffer keeps its size, takes
/// the patch's bytes on the pixels that the patch covers, and keeps every
/// other byte.
pub proof fn lemma_patch_is_a_copy(target: ImageModel, patch: ImageModel, x: u32, y: u32)
    ensures
        is_patched(target, drawn_over(target, patch, x, y), patch, x, y),
{
}

impl Image {
    /// The buffer can be allocated at its size and holds exactly its pixels.
    pub open spec fn wf(&self) -> bool {
        sized(self.width, self.height, self.data@.len() as int)
    }

    /// Takes `data` as the pixels of a `width` by `height` buffer, where it
    /// has that size.
    pub fn from_rgba(width: u32, height: u32, data: Vec<u8>) -> (out: Result<Image, RenderError>)
        ensures
            out is Ok <==> sized(width, height, data@.len() as int),
            out matches Ok(image) ==> image.width == width && image.height == height
                && image.data == data,
            out matches Err(e) ==> e == (RenderError::Allocation { width, height }),
    {
        if !fits(width, height) {
            return Err(RenderError::Allocation { width, height });
        }
        let wanted: u64 = 4 * ((width as u64) * (height as u64));
        if data.len() as u64 != wanted {
            return Err(RenderError::Allocation { width, height });
        }
        Ok(Image { width, height, data })
    }

    /// Whether the buffer can be allocated at its size and holds exactly its
    /// pixels.
    pub fn is_wf(&self) -> (ok: bool)
        ensures
            ok == self.wf(),
    {
        if !fits(self.width, self.height) {
            return false;
        }
        self.data.len() as u64 == 4 * ((self.width as u64) * (self.height as u64))
    }

    /// Copies the pixels of the rows `top..bottom`, columns `left..right`.
    /// There is no copy of a rectangle that is empty or reaches outside the
    /// buffer.
    pub fn crop(&self, left: u16, top: u16, right: u16, bottom: u16) -> (out: Option<Image>)
        requires
            self.wf(),
        ensures
            out is Some <==> inside(left, top, right, bottom, self.width, self.height),
            out matches Some(image) ==> image@ == crop_of(self@, left, top, right, bottom)
                && image.wf(),
    {
        if !(left < right && right as u32 <= self.width && top < bottom && bottom as u32
            <= self.height) {
            return None;
        }
        let width = (right - left) as u32;
        let height = (bottom - top) as u32;
        proof {
            let w = self.width as int;
            let h = self.height as int;
            assert(width * height <= w * h) by (nonlinear_arith)
                requires
                    0 <= width <= w,
                    0 <= height <= h,
            ;
        }
        let stride: usize = self.width as usize;
        let count: usize = 4 * (width as usize);
        let total: usize = self.data.len();
        let mut data: Vec<u8> = Vec::new();
        let mut r: usize = top as usize;
        while r < bottom as usize
            invariant
                top <= r <= bottom,
                left < right <= self.width,
                bottom <= self.height,
                self.wf(),
                stride == self.width,
                count == 4 * (right - left),
                total == self.data@.len(),
                data@.len() == 4 * ((r - top) * (right - left)),
                forall|k: int|
                    0 <= k < data@.len() ==> #[trigger] data@[k] == cropped(
                        self.data@,
                        self.width,
                        left as int,
                        top as int,
                        right as int,
                        bottom as int,
                    )[k],
            decreases bottom - r,
        {
            proof {
                let w = self.width as int;
                let h = self.height as int;
                assert(0 <= r * w && r * w + w <= w * h) by (nonlinear_arith)
                    requires
                        0 <= r <= h - 1,
                        0 < w,
                ;
                assert((r + 1 - top) * (right - left) == (r - top) * (right - left) + (right
                    - left)) by (nonlinear_arith);
            }
            let start: usize = 4 * (r * stride + left as usize);
            let mut j: usize = 0;
            while j < count
                invariant
                    j <= count,
                    top <= r < bottom,
                    left < right <= self.width,
                    count == 4 * (right - left),
                    start == 4 * (r * self.width + left),
                    start + count <= total,
                    total == self.data@.len(),
                    data@.len() == 4 * ((r - top) * (right - left)) + j,
                    forall|k: int|
                        0 <= k < data@.len() ==> #[trigger] data@[k] == cropped(
                            self.data@,
                            self.width,
                            left as int,
                            top as int,
                            right as int,
                            bottom as int,
                        )[k],
                decreases count - j,
            {
                proof {
                    lemma_crop_byte(
                        self.data@,
                        self.width,
                        left as int,
                        top as int,
                        right as int,
                        bottom as int,
                        r as int,
                        j as int,
                    );
                }
                data.push(self.data[start + j]);
                j += 1;
            }
            r += 1;
        }
        assert((bottom - top) * (right - left) == (right - left) * (bottom - top))
            by (nonlinear_arith);
        assert(data@ =~= cropped(
            self.data@,
            self.width,
            left as int,
            top as int,
            right as int,
            bottom as int,
        ));
        Some(Image { width, height, data })
    }

    /// Composites `color` onto every pixel with the source-atop rule, so
    /// that only texels that were covered take the colour. The rasterizer
    /// counts rows in an `i32`, so a buffer of more rows cannot be tinted.
    pub fn tint(&mut self, color: Color)
        requires
            old(self).wf(),
            old(self).height <= i32::MAX,
        ensures
            final(self)@ == tint_of(old(self)@, color),
            final(self).wf(),
    {
        tint_pixels(&mut self.data, self.width, self.height, color);
    }

    /// Copies `patch` into this buffer with its top-left corner at
    /// `(x, y)`. What of the patch reaches outside the buffer is cut off;
    /// the bytes outside the rectangle that the patch covers stay as they
    /// were.
    pub fn draw_over(&mut self, patch: &Image, x: u32, y: u32)
        requires
            old(self).wf(),
            patch.wf(),
        ensures
            final(self)@ == drawn_over(old(self)@, patch@, x, y),
            is_patched(old(self)@, final(self)@, patch@, x, y),
            final(self).wf(),
    {
        proof {
            lemma_patch_is_a_copy(old(self)@, patch@, x, y);
        }
        let ghost target = self@;
        let ghost source = patch@;
        if x >= self.width || y >= self.height {
            assert(self.data@ =~= drawn_over(target, source, x, y).bytes) by {
                assert forall|k: int| 0 <= k < target.bytes.len() implies target.bytes[k]
                    == #[trigger] drawn_over(target, source, x, y).bytes[k] by {
                    lemma_place_of(k, target.width, target.height);
                }
            }
            return;
        }
        let cols: usize = if patch.width <= self.width - x {
            patch.width as usize
        } else {
            (self.width - x) as usize
        };
        let rows: usize = if patch.height <= self.height - y {
            patch.height as usize
        } else {
            (self.height - y) as usize
        };
        let width: usize = self.width as usize;
        let patch_width: usize = patch.width as usize;
        let total: usize = self.data.len();
        let patch_total: usize = patch.data.len();
        let mut r: usize = 0;
        while r < rows
            invariant
                r <= rows,
                x < target.width,
                total == target.bytes.len(),
                patch_total == patch.data@.len(),
                rows <= patch.height,
                y + rows <= target.height,
                cols <= patch.width,
                x + cols <= target.width,
                cols == if patch.width <= target.width - x {
                    patch.width as int
                } else {
                    target.width - x
                },
                width == target.width,
                patch_width == patch.width,
                source == patch@,
                patch.wf(),
                sized(target.width, target.height, target.bytes.len() as int),
                self.width == target.width,
                self.height == target.height,
                self.data@.len() == target.bytes.len(),
                forall|k: int|
                    0 <= k < self.data@.len() ==> #[trigger] self.data@[k] == copied_so_far(
                        target,
                        source,
                        x,
                        y,
                        y + r,
                        0,
                        k,
                    ),
            decreases rows - r,
        {
            proof {
                let w = target.width as int;
                let h = target.height as int;
                let pw = source.width as int;
                let ph = source.height as int;
                assert((y + r) * w + x + cols <= w * h) by (nonlinear_arith)
                    requires
                        0 <= y + r <= h - 1,
                        0 <= x + cols <= w,
                ;
                assert(r * pw + cols <= pw * ph) by (nonlinear_arith)
                    requires
                        0 <= r <= ph - 1,
                        0 <= cols <= pw,
                ;
                assert(0 <= (y + r) * w) by (nonlinear_arith)
                    requires
                        0 <= y + r,
                        0 <= w,
                ;
                assert(0 <= r * pw) by (nonlinear_arith)
                    requires
                        0 <= r,
                        0 <= pw,
                ;
            }
            let start: usize = 4 * ((y as usize + r) * width + x as usize);
            let from: usize = 4 * (r * patch_width);
            let count: usize = 4 * cols;
            assert(start == byte_at(target.width, y + r, x as int));
            assert(from == byte_at(source.width, r as int, 0));
            proof {
                assert forall|k: int| 0 <= k < self.data@.len() implies #[trigger] self.data@[k]
                    == copied_so_far(target, source, x, y, y + r, start as int, k) by {
                    assert(self.data@[k] == copied_so_far(target, source, x, y, y + r, 0, k));
                    lemma_copy_row_start(target, source, x, y, r as int, k);
                }
            }
            let mut j: usize = 0;
            while j < count
                invariant
                    j <= count,
                    count == 4 * cols,
                    r < rows,
                    rows <= patch.height,
                    cols <= patch.width,
                    x + cols <= target.width,
                    0 < target.width,
                    0 < source.width,
                    source == patch@,
                    start == byte_at(target.width, y + r, x as int),
                    from == byte_at(source.width, r as int, 0),
                    start + count <= total,
                    from + count <= patch_total,
                    total == target.bytes.len(),
                    patch_total == patch.data@.len(),
                    self.width == target.width,
                    self.height == target.height,
                    self.data@.len() == target.bytes.len(),
                    forall|k: int|
                        0 <= k < self.data@.len() ==> #[trigger] self.data@[k] == copied_so_far(
                            target,
                            source,
                            x,
                            y,
                            y + r,
                            start + j,
                            k,
                        ),
                decreases count - j,
            {
                let ghost before = self.data@;
                let byte = patch.data[from + j];
                self.data.set(start + j, byte);
                proof {
                    lemma_copy_step(target, source, x, y, r as int, j as int, before, self.data@);
                }
                j += 1;
            }
            proof {
                assert forall|k: int| 0 <= k < self.data@.len() implies #[trigger] self.data@[k]
                    == copied_so_far(target, source, x, y, y + r + 1, 0, k) by {
                    assert(self.data@[k] == copied_so_far(
                        target,
                        source,
                        x,
                        y,
                        y + r,
                        start + count,
                        k,
                    ));
                    lemma_copy_row_end(target, source, x, y, r as int, cols as int, k);
                }
            }
            r += 1;
        }
        assert(self.data@ =~= drawn_over(target, source, x, y).bytes) by {
            assert forall|k: int| 0 <= k < target.bytes.len() implies self.data@[k]
                == #[trigger] drawn_over(target, source, x, y).bytes[k] by {
                assert(self.data@[k] == copied_so_far(target, source, x, y, y + rows, 0, k));
                lemma_copy_done(target, source, x, y, rows as int, k);
            }
        }
    }
}

/// Decodes an upload into an owned buffer: the colours are copied byte for
/// byte. An upload with a side of 0, with a size that cannot be allocated,
/// or whose pixel count is not the product of its sides cannot be sized.
pub fn data_to_pixmap(data: &ImageData) -> (out: Result<Image, RenderError>)
    ensures
        out is Ok <==> sized(data.width, data.height, 4 * data.pixels@.len() as int),
        out matches Ok(image) ==> image@ == (ImageModel {
            width: data.width,
            height: data.height,
            bytes: flattened(data.pixels@),
        }),
        out matches Err(e) ==> e == (RenderError::Allocation {
            width: data.width,
            height: data.height,
        }),
{
    let width = data.width;
    let height = data.height;
    if !fits(width, height) {
        return Err(RenderError::Allocation { width, height });
    }
    let count: u64 = (width as u64) * (height as u64);
    let n = data.pixels.len();
    if n as u64 != count {
        return Err(RenderError::Allocation { width, height });
    }
    let mut bytes: Vec<u8> = Vec::new();
    let mut i: usize = 0;
    while i < n
        invariant
            i <= n,
            n == data.pixels.len(),
            bytes@.len() == 4 * i,
            forall|k: int| 0 <= k < 4 * i ==> bytes@[k] == #[trigger] flattened(data.pixels@)[k],
        decreases n - i,
    {
        let c = data.pixels[i];
        bytes.push(c.r);
        bytes.push(c.g);
        bytes.push(c.b);
        bytes.push(c.a);
        i += 1;
    }
    assert(bytes@ =~= flattened(data.pixels@));
    Ok(Image { width, height, data: bytes })
}

} // verus!
