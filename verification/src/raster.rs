//! The pixel buffer that one glyph is drawn into before it is composited
//! onto the surface.
//!
//! The buffer holds premultiplied pixels. Samples are written one pixel in
//! from the top-left corner and never onto the outermost ring, so the ring
//! stays transparent and a smooth resampling of the buffer never reads past
//! its edge.

use vstd::prelude::*;
use crate::color::Color;
use crate::fixed::{Fixed, SCALE};

verus! {

/// A pixel with premultiplied colour channels.
#[derive(Clone, Copy, Debug, PartialEq, Eq, Structural)]
pub struct Pixel {
    pub red: u8,
    pub green: u8,
    pub blue: u8,
    pub alpha: u8,
}

/// The fully transparent pixel.
pub open spec fn transparent() -> Pixel {
    Pixel { red: 0, green: 0, blue: 0, alpha: 0 }
}

/// A coverage as raw units between zero and one: values outside count as
/// the nearer end.
pub open spec fn coverage_units(coverage: Fixed) -> int {
    if coverage.raw < 0 {
        0
    } else if coverage.raw > SCALE {
        SCALE as int
    } else {
        coverage.raw as int
    }
}

/// The alpha byte of a sample: the colour's alpha times the coverage, on
/// the scale of a byte, rounded down.
pub open spec fn covered_alpha(color: Color, coverage: Fixed) -> int {
    (color.alpha.raw * coverage_units(coverage) * 255) / (SCALE * SCALE)
}

/// A colour byte of a sample: the channel times the colour's alpha times
/// the coverage, on the scale of a byte, rounded down.
pub open spec fn covered_channel(channel: Fixed, color: Color, coverage: Fixed) -> int {
    (channel.raw * (color.alpha.raw * coverage_units(coverage) * 255)) / (SCALE * SCALE * SCALE)
}

/// The premultiplied pixel for a sample of a glyph drawn in `color` that
/// covers the given part of the pixel.
pub open spec fn covered_pixel(color: Color, coverage: Fixed) -> Pixel {
    Pixel {
        red: covered_channel(color.red, color, coverage) as u8,
        green: covered_channel(color.green, color, coverage) as u8,
        blue: covered_channel(color.blue, color, coverage) as u8,
        alpha: covered_alpha(color, coverage) as u8,
    }
}

/// Makes `tiny_skia::Pixmap`, a rectangle of premultiplied pixels, known to
/// the verifier as a type whose insides it does not see.
#[verifier::external_type_specification]
#[verifier::external_body]
pub struct ExPixmap(tiny_skia::Pixmap);

/// The pixels that a pixmap holds, row by row from the top.
pub uninterp spec fn pixmap_pixels(pixmap: tiny_skia::Pixmap) -> Seq<Pixel>;

/// The number of pixels in each row of a pixmap.
pub uninterp spec fn pixmap_width(pixmap: tiny_skia::Pixmap) -> u32;

/// Whether a pixmap of the given size can be made: no side is zero, a row
/// takes no more bytes than an `i32` counts, and the whole no more than a
/// `usize` counts.
pub open spec fn pixmap_fits(width: u32, height: u32) -> bool {
    width > 0 && height > 0 && 4 * width <= i32::MAX && 4 * width * height <= usize::MAX
}

/// Makes a pixmap with `tiny_skia::Pixmap::new`, which refuses a size that
/// does not fit and otherwise gives `width * height` transparent pixels.
#[verifier::external_body]
fn new_pixmap(width: u32, height: u32) -> (r: Option<tiny_skia::Pixmap>)
    ensures
        r is Some <==> pixmap_fits(width, height),
        r matches Some(p) ==> pixmap_width(p) == width && pixmap_pixels(p).len() == width * height
            && forall|i: int| 0 <= i < width * height ==> #[trigger] pixmap_pixels(p)[i]
            == transparent(),
{
    tiny_skia::Pixmap::new(width, height)
}

/// Makes `tiny_skia::PremultipliedColorU8`, a pixel of four bytes, known to
/// the verifier as a type whose insides it does not see.
#[verifier::external_type_specification]
#[verifier::external_body]
pub struct ExPremultipliedColorU8(tiny_skia::PremultipliedColorU8);

/// The four bytes that a premultiplied colour holds: red, green, blue,
/// alpha.
pub uninterp spec fn premultiplied_bytes(color: tiny_skia::PremultipliedColorU8) -> Seq<u8>;

/// The pixel with the given bytes: red, green, blue, alpha.
pub open spec fn pixel_of(bytes: Seq<u8>) -> Pixel
    recommends
        bytes.len() == 4,
{
    Pixel { red: bytes[0], green: bytes[1], blue: bytes[2], alpha: bytes[3] }
}

/// Makes a premultiplied colour with
/// `tiny_skia::PremultipliedColorU8::from_rgba`, which takes the components
/// if no colour exceeds alpha, and keeps them as given.
#[verifier::external_body]
fn checked_premultiplied(red: u8, green: u8, blue: u8, alpha: u8) -> (r: Option<
    tiny_skia::PremultipliedColorU8,
>)
    ensures
        r is Some <==> (red <= alpha && green <= alpha && blue <= alpha),
        r matches Some(color) ==> premultiplied_bytes(color) == seq![red, green, blue, alpha],
{
    tiny_skia::PremultipliedColorU8::from_rgba(red, green, blue, alpha)
}

/// Stores one pixel through `tiny_skia::Pixmap::pixels_mut`. No other pixel
/// changes, and the rows stay as long as they were.
#[verifier::external_body]
fn store_pixel(pixmap: &mut tiny_skia::Pixmap, index: usize, color: tiny_skia::PremultipliedColorU8)
    requires
        index < pixmap_pixels(*old(pixmap)).len(),
    ensures
        pixmap_width(*final(pixmap)) == pixmap_width(*old(pixmap)),
        pixmap_pixels(*final(pixmap)) == pixmap_pixels(*old(pixmap)).update(
            index as int,
            pixel_of(premultiplied_bytes(color)),
        ),
{
    pixmap.pixels_mut()[index] = color;
}

/// Reads one pixel through `tiny_skia::Pixmap::pixels`.
#[verifier::external_body]
fn load_pixel(pixmap: &tiny_skia::Pixmap, index: usize) -> (pixel: Pixel)
    requires
        index < pixmap_pixels(*pixmap).len(),
    ensures
        pixel == pixmap_pixels(*pixmap)[index as int],
{
    let color = pixmap.pixels()[index];
    Pixel { red: color.red(), green: color.green(), blue: color.blue(), alpha: color.alpha() }
}

proof fn lemma_channel_within_alpha(channel: Fixed, color: Color, coverage: Fixed)
    requires
        color.wf(),
        0 <= channel.raw <= SCALE,
    ensures
        0 <= covered_channel(channel, color, coverage) <= covered_alpha(color, coverage) <= 255,
{
    let s: int = SCALE as int;
    let a: int = color.alpha.raw * coverage_units(coverage) * 255;
    let c: int = channel.raw as int;
    assert(0 <= a <= s * s * 255) by (nonlinear_arith)
        requires
            a == color.alpha.raw * coverage_units(coverage) * 255,
            0 <= color.alpha.raw <= s,
            0 <= coverage_units(coverage) <= s,
    ;
    assert(0 <= c * a <= s * a) by (nonlinear_arith)
        requires
            0 <= c <= s,
            0 <= a,
    ;
    assert(s * s > 0 && s * s * s > 0) by (nonlinear_arith)
        requires
            s == 1_000_000_000,
    ;
    assert(a / (s * s) <= 255) by (nonlinear_arith)
        requires
            0 <= a <= s * s * 255,
            s * s > 0,
    ;
    assert((c * a) / (s * s * s) <= a / (s * s)) by (nonlinear_arith)
        requires
            0 <= c * a <= s * a,
            s > 0,
            s * s > 0,
            s * s * s > 0,
            0 <= a,
    {
        let q = a / (s * s);
        let r = a % (s * s);
        assert(a == q * (s * s) + r);
        assert(0 <= r < s * s);
        assert(s * a == q * (s * s * s) + s * r);
        assert(s * r < s * s * s);
        assert(c * a < (q + 1) * (s * s * s));
        if (c * a) / (s * s * s) > q {
            assert((c * a) / (s * s * s) >= q + 1);
            assert(((c * a) / (s * s * s)) * (s * s * s) <= c * a);
            assert((q + 1) * (s * s * s) <= ((c * a) / (s * s * s)) * (s * s * s));
            assert(false);
        }
    }
    assert((c * a) / (s * s * s) >= 0) by (nonlinear_arith)
        requires
            0 <= c * a,
            s * s * s > 0,
    ;
}

/// Computes the premultiplied pixel of a sample.
pub fn premultiply(color: &Color, coverage: Fixed) -> (p: Pixel)
    requires
        color.wf(),
    ensures
        p == covered_pixel(*color, coverage),
        p.red <= p.alpha,
        p.green <= p.alpha,
        p.blue <= p.alpha,
{
    let units: u128 = if coverage.raw < 0 {
        0
    } else if coverage.raw > SCALE {
        1_000_000_000
    } else {
        coverage.raw as u128
    };
    let alpha: u128 = color.alpha.raw as u128;
    assert(alpha * units <= 1_000_000_000 * 1_000_000_000) by (nonlinear_arith)
        requires
            alpha <= 1_000_000_000,
            units <= 1_000_000_000,
    ;
    let weight: u128 = alpha * units * 255;
    let square: u128 = 1_000_000_000 * 1_000_000_000;
    let cube: u128 = square * 1_000_000_000;
    proof {
        lemma_channel_within_alpha(color.red, *color, coverage);
        lemma_channel_within_alpha(color.green, *color, coverage);
        lemma_channel_within_alpha(color.blue, *color, coverage);
        assert(SCALE * SCALE == square);
        assert(SCALE * SCALE * SCALE == cube);
    }
    let red: u128 = color.red.raw as u128;
    let green: u128 = color.green.raw as u128;
    let blue: u128 = color.blue.raw as u128;
    assert(red * weight <= 1_000_000_000 * weight && green * weight <= 1_000_000_000 * weight
        && blue * weight <= 1_000_000_000 * weight) by (nonlinear_arith)
        requires
            red <= 1_000_000_000,
            green <= 1_000_000_000,
            blue <= 1_000_000_000,
            weight >= 0,
    ;
    Pixel {
        red: ((red * weight) / cube) as u8,
        green: ((green * weight) / cube) as u8,
        blue: ((blue * weight) / cube) as u8,
        alpha: (weight / square) as u8,
    }
}

/// A rectangle of premultiplied pixels, stored row by row.
pub struct GlyphBuffer {
    width: u32,
    height: u32,
    pixmap: tiny_skia::Pixmap,
}

impl GlyphBuffer {
    /// The pixmap has as many pixels as the width and height say.
    pub closed spec fn wf(&self) -> bool {
        &&& pixmap_fits(self.width, self.height)
        &&& pixmap_width(self.pixmap) == self.width
        &&& pixmap_pixels(self.pixmap).len() == self.width * self.height
    }

    /// The number of pixels in a row.
    pub closed spec fn spec_width(&self) -> u32 {
        self.width
    }

    /// The number of rows.
    pub closed spec fn spec_height(&self) -> u32 {
        self.height
    }

    /// The pixels, row by row.
    pub closed spec fn spec_pixels(&self) -> Seq<Pixel> {
        pixmap_pixels(self.pixmap)
    }

    /// The pixmap that holds the pixels.
    pub closed spec fn spec_pixmap(&self) -> tiny_skia::Pixmap {
        self.pixmap
    }

    /// The pixel in column `x` of row `y`.
    pub open spec fn pixel_at(&self, x: int, y: int) -> Pixel
        recommends
            0 <= x < self.spec_width(),
            0 <= y < self.spec_height(),
    {
        self.spec_pixels()[y * self.spec_width() + x]
    }

    /// Whether the pixel in column `x` of row `y` lies on the outermost
    /// ring of the buffer.
    pub open spec fn on_ring(&self, x: int, y: int) -> bool {
        x == 0 || y == 0 || x == self.spec_width() - 1 || y == self.spec_height() - 1
    }

    /// Every pixel on the outermost ring is transparent.
    pub open spec fn ring_is_clear(&self) -> bool {
        forall|x: int, y: int|
            0 <= x < self.spec_width() && 0 <= y < self.spec_height() && self.on_ring(x, y)
                ==> #[trigger] self.pixel_at(x, y) == transparent()
    }

    /// Whether a sample at `(xx, yy)` lands inside the ring once it is
    /// moved one pixel in.
    pub open spec fn takes(&self, xx: u32, yy: u32) -> bool {
        xx + 2 < self.spec_width() && yy + 2 < self.spec_height()
    }

    /// A transparent buffer of the given size; `None` if no pixmap of that
    /// size can be made.
    pub fn new(width: u32, height: u32) -> (r: Option<GlyphBuffer>)
        ensures
            r is Some <==> pixmap_fits(width, height),
            r matches Some(b) ==> {
                &&& b.wf()
                &&& b.spec_width() == width
                &&& b.spec_height() == height
                &&& forall|i: int| 0 <= i < width * height ==> b.spec_pixels()[i] == transparent()
                &&& b.ring_is_clear()
            },
    {
        match new_pixmap(width, height) {
            Some(pixmap) => {
                let b = GlyphBuffer { width, height, pixmap };
                assert forall|x: int, y: int|
                    0 <= x < b.spec_width() && 0 <= y < b.spec_height() && b.on_ring(
                        x,
                        y,
                    ) implies #[trigger] b.pixel_at(x, y) == transparent() by {
                    lemma_index_in_range(x, y, width as int, height as int);
                }
                Some(b)
            },
            None => None,
        }
    }

    /// The number of pixels in a row.
    pub fn width(&self) -> (w: u32)
        ensures
            w == self.spec_width(),
    {
        self.width
    }

    /// The number of rows.
    pub fn height(&self) -> (h: u32)
        ensures
            h == self.spec_height(),
    {
        self.height
    }

    /// The pixmap that holds the pixels, for compositing.
    pub fn pixmap(&self) -> (p: &tiny_skia::Pixmap)
        ensures
            *p == self.spec_pixmap(),
    {
        &self.pixmap
    }

    /// The pixel in column `x` of row `y`; `None` outside the buffer.
    pub fn pixel(&self, x: u32, y: u32) -> (p: Option<Pixel>)
        requires
            self.wf(),
        ensures
            p is Some <==> (x < self.spec_width() && y < self.spec_height()),
            p matches Some(pixel) ==> pixel == self.pixel_at(x as int, y as int),
    {
        if x < self.width && y < self.height {
            proof {
                lemma_index_in_range(x as int, y as int, self.width as int, self.height as int);
                assert(0 <= y * self.width) by (nonlinear_arith)
                    requires
                        0 <= y,
                        0 <= self.width,
                ;
                lemma_count_fits(self.width, self.height);
            }
            let index: u64 = (y as u64) * (self.width as u64) + (x as u64);
            Some(load_pixel(&self.pixmap, index as usize))
        } else {
            None
        }
    }

    /// Writes one sample of a glyph: the pixel one in from `(xx, yy)`
    /// becomes the premultiplied colour for the coverage. A sample that
    /// would land on the ring or outside the buffer is dropped. Says whether
    /// the sample was written.
    pub fn put(&mut self, xx: u32, yy: u32, coverage: Fixed, color: &Color) -> (written: bool)
        requires
            old(self).wf(),
            color.wf(),
        ensures
            final(self).wf(),
            final(self).spec_width() == old(self).spec_width(),
            final(self).spec_height() == old(self).spec_height(),
            written == old(self).takes(xx, yy),
            written ==> final(self).spec_pixels() == old(self).spec_pixels().update(
                (yy + 1) * old(self).spec_width() + (xx + 1),
                covered_pixel(*color, coverage),
            ),
            !written ==> final(self).spec_pixels() == old(self).spec_pixels(),
            old(self).ring_is_clear() ==> final(self).ring_is_clear(),
    {
        if xx >= self.width || yy >= self.height || self.width - xx <= 2 || self.height - yy <= 2 {
            return false;
        }
        let pixel = premultiply(color, coverage);
        let row: u64 = yy as u64 + 1;
        let column: u64 = xx as u64 + 1;
        proof {
            lemma_index_in_range(
                column as int,
                row as int,
                self.width as int,
                self.height as int,
            );
            assert(0 <= row * self.width) by (nonlinear_arith)
                requires
                    0 <= row,
                    0 <= self.width,
            ;
            lemma_count_fits(self.width, self.height);
        }
        let index: u64 = row * (self.width as u64) + column;
        let checked = checked_premultiplied(pixel.red, pixel.green, pixel.blue, pixel.alpha);
        match checked {
            Some(color) => {
                store_pixel(&mut self.pixmap, index as usize, color);
            },
            None => {
                return false;
            },
        }
        proof {
            if old(self).ring_is_clear() {
                assert forall|x: int, y: int|
                    0 <= x < self.spec_width() && 0 <= y < self.spec_height() && self.on_ring(
                        x,
                        y,
                    ) implies #[trigger] self.pixel_at(x, y) == transparent() by {
                    lemma_index_in_range(x, y, self.width as int, self.height as int);
                    lemma_index_is_one_to_one(x, y, xx + 1, yy + 1, self.width as int);
                    assert(old(self).pixel_at(x, y) == transparent());
                }
            }
        }
        true
    }
}

/// A buffer has a size that a pixmap can have.
pub proof fn lemma_buffer_fits(buffer: GlyphBuffer)
    requires
        buffer.wf(),
    ensures
        pixmap_fits(buffer.spec_width(), buffer.spec_height()),
{
}

/// The count of pixels of a buffer fits in 64 bits, and in a `usize` if the
/// pixmap can be made.
proof fn lemma_count_fits(width: u32, height: u32)
    ensures
        width * height <= 0xffff_ffff * 0xffff_ffff,
        pixmap_fits(width, height) ==> width * height <= usize::MAX,
{
    assert(width * height <= 0xffff_ffff * 0xffff_ffff) by (nonlinear_arith)
        requires
            0 <= width <= 0xffff_ffff,
            0 <= height <= 0xffff_ffff,
    ;
    assert(width * height <= 4 * width * height) by (nonlinear_arith)
        requires
            0 <= width,
            0 <= height,
    ;
}

/// A pixel inside the buffer has its place inside the row-by-row store.
proof fn lemma_index_in_range(x: int, y: int, width: int, height: int)
    requires
        0 <= x < width,
        0 <= y < height,
    ensures
        0 <= y * width + x < width * height,
{
    assert(y * width + x < width * height) by (nonlinear_arith)
        requires
            0 <= x < width,
            0 <= y < height,
    {
        assert((y + 1) * width <= height * width);
    }
    assert(0 <= y * width) by (nonlinear_arith)
        requires
            0 <= y,
            0 <= width,
    ;
}

/// Two pixels of one buffer share their place in the store only if they
/// are the same pixel.
proof fn lemma_index_is_one_to_one(x1: int, y1: int, x2: int, y2: int, width: int)
    requires
        0 <= x1 < width,
        0 <= x2 < width,
        0 <= y1,
        0 <= y2,
    ensures
        y1 * width + x1 == y2 * width + x2 ==> (x1 == x2 && y1 == y2),
{
    if y1 * width + x1 == y2 * width + x2 {
        if y1 < y2 {
            assert((y1 + 1) * width <= y2 * width) by (nonlinear_arith)
                requires
                    y1 + 1 <= y2,
                    0 <= width,
            ;
            assert((y1 + 1) * width == y1 * width + width) by (nonlinear_arith);
        } else if y2 < y1 {
            assert((y2 + 1) * width <= y1 * width) by (nonlinear_arith)
                requires
                    y2 + 1 <= y1,
                    0 <= width,
            ;
            assert((y2 + 1) * width == y2 * width + width) by (nonlinear_arith);
        }
    }
}

} // verus!
