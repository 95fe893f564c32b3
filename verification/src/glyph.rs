//! Glyph metrics, glyph placement and the pixel buffer a glyph is drawn
//! into.
//!
//! The code that scales a font and extracts an outline lives outside this
//! library. It is told what to look up by a `GlyphRequest`, and reports what
//! it found as a `ScaledGlyph`.

use vstd::prelude::*;
use crate::color::Color;
use crate::fixed::{
    Fixed, clamp, clamp_i32, clamp_u32, clamp_wide, saturate_i32, saturate_u32,
};
use crate::fonts::{GlyphRequest, is_scalar};
use crate::geometry::Transform;
use crate::raster::{GlyphBuffer, lemma_buffer_fits};
use crate::scan::to_chars;

verus! {

/// The pixel box that holds the ink of a glyph, relative to the glyph's
/// origin. The y axis points down.
#[derive(Clone, Copy, Debug, PartialEq, Eq, Structural)]
pub struct GlyphBounds {
    pub min_x: Fixed,
    pub min_y: Fixed,
    pub max_x: Fixed,
    pub max_y: Fixed,
}

/// What a font says of one glyph at one size.
#[derive(Clone, Copy, Debug, PartialEq, Eq, Structural)]
pub struct ScaledGlyph {
    /// How far the pen moves after the glyph.
    pub h_advance: Fixed,
    /// The font's ascent.
    pub ascent: Fixed,
    /// The font's descent.
    pub descent: Fixed,
    /// The bounds of the outline; `None` for a glyph without ink.
    pub outline: Option<GlyphBounds>,
}

/// Metrics of one glyph or of a line of text, in the shape that browsers
/// report them.
#[derive(Clone, Copy, Debug, PartialEq, Eq, Structural)]
pub struct FontMetrics {
    pub width: Fixed,
    pub font_bounding_box_ascent: Fixed,
    pub font_bounding_box_descent: Fixed,
    pub actual_bounding_box_ascent: Fixed,
    pub actual_bounding_box_descent: Fixed,
    pub actual_bounding_box_left: Fixed,
    pub actual_bounding_box_right: Fixed,
}

/// The metrics of one glyph. The width is the advance. The ink box is given
/// as distances from the origin that grow outwards, and is all zero for a
/// glyph without ink.
pub open spec fn glyph_metrics(g: ScaledGlyph) -> FontMetrics {
    match g.outline {
        Some(bounds) => FontMetrics {
            width: g.h_advance,
            font_bounding_box_ascent: g.ascent.spec_negated(),
            font_bounding_box_descent: g.descent,
            actual_bounding_box_ascent: bounds.min_y.spec_negated(),
            actual_bounding_box_descent: bounds.max_y,
            actual_bounding_box_left: bounds.min_x.spec_negated(),
            actual_bounding_box_right: bounds.max_x,
        },
        None => FontMetrics {
            width: g.h_advance,
            font_bounding_box_ascent: g.ascent.spec_negated(),
            font_bounding_box_descent: g.descent,
            actual_bounding_box_ascent: Fixed::spec_zero(),
            actual_bounding_box_descent: Fixed::spec_zero(),
            actual_bounding_box_left: Fixed::spec_zero(),
            actual_bounding_box_right: Fixed::spec_zero(),
        },
    }
}

/// The sum of the advances of a run of glyphs, in raw units.
pub open spec fn advance_sum(glyphs: Seq<ScaledGlyph>) -> int
    decreases glyphs.len(),
{
    if glyphs.len() == 0 {
        0
    } else {
        advance_sum(glyphs.drop_last()) + glyphs.last().h_advance.raw
    }
}

/// The metrics of nothing: all zero.
pub open spec fn no_metrics() -> FontMetrics {
    FontMetrics {
        width: Fixed::spec_zero(),
        font_bounding_box_ascent: Fixed::spec_zero(),
        font_bounding_box_descent: Fixed::spec_zero(),
        actual_bounding_box_ascent: Fixed::spec_zero(),
        actual_bounding_box_descent: Fixed::spec_zero(),
        actual_bounding_box_left: Fixed::spec_zero(),
        actual_bounding_box_right: Fixed::spec_zero(),
    }
}

/// The metrics of a run of glyphs set one after the other. The width is the
/// sum of the advances. The right ink edge is that of the last glyph, set
/// after the advances of those before it. Ink ascent and descent are the
/// largest of any glyph. The rest is as for the first glyph. A run without
/// glyphs has the metrics of nothing.
pub open spec fn text_metrics(glyphs: Seq<ScaledGlyph>) -> FontMetrics
    decreases glyphs.len(),
{
    if glyphs.len() == 0 {
        no_metrics()
    } else if glyphs.len() == 1 {
        glyph_metrics(glyphs[0])
    } else {
        let before = text_metrics(glyphs.drop_last());
        let last = glyph_metrics(glyphs.last());
        FontMetrics {
            width: Fixed { raw: clamp(advance_sum(glyphs)) },
            font_bounding_box_ascent: before.font_bounding_box_ascent,
            font_bounding_box_descent: before.font_bounding_box_descent,
            actual_bounding_box_ascent: before.actual_bounding_box_ascent.spec_larger(
                last.actual_bounding_box_ascent,
            ),
            actual_bounding_box_descent: before.actual_bounding_box_descent.spec_larger(
                last.actual_bounding_box_descent,
            ),
            actual_bounding_box_left: before.actual_bounding_box_left,
            actual_bounding_box_right: Fixed {
                raw: clamp(
                    advance_sum(glyphs.drop_last()) + last.actual_bounding_box_right.raw,
                ),
            },
        }
    }
}

/// The codepoints of a text, in order.
pub open spec fn codepoints_of(text: Seq<char>) -> Seq<u32> {
    text.map_values(|c: char| c as u32)
}

/// The codepoints that are measured for a text: its own, or the null
/// codepoint alone if the text is empty.
pub open spec fn measured_codepoints(text: Seq<char>) -> Seq<u32> {
    if text.len() == 0 {
        seq![0u32]
    } else {
        codepoints_of(text)
    }
}

impl FontMetrics {
    /// The metrics of one glyph.
    pub fn of_glyph(g: &ScaledGlyph) -> (m: FontMetrics)
        ensures
            m == glyph_metrics(*g),
    {
        match g.outline {
            Some(bounds) => FontMetrics {
                width: g.h_advance,
                font_bounding_box_ascent: g.ascent.negated(),
                font_bounding_box_descent: g.descent,
                actual_bounding_box_ascent: bounds.min_y.negated(),
                actual_bounding_box_descent: bounds.max_y,
                actual_bounding_box_left: bounds.min_x.negated(),
                actual_bounding_box_right: bounds.max_x,
            },
            None => FontMetrics {
                width: g.h_advance,
                font_bounding_box_ascent: g.ascent.negated(),
                font_bounding_box_descent: g.descent,
                actual_bounding_box_ascent: Fixed::zero(),
                actual_bounding_box_descent: Fixed::zero(),
                actual_bounding_box_left: Fixed::zero(),
                actual_bounding_box_right: Fixed::zero(),
            },
        }
    }

    /// The metrics of a run of glyphs set one after the other.
    pub fn of_text(glyphs: &Vec<ScaledGlyph>) -> (m: FontMetrics)
        ensures
            m == text_metrics(glyphs@),
    {
        if glyphs.len() == 0 {
            return FontMetrics {
                width: Fixed::zero(),
                font_bounding_box_ascent: Fixed::zero(),
                font_bounding_box_descent: Fixed::zero(),
                actual_bounding_box_ascent: Fixed::zero(),
                actual_bounding_box_descent: Fixed::zero(),
                actual_bounding_box_left: Fixed::zero(),
                actual_bounding_box_right: Fixed::zero(),
            };
        }
        let mut m = FontMetrics::of_glyph(&glyphs[0]);
        let mut sum: i128 = glyphs[0].h_advance.raw as i128;
        let mut i: usize = 1;
        proof {
            let first = glyphs@.take(1);
            assert(first[0] == glyphs@[0]);
            assert(first.drop_last() =~= Seq::<ScaledGlyph>::empty());
            assert(advance_sum(first.drop_last()) == 0);
        }
        while i < glyphs.len()
            invariant
                1 <= i <= glyphs.len(),
                m == text_metrics(glyphs@.take(i as int)),
                sum == advance_sum(glyphs@.take(i as int)),
                -0x8000_0000_0000_0000 * i <= sum <= 0x8000_0000_0000_0000 * i,
            decreases glyphs.len() - i,
        {
            let ghost before = glyphs@.take(i as int);
            let ghost after = glyphs@.take(i as int + 1);
            proof {
                assert(after.drop_last() =~= before);
                assert(after.last() == glyphs@[i as int]);
            }
            let last = FontMetrics::of_glyph(&glyphs[i]);
            let right = clamp_wide(sum + last.actual_bounding_box_right.raw as i128);
            sum = sum + glyphs[i].h_advance.raw as i128;
            m = FontMetrics {
                width: Fixed { raw: clamp_wide(sum) },
                font_bounding_box_ascent: m.font_bounding_box_ascent,
                font_bounding_box_descent: m.font_bounding_box_descent,
                actual_bounding_box_ascent: m.actual_bounding_box_ascent.larger(
                    last.actual_bounding_box_ascent,
                ),
                actual_bounding_box_descent: m.actual_bounding_box_descent.larger(
                    last.actual_bounding_box_descent,
                ),
                actual_bounding_box_left: m.actual_bounding_box_left,
                actual_bounding_box_right: Fixed { raw: right },
            };
            i += 1;
        }
        assert(glyphs@.take(glyphs.len() as int) =~= glyphs@);
        m
    }
}

/// The codepoint of a character.
pub fn codepoint_of(c: char) -> (codepoint: u32)
    ensures
        codepoint == c as u32,
        is_scalar(codepoint),
{
    c as u32
}

/// The codepoints of a text.
pub fn text_codepoints(text: &str) -> (codepoints: Vec<u32>)
    ensures
        codepoints@ == codepoints_of(text@),
        forall|i: int| 0 <= i < codepoints@.len() ==> is_scalar(#[trigger] codepoints@[i]),
{
    let chars = to_chars(text);
    let mut out: Vec<u32> = Vec::new();
    let mut i: usize = 0;
    while i < chars.len()
        invariant
            i <= chars.len(),
            chars@ == text@,
            out@ == codepoints_of(chars@.take(i as int)),
            forall|k: int| 0 <= k < out@.len() ==> is_scalar(#[trigger] out@[k]),
        decreases chars.len() - i,
    {
        out.push(codepoint_of(chars[i]));
        i += 1;
        assert(out@ =~= codepoints_of(chars@.take(i as int)));
    }
    assert(chars@.take(chars.len() as int) =~= chars@);
    out
}

/// The codepoints to measure for a text: never empty.
pub fn codepoints_to_measure(text: &str) -> (codepoints: Vec<u32>)
    ensures
        codepoints@ == measured_codepoints(text@),
        codepoints.len() > 0,
        forall|i: int| 0 <= i < codepoints@.len() ==> is_scalar(#[trigger] codepoints@[i]),
{
    let codepoints = text_codepoints(text);
    if codepoints.len() == 0 {
        let nul = vec![0u32];
        assert(nul@ =~= seq![0u32]);
        nul
    } else {
        codepoints
    }
}

/// The measure of an empty text is the measure of the null codepoint: one
/// glyph is looked up, and the text metrics of one glyph are its own.
pub proof fn lemma_empty_text_measures_nul(nul: ScaledGlyph)
    ensures
        measured_codepoints(Seq::<char>::empty()) == seq![0u32],
        text_metrics(seq![nul]) == glyph_metrics(nul),
{
}

/// The width of a text is the sum of the widths of its glyphs, as far as the
/// sum can be represented.
pub proof fn lemma_text_width_is_sum(glyphs: Seq<ScaledGlyph>)
    ensures
        text_metrics(glyphs).width.raw == clamp(width_sum(glyphs)),
        i64::MIN <= width_sum(glyphs) <= i64::MAX ==> text_metrics(glyphs).width.raw == width_sum(
            glyphs,
        ),
{
    lemma_width_sum_is_advance_sum(glyphs);
    if glyphs.len() == 1 {
        assert(glyphs.drop_last() =~= Seq::<ScaledGlyph>::empty());
        assert(advance_sum(glyphs.drop_last()) == 0);
    }
}

/// The right ink edge of a text is that of its last glyph, set after the
/// advances of the glyphs before it, as far as that can be represented. It
/// is no running maximum.
pub proof fn lemma_text_right_edge(glyphs: Seq<ScaledGlyph>)
    requires
        glyphs.len() > 0,
    ensures
        text_metrics(glyphs).actual_bounding_box_right.raw == clamp(
            advance_sum(glyphs.drop_last()) + glyph_metrics(
                glyphs.last(),
            ).actual_bounding_box_right.raw,
        ),
{
    if glyphs.len() == 1 {
        assert(glyphs.drop_last() =~= Seq::<ScaledGlyph>::empty());
        assert(advance_sum(glyphs.drop_last()) == 0);
    }
}

/// The ink ascent and descent of a text are the largest of any of its
/// glyphs: no glyph exceeds them, and some glyph reaches each of them.
pub proof fn lemma_text_ink_is_largest(glyphs: Seq<ScaledGlyph>)
    requires
        glyphs.len() > 0,
    ensures
        forall|i: int|
            0 <= i < glyphs.len() ==> (#[trigger] glyph_metrics(
                glyphs[i],
            )).actual_bounding_box_ascent.raw <= text_metrics(
                glyphs,
            ).actual_bounding_box_ascent.raw,
        forall|i: int|
            0 <= i < glyphs.len() ==> (#[trigger] glyph_metrics(
                glyphs[i],
            )).actual_bounding_box_descent.raw <= text_metrics(
                glyphs,
            ).actual_bounding_box_descent.raw,
        exists|i: int|
            0 <= i < glyphs.len() && (#[trigger] glyph_metrics(
                glyphs[i],
            )).actual_bounding_box_ascent == text_metrics(glyphs).actual_bounding_box_ascent,
        exists|i: int|
            0 <= i < glyphs.len() && (#[trigger] glyph_metrics(
                glyphs[i],
            )).actual_bounding_box_descent == text_metrics(glyphs).actual_bounding_box_descent,
    decreases glyphs.len(),
{
    let all = text_metrics(glyphs);
    let last = glyphs.len() - 1;
    if glyphs.len() == 1 {
        assert(glyph_metrics(glyphs[0]).actual_bounding_box_ascent
            == all.actual_bounding_box_ascent);
        assert(glyph_metrics(glyphs[0]).actual_bounding_box_descent
            == all.actual_bounding_box_descent);
    } else {
        let before = glyphs.drop_last();
        lemma_text_ink_is_largest(before);
        assert(forall|i: int| 0 <= i < before.len() ==> before[i] == glyphs[i]);
        let up = choose|i: int|
            0 <= i < before.len() && (#[trigger] glyph_metrics(
                before[i],
            )).actual_bounding_box_ascent == text_metrics(before).actual_bounding_box_ascent;
        let down = choose|i: int|
            0 <= i < before.len() && (#[trigger] glyph_metrics(
                before[i],
            )).actual_bounding_box_descent == text_metrics(before).actual_bounding_box_descent;
        let m = glyph_metrics(glyphs[last]);
        if text_metrics(before).actual_bounding_box_ascent.raw >= m.actual_bounding_box_ascent.raw {
            assert(glyph_metrics(glyphs[up]).actual_bounding_box_ascent
                == all.actual_bounding_box_ascent);
        } else {
            assert(glyph_metrics(glyphs[last]).actual_bounding_box_ascent
                == all.actual_bounding_box_ascent);
        }
        if text_metrics(before).actual_bounding_box_descent.raw
            >= m.actual_bounding_box_descent.raw {
            assert(glyph_metrics(glyphs[down]).actual_bounding_box_descent
                == all.actual_bounding_box_descent);
        } else {
            assert(glyph_metrics(glyphs[last]).actual_bounding_box_descent
                == all.actual_bounding_box_descent);
        }
        assert forall|i: int| 0 <= i < glyphs.len() implies (#[trigger] glyph_metrics(
            glyphs[i],
        )).actual_bounding_box_ascent.raw <= all.actual_bounding_box_ascent.raw by {
            if i < last {
                assert(glyph_metrics(before[i]).actual_bounding_box_ascent.raw <= text_metrics(
                    before,
                ).actual_bounding_box_ascent.raw);
            }
        }
        assert forall|i: int| 0 <= i < glyphs.len() implies (#[trigger] glyph_metrics(
            glyphs[i],
        )).actual_bounding_box_descent.raw <= all.actual_bounding_box_descent.raw by {
            if i < last {
                assert(glyph_metrics(before[i]).actual_bounding_box_descent.raw <= text_metrics(
                    before,
                ).actual_bounding_box_descent.raw);
            }
        }
    }
}

/// The sum of the widths that each glyph of a run measures by itself.
pub open spec fn width_sum(glyphs: Seq<ScaledGlyph>) -> int
    decreases glyphs.len(),
{
    if glyphs.len() == 0 {
        0
    } else {
        width_sum(glyphs.drop_last()) + glyph_metrics(glyphs.last()).width.raw
    }
}

proof fn lemma_width_sum_is_advance_sum(glyphs: Seq<ScaledGlyph>)
    ensures
        width_sum(glyphs) == advance_sum(glyphs),
    decreases glyphs.len(),
{
    if glyphs.len() > 0 {
        lemma_width_sum_is_advance_sum(glyphs.drop_last());
    }
}

/// Where and how one glyph is to be drawn.
#[derive(Clone, Copy, Debug, PartialEq, Eq, Structural)]
pub struct GlyphPlacement {
    /// The glyph to scale, with the part of its position that is a fraction
    /// of a pixel.
    pub request: GlyphRequest,
    /// The codepoint that is drawn, after remapping.
    pub codepoint: u32,
    /// The whole-pixel part of the position, in supersampled pixels.
    pub origin_x: i32,
    pub origin_y: i32,
    /// How many supersampled pixels make one unit of the caller.
    pub extra_zoom: Fixed,
    /// The transform under which the glyph's buffer is composited: the one
    /// in force, with the supersampling divided back out.
    pub transform: Transform,
    /// The colour of the glyph.
    pub color: Color,
}

/// The place and size of a glyph's pixel buffer, in supersampled pixels.
#[derive(Clone, Copy, Debug, PartialEq, Eq, Structural)]
pub struct GlyphFrame {
    pub left: i32,
    pub top: i32,
    pub width: u32,
    pub height: u32,
}

/// What is to be done for a glyph once its outline is known.
#[derive(Clone, Copy, Debug, PartialEq, Eq, Structural)]
pub enum GlyphAction {
    /// Rasterise the outline into a buffer of this frame and composite it.
    Draw(GlyphFrame),
    /// The space: nothing to draw.
    Blank,
    /// The font has no outline for this codepoint: nothing is drawn, and
    /// the gap is worth a diagnostic.
    Missing(u32),
}

/// The result of placing one glyph: how far the pen moves, in the caller's
/// units, and what to draw.
#[derive(Clone, Copy, Debug, PartialEq, Eq, Structural)]
pub struct GlyphOutcome {
    pub advance: Fixed,
    pub action: GlyphAction,
}

/// The supersampling factor under a transform: the larger of the
/// magnitudes of its two scale coefficients.
pub open spec fn supersampling(t: Transform) -> Fixed {
    t.sx.spec_magnitude().spec_larger(t.sy.spec_magnitude())
}

/// The frame of the buffer for an outline with the given bounds, drawn at
/// the given whole-pixel origin: the whole pixels that the bounds touch,
/// and a margin of one pixel before them and two after them on each axis.
pub open spec fn frame_for(origin_x: i32, origin_y: i32, bounds: GlyphBounds) -> GlyphFrame {
    GlyphFrame {
        left: clamp_i32(origin_x + bounds.min_x.spec_floor() - 1),
        top: clamp_i32(origin_y + bounds.min_y.spec_floor() - 1),
        width: clamp_u32(bounds.max_x.spec_ceil() - bounds.min_x.spec_floor() + 3),
        height: clamp_u32(bounds.max_y.spec_ceil() - bounds.min_y.spec_floor() + 3),
    }
}

/// What follows from a placement and the glyph that was found for it. The
/// advance is the font's, with the supersampling divided out. A glyph with
/// an outline is drawn. One without is passed over: silently if it is the
/// space, with a diagnostic otherwise.
pub open spec fn outcome_for(p: GlyphPlacement, g: ScaledGlyph) -> GlyphOutcome {
    GlyphOutcome {
        advance: g.h_advance.spec_over(p.extra_zoom),
        action: match g.outline {
            Some(bounds) => GlyphAction::Draw(frame_for(p.origin_x, p.origin_y, bounds)),
            None => if p.codepoint == 0x20 {
                GlyphAction::Blank
            } else {
                GlyphAction::Missing(p.codepoint)
            },
        },
    }
}

/// The supersampling factor under a transform.
pub fn supersampling_factor(t: &Transform) -> (factor: Fixed)
    ensures
        factor == supersampling(*t),
        factor.raw >= 0,
{
    t.sx.magnitude().larger(t.sy.magnitude())
}

impl GlyphPlacement {
    /// Decides what to do for the glyph that was found for this placement.
    pub fn finish(&self, glyph: &ScaledGlyph) -> (outcome: GlyphOutcome)
        requires
            self.extra_zoom.raw > 0,
        ensures
            outcome == outcome_for(*self, *glyph),
    {
        let advance = glyph.h_advance.over(self.extra_zoom);
        let action = match glyph.outline {
            Some(bounds) => {
                let min_x: i64 = bounds.min_x.floor();
                let min_y: i64 = bounds.min_y.floor();
                let max_x: i64 = bounds.max_x.ceil();
                let max_y: i64 = bounds.max_y.ceil();
                GlyphAction::Draw(
                    GlyphFrame {
                        left: saturate_i32(clamp_wide(self.origin_x as i128 + min_x as i128 - 1)),
                        top: saturate_i32(clamp_wide(self.origin_y as i128 + min_y as i128 - 1)),
                        width: saturate_u32(clamp_wide(max_x as i128 - min_x as i128 + 3)),
                        height: saturate_u32(clamp_wide(max_y as i128 - min_y as i128 + 3)),
                    },
                )
            },
            None => if self.codepoint == 0x20 {
                GlyphAction::Blank
            } else {
                GlyphAction::Missing(self.codepoint)
            },
        };
        GlyphOutcome { advance, action }
    }
}

/// A buffer made for the frame of an outline takes every sample of the
/// outline: a sample inside the whole pixels that the bounds touch lands
/// inside the ring. This holds of a frame whose height was not cut down to
/// the largest `u32`; a buffer is never wide enough for its width to be.
pub proof fn lemma_frame_takes_every_sample(
    origin_x: i32,
    origin_y: i32,
    bounds: GlyphBounds,
    buffer: GlyphBuffer,
    xx: u32,
    yy: u32,
)
    requires
        buffer.wf(),
        buffer.spec_width() == frame_for(origin_x, origin_y, bounds).width,
        buffer.spec_height() == frame_for(origin_x, origin_y, bounds).height,
        xx < bounds.max_x.spec_ceil() - bounds.min_x.spec_floor(),
        yy < bounds.max_y.spec_ceil() - bounds.min_y.spec_floor(),
        bounds.max_y.spec_ceil() - bounds.min_y.spec_floor() + 3 <= u32::MAX,
    ensures
        buffer.takes(xx, yy),
{
    lemma_buffer_fits(buffer);
}

} // verus!
