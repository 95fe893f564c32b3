//! The drawing context: the draw state with its save stack, the path under
//! construction, and the decisions behind every drawing call.
//!
//! The context owns no pixels. A call that paints returns the order for the
//! rasteriser, which says exactly what is painted, in which colour and under
//! which transform.

use vstd::prelude::*;
use crate::color::{Color, parse_color, spec_parse_color, spec_unparse_color, unparse_color};
use crate::fixed::{Fixed, SCALE, clamp_i32, clamp_u32, floor_div, saturate_i32};
use crate::font::{FontInfo, FontStyle, default_style, parse_font, spec_parse_font};
use crate::fonts::{FontLibrary, GlyphRequest, is_scalar, remap_codepoint, remapped};
use crate::geometry::{
    Rect, Transform, lemma_mirrored_rect_is_same, normalized_rect, spec_normalized_rect,
};
use crate::glyph::{
    GlyphPlacement, codepoints_of, measured_codepoints, supersampling, supersampling_factor,
    text_codepoints, codepoints_to_measure,
};
use crate::path::{
    Blend, PathCommand, PathFill, PathStroke, RectPaint, copy_commands, is_full_circle, FULL_TURN,
};

verus! {

/// The draw state as the contracts see it.
pub struct DrawStateView {
    pub line_width: Fixed,
    pub fill_style: Color,
    pub stroke_style: Color,
    pub clear_style: Color,
    pub font: FontStyle,
    pub transform: Transform,
}

/// Everything that `save` remembers and `restore` brings back.
#[derive(Clone, Debug, PartialEq, Eq)]
pub struct DrawState {
    pub line_width: Fixed,
    pub fill_style: Color,
    pub stroke_style: Color,
    pub clear_style: Color,
    pub font: FontInfo,
    pub transform: Transform,
}

impl View for DrawState {
    type V = DrawStateView;

    open spec fn view(&self) -> DrawStateView {
        DrawStateView {
            line_width: self.line_width,
            fill_style: self.fill_style,
            stroke_style: self.stroke_style,
            clear_style: self.clear_style,
            font: self.font@,
            transform: self.transform,
        }
    }
}

impl DrawState {
    /// A copy of this state.
    pub fn duplicate(&self) -> (copy: DrawState)
        ensures
            copy@ == self@,
    {
        DrawState {
            line_width: self.line_width,
            fill_style: self.fill_style,
            stroke_style: self.stroke_style,
            clear_style: self.clear_style,
            font: self.font.duplicate(),
            transform: self.transform,
        }
    }
}

/// The context as the contracts see it.
pub struct ContextView {
    /// The size that was asked for.
    pub width: u32,
    pub height: u32,
    /// The size of the surface in pixels: the size asked for times the zoom.
    pub surface_width: u32,
    pub surface_height: u32,
    /// The path under construction; `None` before the first `begin_path`.
    pub path: Option<Seq<PathCommand>>,
    pub state: DrawStateView,
    /// The saved states, oldest first.
    pub stack: Seq<DrawStateView>,
}

/// The state of a new context.
pub open spec fn initial_state(zoom: Fixed, background: Seq<char>, foreground: Seq<char>)
    -> DrawStateView {
    DrawStateView {
        line_width: Fixed::spec_one(),
        fill_style: spec_parse_color(foreground),
        stroke_style: spec_parse_color(foreground),
        clear_style: spec_parse_color(background),
        font: default_style(),
        transform: Transform::spec_identity().spec_post_scale(zoom, zoom),
    }
}

/// The number of surface pixels along a side of `length` units: the
/// product with the zoom, rounded down, and zero if that is negative.
pub open spec fn surface_side(length: u32, zoom: Fixed) -> u32 {
    clamp_u32((length * zoom.raw) / (SCALE as int))
}

/// The context after `save`: the current state is on top of the stack.
pub open spec fn saved(c: ContextView) -> ContextView {
    ContextView { stack: c.stack.push(c.state), ..c }
}

/// The context after `restore`: the state on top of the stack is current
/// and off the stack. With an empty stack nothing changes.
pub open spec fn restored(c: ContextView) -> ContextView {
    if c.stack.len() > 0 {
        ContextView { state: c.stack.last(), stack: c.stack.drop_last(), ..c }
    } else {
        c
    }
}

/// A restore right after a save leaves the context as it was, whatever was
/// done to it before.
pub proof fn lemma_save_then_restore(c: ContextView)
    ensures
        restored(saved(c)) == c,
{
    assert(c.stack.push(c.state).drop_last() =~= c.stack);
}

/// A restore with nothing saved changes nothing.
pub proof fn lemma_restore_on_empty_stack(c: ContextView)
    requires
        c.stack.len() == 0,
    ensures
        restored(c) == c,
{
}

/// The order that `fill_rect` gives under a state.
pub open spec fn fill_rect_order(
    state: DrawStateView,
    x: Fixed,
    y: Fixed,
    width: Fixed,
    height: Fixed,
) -> RectPaint {
    RectPaint {
        rect: spec_normalized_rect(x, y, width, height),
        color: state.fill_style,
        blend: Blend::SourceOver,
        transform: state.transform,
    }
}

/// The order that `clear_rect` gives under a state.
pub open spec fn clear_rect_order(
    state: DrawStateView,
    x: Fixed,
    y: Fixed,
    width: Fixed,
    height: Fixed,
) -> RectPaint {
    RectPaint {
        rect: Rect { x, y, width, height },
        color: state.clear_style,
        blend: Blend::Source,
        transform: state.transform,
    }
}

/// Filling a rectangle given by one corner and negative extents paints what
/// filling it from the opposite corner with positive extents paints.
pub proof fn lemma_fill_rect_mirrored(
    state: DrawStateView,
    x: Fixed,
    y: Fixed,
    width: Fixed,
    height: Fixed,
)
    requires
        width.raw > 0,
        height.raw > 0,
    ensures
        fill_rect_order(state, x, y, width.spec_negated(), height.spec_negated())
            == fill_rect_order(state, x.spec_minus(width), y.spec_minus(height), width, height),
{
    lemma_mirrored_rect_is_same(x, y, width, height);
}

/// The order to erase asks for the clear colour to replace what is there,
/// alpha included, whatever the fill colour is.
pub proof fn lemma_clear_rect_replaces(
    state: DrawStateView,
    x: Fixed,
    y: Fixed,
    width: Fixed,
    height: Fixed,
)
    ensures
        clear_rect_order(state, x, y, width, height).blend == Blend::Source,
        clear_rect_order(state, x, y, width, height).color == state.clear_style,
{
}

/// The path with one more segment.
pub open spec fn with_segment(c: ContextView, command: PathCommand) -> ContextView
    recommends
        c.path is Some,
{
    ContextView { path: Some(c.path->0.push(command)), ..c }
}

/// Where and how `codepoint` is drawn at `(x, y)` under the given state:
/// the remapped codepoint, looked up at the supersampled size; the
/// supersampled position split into whole pixels and the fraction left
/// over; the state's transform with the supersampling divided out; and the
/// fill colour.
pub open spec fn placement_for(
    fonts: FontLibrary,
    state: DrawStateView,
    codepoint: u32,
    x: Fixed,
    y: Fixed,
    size: Fixed,
    extra_zoom: Fixed,
    italic: bool,
    bold: bool,
) -> GlyphPlacement
    recommends
        is_scalar(codepoint),
        extra_zoom.raw > 0,
{
    let mapped = remapped(codepoint);
    let sx = x.spec_times(extra_zoom);
    let sy = y.spec_times(extra_zoom);
    let shrink = Fixed::spec_one().spec_over(extra_zoom);
    GlyphPlacement {
        request: fonts.spec_lookup(
            mapped,
            size.spec_times(extra_zoom),
            italic,
            bold,
            sx.spec_fraction(),
            sy.spec_fraction(),
        ),
        codepoint: mapped,
        origin_x: clamp_i32(sx.spec_floor()),
        origin_y: clamp_i32(sy.spec_floor()),
        extra_zoom: extra_zoom,
        transform: state.transform.spec_post_scale(shrink, shrink),
        color: state.fill_style,
    }
}

/// The glyph that is looked up to measure `codepoint` in the given font:
/// that of the remapped codepoint, at the font's size, at the origin.
pub open spec fn measure_request(fonts: FontLibrary, font: FontStyle, codepoint: u32)
    -> GlyphRequest
    recommends
        is_scalar(codepoint),
{
    fonts.spec_lookup(
        remapped(codepoint),
        font.size,
        font.italic,
        font.bold,
        Fixed::spec_zero(),
        Fixed::spec_zero(),
    )
}

/// A text being drawn glyph by glyph: the codepoints, how many of them are
/// done, and where the pen stands.
#[derive(Clone, Debug, PartialEq, Eq)]
pub struct TextRun {
    pub codepoints: Vec<u32>,
    pub next: usize,
    pub x: Fixed,
    pub y: Fixed,
    pub extra_zoom: Fixed,
}

impl TextRun {
    /// Every codepoint of the run is a character, and the count of those
    /// done does not exceed their number.
    pub open spec fn wf(&self) -> bool {
        &&& self.next <= self.codepoints@.len()
        &&& forall|i: int|
            0 <= i < self.codepoints@.len() ==> is_scalar(#[trigger] self.codepoints@[i])
    }

    /// Whether every glyph has been drawn.
    pub fn is_done(&self) -> (done: bool)
        ensures
            done == (self.next >= self.codepoints@.len()),
    {
        self.next >= self.codepoints.len()
    }

    /// Moves the pen past the glyph that was just drawn. A run that is done
    /// stays as it is.
    pub fn advance(&mut self, by: Fixed)
        ensures
            final(self).codepoints@ == old(self).codepoints@,
            final(self).y == old(self).y,
            final(self).extra_zoom == old(self).extra_zoom,
            old(self).next < old(self).codepoints@.len() ==> final(self).next == old(self).next + 1
                && final(self).x == old(self).x.spec_plus(by),
            old(self).next >= old(self).codepoints@.len() ==> final(self).next == old(self).next
                && final(self).x == old(self).x,
            old(self).wf() ==> final(self).wf(),
    {
        if self.next < self.codepoints.len() {
            self.next = self.next + 1;
            self.x = self.x.plus(by);
        }
    }
}

/// A drawing context.
pub struct DrawContext {
    width: u32,
    height: u32,
    surface_width: u32,
    surface_height: u32,
    path: Option<Vec<PathCommand>>,
    font_library: FontLibrary,
    draw_state: DrawState,
    stack: Vec<DrawState>,
}

impl View for DrawContext {
    type V = ContextView;

    closed spec fn view(&self) -> ContextView {
        ContextView {
            width: self.width,
            height: self.height,
            surface_width: self.surface_width,
            surface_height: self.surface_height,
            path: match self.path {
                Some(p) => Some(p@),
                None => None,
            },
            state: self.draw_state@,
            stack: self.stack@.map_values(|s: DrawState| s@),
        }
    }
}

fn scaled_side(length: u32, zoom: Fixed) -> (side: u32)
    ensures
        side == surface_side(length, zoom),
{
    let l: i128 = length as i128;
    let z: i128 = zoom.raw as i128;
    assert(-0x4000_0000_0000_0000_0000_0000_0000_0000 <= l * z
        <= 0x4000_0000_0000_0000_0000_0000_0000_0000) by (nonlinear_arith)
        requires
            0 <= l <= 0xffff_ffff,
            -0x8000_0000_0000_0000 <= z <= 0x7fff_ffff_ffff_ffff,
    ;
    let q: i128 = floor_div(l * z, 1_000_000_000);
    if q < 0 {
        0
    } else if q > 0xffff_ffff {
        0xffff_ffff
    } else {
        q as u32
    }
}

impl DrawContext {
    /// The fonts of this context.
    pub closed spec fn spec_fonts(&self) -> FontLibrary {
        self.font_library
    }

    /// A context for a drawing of `width` by `height` units on a surface
    /// with `zoom` pixels to the unit. The fill and stroke colours are read
    /// from `foreground`, the colour that `clear_rect` paints from
    /// `background`.
    pub fn new(
        width: u32,
        height: u32,
        zoom: Fixed,
        background: &str,
        foreground: &str,
        font_library: FontLibrary,
    ) -> (context: DrawContext)
        ensures
            context@ == (ContextView {
                width: width,
                height: height,
                surface_width: surface_side(width, zoom),
                surface_height: surface_side(height, zoom),
                path: None,
                state: initial_state(zoom, background@, foreground@),
                stack: Seq::empty(),
            }),
            context.spec_fonts() == font_library,
    {
        let fill_style = parse_color(foreground);
        let stroke_style = parse_color(foreground);
        let clear_style = parse_color(background);
        let transform = Transform::identity().post_scale(zoom, zoom);
        let context = DrawContext {
            width,
            height,
            surface_width: scaled_side(width, zoom),
            surface_height: scaled_side(height, zoom),
            path: None,
            font_library,
            draw_state: DrawState {
                line_width: Fixed::one(),
                fill_style,
                stroke_style,
                clear_style,
                font: FontInfo::new(),
                transform,
            },
            stack: Vec::new(),
        };
        assert(context@.stack =~= Seq::empty());
        context
    }

    /// The size that was asked for.
    pub fn size(&self) -> (s: (u32, u32))
        ensures
            s == (self@.width, self@.height),
    {
        (self.width, self.height)
    }

    /// The size of the surface in pixels.
    pub fn surface_size(&self) -> (s: (u32, u32))
        ensures
            s == (self@.surface_width, self@.surface_height),
    {
        (self.surface_width, self.surface_height)
    }

    /// The fonts of this context.
    pub fn fonts(&self) -> (f: &FontLibrary)
        ensures
            *f == self.spec_fonts(),
    {
        &self.font_library
    }

    /// The current draw state.
    pub fn state(&self) -> (s: &DrawState)
        ensures
            s@ == self@.state,
    {
        &self.draw_state
    }

    /// How many states are saved.
    pub fn saved_states(&self) -> (n: usize)
        ensures
            n == self@.stack.len(),
    {
        self.stack.len()
    }

    /// Whether a path is under construction.
    pub fn has_path(&self) -> (b: bool)
        ensures
            b == (self@.path is Some),
    {
        self.path.is_some()
    }

    /// Sets the fill colour from a colour string.
    pub fn set_fill_style(&mut self, style: String)
        ensures
            final(self)@ == (ContextView {
                state: DrawStateView { fill_style: spec_parse_color(style@), ..old(self)@.state },
                ..old(self)@
            }),
            final(self).spec_fonts() == old(self).spec_fonts(),
    {
        self.draw_state.fill_style = parse_color(style.as_str());
    }

    /// The fill colour as `#rrggbbaa`.
    pub fn get_fill_style(&self) -> (text: String)
        ensures
            text@ == spec_unparse_color(self@.state.fill_style),
    {
        unparse_color(&self.draw_state.fill_style)
    }

    /// Sets the stroke colour from a colour string.
    pub fn set_stroke_style(&mut self, style: String)
        ensures
            final(self)@ == (ContextView {
                state: DrawStateView { stroke_style: spec_parse_color(style@), ..old(self)@.state },
                ..old(self)@
            }),
            final(self).spec_fonts() == old(self).spec_fonts(),
    {
        self.draw_state.stroke_style = parse_color(style.as_str());
    }

    /// The stroke colour as `#rrggbbaa`.
    pub fn get_stroke_style(&self) -> (text: String)
        ensures
            text@ == spec_unparse_color(self@.state.stroke_style),
    {
        unparse_color(&self.draw_state.stroke_style)
    }

    /// Sets the width of stroked lines.
    pub fn set_line_width(&mut self, width: Fixed)
        ensures
            final(self)@ == (ContextView {
                state: DrawStateView { line_width: width, ..old(self)@.state },
                ..old(self)@
            }),
            final(self).spec_fonts() == old(self).spec_fonts(),
    {
        self.draw_state.line_width = width;
    }

    /// The width of stroked lines.
    pub fn get_line_width(&self) -> (width: Fixed)
        ensures
            width == self@.state.line_width,
    {
        self.draw_state.line_width
    }

    /// Sets the font from a font string.
    pub fn set_font(&mut self, font: String)
        ensures
            final(self)@ == (ContextView {
                state: DrawStateView { font: spec_parse_font(font@), ..old(self)@.state },
                ..old(self)@
            }),
            final(self).spec_fonts() == old(self).spec_fonts(),
    {
        self.draw_state.font = parse_font(font.as_str());
    }

    /// The font stack that the context reports, whatever font is set.
    pub fn get_font(&self) -> (text: String)
        ensures
            text@ == "30pt Bravura,Academico"@,
    {
        "30pt Bravura,Academico".to_owned()
    }

    /// The six coefficients of the transform: `sx, kx, ky, sy, tx, ty`.
    pub fn get_transform(&self) -> (t: Vec<Fixed>)
        ensures
            t@ == self@.state.transform.spec_coefficients(),
    {
        self.draw_state.transform.coefficients()
    }

    /// Replaces the transform by the one with the given coefficients, in
    /// the order `sx, kx, ky, sy, tx, ty`.
    pub fn set_transform(&mut self, t: Vec<Fixed>)
        requires
            t@.len() >= 6,
        ensures
            final(self)@ == (ContextView {
                state: DrawStateView {
                    transform: Transform::spec_from_coefficients(t@),
                    ..old(self)@.state
                },
                ..old(self)@
            }),
            final(self).spec_fonts() == old(self).spec_fonts(),
    {
        self.draw_state.transform = Transform::from_coefficients(&t);
    }

    /// Follows the transform by a scaling.
    pub fn scale(&mut self, sx: Fixed, sy: Fixed)
        ensures
            final(self)@ == (ContextView {
                state: DrawStateView {
                    transform: old(self)@.state.transform.spec_post_scale(sx, sy),
                    ..old(self)@.state
                },
                ..old(self)@
            }),
            final(self).spec_fonts() == old(self).spec_fonts(),
    {
        self.draw_state.transform = self.draw_state.transform.post_scale(sx, sy);
    }

    /// Follows the transform by a shift against `(x, y)`: the shift that is
    /// applied is the negation of the one given.
    pub fn translate(&mut self, x: Fixed, y: Fixed)
        ensures
            final(self)@ == (ContextView {
                state: DrawStateView {
                    transform: old(self)@.state.transform.spec_post_translate(
                        x.spec_negated(),
                        y.spec_negated(),
                    ),
                    ..old(self)@.state
                },
                ..old(self)@
            }),
            final(self).spec_fonts() == old(self).spec_fonts(),
    {
        self.draw_state.transform = self.draw_state.transform.post_translate(
            x.negated(),
            y.negated(),
        );
    }

    /// Follows the transform by the rotation whose angle has the given
    /// cosine and sine.
    pub fn rotate(&mut self, cos: Fixed, sin: Fixed)
        ensures
            final(self)@ == (ContextView {
                state: DrawStateView {
                    transform: old(self)@.state.transform.spec_post_concat(
                        Transform::spec_rotation(cos, sin),
                    ),
                    ..old(self)@.state
                },
                ..old(self)@
            }),
            final(self).spec_fonts() == old(self).spec_fonts(),
    {
        let turn = Transform::rotation(cos, sin);
        self.draw_state.transform = self.draw_state.transform.post_concat(&turn);
    }

    /// Remembers the current state.
    pub fn save(&mut self)
        ensures
            final(self)@ == saved(old(self)@),
            final(self).spec_fonts() == old(self).spec_fonts(),
    {
        let copy = self.draw_state.duplicate();
        let ghost before = self.stack@.map_values(|s: DrawState| s@);
        self.stack.push(copy);
        assert(self.stack@.map_values(|s: DrawState| s@) =~= before.push(copy@));
    }

    /// Brings back the state that was saved last. Says whether there was
    /// one; if not, nothing changes.
    pub fn restore(&mut self) -> (found: bool)
        ensures
            final(self)@ == restored(old(self)@),
            found == (old(self)@.stack.len() > 0),
            final(self).spec_fonts() == old(self).spec_fonts(),
    {
        let ghost before = self.stack@.map_values(|s: DrawState| s@);
        match self.stack.pop() {
            Some(state) => {
                self.draw_state = state;
                assert(self.stack@.map_values(|s: DrawState| s@) =~= before.drop_last());
                true
            },
            None => {
                assert(self.stack@.map_values(|s: DrawState| s@) =~= before);
                false
            },
        }
    }

    /// Accepted and ignored: lines are always solid.
    pub fn set_line_dash(&self) {
    }

    /// Starts a new, empty path and drops the one there was.
    pub fn begin_path(&mut self)
        ensures
            final(self)@ == (ContextView { path: Some(Seq::empty()), ..old(self)@ }),
            final(self).spec_fonts() == old(self).spec_fonts(),
    {
        self.path = Some(Vec::new());
    }

    fn push_segment(&mut self, command: PathCommand)
        requires
            old(self)@.path is Some,
        ensures
            final(self)@ == with_segment(old(self)@, command),
            final(self).spec_fonts() == old(self).spec_fonts(),
    {
        let mut commands = match self.path.take() {
            Some(c) => c,
            None => Vec::new(),
        };
        commands.push(command);
        self.path = Some(commands);
    }

    /// Starts a new contour of the path at `(x, y)`.
    pub fn move_to(&mut self, x: Fixed, y: Fixed)
        requires
            old(self)@.path is Some,
        ensures
            final(self)@ == with_segment(old(self)@, PathCommand::MoveTo { x, y }),
            final(self).spec_fonts() == old(self).spec_fonts(),
    {
        self.push_segment(PathCommand::MoveTo { x, y });
    }

    /// Adds a straight line to `(x, y)`.
    pub fn line_to(&mut self, x: Fixed, y: Fixed)
        requires
            old(self)@.path is Some,
        ensures
            final(self)@ == with_segment(old(self)@, PathCommand::LineTo { x, y }),
            final(self).spec_fonts() == old(self).spec_fonts(),
    {
        self.push_segment(PathCommand::LineTo { x, y });
    }

    /// Closes the current contour.
    pub fn close_path(&mut self)
        requires
            old(self)@.path is Some,
        ensures
            final(self)@ == with_segment(old(self)@, PathCommand::Close),
            final(self).spec_fonts() == old(self).spec_fonts(),
    {
        self.push_segment(PathCommand::Close);
    }

    /// Adds a quadratic curve to `(x, y)` with the control point `(x1, y1)`.
    pub fn quadratic_curve_to(&mut self, x1: Fixed, y1: Fixed, x: Fixed, y: Fixed)
        requires
            old(self)@.path is Some,
        ensures
            final(self)@ == with_segment(old(self)@, PathCommand::QuadTo { x1, y1, x, y }),
            final(self).spec_fonts() == old(self).spec_fonts(),
    {
        self.push_segment(PathCommand::QuadTo { x1, y1, x, y });
    }

    /// Adds a cubic curve to `(x, y)` with the control points `(x1, y1)` and
    /// `(x2, y2)`.
    pub fn bezier_curve_to(
        &mut self,
        x1: Fixed,
        y1: Fixed,
        x2: Fixed,
        y2: Fixed,
        x: Fixed,
        y: Fixed,
    )
        requires
            old(self)@.path is Some,
        ensures
            final(self)@ == with_segment(
                old(self)@,
                PathCommand::CubicTo { x1, y1, x2, y2, x, y },
            ),
            final(self).spec_fonts() == old(self).spec_fonts(),
    {
        self.push_segment(PathCommand::CubicTo { x1, y1, x2, y2, x, y });
    }

    /// Adds a circle to the path if the arc is a full circle. Any other arc
    /// is left out and the path stays as it is. Says whether the circle was
    /// added.
    pub fn arc(
        &mut self,
        x: Fixed,
        y: Fixed,
        radius: Fixed,
        start_angle: Fixed,
        end_angle: Fixed,
        _counterclockwise: bool,
    ) -> (added: bool)
        requires
            old(self)@.path is Some,
        ensures
            added == is_full_circle(start_angle, end_angle),
            added ==> final(self)@ == with_segment(
                old(self)@,
                PathCommand::Circle { x, y, radius },
            ),
            !added ==> final(self)@ == old(self)@,
            final(self).spec_fonts() == old(self).spec_fonts(),
    {
        if start_angle.raw == 0 && end_angle.raw >= FULL_TURN - 1 && end_angle.raw <= FULL_TURN
            + 1 {
            self.push_segment(PathCommand::Circle { x, y, radius });
            true
        } else {
            false
        }
    }

    /// Adds a rectangle to the path.
    pub fn rect(&mut self, x: Fixed, y: Fixed, width: Fixed, height: Fixed)
        requires
            old(self)@.path is Some,
            width.raw >= 0,
            height.raw >= 0,
        ensures
            final(self)@ == with_segment(
                old(self)@,
                PathCommand::Rect { x, y, width, height },
            ),
            final(self).spec_fonts() == old(self).spec_fonts(),
    {
        self.push_segment(PathCommand::Rect { x, y, width, height });
    }

    /// The order to stroke the path as it stands, in the stroke colour and
    /// line width, under the transform. The path stays.
    pub fn stroke(&self) -> (order: PathStroke)
        requires
            self@.path is Some,
        ensures
            order.commands@ == self@.path->0,
            order.color == self@.state.stroke_style,
            order.width == self@.state.line_width,
            order.transform == self@.state.transform,
    {
        let commands = match &self.path {
            Some(c) => copy_commands(c),
            None => Vec::new(),
        };
        PathStroke {
            commands,
            color: self.draw_state.stroke_style,
            width: self.draw_state.line_width,
            transform: self.draw_state.transform,
        }
    }

    /// The order to fill the path as it stands, in the fill colour, under
    /// the transform. The path stays.
    pub fn fill(&self) -> (order: PathFill)
        requires
            self@.path is Some,
        ensures
            order.commands@ == self@.path->0,
            order.color == self@.state.fill_style,
            order.transform == self@.state.transform,
    {
        let commands = match &self.path {
            Some(c) => copy_commands(c),
            None => Vec::new(),
        };
        PathFill {
            commands,
            color: self.draw_state.fill_style,
            transform: self.draw_state.transform,
        }
    }

    /// The order to paint a rectangle in the fill colour, laid over the
    /// surface. Negative extents are turned around first.
    pub fn fill_rect(&self, x: Fixed, y: Fixed, width: Fixed, height: Fixed) -> (order: RectPaint)
        ensures
            order == fill_rect_order(self@.state, x, y, width, height),
    {
        RectPaint {
            rect: normalized_rect(x, y, width, height),
            color: self.draw_state.fill_style,
            blend: Blend::SourceOver,
            transform: self.draw_state.transform,
        }
    }

    /// The order to erase a rectangle: the clear colour replaces what is
    /// there, alpha included.
    pub fn clear_rect(&self, x: Fixed, y: Fixed, width: Fixed, height: Fixed) -> (order: RectPaint)
        requires
            width.raw >= 0,
            height.raw >= 0,
        ensures
            order == clear_rect_order(self@.state, x, y, width, height),
    {
        RectPaint {
            rect: Rect { x, y, width, height },
            color: self.draw_state.clear_style,
            blend: Blend::Source,
            transform: self.draw_state.transform,
        }
    }

    /// The colour that floods the whole surface, whatever the transform and
    /// the path.
    pub fn clear(&self, r: Fixed, g: Fixed, b: Fixed, a: Fixed) -> (color: Color)
        requires
            (Color { red: r, green: g, blue: b, alpha: a }).wf(),
        ensures
            color == (Color { red: r, green: g, blue: b, alpha: a }),
    {
        Color { red: r, green: g, blue: b, alpha: a }
    }

    /// The glyph to look up in order to measure a codepoint in the current
    /// font.
    pub fn measure_char(&self, codepoint: u32) -> (request: GlyphRequest)
        requires
            is_scalar(codepoint),
        ensures
            request == measure_request(self.spec_fonts(), self@.state.font, codepoint),
    {
        let mapped = remap_codepoint(codepoint);
        self.font_library.lookup_glyph(
            mapped,
            self.draw_state.font.size,
            self.draw_state.font.italic,
            self.draw_state.font.bold,
            Fixed::zero(),
            Fixed::zero(),
        )
    }

    /// The glyphs to look up in order to measure a text in the current
    /// font: one for each codepoint, or the one for the null codepoint if
    /// the text is empty.
    pub fn measure_text(&self, string: &str) -> (requests: Vec<GlyphRequest>)
        ensures
            requests@.len() == measured_codepoints(string@).len(),
            requests@.len() > 0,
            forall|i: int|
                0 <= i < requests@.len() ==> #[trigger] requests@[i] == measure_request(
                    self.spec_fonts(),
                    self@.state.font,
                    measured_codepoints(string@)[i],
                ),
    {
        let codepoints = codepoints_to_measure(string);
        let mut requests: Vec<GlyphRequest> = Vec::new();
        let mut i: usize = 0;
        while i < codepoints.len()
            invariant
                i <= codepoints.len(),
                codepoints@ == measured_codepoints(string@),
                forall|k: int| 0 <= k < codepoints@.len() ==> is_scalar(#[trigger] codepoints@[k]),
                requests@.len() == i,
                forall|k: int|
                    0 <= k < i ==> #[trigger] requests@[k] == measure_request(
                        self.spec_fonts(),
                        self@.state.font,
                        codepoints@[k],
                    ),
            decreases codepoints.len() - i,
        {
            let request = self.measure_char(codepoints[i]);
            requests.push(request);
            i += 1;
        }
        requests
    }

    /// Where and how to draw one codepoint at `(x, y)` with the given size
    /// and style, rasterised `extra_zoom` times as densely as the caller's
    /// units.
    pub fn fill_char(
        &self,
        codepoint: u32,
        x: Fixed,
        y: Fixed,
        size: Fixed,
        extra_zoom: Fixed,
        italic: bool,
        bold: bool,
    ) -> (placement: GlyphPlacement)
        requires
            is_scalar(codepoint),
            extra_zoom.raw > 0,
        ensures
            placement == placement_for(
                self.spec_fonts(),
                self@.state,
                codepoint,
                x,
                y,
                size,
                extra_zoom,
                italic,
                bold,
            ),
    {
        let shrink = Fixed::one().over(extra_zoom);
        let transform = self.draw_state.transform.post_scale(shrink, shrink);
        let sx = x.times(extra_zoom);
        let sy = y.times(extra_zoom);
        let mapped = remap_codepoint(codepoint);
        let request = self.font_library.lookup_glyph(
            mapped,
            size.times(extra_zoom),
            italic,
            bold,
            sx.fraction(),
            sy.fraction(),
        );
        GlyphPlacement {
            request,
            codepoint: mapped,
            origin_x: saturate_i32(sx.floor()),
            origin_y: saturate_i32(sy.floor()),
            extra_zoom,
            transform,
            color: self.draw_state.fill_style,
        }
    }

    /// Starts drawing a text at `(x, y)`: the pen stands at the start, and
    /// the supersampling factor is taken from the transform once for the
    /// whole text.
    pub fn fill_text(&self, txt: &str, x: Fixed, y: Fixed) -> (run: TextRun)
        ensures
            run.codepoints@ == codepoints_of(txt@),
            run.next == 0,
            run.x == x,
            run.y == y,
            run.extra_zoom == supersampling(self@.state.transform),
            run.wf(),
    {
        let codepoints = text_codepoints(txt);
        TextRun {
            codepoints,
            next: 0,
            x,
            y,
            extra_zoom: supersampling_factor(&self.draw_state.transform),
        }
    }

    /// Where and how to draw the next glyph of a text, in the current font
    /// at the pen. `None` when the text is done, or when the supersampling
    /// factor is zero, under which nothing can be drawn.
    pub fn next_glyph(&self, run: &TextRun) -> (placement: Option<GlyphPlacement>)
        requires
            run.wf(),
        ensures
            placement is Some <==> (run.next < run.codepoints@.len() && run.extra_zoom.raw > 0),
            placement matches Some(p) ==> p == placement_for(
                self.spec_fonts(),
                self@.state,
                run.codepoints@[run.next as int],
                run.x,
                run.y,
                self@.state.font.size,
                run.extra_zoom,
                self@.state.font.italic,
                self@.state.font.bold,
            ),
    {
        if run.next < run.codepoints.len() && run.extra_zoom.raw > 0 {
            Some(
                self.fill_char(
                    run.codepoints[run.next],
                    run.x,
                    run.y,
                    self.draw_state.font.size,
                    run.extra_zoom,
                    self.draw_state.font.italic,
                    self.draw_state.font.bold,
                ),
            )
        } else {
            None
        }
    }
}

} // verus!
