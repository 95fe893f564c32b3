use notation_canvas::color::Color;
use notation_canvas::context::{DrawContext, DrawState};
use notation_canvas::fixed::Fixed;
use notation_canvas::font::FontInfo;
use notation_canvas::fonts::{FontFace, FontLibrary};
use notation_canvas::geometry::{Rect, Transform};
use notation_canvas::glyph::{GlyphAction, ScaledGlyph};
use notation_canvas::host::{path_join, AbortFlag};
use notation_canvas::path::{Blend, PathCommand, RectPaint};

/// The fixed-point number nearest to `v`.
fn fixed(v: f64) -> Fixed {
    Fixed { raw: (v * 1e9).round() as i64 }
}

fn rgba(r: f64, g: f64, b: f64, a: f64) -> Color {
    Color { red: fixed(r), green: fixed(g), blue: fixed(b), alpha: fixed(a) }
}

/// A font file with no outlines, in which `codepoint` has the glyph `glyph`.
fn font_with(codepoint: u32, glyph: u32) -> Vec<u8> {
    let mut cmap: Vec<u8> = vec![0, 0, 0, 1, 0, 0, 0, 4, 0, 0, 0, 12];
    cmap.extend_from_slice(&[0, 12, 0, 0]);
    cmap.extend_from_slice(&28u32.to_be_bytes());
    cmap.extend_from_slice(&0u32.to_be_bytes());
    cmap.extend_from_slice(&1u32.to_be_bytes());
    cmap.extend_from_slice(&codepoint.to_be_bytes());
    cmap.extend_from_slice(&codepoint.to_be_bytes());
    cmap.extend_from_slice(&glyph.to_be_bytes());
    let mut head: Vec<u8> = vec![0; 54];
    head[1] = 1;
    head[18] = 0x03;
    head[19] = 0xe8;
    let mut hhea: Vec<u8> = vec![0; 36];
    hhea[1] = 1;
    let maxp: Vec<u8> = vec![0, 0, 0x50, 0, 0, 100];
    let tables: Vec<(&[u8; 4], Vec<u8>)> =
        vec![(b"cmap", cmap), (b"head", head), (b"hhea", hhea), (b"maxp", maxp)];
    let mut file: Vec<u8> = vec![0, 1, 0, 0, 0, 4, 0, 64, 0, 2, 0, 0];
    let mut offset = 12 + 16 * tables.len();
    let mut bodies: Vec<u8> = Vec::new();
    for (tag, body) in &tables {
        file.extend_from_slice(&tag[..]);
        file.extend_from_slice(&0u32.to_be_bytes());
        file.extend_from_slice(&(offset as u32).to_be_bytes());
        file.extend_from_slice(&(body.len() as u32).to_be_bytes());
        bodies.extend_from_slice(body);
        offset += body.len();
        while offset % 4 != 0 {
            bodies.push(0);
            offset += 1;
        }
    }
    file.extend_from_slice(&bodies);
    file
}

fn library() -> FontLibrary {
    let made = FontLibrary::new(
        font_with(0xe873, 7),
        font_with(0x41, 1),
        font_with(0x41, 2),
        font_with(0x41, 3),
        font_with(0x41, 4),
    );
    match made {
        Ok(fonts) => fonts,
        Err(e) => panic!("font {:?} was refused", e.face),
    }
}

fn context() -> DrawContext {
    DrawContext::new(100, 50, fixed(2.0), "white", "black", library())
}

fn default_font() -> FontInfo {
    FontInfo { family: vec![], size: fixed(30.0), bold: false, italic: false }
}

#[test]
fn new_context_has_the_stock_state() {
    let c = context();
    assert_eq!(c.size(), (100, 50));
    assert_eq!(c.surface_size(), (200, 100));
    assert!(!c.has_path());
    assert_eq!(c.saved_states(), 0);
    assert_eq!(
        c.state(),
        &DrawState {
            line_width: fixed(1.0),
            fill_style: rgba(0.0, 0.0, 0.0, 1.0),
            stroke_style: rgba(0.0, 0.0, 0.0, 1.0),
            clear_style: rgba(1.0, 1.0, 1.0, 1.0),
            font: default_font(),
            transform: Transform {
                sx: fixed(2.0),
                kx: fixed(0.0),
                ky: fixed(0.0),
                sy: fixed(2.0),
                tx: fixed(0.0),
                ty: fixed(0.0),
            },
        }
    );
}

#[test]
fn surface_is_the_size_times_the_zoom_rounded_down() {
    let side = |length: u32, zoom: f64| {
        DrawContext::new(length, length, fixed(zoom), "white", "black", library()).surface_size().0
    };
    assert_eq!(side(100, 1.0), 100);
    assert_eq!(side(100, 1.5), 150);
    assert_eq!(side(3, 0.5), 1);
    assert_eq!(side(1, 0.999), 0);
    assert_eq!(side(100, 0.0), 0);
    assert_eq!(side(100, -1.0), 0);
    assert_eq!(side(0, 2.0), 0);
    assert_eq!(side(u32::MAX, 1.0), u32::MAX);
    assert_eq!(side(u32::MAX, 2.0), u32::MAX);
    assert_eq!(side(3_000_000_000, 1.25), 3_750_000_000);
}

#[test]
fn unreadable_colors_give_a_black_context() {
    let c = DrawContext::new(1, 1, fixed(1.0), "no such colour", "#12", library());
    assert_eq!(c.state().fill_style, rgba(0.0, 0.0, 0.0, 1.0));
    assert_eq!(c.state().stroke_style, rgba(0.0, 0.0, 0.0, 1.0));
    assert_eq!(c.state().clear_style, rgba(0.0, 0.0, 0.0, 1.0));
}

#[test]
fn styles_are_set_and_read_as_text() {
    let mut c = context();
    assert_eq!(c.get_fill_style(), "#000000ff");
    assert_eq!(c.get_stroke_style(), "#000000ff");
    c.set_fill_style("rgba(255,0,0,0.5)".to_string());
    assert_eq!(c.get_fill_style(), "#ff000080");
    assert_eq!(c.get_stroke_style(), "#000000ff");
    c.set_stroke_style("tomato".to_string());
    assert_eq!(c.get_stroke_style(), "#ff6347ff");
    assert_eq!(c.get_fill_style(), "#ff000080");
    c.set_fill_style("bogus".to_string());
    assert_eq!(c.get_fill_style(), "#000000ff");
    assert_eq!(c.state().clear_style, rgba(1.0, 1.0, 1.0, 1.0));
}

#[test]
fn line_width_is_kept_as_given() {
    let mut c = context();
    assert_eq!(c.get_line_width(), fixed(1.0));
    c.set_line_width(fixed(2.5));
    assert_eq!(c.get_line_width(), fixed(2.5));
    c.set_line_width(fixed(-1.0));
    assert_eq!(c.get_line_width(), fixed(-1.0));
}

#[test]
fn font_is_set_from_text_and_reported_as_the_stock_stack() {
    let mut c = context();
    assert_eq!(c.get_font(), "30pt Bravura,Academico");
    c.set_font("italic 12pt Arial".to_string());
    assert_eq!(
        c.state().font,
        FontInfo { family: vec!["Arial".to_string()], size: fixed(12.0), bold: false, italic: true }
    );
    assert_eq!(c.get_font(), "30pt Bravura,Academico");
    c.set_font("".to_string());
    assert_eq!(c.state().font, default_font());
}

#[test]
fn transform_is_read_and_replaced_whole() {
    let mut c = context();
    assert_eq!(
        c.get_transform(),
        vec![fixed(2.0), fixed(0.0), fixed(0.0), fixed(2.0), fixed(0.0), fixed(0.0)]
    );
    let t = vec![fixed(1.0), fixed(2.0), fixed(3.0), fixed(4.0), fixed(5.0), fixed(6.0)];
    c.set_transform(t.clone());
    assert_eq!(c.get_transform(), t);
    assert_eq!(
        c.state().transform,
        Transform {
            sx: fixed(1.0),
            kx: fixed(2.0),
            ky: fixed(3.0),
            sy: fixed(4.0),
            tx: fixed(5.0),
            ty: fixed(6.0),
        }
    );
    let mut longer = t.clone();
    longer.push(fixed(7.0));
    c.set_transform(longer);
    assert_eq!(c.get_transform(), t);
}

#[test]
fn scale_multiplies_every_coefficient_of_its_axis() {
    let mut c = context();
    c.set_transform(vec![fixed(1.0), fixed(2.0), fixed(3.0), fixed(4.0), fixed(5.0), fixed(6.0)]);
    c.scale(fixed(2.0), fixed(-1.0));
    assert_eq!(
        c.get_transform(),
        vec![fixed(2.0), fixed(4.0), fixed(-3.0), fixed(-4.0), fixed(10.0), fixed(-6.0)]
    );
}

#[test]
fn translate_shifts_against_its_arguments() {
    let mut c = context();
    c.translate(fixed(10.0), fixed(-4.0));
    assert_eq!(
        c.get_transform(),
        vec![fixed(2.0), fixed(0.0), fixed(0.0), fixed(2.0), fixed(-10.0), fixed(4.0)]
    );
    c.translate(fixed(1.5), fixed(1.5));
    assert_eq!(
        c.get_transform(),
        vec![fixed(2.0), fixed(0.0), fixed(0.0), fixed(2.0), fixed(-11.5), fixed(2.5)]
    );
}

#[test]
fn rotate_follows_the_transform_by_a_turn() {
    let mut c = context();
    c.translate(fixed(-3.0), fixed(0.0));
    c.rotate(fixed(0.0), fixed(1.0));
    assert_eq!(
        c.get_transform(),
        vec![fixed(0.0), fixed(-2.0), fixed(2.0), fixed(0.0), fixed(0.0), fixed(3.0)]
    );
    let mut d = context();
    d.rotate(fixed(1.0), fixed(0.0));
    assert_eq!(d.get_transform(), context().get_transform());
}

fn change_everything(c: &mut DrawContext) {
    c.set_fill_style("#123".to_string());
    c.set_stroke_style("rgb(9,8,7)".to_string());
    c.set_line_width(fixed(3.25));
    c.set_font("bold 11px \"Lato Light\",serif".to_string());
    c.scale(fixed(1.5), fixed(0.5));
    c.translate(fixed(7.0), fixed(-2.0));
    c.rotate(fixed(0.6), fixed(0.8));
}

#[test]
fn restore_after_save_leaves_the_state_as_it_was() {
    let mut c = context();
    let fresh = c.state().clone();
    c.save();
    assert!(c.restore());
    assert_eq!(c.state(), &fresh);
    assert_eq!(c.saved_states(), 0);
    change_everything(&mut c);
    let changed = c.state().clone();
    assert_ne!(changed, fresh);
    c.save();
    assert_eq!(c.saved_states(), 1);
    assert_eq!(c.state(), &changed);
    assert!(c.restore());
    assert_eq!(c.state(), &changed);
    assert_eq!(c.saved_states(), 0);
    for _ in 0..3 {
        c.save();
        assert!(c.restore());
        assert_eq!(c.state(), &changed);
    }
}

#[test]
fn restore_brings_back_the_state_of_the_matching_save() {
    let mut c = context();
    let first = c.state().clone();
    c.save();
    change_everything(&mut c);
    let second = c.state().clone();
    c.save();
    c.set_transform(vec![fixed(1.0), fixed(0.0), fixed(0.0), fixed(1.0), fixed(0.0), fixed(0.0)]);
    c.set_fill_style("white".to_string());
    assert_eq!(c.saved_states(), 2);
    assert!(c.restore());
    assert_eq!(c.state(), &second);
    assert!(c.restore());
    assert_eq!(c.state(), &first);
    assert_eq!(c.saved_states(), 0);
}

#[test]
fn restore_with_nothing_saved_changes_nothing() {
    let mut c = context();
    assert!(!c.restore());
    assert_eq!(c.state(), context().state());
    change_everything(&mut c);
    let changed = c.state().clone();
    assert!(!c.restore());
    assert!(!c.restore());
    assert_eq!(c.state(), &changed);
    assert_eq!(c.saved_states(), 0);
}

#[test]
fn save_and_restore_leave_the_path_alone() {
    let mut c = context();
    c.begin_path();
    c.move_to(fixed(1.0), fixed(2.0));
    c.save();
    c.line_to(fixed(3.0), fixed(4.0));
    assert!(c.restore());
    assert_eq!(
        c.fill().commands,
        vec![
            PathCommand::MoveTo { x: fixed(1.0), y: fixed(2.0) },
            PathCommand::LineTo { x: fixed(3.0), y: fixed(4.0) },
        ]
    );
    let mut d = context();
    d.save();
    d.begin_path();
    assert!(d.restore());
    assert!(d.has_path());
}

#[test]
fn path_collects_segments_in_order() {
    let mut c = context();
    assert!(!c.has_path());
    c.begin_path();
    assert!(c.has_path());
    assert_eq!(c.fill().commands, vec![]);
    c.move_to(fixed(1.0), fixed(2.0));
    c.line_to(fixed(3.0), fixed(4.0));
    c.quadratic_curve_to(fixed(5.0), fixed(6.0), fixed(7.0), fixed(8.0));
    c.bezier_curve_to(fixed(9.0), fixed(10.0), fixed(11.0), fixed(12.0), fixed(13.0), fixed(14.0));
    c.rect(fixed(15.0), fixed(16.0), fixed(17.0), fixed(0.0));
    c.close_path();
    let expected = vec![
        PathCommand::MoveTo { x: fixed(1.0), y: fixed(2.0) },
        PathCommand::LineTo { x: fixed(3.0), y: fixed(4.0) },
        PathCommand::QuadTo { x1: fixed(5.0), y1: fixed(6.0), x: fixed(7.0), y: fixed(8.0) },
        PathCommand::CubicTo {
            x1: fixed(9.0),
            y1: fixed(10.0),
            x2: fixed(11.0),
            y2: fixed(12.0),
            x: fixed(13.0),
            y: fixed(14.0),
        },
        PathCommand::Rect { x: fixed(15.0), y: fixed(16.0), width: fixed(17.0), height: fixed(0.0) },
        PathCommand::Close,
    ];
    assert_eq!(c.fill().commands, expected);
    assert_eq!(c.stroke().commands, expected);
    c.begin_path();
    assert_eq!(c.fill().commands, vec![]);
}

#[test]
fn fill_and_stroke_read_the_path_without_clearing_it() {
    let mut c = context();
    c.set_fill_style("red".to_string());
    c.set_stroke_style("blue".to_string());
    c.set_line_width(fixed(2.5));
    c.begin_path();
    c.move_to(fixed(0.0), fixed(0.0));
    c.line_to(fixed(10.0), fixed(0.0));
    let fill = c.fill();
    let stroke = c.stroke();
    let again = c.fill();
    assert_eq!(fill, again);
    assert_eq!(fill.commands, stroke.commands);
    assert_eq!(fill.commands.len(), 2);
    assert_eq!(fill.color, rgba(1.0, 0.0, 0.0, 1.0));
    assert_eq!(fill.transform, c.state().transform);
    assert_eq!(stroke.color, rgba(0.0, 0.0, 1.0, 1.0));
    assert_eq!(stroke.width, fixed(2.5));
    assert_eq!(stroke.transform, c.state().transform);
}

#[test]
fn full_circle_arc_adds_a_circle() {
    let tau = fixed(std::f64::consts::TAU);
    assert_eq!(tau.raw, 6_283_185_307);
    let mut c = context();
    c.begin_path();
    assert!(c.arc(fixed(5.0), fixed(6.0), fixed(7.0), fixed(0.0), tau, false));
    assert!(c.arc(fixed(1.0), fixed(2.0), fixed(3.0), fixed(0.0), Fixed { raw: tau.raw + 1 }, true));
    assert!(c.arc(fixed(1.0), fixed(2.0), fixed(3.0), fixed(0.0), Fixed { raw: tau.raw - 1 }, true));
    assert_eq!(
        c.fill().commands,
        vec![
            PathCommand::Circle { x: fixed(5.0), y: fixed(6.0), radius: fixed(7.0) },
            PathCommand::Circle { x: fixed(1.0), y: fixed(2.0), radius: fixed(3.0) },
            PathCommand::Circle { x: fixed(1.0), y: fixed(2.0), radius: fixed(3.0) },
        ]
    );
}

#[test]
fn any_other_arc_adds_nothing() {
    let tau = fixed(std::f64::consts::TAU);
    let pi = fixed(std::f64::consts::PI);
    let mut c = context();
    c.begin_path();
    assert!(!c.arc(fixed(5.0), fixed(6.0), fixed(7.0), fixed(0.0), pi, false));
    assert!(!c.arc(fixed(5.0), fixed(6.0), fixed(7.0), Fixed { raw: 1 }, tau, false));
    assert!(!c.arc(fixed(5.0), fixed(6.0), fixed(7.0), pi, fixed(0.0), false));
    assert!(!c.arc(fixed(5.0), fixed(6.0), fixed(7.0), fixed(0.0), Fixed { raw: tau.raw + 2 }, false));
    assert!(!c.arc(fixed(5.0), fixed(6.0), fixed(7.0), fixed(0.0), Fixed { raw: tau.raw - 2 }, false));
    assert!(!c.arc(fixed(5.0), fixed(6.0), fixed(7.0), fixed(0.0), fixed(0.0), false));
    assert_eq!(c.fill().commands, vec![]);
}

#[test]
fn fill_rect_paints_over_in_the_fill_color() {
    let mut c = context();
    c.set_fill_style("#00ff0080".to_string());
    assert_eq!(
        c.fill_rect(fixed(10.0), fixed(20.0), fixed(-4.0), fixed(5.0)),
        RectPaint {
            rect: Rect { x: fixed(6.0), y: fixed(20.0), width: fixed(4.0), height: fixed(5.0) },
            color: Color::from_rgba8(0, 255, 0, 128),
            blend: Blend::SourceOver,
            transform: c.state().transform,
        }
    );
}

#[test]
fn fill_rect_with_mirrored_extents_paints_the_same() {
    let c = context();
    let (x, y, w, h) = (fixed(10.0), fixed(20.0), fixed(4.5), fixed(0.25));
    assert_eq!(
        c.fill_rect(x, y, w.negated(), h.negated()),
        c.fill_rect(x.minus(w), y.minus(h), w, h)
    );
}

#[test]
fn clear_rect_replaces_with_the_clear_color() {
    let mut c = DrawContext::new(10, 10, fixed(1.0), "rgba(1,2,3,0.25)", "black", library());
    c.set_fill_style("red".to_string());
    c.scale(fixed(3.0), fixed(3.0));
    assert_eq!(
        c.clear_rect(fixed(1.0), fixed(2.0), fixed(3.0), fixed(4.0)),
        RectPaint {
            rect: Rect { x: fixed(1.0), y: fixed(2.0), width: fixed(3.0), height: fixed(4.0) },
            color: Color { alpha: fixed(0.25), ..Color::from_rgba8(1, 2, 3, 0) },
            blend: Blend::Source,
            transform: c.state().transform,
        }
    );
}

#[test]
fn clear_floods_with_the_given_color() {
    let c = context();
    assert_eq!(c.clear(fixed(0.1), fixed(0.2), fixed(0.3), fixed(0.4)), rgba(0.1, 0.2, 0.3, 0.4));
    assert_eq!(c.clear(fixed(0.0), fixed(0.0), fixed(0.0), fixed(0.0)), rgba(0.0, 0.0, 0.0, 0.0));
    c.set_line_dash();
}

#[test]
fn measuring_asks_for_the_glyph_at_the_font_size() {
    let mut c = context();
    c.set_font("bold 12pt Arial".to_string());
    let r = c.measure_char(0x41);
    assert_eq!(r.face, FontFace::Bold);
    assert_eq!(r.character, 'A');
    assert_eq!(r.glyph_id, 3);
    assert_eq!(r.size, fixed(12.0));
    assert_eq!(r.x, fixed(0.0));
    assert_eq!(r.y, fixed(0.0));
    let remapped = c.measure_char(0x25b3);
    assert_eq!(remapped.face, FontFace::Music);
    assert_eq!(remapped.character, '\u{e873}');
    assert_eq!(remapped.glyph_id, 7);
    let spaced = c.measure_char(0xe31a);
    assert_eq!(spaced.face, FontFace::Bold);
    assert_eq!(spaced.character, ' ');
}

#[test]
fn measuring_a_text_asks_for_each_of_its_glyphs() {
    let mut c = context();
    c.set_font("italic 9pt".to_string());
    let requests = c.measure_text("A\u{25b3}B");
    assert_eq!(requests.len(), 3);
    assert_eq!(requests[0], c.measure_char(0x41));
    assert_eq!(requests[1], c.measure_char(0x25b3));
    assert_eq!(requests[2], c.measure_char(0x42));
    assert_eq!(requests[0].glyph_id, 2);
    assert_eq!(requests[1].glyph_id, 7);
    assert_eq!(requests[2].glyph_id, 0);
}

#[test]
fn measuring_the_empty_text_asks_for_the_null_codepoint() {
    let c = context();
    let requests = c.measure_text("");
    assert_eq!(requests, vec![c.measure_char(0)]);
    assert_eq!(requests[0].character, '\0');
    assert_eq!(requests[0].face, FontFace::Regular);
    assert_eq!(requests[0].size, fixed(30.0));
}

#[test]
fn placement_splits_the_position_into_pixels_and_fraction() {
    let mut c = context();
    c.set_fill_style("#ff000080".to_string());
    let p = c.fill_char(0x41, fixed(10.3), fixed(-2.25), fixed(12.0), fixed(2.0), true, false);
    assert_eq!(p.codepoint, 0x41);
    assert_eq!(p.request.face, FontFace::Italic);
    assert_eq!(p.request.character, 'A');
    assert_eq!(p.request.glyph_id, 2);
    assert_eq!(p.request.size, fixed(24.0));
    assert_eq!(p.origin_x, 20);
    assert_eq!(p.request.x, fixed(0.6));
    assert_eq!(p.origin_y, -5);
    assert_eq!(p.request.y, fixed(0.5));
    assert_eq!(p.extra_zoom, fixed(2.0));
    assert_eq!(p.transform, Transform::identity());
    assert_eq!(p.color, Color::from_rgba8(255, 0, 0, 128));
}

#[test]
fn placement_divides_the_supersampling_out_of_the_transform() {
    let mut c = context();
    c.set_transform(vec![fixed(4.0), fixed(1.0), fixed(-1.0), fixed(2.0), fixed(10.0), fixed(20.0)]);
    let p = c.fill_char(0x25cb, fixed(1.0), fixed(1.0), fixed(10.0), fixed(4.0), false, true);
    assert_eq!(p.codepoint, 0xe870);
    assert_eq!(p.request.face, FontFace::Music);
    assert_eq!(p.request.size, fixed(40.0));
    assert_eq!(
        p.transform,
        Transform {
            sx: fixed(1.0),
            kx: fixed(0.25),
            ky: fixed(-0.25),
            sy: fixed(0.5),
            tx: fixed(2.5),
            ty: fixed(5.0),
        }
    );
    assert_eq!((p.origin_x, p.origin_y), (4, 4));
    assert_eq!((p.request.x, p.request.y), (fixed(0.0), fixed(0.0)));
}

#[test]
fn placement_saturates_far_positions() {
    let c = context();
    let p = c.fill_char(0x41, fixed(3e9), fixed(-3e9), fixed(1.0), fixed(1.0), false, false);
    assert_eq!((p.origin_x, p.origin_y), (i32::MAX, i32::MIN));
}

#[test]
fn same_call_gives_the_same_placement() {
    let mut c = context();
    change_everything(&mut c);
    let first = c.fill_char(0x41, fixed(1.25), fixed(2.5), fixed(12.0), fixed(1.5), false, false);
    let second = c.fill_char(0x41, fixed(1.25), fixed(2.5), fixed(12.0), fixed(1.5), false, false);
    assert_eq!(first, second);
}

#[test]
fn text_is_drawn_glyph_by_glyph_from_left_to_right() {
    let mut c = context();
    c.set_font("bold 10pt".to_string());
    let mut run = c.fill_text("A B", fixed(5.0), fixed(40.0));
    assert_eq!(run.codepoints, vec![0x41, 0x20, 0x42]);
    assert_eq!(run.extra_zoom, fixed(2.0));
    let advances = [fixed(7.5), fixed(3.0), fixed(8.0)];
    let mut pen = fixed(5.0);
    let mut drawn = Vec::new();
    for advance in advances {
        assert!(!run.is_done());
        let p = c.next_glyph(&run).unwrap();
        assert_eq!(
            p,
            c.fill_char(p_codepoint(&run), pen, fixed(40.0), fixed(10.0), fixed(2.0), false, true)
        );
        let found = ScaledGlyph {
            h_advance: advance,
            ascent: fixed(8.0),
            descent: fixed(-2.0),
            outline: None,
        };
        let outcome = p.finish(&found);
        assert_eq!(outcome.advance, advance.over(fixed(2.0)));
        drawn.push(outcome.action);
        run.advance(outcome.advance);
        pen = pen.plus(outcome.advance);
        assert_eq!(run.x, pen);
        assert_eq!(run.y, fixed(40.0));
    }
    assert!(run.is_done());
    assert!(c.next_glyph(&run).is_none());
    assert_eq!(run.x, fixed(14.25));
    run.advance(fixed(100.0));
    assert_eq!(run.x, fixed(14.25));
    assert_eq!(run.next, 3);
    assert_eq!(
        drawn,
        vec![GlyphAction::Missing(0x41), GlyphAction::Blank, GlyphAction::Missing(0x42)]
    );
}

fn p_codepoint(run: &notation_canvas::context::TextRun) -> u32 {
    run.codepoints[run.next]
}

#[test]
fn nothing_is_drawn_under_a_transform_without_scale() {
    let mut c = context();
    c.set_transform(vec![fixed(0.0), fixed(1.0), fixed(1.0), fixed(0.0), fixed(0.0), fixed(0.0)]);
    let run = c.fill_text("abc", fixed(0.0), fixed(0.0));
    assert_eq!(run.extra_zoom, fixed(0.0));
    assert!(!run.is_done());
    assert!(c.next_glyph(&run).is_none());
    let empty = context().fill_text("", fixed(0.0), fixed(0.0));
    assert!(empty.is_done());
    assert!(context().next_glyph(&empty).is_none());
}

#[test]
fn flag_is_raised_by_a_request_to_stop() {
    let mut flag = AbortFlag::new();
    assert!(!flag.requested);
    notation_canvas::host::panic(&mut flag, "stop".to_string());
    assert!(flag.requested);
    notation_canvas::host::panic(&mut flag, String::new());
    assert!(flag.requested);
}

#[test]
fn paths_are_joined_with_one_slash() {
    assert_eq!(path_join("a".to_string(), "b".to_string()), "a/b");
    assert_eq!(path_join("a/".to_string(), "b".to_string()), "a/b");
    assert_eq!(path_join("/a/b".to_string(), "c/d.png".to_string()), "/a/b/c/d.png");
    assert_eq!(path_join("a".to_string(), "/b".to_string()), "/b");
    assert_eq!(path_join("".to_string(), "b".to_string()), "b");
    assert_eq!(path_join("a".to_string(), "".to_string()), "a/");
    assert_eq!(path_join("".to_string(), "".to_string()), "");
    assert_eq!(path_join("/".to_string(), "b".to_string()), "/b");
}

#[test]
fn joined_path_is_what_the_standard_library_joins() {
    let cases = [("a", "b"), ("a/", "b"), ("/a/b", "c/d.png"), ("a", "/b"), ("", "b"), ("a", ""), ("x/y", "../z")];
    for (path, more) in cases {
        let expected = format!("{}", std::path::PathBuf::from(path).join(more).display());
        assert_eq!(path_join(path.to_string(), more.to_string()), expected);
    }
}
