use notation_canvas::color::Color;
use notation_canvas::fixed::Fixed;
use notation_canvas::fonts::{remap_codepoint, FontError, FontFace, FontLibrary};
use notation_canvas::geometry::Transform;
use notation_canvas::glyph::{
    codepoint_of, codepoints_to_measure, supersampling_factor, text_codepoints, FontMetrics,
    GlyphAction, GlyphBounds, GlyphFrame, GlyphOutcome, GlyphPlacement, ScaledGlyph,
};
use notation_canvas::raster::{premultiply, GlyphBuffer, Pixel};

/// The fixed-point number nearest to `v`.
fn fixed(v: f64) -> Fixed {
    Fixed { raw: (v * 1e9).round() as i64 }
}

fn table(tag: &[u8; 4], body: Vec<u8>) -> (Vec<u8>, Vec<u8>) {
    (tag.to_vec(), body)
}

/// A font file with no outlines, in which `codepoint` has the glyph `glyph`.
fn font_with(codepoint: u32, glyph: u32) -> Vec<u8> {
    let mut cmap: Vec<u8> = vec![0, 0, 0, 1, 0, 0, 0, 4, 0, 0, 0, 12];
    cmap.extend_from_slice(&[0, 12, 0, 0]);
    cmap.extend_from_slice(&28u32.to_be_bytes());
    cmap.extend_from_slice(&0u32.to_be_bytes());
    cmap.extend_from_slice(&1u32.to_be_bytes());
    cmap.extend_from_slice(&codepoint.to_be_bytes());
    cmap.extend_from_slice(&codepoint.to_be_bytes());
    cmap.extend_from_slice(&glyph.to_be_bytes());
    let mut head: Vec<u8> = vec![0; 54];
    head[0] = 0;
    head[1] = 1;
    head[12] = 0x5f;
    head[13] = 0x0f;
    head[14] = 0x3c;
    head[15] = 0xf5;
    head[18] = 0x03;
    head[19] = 0xe8;
    let mut hhea: Vec<u8> = vec![0; 36];
    hhea[1] = 1;
    hhea[4] = 0x03;
    hhea[5] = 0x20;
    hhea[6] = 0xff;
    hhea[7] = 0x38;
    let maxp: Vec<u8> = vec![0, 0, 0x50, 0, 0, 100];
    let tables = vec![
        table(b"cmap", cmap),
        table(b"head", head),
        table(b"hhea", hhea),
        table(b"maxp", maxp),
    ];
    let mut file: Vec<u8> = vec![0, 1, 0, 0, 0, 4, 0, 64, 0, 2, 0, 0];
    let mut offset = 12 + 16 * tables.len();
    let mut bodies: Vec<u8> = Vec::new();
    for (tag, body) in &tables {
        file.extend_from_slice(tag);
        file.extend_from_slice(&0u32.to_be_bytes());
        file.extend_from_slice(&(offset as u32).to_be_bytes());
        file.extend_from_slice(&(body.len() as u32).to_be_bytes());
        bodies.extend_from_slice(body);
        offset += body.len();
        while offset % 4 != 0 {
            bodies.push(0);
            offset += 1;
        }
    }
    file.extend_from_slice(&bodies);
    file
}

/// A library whose five fonts give the letter A, or the first music symbol,
/// five different glyphs.
fn library() -> FontLibrary {
    let made = FontLibrary::new(
        font_with(0xe000, 7),
        font_with(0x41, 1),
        font_with(0x41, 2),
        font_with(0x41, 3),
        font_with(0x41, 4),
    );
    match made {
        Ok(fonts) => fonts,
        Err(e) => panic!("font {:?} was refused", e.face),
    }
}

#[test]
fn library_takes_five_fonts() {
    let made = FontLibrary::new(
        font_with(0xe000, 7),
        font_with(0x41, 1),
        font_with(0x41, 2),
        font_with(0x41, 3),
        font_with(0x41, 4),
    );
    assert!(made.is_ok());
}

#[test]
fn library_names_the_first_bad_font() {
    let good = || font_with(0x41, 1);
    let bad = || vec![1u8, 2, 3];
    let face = |r: Result<FontLibrary, FontError>| match r {
        Ok(_) => panic!("bad font was taken"),
        Err(e) => e.face,
    };
    assert_eq!(face(FontLibrary::new(bad(), bad(), bad(), bad(), bad())), FontFace::Music);
    assert_eq!(face(FontLibrary::new(Vec::new(), good(), good(), good(), good())), FontFace::Music);
    assert_eq!(face(FontLibrary::new(good(), bad(), good(), bad(), good())), FontFace::Regular);
    assert_eq!(face(FontLibrary::new(good(), good(), bad(), bad(), bad())), FontFace::Italic);
    assert_eq!(face(FontLibrary::new(good(), good(), good(), bad(), good())), FontFace::Bold);
    assert_eq!(face(FontLibrary::new(good(), good(), good(), good(), bad())), FontFace::BoldItalic);
}

#[test]
fn font_without_required_tables_is_refused() {
    let mut font = font_with(0x41, 1);
    font[12 + 16] = b'x';
    assert!(FontLibrary::new(font, font_with(0x41, 1), font_with(0x41, 1), font_with(0x41, 1), font_with(0x41, 1)).is_err());
}

#[test]
fn music_symbols_come_from_the_music_font() {
    assert!(!FontLibrary::is_in_smufl(0xdfff));
    assert!(FontLibrary::is_in_smufl(0xe000));
    assert!(FontLibrary::is_in_smufl(0xe873));
    assert!(FontLibrary::is_in_smufl(0xf8ff));
    assert!(!FontLibrary::is_in_smufl(0xf900));
    assert!(!FontLibrary::is_in_smufl(0x41));
    assert_eq!(FontLibrary::choose_face(0xe000, false, false), FontFace::Music);
    assert_eq!(FontLibrary::choose_face(0xe000, true, true), FontFace::Music);
    assert_eq!(FontLibrary::choose_face(0xf8ff, true, false), FontFace::Music);
}

#[test]
fn text_comes_from_the_font_of_its_style() {
    assert_eq!(FontLibrary::choose_face(0x41, false, false), FontFace::Regular);
    assert_eq!(FontLibrary::choose_face(0x41, true, false), FontFace::Italic);
    assert_eq!(FontLibrary::choose_face(0x41, false, true), FontFace::Bold);
    assert_eq!(FontLibrary::choose_face(0x41, true, true), FontFace::BoldItalic);
    assert_eq!(FontLibrary::choose_face(0x266d, false, false), FontFace::Regular);
    assert_eq!(FontLibrary::choose_face(0x10ffff, false, true), FontFace::Bold);
}

#[test]
fn lookup_asks_the_chosen_font() {
    let fonts = library();
    let size = fixed(12.0);
    let (x, y) = (fixed(0.25), fixed(0.5));
    let regular = fonts.lookup_glyph(0x41, size, false, false, x, y);
    assert_eq!(regular.face, FontFace::Regular);
    assert_eq!(regular.character, 'A');
    assert_eq!(regular.glyph_id, 1);
    assert_eq!(regular.size, size);
    assert_eq!(regular.x, x);
    assert_eq!(regular.y, y);
    assert_eq!(fonts.lookup_glyph(0x41, size, true, false, x, y).glyph_id, 2);
    assert_eq!(fonts.lookup_glyph(0x41, size, false, true, x, y).glyph_id, 3);
    assert_eq!(fonts.lookup_glyph(0x41, size, true, true, x, y).glyph_id, 4);
    let music = fonts.lookup_glyph(0xe000, size, true, true, x, y);
    assert_eq!(music.face, FontFace::Music);
    assert_eq!(music.glyph_id, 7);
    assert_eq!(music.character, '\u{e000}');
}

#[test]
fn character_without_glyph_gets_glyph_zero() {
    let fonts = library();
    let missing = fonts.lookup_glyph(0x42, fixed(12.0), false, false, fixed(0.0), fixed(0.0));
    assert_eq!(missing.face, FontFace::Regular);
    assert_eq!(missing.character, 'B');
    assert_eq!(missing.glyph_id, 0);
    assert_eq!(fonts.lookup_glyph(0xe001, fixed(12.0), false, false, fixed(0.0), fixed(0.0)).glyph_id, 0);
}

#[test]
fn chord_symbols_are_sent_to_music_glyphs() {
    assert_eq!(remap_codepoint(0x25b3), 0xe873);
    assert_eq!(remap_codepoint(0x00f8), 0xe871);
    assert_eq!(remap_codepoint(0x25cb), 0xe870);
}

#[test]
fn music_glyphs_known_to_be_absent_are_sent_to_space() {
    assert_eq!(remap_codepoint(0xe31a), 0x20);
    assert_eq!(remap_codepoint(0xe31b), 0x20);
    assert_eq!(remap_codepoint(0xe3de), 0x20);
    assert_eq!(remap_codepoint(0xe3df), 0x20);
}

#[test]
fn other_codepoints_stay() {
    assert_eq!(remap_codepoint(0), 0);
    assert_eq!(remap_codepoint(0x20), 0x20);
    assert_eq!(remap_codepoint(0x41), 0x41);
    assert_eq!(remap_codepoint(0xe31c), 0xe31c);
    assert_eq!(remap_codepoint(0xe870), 0xe870);
    assert_eq!(remap_codepoint(0x10ffff), 0x10ffff);
    assert_eq!(remap_codepoint(0xd800), 0xd800);
}

#[test]
fn codepoints_follow_the_text() {
    assert_eq!(text_codepoints(""), Vec::<u32>::new());
    assert_eq!(text_codepoints("Aø\u{e050}"), vec![0x41, 0xf8, 0xe050]);
    assert_eq!(text_codepoints("\u{10ffff}"), vec![0x10ffff]);
    assert_eq!(codepoint_of('A'), 0x41);
}

#[test]
fn empty_text_is_measured_as_the_null_codepoint() {
    assert_eq!(codepoints_to_measure(""), vec![0]);
    assert_eq!(codepoints_to_measure("ab"), vec![0x61, 0x62]);
    assert_eq!(codepoints_to_measure("\0"), vec![0]);
}

fn inked(advance: f64, min_x: f64, min_y: f64, max_x: f64, max_y: f64) -> ScaledGlyph {
    ScaledGlyph {
        h_advance: fixed(advance),
        ascent: fixed(24.0),
        descent: fixed(-6.0),
        outline: Some(GlyphBounds {
            min_x: fixed(min_x),
            min_y: fixed(min_y),
            max_x: fixed(max_x),
            max_y: fixed(max_y),
        }),
    }
}

fn blank(advance: f64) -> ScaledGlyph {
    ScaledGlyph { h_advance: fixed(advance), ascent: fixed(24.0), descent: fixed(-6.0), outline: None }
}

#[test]
fn glyph_with_ink_reports_its_ink_box_outwards() {
    assert_eq!(
        FontMetrics::of_glyph(&inked(10.5, -1.0, -20.0, 9.0, 4.0)),
        FontMetrics {
            width: fixed(10.5),
            font_bounding_box_ascent: fixed(-24.0),
            font_bounding_box_descent: fixed(-6.0),
            actual_bounding_box_ascent: fixed(20.0),
            actual_bounding_box_descent: fixed(4.0),
            actual_bounding_box_left: fixed(1.0),
            actual_bounding_box_right: fixed(9.0),
        }
    );
}

#[test]
fn glyph_without_ink_still_has_advance_and_font_metrics() {
    assert_eq!(
        FontMetrics::of_glyph(&blank(7.25)),
        FontMetrics {
            width: fixed(7.25),
            font_bounding_box_ascent: fixed(-24.0),
            font_bounding_box_descent: fixed(-6.0),
            actual_bounding_box_ascent: fixed(0.0),
            actual_bounding_box_descent: fixed(0.0),
            actual_bounding_box_left: fixed(0.0),
            actual_bounding_box_right: fixed(0.0),
        }
    );
}

#[test]
fn text_of_one_glyph_measures_as_the_glyph() {
    let nul = blank(5.0);
    assert_eq!(FontMetrics::of_text(&vec![nul]), FontMetrics::of_glyph(&nul));
    let a = inked(10.5, -1.0, -20.0, 9.0, 4.0);
    assert_eq!(FontMetrics::of_text(&vec![a]), FontMetrics::of_glyph(&a));
}

#[test]
fn text_without_glyphs_measures_nothing() {
    let zero = fixed(0.0);
    assert_eq!(
        FontMetrics::of_text(&Vec::new()),
        FontMetrics {
            width: zero,
            font_bounding_box_ascent: zero,
            font_bounding_box_descent: zero,
            actual_bounding_box_ascent: zero,
            actual_bounding_box_descent: zero,
            actual_bounding_box_left: zero,
            actual_bounding_box_right: zero,
        }
    );
}

#[test]
fn text_width_is_the_sum_of_the_glyph_widths() {
    let glyphs = vec![
        inked(10.5, -1.0, -20.0, 9.0, 4.0),
        blank(7.25),
        inked(3.0, 0.5, -25.0, 2.5, 1.0),
        inked(8.125, 0.0, -2.0, 8.0, 6.0),
    ];
    let mut sum = fixed(0.0);
    for g in &glyphs {
        sum = sum.plus(FontMetrics::of_glyph(g).width);
    }
    assert_eq!(FontMetrics::of_text(&glyphs).width, sum);
    assert_eq!(FontMetrics::of_text(&glyphs).width, fixed(28.875));
}

#[test]
fn text_ink_box_grows_to_hold_every_glyph() {
    let glyphs = vec![
        inked(10.5, -1.0, -20.0, 9.0, 4.0),
        blank(7.25),
        inked(3.0, 0.5, -25.0, 2.5, 1.0),
        inked(8.125, 0.0, -2.0, 8.0, 6.0),
    ];
    assert_eq!(
        FontMetrics::of_text(&glyphs),
        FontMetrics {
            width: fixed(28.875),
            font_bounding_box_ascent: fixed(-24.0),
            font_bounding_box_descent: fixed(-6.0),
            actual_bounding_box_ascent: fixed(25.0),
            actual_bounding_box_descent: fixed(6.0),
            actual_bounding_box_left: fixed(1.0),
            actual_bounding_box_right: fixed(28.75),
        }
    );
}

#[test]
fn right_ink_edge_is_that_of_the_last_glyph() {
    let wide_then_narrow = vec![inked(10.0, 0.0, -1.0, 30.0, 1.0), inked(2.0, 0.0, -1.0, 1.0, 1.0)];
    assert_eq!(FontMetrics::of_text(&wide_then_narrow).actual_bounding_box_right, fixed(11.0));
    let ends_blank = vec![inked(10.0, 0.0, -1.0, 9.0, 1.0), blank(4.0)];
    assert_eq!(FontMetrics::of_text(&ends_blank).actual_bounding_box_right, fixed(10.0));
}

#[test]
fn text_width_saturates() {
    let huge = ScaledGlyph {
        h_advance: Fixed { raw: i64::MAX },
        ascent: fixed(1.0),
        descent: fixed(1.0),
        outline: None,
    };
    let back = ScaledGlyph { h_advance: Fixed { raw: -10 }, ..huge };
    assert_eq!(FontMetrics::of_text(&vec![huge, huge]).width.raw, i64::MAX);
    assert_eq!(FontMetrics::of_text(&vec![huge, huge, back]).width.raw, i64::MAX);
    assert_eq!(FontMetrics::of_text(&vec![huge, back]).width.raw, i64::MAX - 10);
    let deep = ScaledGlyph { h_advance: Fixed { raw: i64::MIN }, ..huge };
    assert_eq!(FontMetrics::of_text(&vec![huge, huge, deep, deep]).width.raw, -2);
}

fn placement(codepoint: u32, origin_x: i32, origin_y: i32, zoom: f64) -> GlyphPlacement {
    let fonts = library();
    GlyphPlacement {
        request: fonts.lookup_glyph(codepoint, fixed(12.0), false, false, fixed(0.0), fixed(0.0)),
        codepoint,
        origin_x,
        origin_y,
        extra_zoom: fixed(zoom),
        transform: Transform::identity(),
        color: Color::opaque_black(),
    }
}

#[test]
fn outline_is_drawn_in_a_frame_with_a_margin() {
    let p = placement(0x41, 100, 200, 2.0);
    assert_eq!(
        p.finish(&inked(10.0, 0.5, -20.25, 8.75, 3.0)),
        GlyphOutcome {
            advance: fixed(5.0),
            action: GlyphAction::Draw(GlyphFrame { left: 99, top: 178, width: 12, height: 27 }),
        }
    );
    assert_eq!(
        p.finish(&inked(10.0, 0.0, 0.0, 1.0, 1.0)).action,
        GlyphAction::Draw(GlyphFrame { left: 99, top: 199, width: 4, height: 4 })
    );
    assert_eq!(
        placement(0x41, -3, -4, 1.0).finish(&inked(1.0, -2.5, -2.5, -0.5, 2.5)).action,
        GlyphAction::Draw(GlyphFrame { left: -7, top: -8, width: 6, height: 9 })
    );
}

#[test]
fn frame_saturates() {
    let p = placement(0x41, i32::MAX, i32::MIN, 1.0);
    let far = ScaledGlyph {
        h_advance: fixed(1.0),
        ascent: fixed(1.0),
        descent: fixed(1.0),
        outline: Some(GlyphBounds {
            min_x: fixed(5.0),
            min_y: Fixed { raw: i64::MIN },
            max_x: Fixed { raw: i64::MAX },
            max_y: Fixed { raw: i64::MIN },
        }),
    };
    assert_eq!(
        p.finish(&far).action,
        GlyphAction::Draw(GlyphFrame { left: i32::MAX, top: i32::MIN, width: u32::MAX, height: 4 })
    );
    let inverted = inked(1.0, 10.0, 10.0, 0.0, 0.0);
    assert_eq!(
        placement(0x41, 0, 0, 1.0).finish(&inverted).action,
        GlyphAction::Draw(GlyphFrame { left: 9, top: 9, width: 0, height: 0 })
    );
}

#[test]
fn space_without_outline_is_passed_over_silently() {
    assert_eq!(
        placement(0x20, 0, 0, 1.5).finish(&blank(6.0)),
        GlyphOutcome { advance: fixed(4.0), action: GlyphAction::Blank }
    );
}

#[test]
fn other_codepoint_without_outline_is_reported_missing() {
    assert_eq!(
        placement(0x41, 0, 0, 1.5).finish(&blank(6.0)),
        GlyphOutcome { advance: fixed(4.0), action: GlyphAction::Missing(0x41) }
    );
    assert_eq!(placement(0, 0, 0, 1.0).finish(&blank(0.0)).action, GlyphAction::Missing(0));
}

#[test]
fn supersampling_is_the_larger_scale_magnitude() {
    let t = |sx: f64, sy: f64| Transform {
        sx: fixed(sx),
        kx: fixed(9.0),
        ky: fixed(-9.0),
        sy: fixed(sy),
        tx: fixed(100.0),
        ty: fixed(-100.0),
    };
    assert_eq!(supersampling_factor(&t(2.0, 3.0)), fixed(3.0));
    assert_eq!(supersampling_factor(&t(-4.0, 3.0)), fixed(4.0));
    assert_eq!(supersampling_factor(&t(1.5, -1.5)), fixed(1.5));
    assert_eq!(supersampling_factor(&t(0.0, 0.0)), fixed(0.0));
    assert_eq!(supersampling_factor(&Transform::identity()), fixed(1.0));
}

fn rgba(r: f64, g: f64, b: f64, a: f64) -> Color {
    Color { red: fixed(r), green: fixed(g), blue: fixed(b), alpha: fixed(a) }
}

#[test]
fn sample_color_is_premultiplied_by_alpha_and_coverage() {
    let c = rgba(1.0, 0.5, 0.0, 1.0);
    assert_eq!(premultiply(&c, fixed(1.0)), Pixel { red: 255, green: 127, blue: 0, alpha: 255 });
    assert_eq!(premultiply(&c, fixed(0.5)), Pixel { red: 127, green: 63, blue: 0, alpha: 127 });
    assert_eq!(premultiply(&c, fixed(0.0)), Pixel { red: 0, green: 0, blue: 0, alpha: 0 });
    let half = rgba(1.0, 1.0, 0.2, 0.5);
    assert_eq!(premultiply(&half, fixed(1.0)), Pixel { red: 127, green: 127, blue: 25, alpha: 127 });
    assert_eq!(premultiply(&half, fixed(0.5)), Pixel { red: 63, green: 63, blue: 12, alpha: 63 });
    assert_eq!(premultiply(&rgba(1.0, 1.0, 1.0, 0.0), fixed(1.0)), Pixel { red: 0, green: 0, blue: 0, alpha: 0 });
}

#[test]
fn coverage_outside_zero_to_one_counts_as_the_nearer_end() {
    let c = rgba(1.0, 0.5, 0.25, 1.0);
    assert_eq!(premultiply(&c, fixed(1.5)), premultiply(&c, fixed(1.0)));
    assert_eq!(premultiply(&c, fixed(-0.5)), premultiply(&c, fixed(0.0)));
    assert_eq!(premultiply(&c, Fixed { raw: i64::MAX }), Pixel { red: 255, green: 127, blue: 63, alpha: 255 });
}

/// Every pixel of a buffer, row by row.
fn pixels_of(b: &GlyphBuffer) -> Vec<Pixel> {
    let mut all = Vec::new();
    for y in 0..b.height() {
        for x in 0..b.width() {
            all.push(b.pixel(x, y).unwrap());
        }
    }
    all
}

#[test]
fn new_buffer_is_transparent() {
    let b = GlyphBuffer::new(4, 3).unwrap();
    assert_eq!(b.width(), 4);
    assert_eq!(b.height(), 3);
    assert_eq!(b.pixmap().width(), 4);
    assert_eq!(b.pixmap().height(), 3);
    assert_eq!(pixels_of(&b), vec![Pixel { red: 0, green: 0, blue: 0, alpha: 0 }; 12]);
    assert_eq!(b.pixel(4, 0), None);
    assert_eq!(b.pixel(0, 3), None);
    assert_eq!(b.pixel(u32::MAX, u32::MAX), None);
}

#[test]
fn buffer_needs_a_size_that_a_pixmap_can_have() {
    assert!(GlyphBuffer::new(0, 3).is_none());
    assert!(GlyphBuffer::new(3, 0).is_none());
    assert!(GlyphBuffer::new(0, 0).is_none());
    assert!(GlyphBuffer::new(1, 1).is_some());
    assert!(GlyphBuffer::new(536_870_912, 1).is_none());
    assert!(GlyphBuffer::new(u32::MAX, 1).is_none());
    assert!(GlyphBuffer::new(1, 70_000).is_some());
}

#[test]
fn sample_lands_one_pixel_in() {
    let mut b = GlyphBuffer::new(5, 4).unwrap();
    let c = rgba(1.0, 0.0, 0.0, 1.0);
    assert!(b.put(0, 0, fixed(1.0), &c));
    assert!(b.put(2, 1, fixed(0.5), &c));
    let clear = Pixel { red: 0, green: 0, blue: 0, alpha: 0 };
    let mut expected = vec![clear; 20];
    expected[1 * 5 + 1] = Pixel { red: 255, green: 0, blue: 0, alpha: 255 };
    expected[2 * 5 + 3] = Pixel { red: 127, green: 0, blue: 0, alpha: 127 };
    assert_eq!(pixels_of(&b), expected);
    assert!(b.put(2, 1, fixed(1.0), &c));
    expected[2 * 5 + 3] = Pixel { red: 255, green: 0, blue: 0, alpha: 255 };
    assert_eq!(pixels_of(&b), expected);
    let stored = b.pixmap().pixel(3, 2).unwrap();
    assert_eq!((stored.red(), stored.green(), stored.blue(), stored.alpha()), (255, 0, 0, 255));
    assert_eq!(b.pixmap().pixel(1, 1).unwrap().alpha(), 255);
    assert_eq!(b.pixmap().pixel(0, 0).unwrap().alpha(), 0);
}

#[test]
fn sample_on_the_ring_is_dropped() {
    let mut b = GlyphBuffer::new(5, 4).unwrap();
    let c = rgba(1.0, 1.0, 1.0, 1.0);
    assert!(!b.put(3, 0, fixed(1.0), &c));
    assert!(!b.put(0, 2, fixed(1.0), &c));
    assert!(!b.put(4, 0, fixed(1.0), &c));
    assert!(!b.put(5, 0, fixed(1.0), &c));
    assert!(!b.put(u32::MAX, u32::MAX, fixed(1.0), &c));
    assert!(pixels_of(&b).iter().all(|p| p.alpha == 0));
    let mut tiny = GlyphBuffer::new(2, 2).unwrap();
    assert!(!tiny.put(0, 0, fixed(1.0), &c));
    let mut least = GlyphBuffer::new(3, 3).unwrap();
    assert!(least.put(0, 0, fixed(1.0), &c));
    assert!(!least.put(1, 0, fixed(1.0), &c));
    assert!(!least.put(0, 1, fixed(1.0), &c));
}

#[test]
fn ring_stays_transparent_when_every_sample_is_written() {
    let (w, h) = (6u32, 5u32);
    let mut b = GlyphBuffer::new(w, h).unwrap();
    let c = rgba(0.2, 0.4, 0.6, 0.8);
    let mut written = 0;
    for yy in 0..h {
        for xx in 0..w {
            if b.put(xx, yy, fixed(1.0), &c) {
                written += 1;
            }
        }
    }
    assert_eq!(written, (w - 2) * (h - 2));
    for y in 0..h {
        for x in 0..w {
            let p = b.pixel(x, y).unwrap();
            let on_ring = x == 0 || y == 0 || x == w - 1 || y == h - 1;
            if on_ring {
                assert_eq!(p, Pixel { red: 0, green: 0, blue: 0, alpha: 0 });
            } else {
                assert_eq!(p, Pixel { red: 40, green: 81, blue: 122, alpha: 204 });
            }
        }
    }
}
