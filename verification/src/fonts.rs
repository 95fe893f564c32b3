//! The bundled fonts and the rule that picks one of them for a codepoint.

use vstd::prelude::*;
use crate::fixed::Fixed;

verus! {

/// Makes `ab_glyph::FontVec`, a font that owns the bytes of its file, known
/// to the verifier as a type whose insides it does not see.
#[verifier::external_type_specification]
#[verifier::external_body]
pub struct ExFontVec(ab_glyph::FontVec);

/// Makes `ab_glyph::InvalidFont`, the error of the font reader, known to
/// the verifier.
#[verifier::external_type_specification]
#[verifier::external_body]
pub struct ExInvalidFont(ab_glyph::InvalidFont);

/// One of the five bundled fonts.
#[derive(Clone, Copy, Debug, PartialEq, Eq, Structural)]
pub enum FontFace {
    /// The music font, which holds the notation symbols.
    Music,
    Regular,
    Italic,
    Bold,
    BoldItalic,
}

/// Why a font library could not be built: the named font's data is no font.
#[derive(Clone, Copy, Debug, PartialEq, Eq, Structural)]
pub struct FontError {
    pub face: FontFace,
}

/// A glyph of one bundled font, with the size and the position at which its
/// outline is wanted.
#[derive(Clone, Copy, Debug, PartialEq, Eq, Structural)]
pub struct GlyphRequest {
    pub face: FontFace,
    /// The character that was looked up.
    pub character: char,
    /// The font's own number for the glyph.
    pub glyph_id: u16,
    /// Size in points.
    pub size: Fixed,
    pub x: Fixed,
    pub y: Fixed,
}

/// Whether a number is a Unicode scalar value, that is, a character.
pub open spec fn is_scalar(codepoint: u32) -> bool {
    codepoint <= 0xD7FF || (0xE000 <= codepoint && codepoint <= 0x10FFFF)
}

/// Whether a codepoint lies in the private-use block that is reserved for
/// music notation symbols.
pub open spec fn in_smufl(codepoint: u32) -> bool {
    0xe000 <= codepoint <= 0xf8ff
}

/// The codepoint that is drawn in place of `codepoint`. Three symbols of
/// chord notation are sent to their music glyphs, and four music codepoints
/// that the music font lacks are sent to the space.
pub open spec fn remapped(codepoint: u32) -> u32 {
    if codepoint == 0x25b3 {
        0xe873
    } else if codepoint == 0x00f8 {
        0xe871
    } else if codepoint == 0x25cb {
        0xe870
    } else if codepoint == 0xe31a || codepoint == 0xe31b || codepoint == 0xe3de || codepoint
        == 0xe3df {
        0x20
    } else {
        codepoint
    }
}

/// The font that draws a codepoint: the music font for music symbols,
/// otherwise the text font with the wanted slant and weight.
pub open spec fn face_for(codepoint: u32, italic: bool, bold: bool) -> FontFace {
    if in_smufl(codepoint) {
        FontFace::Music
    } else if italic && bold {
        FontFace::BoldItalic
    } else if italic {
        FontFace::Italic
    } else if bold {
        FontFace::Bold
    } else {
        FontFace::Regular
    }
}

/// Whether `data` is a font file that the font reader accepts.
pub uninterp spec fn font_parses(data: Seq<u8>) -> bool;

/// The bytes of the font file that a font was read from.
pub uninterp spec fn font_bytes(font: ab_glyph::FontVec) -> Seq<u8>;

/// The number that the font read from the file `data` has for the glyph of
/// the character `c`.
pub uninterp spec fn glyph_id_of(data: Seq<u8>, c: char) -> u16;

/// `char::from_u32` gives the character with the given number if the number
/// is a Unicode scalar value, and nothing otherwise.
pub assume_specification[ char::from_u32 ](codepoint: u32) -> (c: Option<char>)
    ensures
        c is Some <==> is_scalar(codepoint),
        c matches Some(ch) ==> ch == codepoint as char && ch as u32 == codepoint,
;

/// Reads a font with `ab_glyph::FontVec::try_from_vec`. Whether it succeeds
/// depends on the bytes alone, and the font keeps the bytes it was read
/// from.
#[verifier::external_body]
fn load_font(data: Vec<u8>) -> (r: Result<ab_glyph::FontVec, ab_glyph::InvalidFont>)
    ensures
        r is Ok <==> font_parses(data@),
        r matches Ok(font) ==> font_bytes(font) == data@,
{
    ab_glyph::FontVec::try_from_vec(data)
}

/// Asks a font for the glyph of a character with `ab_glyph::Font::glyph_id`.
/// The number that comes back depends on the font file and the character
/// alone; nothing more is claimed of it.
#[verifier::external_body]
fn glyph_index(font: &ab_glyph::FontVec, c: char) -> (id: u16)
    ensures
        id == glyph_id_of(font_bytes(*font), c),
{
    ab_glyph::Font::glyph_id(font, c).0
}

/// Whether a number is a character.
pub fn is_scalar_codepoint(codepoint: u32) -> (b: bool)
    ensures
        b == is_scalar(codepoint),
{
    codepoint <= 0xD7FF || (0xE000 <= codepoint && codepoint <= 0x10FFFF)
}

/// Remaps a codepoint before it is looked up.
pub fn remap_codepoint(codepoint: u32) -> (mapped: u32)
    ensures
        mapped == remapped(codepoint),
        is_scalar(codepoint) ==> is_scalar(mapped),
{
    if codepoint == 0x25b3 {
        0xe873
    } else if codepoint == 0x00f8 {
        0xe871
    } else if codepoint == 0x25cb {
        0xe870
    } else if codepoint == 0xe31a || codepoint == 0xe31b || codepoint == 0xe3de || codepoint
        == 0xe3df {
        0x20
    } else {
        codepoint
    }
}

/// The five bundled fonts, read once and never changed.
pub struct FontLibrary {
    bravura_font: ab_glyph::FontVec,
    regular_font: ab_glyph::FontVec,
    italic_font: ab_glyph::FontVec,
    bold_font: ab_glyph::FontVec,
    bold_italic_font: ab_glyph::FontVec,
}

/// The first of the five font files, in the order music, regular, italic,
/// bold, bold italic, that is no font; `None` if all are fonts.
pub open spec fn first_bad_font(
    bravura: Seq<u8>,
    regular: Seq<u8>,
    italic: Seq<u8>,
    bold: Seq<u8>,
    bold_italic: Seq<u8>,
) -> Option<FontFace> {
    if !font_parses(bravura) {
        Some(FontFace::Music)
    } else if !font_parses(regular) {
        Some(FontFace::Regular)
    } else if !font_parses(italic) {
        Some(FontFace::Italic)
    } else if !font_parses(bold) {
        Some(FontFace::Bold)
    } else if !font_parses(bold_italic) {
        Some(FontFace::BoldItalic)
    } else {
        None
    }
}

impl FontLibrary {
    /// The font held for a face.
    pub closed spec fn spec_font(&self, face: FontFace) -> ab_glyph::FontVec {
        match face {
            FontFace::Music => self.bravura_font,
            FontFace::Regular => self.regular_font,
            FontFace::Italic => self.italic_font,
            FontFace::Bold => self.bold_font,
            FontFace::BoldItalic => self.bold_italic_font,
        }
    }

    /// The bytes of the font file of a face.
    pub open spec fn spec_data(&self, face: FontFace) -> Seq<u8> {
        font_bytes(self.spec_font(face))
    }

    /// What a lookup gives: the glyph of the character `codepoint` in the
    /// face chosen for it, with size and position as given.
    pub open spec fn spec_lookup(
        &self,
        codepoint: u32,
        size: Fixed,
        italic: bool,
        bold: bool,
        x: Fixed,
        y: Fixed,
    ) -> GlyphRequest
        recommends
            is_scalar(codepoint),
    {
        let face = face_for(codepoint, italic, bold);
        let character = codepoint as char;
        GlyphRequest {
            face,
            character,
            glyph_id: glyph_id_of(self.spec_data(face), character),
            size,
            x,
            y,
        }
    }

    /// Builds the library from the contents of the five font files. Fails
    /// with the first file that is no font.
    pub fn new(
        bravura: Vec<u8>,
        regular: Vec<u8>,
        italic: Vec<u8>,
        bold: Vec<u8>,
        bold_italic: Vec<u8>,
    ) -> (r: Result<FontLibrary, FontError>)
        ensures
            r is Ok <==> first_bad_font(bravura@, regular@, italic@, bold@, bold_italic@) is None,
            r matches Err(e) ==> Some(e.face) == first_bad_font(
                bravura@,
                regular@,
                italic@,
                bold@,
                bold_italic@,
            ),
            r matches Ok(library) ==> {
                &&& library.spec_data(FontFace::Music) == bravura@
                &&& library.spec_data(FontFace::Regular) == regular@
                &&& library.spec_data(FontFace::Italic) == italic@
                &&& library.spec_data(FontFace::Bold) == bold@
                &&& library.spec_data(FontFace::BoldItalic) == bold_italic@
            },
    {
        let bravura_font = match load_font(bravura) {
            Ok(f) => f,
            Err(_) => {
                return Err(FontError { face: FontFace::Music });
            },
        };
        let regular_font = match load_font(regular) {
            Ok(f) => f,
            Err(_) => {
                return Err(FontError { face: FontFace::Regular });
            },
        };
        let italic_font = match load_font(italic) {
            Ok(f) => f,
            Err(_) => {
                return Err(FontError { face: FontFace::Italic });
            },
        };
        let bold_font = match load_font(bold) {
            Ok(f) => f,
            Err(_) => {
                return Err(FontError { face: FontFace::Bold });
            },
        };
        let bold_italic_font = match load_font(bold_italic) {
            Ok(f) => f,
            Err(_) => {
                return Err(FontError { face: FontFace::BoldItalic });
            },
        };
        Ok(FontLibrary { bravura_font, regular_font, italic_font, bold_font, bold_italic_font })
    }

    /// Whether a codepoint is a music notation symbol.
    pub fn is_in_smufl(codepoint: u32) -> (b: bool)
        ensures
            b == in_smufl(codepoint),
    {
        codepoint >= 0xe000 && codepoint <= 0xf8ff
    }

    /// The face that draws a codepoint in the wanted slant and weight.
    pub fn choose_face(codepoint: u32, italic: bool, bold: bool) -> (face: FontFace)
        ensures
            face == face_for(codepoint, italic, bold),
    {
        if Self::is_in_smufl(codepoint) {
            FontFace::Music
        } else if italic {
            if bold {
                FontFace::BoldItalic
            } else {
                FontFace::Italic
            }
        } else {
            if bold {
                FontFace::Bold
            } else {
                FontFace::Regular
            }
        }
    }

    /// The font of a face, for the code that scales glyphs and extracts
    /// their outlines.
    pub fn font(&self, face: FontFace) -> (f: &ab_glyph::FontVec)
        ensures
            *f == self.spec_font(face),
    {
        match face {
            FontFace::Music => &self.bravura_font,
            FontFace::Regular => &self.regular_font,
            FontFace::Italic => &self.italic_font,
            FontFace::Bold => &self.bold_font,
            FontFace::BoldItalic => &self.bold_italic_font,
        }
    }

    /// Picks the font for a codepoint and finds the glyph in it. The size
    /// and the position, which is a fraction of a pixel, are handed on as
    /// given.
    pub fn lookup_glyph(
        &self,
        codepoint: u32,
        size: Fixed,
        italic: bool,
        bold: bool,
        x: Fixed,
        y: Fixed,
    ) -> (request: GlyphRequest)
        requires
            is_scalar(codepoint),
        ensures
            request == self.spec_lookup(codepoint, size, italic, bold, x, y),
            request.character as u32 == codepoint,
    {
        let character = match char::from_u32(codepoint) {
            Some(c) => c,
            None => ' ',
        };
        let face = Self::choose_face(codepoint, italic, bold);
        let glyph_id = glyph_index(self.font(face), character);
        GlyphRequest { face, character, glyph_id, size, x, y }
    }
}

} // verus!
