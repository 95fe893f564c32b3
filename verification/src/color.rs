//! Colours and the colour-string grammar.
//!
//! A colour string is a name from a short table, a hexadecimal literal of
//! three, four, six or eight digits after `#`, or one of the functional
//! forms `rgb(r,g,b)` and `rgba(r,g,b,a)`. Anything else reads as opaque
//! black.

use vstd::prelude::*;
use crate::fixed::{Fixed, SCALE};
use crate::scan::{
    compose_decimal, decimal_value, digits_end, digits_value, has_char, hex_digit, hex_value,
    scan_digits, scan_fraction, skip_spaces, spaces_end, spells, string_from_chars, to_chars,
};

verus! {

/// A colour with straight (not premultiplied) channels, each between zero
/// and one.
#[derive(Clone, Copy, Debug, PartialEq, Eq, Structural)]
pub struct Color {
    pub red: Fixed,
    pub green: Fixed,
    pub blue: Fixed,
    pub alpha: Fixed,
}

/// The channel value `n / 255`, rounded to the nearest raw unit.
pub open spec fn unit_from_byte(n: u8) -> Fixed {
    Fixed { raw: ((2 * n * SCALE + 255) / 510) as i64 }
}

/// The channel value times 255, rounded to the nearest byte. Values outside
/// zero to one count as the nearer end.
pub open spec fn byte_from_unit(v: Fixed) -> u8 {
    if v.raw <= 0 {
        0
    } else if v.raw >= SCALE {
        255
    } else {
        ((510 * v.raw + SCALE) / (2 * SCALE)) as u8
    }
}

/// The lower-case hexadecimal digit for a number below sixteen.
pub open spec fn hex_char(n: u8) -> char
    recommends
        n < 16,
{
    if n == 0 {
        '0'
    } else if n == 1 {
        '1'
    } else if n == 2 {
        '2'
    } else if n == 3 {
        '3'
    } else if n == 4 {
        '4'
    } else if n == 5 {
        '5'
    } else if n == 6 {
        '6'
    } else if n == 7 {
        '7'
    } else if n == 8 {
        '8'
    } else if n == 9 {
        '9'
    } else if n == 10 {
        'a'
    } else if n == 11 {
        'b'
    } else if n == 12 {
        'c'
    } else if n == 13 {
        'd'
    } else if n == 14 {
        'e'
    } else {
        'f'
    }
}

/// The byte written by one hexadecimal digit standing for a doubled pair:
/// `f` reads as `ff`.
pub open spec fn hex_single(c: char) -> Option<u8> {
    match hex_value(c) {
        Some(v) => Some((v * 17) as u8),
        None => None,
    }
}

/// The byte written by two hexadecimal digits.
pub open spec fn hex_pair(high: char, low: char) -> Option<u8> {
    match (hex_value(high), hex_value(low)) {
        (Some(h), Some(l)) => Some((h * 16 + l) as u8),
        _ => None,
    }
}

impl Color {
    /// All four channels lie between zero and one.
    pub open spec fn wf(self) -> bool {
        &&& 0 <= self.red.raw <= SCALE
        &&& 0 <= self.green.raw <= SCALE
        &&& 0 <= self.blue.raw <= SCALE
        &&& 0 <= self.alpha.raw <= SCALE
    }

    /// The colour whose channels are the given bytes over 255.
    pub open spec fn spec_from_rgba8(r: u8, g: u8, b: u8, a: u8) -> Color {
        Color {
            red: unit_from_byte(r),
            green: unit_from_byte(g),
            blue: unit_from_byte(b),
            alpha: unit_from_byte(a),
        }
    }

    /// Black without any transparency.
    pub open spec fn spec_opaque_black() -> Color {
        Color {
            red: Fixed::spec_zero(),
            green: Fixed::spec_zero(),
            blue: Fixed::spec_zero(),
            alpha: Fixed::spec_one(),
        }
    }

    /// The channels as bytes: red, green, blue, alpha.
    pub open spec fn spec_bytes(self) -> (u8, u8, u8, u8) {
        (
            byte_from_unit(self.red),
            byte_from_unit(self.green),
            byte_from_unit(self.blue),
            byte_from_unit(self.alpha),
        )
    }

    /// The colour whose channels are the given bytes over 255.
    pub fn from_rgba8(r: u8, g: u8, b: u8, a: u8) -> (c: Color)
        ensures
            c == Color::spec_from_rgba8(r, g, b, a),
            c.wf(),
    {
        Color {
            red: channel_from_byte(r),
            green: channel_from_byte(g),
            blue: channel_from_byte(b),
            alpha: channel_from_byte(a),
        }
    }

    /// Black without any transparency.
    pub fn opaque_black() -> (c: Color)
        ensures
            c == Color::spec_opaque_black(),
            c.wf(),
    {
        Color { red: Fixed::zero(), green: Fixed::zero(), blue: Fixed::zero(), alpha: Fixed::one() }
    }

    /// Whether all four channels lie between zero and one.
    pub fn is_wf(&self) -> (b: bool)
        ensures
            b == self.wf(),
    {
        0 <= self.red.raw && self.red.raw <= SCALE && 0 <= self.green.raw && self.green.raw
            <= SCALE && 0 <= self.blue.raw && self.blue.raw <= SCALE && 0 <= self.alpha.raw
            && self.alpha.raw <= SCALE
    }

    /// The channels rounded to the nearest byte.
    pub fn bytes(&self) -> (b: (u8, u8, u8, u8))
        ensures
            b == self.spec_bytes(),
    {
        (
            channel_to_byte(self.red),
            channel_to_byte(self.green),
            channel_to_byte(self.blue),
            channel_to_byte(self.alpha),
        )
    }
}

/// The channel value for a byte: the byte over 255.
pub fn channel_from_byte(n: u8) -> (v: Fixed)
    ensures
        v == unit_from_byte(n),
        0 <= v.raw <= SCALE,
{
    let wide: u64 = 2 * (n as u64) * 1_000_000_000 + 255;
    Fixed { raw: (wide / 510) as i64 }
}

/// The byte nearest to a channel value times 255.
pub fn channel_to_byte(v: Fixed) -> (n: u8)
    ensures
        n == byte_from_unit(v),
{
    if v.raw <= 0 {
        0
    } else if v.raw >= SCALE {
        255
    } else {
        let wide: u64 = 510 * (v.raw as u64) + 1_000_000_000;
        (wide / 2_000_000_000) as u8
    }
}

/// Reading back a channel that was made from a byte gives that byte.
pub proof fn lemma_byte_round_trip(n: u8)
    ensures
        byte_from_unit(unit_from_byte(n)) == n,
{
    let c: int = (2 * n * 1_000_000_000 + 255) / 510;
    assert(unit_from_byte(n).raw == c);
    assert(510 * c <= 2 * n * 1_000_000_000 + 255 < 510 * c + 510);
    if 0 < c < 1_000_000_000 {
        let b: int = (510 * c + 1_000_000_000) / 2_000_000_000;
        assert(2_000_000_000 * n <= 510 * c + 1_000_000_000 < 2_000_000_000 * n
            + 2_000_000_000);
        assert(b == n);
    }
}

/// The text that a colour name stands for; any other text stands for itself.
pub open spec fn named_color(text: Seq<char>) -> Seq<char> {
    if text == "none"@ {
        "#0000"@
    } else if text == "transparent"@ {
        "#0000"@
    } else if text == "black"@ {
        "#000"@
    } else if text == "white"@ {
        "#fff"@
    } else if text == "red"@ {
        "#f00"@
    } else if text == "green"@ {
        "#008000"@
    } else if text == "blue"@ {
        "#00f"@
    } else if text == "purple"@ {
        "#800080"@
    } else if text == "darkturquoise"@ {
        "#00ced1"@
    } else if text == "tomato"@ {
        "#ff6347"@
    } else if text == "lawngreen"@ {
        "#7cfc00"@
    } else if text == "orange"@ {
        "#ffa500"@
    } else if text == "brown"@ {
        "#a52a2a"@
    } else if text == "lightgreen"@ {
        "#90ee90"@
    } else {
        text
    }
}

/// The colour written by a hexadecimal literal: `#rgb`, `#rgba`, `#rrggbb`
/// or `#rrggbbaa`. Without alpha digits the colour is opaque.
pub open spec fn parse_hex(s: Seq<char>) -> Option<Color> {
    if s.len() == 4 && s[0] == '#' {
        match (hex_single(s[1]), hex_single(s[2]), hex_single(s[3])) {
            (Some(r), Some(g), Some(b)) => Some(Color::spec_from_rgba8(r, g, b, 255)),
            _ => None,
        }
    } else if s.len() == 5 && s[0] == '#' {
        match (hex_single(s[1]), hex_single(s[2]), hex_single(s[3]), hex_single(s[4])) {
            (Some(r), Some(g), Some(b), Some(a)) => Some(Color::spec_from_rgba8(r, g, b, a)),
            _ => None,
        }
    } else if s.len() == 7 && s[0] == '#' {
        match (hex_pair(s[1], s[2]), hex_pair(s[3], s[4]), hex_pair(s[5], s[6])) {
            (Some(r), Some(g), Some(b)) => Some(Color::spec_from_rgba8(r, g, b, 255)),
            _ => None,
        }
    } else if s.len() == 9 && s[0] == '#' {
        match (
            hex_pair(s[1], s[2]),
            hex_pair(s[3], s[4]),
            hex_pair(s[5], s[6]),
            hex_pair(s[7], s[8]),
        ) {
            (Some(r), Some(g), Some(b), Some(a)) => Some(Color::spec_from_rgba8(r, g, b, a)),
            _ => None,
        }
    } else {
        None
    }
}

/// One colour channel of a functional form: optional white space, a run of
/// digits that writes a number up to 255, optional white space. Gives the
/// number and where the scan stopped.
pub open spec fn scan_channel(s: Seq<char>, from: int) -> Option<(u8, int)> {
    let start = spaces_end(s, from);
    let end = digits_end(s, start);
    let value = digits_value(s.subrange(start, end));
    if end > start && value <= 255 {
        Some((value as u8, spaces_end(s, end)))
    } else {
        None
    }
}

/// The alpha of `rgba(..)`: optional white space, digits with an optional
/// decimal point among them, optional white space. The number has at least
/// one digit and is at most one. Gives the number and where the scan stopped.
pub open spec fn scan_alpha(s: Seq<char>, from: int) -> Option<(Fixed, int)> {
    let start = spaces_end(s, from);
    let whole_end = digits_end(s, start);
    let has_point = whole_end < s.len() && s[whole_end] == '.';
    let end = if has_point {
        digits_end(s, whole_end + 1)
    } else {
        whole_end
    };
    let fraction = if has_point {
        s.subrange(whole_end + 1, end)
    } else {
        Seq::<char>::empty()
    };
    let value = decimal_value(s.subrange(start, whole_end), fraction);
    if (whole_end > start || fraction.len() > 0) && value.raw <= SCALE {
        Some((value, spaces_end(s, end)))
    } else {
        None
    }
}

/// The three channels of a functional form, separated by commas, from
/// `from`. Gives the channels and where the scan stopped.
pub open spec fn scan_channels(s: Seq<char>, from: int) -> Option<(u8, u8, u8, int)> {
    match scan_channel(s, from) {
        Some((r, after_r)) => if has_char(s, after_r, ',') {
            match scan_channel(s, after_r + 1) {
                Some((g, after_g)) => if has_char(s, after_g, ',') {
                    match scan_channel(s, after_g + 1) {
                        Some((b, after_b)) => Some((r, g, b, after_b)),
                        None => None,
                    }
                } else {
                    None
                },
                None => None,
            }
        } else {
            None
        },
        None => None,
    }
}

/// The colour written by `rgb(r,g,b)`.
pub open spec fn parse_rgb(s: Seq<char>) -> Option<Color> {
    if s.len() >= 4 && s.subrange(0, 4) == seq!['r', 'g', 'b', '('] {
        match scan_channels(s, 4) {
            Some((r, g, b, at)) => if has_char(s, at, ')') && at + 1 == s.len() {
                Some(Color::spec_from_rgba8(r, g, b, 255))
            } else {
                None
            },
            None => None,
        }
    } else {
        None
    }
}

/// The colour written by `rgba(r,g,b,a)`.
pub open spec fn parse_rgba(s: Seq<char>) -> Option<Color> {
    if s.len() >= 5 && s.subrange(0, 5) == seq!['r', 'g', 'b', 'a', '('] {
        match scan_channels(s, 5) {
            Some((r, g, b, at)) => if has_char(s, at, ',') {
                match scan_alpha(s, at + 1) {
                    Some((a, end)) => if has_char(s, end, ')') && end + 1 == s.len() {
                        Some(
                            Color {
                                red: unit_from_byte(r),
                                green: unit_from_byte(g),
                                blue: unit_from_byte(b),
                                alpha: a,
                            },
                        )
                    } else {
                        None
                    },
                    None => None,
                }
            } else {
                None
            },
            None => None,
        }
    } else {
        None
    }
}

/// The colour that a colour string stands for.
pub open spec fn spec_parse_color(text: Seq<char>) -> Color {
    let s = named_color(text);
    match parse_hex(s) {
        Some(c) => c,
        None => match parse_rgb(s) {
            Some(c) => c,
            None => match parse_rgba(s) {
                Some(c) => c,
                None => Color::spec_opaque_black(),
            },
        },
    }
}

/// The eight-digit hexadecimal literal for four bytes.
pub open spec fn hex_text(b: (u8, u8, u8, u8)) -> Seq<char> {
    seq![
        '#',
        hex_char(b.0 / 16),
        hex_char(b.0 % 16),
        hex_char(b.1 / 16),
        hex_char(b.1 % 16),
        hex_char(b.2 / 16),
        hex_char(b.2 % 16),
        hex_char(b.3 / 16),
        hex_char(b.3 % 16),
    ]
}

/// The canonical text of a colour: `#rrggbbaa`, each channel rounded to the
/// nearest byte.
pub open spec fn spec_unparse_color(c: Color) -> Seq<char> {
    hex_text(c.spec_bytes())
}

fn substitute_named(text: Vec<char>) -> (s: Vec<char>)
    ensures
        s@ == named_color(text@),
{
    if spells(&text, "none") {
        to_chars("#0000")
    } else if spells(&text, "transparent") {
        to_chars("#0000")
    } else if spells(&text, "black") {
        to_chars("#000")
    } else if spells(&text, "white") {
        to_chars("#fff")
    } else if spells(&text, "red") {
        to_chars("#f00")
    } else if spells(&text, "green") {
        to_chars("#008000")
    } else if spells(&text, "blue") {
        to_chars("#00f")
    } else if spells(&text, "purple") {
        to_chars("#800080")
    } else if spells(&text, "darkturquoise") {
        to_chars("#00ced1")
    } else if spells(&text, "tomato") {
        to_chars("#ff6347")
    } else if spells(&text, "lawngreen") {
        to_chars("#7cfc00")
    } else if spells(&text, "orange") {
        to_chars("#ffa500")
    } else if spells(&text, "brown") {
        to_chars("#a52a2a")
    } else if spells(&text, "lightgreen") {
        to_chars("#90ee90")
    } else {
        text
    }
}

fn read_hex_single(c: char) -> (v: Option<u8>)
    ensures
        v == hex_single(c),
{
    match hex_digit(c) {
        Some(d) => Some(d * 17),
        None => None,
    }
}

fn read_hex_pair(high: char, low: char) -> (v: Option<u8>)
    ensures
        v == hex_pair(high, low),
{
    match (hex_digit(high), hex_digit(low)) {
        (Some(h), Some(l)) => Some(h * 16 + l),
        _ => None,
    }
}

fn read_hex(s: &Vec<char>) -> (c: Option<Color>)
    ensures
        c == parse_hex(s@),
        c matches Some(color) ==> color.wf(),
{
    let n = s.len();
    if n == 4 && s[0] == '#' {
        match (read_hex_single(s[1]), read_hex_single(s[2]), read_hex_single(s[3])) {
            (Some(r), Some(g), Some(b)) => Some(Color::from_rgba8(r, g, b, 255)),
            _ => None,
        }
    } else if n == 5 && s[0] == '#' {
        match (
            read_hex_single(s[1]),
            read_hex_single(s[2]),
            read_hex_single(s[3]),
            read_hex_single(s[4]),
        ) {
            (Some(r), Some(g), Some(b), Some(a)) => Some(Color::from_rgba8(r, g, b, a)),
            _ => None,
        }
    } else if n == 7 && s[0] == '#' {
        match (read_hex_pair(s[1], s[2]), read_hex_pair(s[3], s[4]), read_hex_pair(s[5], s[6])) {
            (Some(r), Some(g), Some(b)) => Some(Color::from_rgba8(r, g, b, 255)),
            _ => None,
        }
    } else if n == 9 && s[0] == '#' {
        match (
            read_hex_pair(s[1], s[2]),
            read_hex_pair(s[3], s[4]),
            read_hex_pair(s[5], s[6]),
            read_hex_pair(s[7], s[8]),
        ) {
            (Some(r), Some(g), Some(b), Some(a)) => Some(Color::from_rgba8(r, g, b, a)),
            _ => None,
        }
    } else {
        None
    }
}

fn read_channel(s: &Vec<char>, from: usize) -> (r: Option<(u8, usize)>)
    requires
        from <= s.len(),
    ensures
        r is Some <==> scan_channel(s@, from as int) is Some,
        r matches Some(found) ==> scan_channel(s@, from as int) == Some((found.0, found.1 as int))
            && found.1 <= s.len(),
{
    let start = skip_spaces(s, from);
    let (end, value) = scan_digits(s, start, 256);
    if end > start && value <= 255 {
        let next = skip_spaces(s, end);
        Some((value as u8, next))
    } else {
        None
    }
}

fn read_alpha(s: &Vec<char>, from: usize) -> (r: Option<(Fixed, usize)>)
    requires
        from <= s.len(),
    ensures
        r is Some <==> scan_alpha(s@, from as int) is Some,
        r matches Some(found) ==> scan_alpha(s@, from as int) == Some((found.0, found.1 as int))
            && found.1 <= s.len() && 0 <= found.0.raw <= SCALE,
{
    let start = skip_spaces(s, from);
    let (whole_end, whole) = scan_digits(s, start, 10_000_000_000);
    let has_point = whole_end < s.len() && s[whole_end] == '.';
    let mut end = whole_end;
    let mut fraction: u64 = 0;
    if has_point {
        let (e, f) = scan_fraction(s, whole_end + 1);
        end = e;
        fraction = f;
    }
    let ghost fraction_digits = if has_point {
        s@.subrange(whole_end + 1, end as int)
    } else {
        Seq::<char>::empty()
    };
    let value = compose_decimal(whole, fraction);
    proof {
        let digits = digits_value(s@.subrange(start as int, whole_end as int));
        assert(crate::scan::fraction_value(Seq::<char>::empty()) == 0);
        assert(crate::scan::fraction_value(fraction_digits) == fraction);
        if digits >= 10_000_000_000 {
            assert(digits * SCALE + fraction >= 10_000_000_000 * SCALE) by (nonlinear_arith)
                requires
                    digits >= 10_000_000_000,
                    fraction >= 0,
            ;
        }
        assert(value == decimal_value(
            s@.subrange(start as int, whole_end as int),
            fraction_digits,
        ));
    }
    if (whole_end > start || (has_point && end > whole_end + 1)) && value.raw <= SCALE {
        let next = skip_spaces(s, end);
        Some((value, next))
    } else {
        None
    }
}

fn read_channels(s: &Vec<char>, from: usize) -> (r: Option<(u8, u8, u8, usize)>)
    requires
        from <= s.len(),
    ensures
        r is Some <==> scan_channels(s@, from as int) is Some,
        r matches Some(found) ==> scan_channels(s@, from as int) == Some(
            (found.0, found.1, found.2, found.3 as int),
        ) && found.3 <= s.len(),
{
    match read_channel(s, from) {
        Some((r, after_r)) => {
            if after_r < s.len() && s[after_r] == ',' {
                match read_channel(s, after_r + 1) {
                    Some((g, after_g)) => {
                        if after_g < s.len() && s[after_g] == ',' {
                            match read_channel(s, after_g + 1) {
                                Some((b, after_b)) => Some((r, g, b, after_b)),
                                None => None,
                            }
                        } else {
                            None
                        }
                    },
                    None => None,
                }
            } else {
                None
            }
        },
        None => None,
    }
}

fn read_rgb(s: &Vec<char>) -> (c: Option<Color>)
    ensures
        c == parse_rgb(s@),
        c matches Some(color) ==> color.wf(),
{
    if s.len() >= 4 && s[0] == 'r' && s[1] == 'g' && s[2] == 'b' && s[3] == '(' {
        assert(s@.subrange(0, 4) =~= seq!['r', 'g', 'b', '(']);
        match read_channels(s, 4) {
            Some((r, g, b, at)) => {
                if at < s.len() && s[at] == ')' && at + 1 == s.len() {
                    Some(Color::from_rgba8(r, g, b, 255))
                } else {
                    None
                }
            },
            None => None,
        }
    } else {
        proof {
            if s.len() >= 4 {
                let head = s@.subrange(0, 4);
                assert(head[0] == s@[0] && head[1] == s@[1] && head[2] == s@[2] && head[3]
                    == s@[3]);
            }
        }
        None
    }
}

fn read_rgba(s: &Vec<char>) -> (c: Option<Color>)
    ensures
        c == parse_rgba(s@),
        c matches Some(color) ==> color.wf(),
{
    if s.len() >= 5 && s[0] == 'r' && s[1] == 'g' && s[2] == 'b' && s[3] == 'a' && s[4] == '(' {
        assert(s@.subrange(0, 5) =~= seq!['r', 'g', 'b', 'a', '(']);
        match read_channels(s, 5) {
            Some((r, g, b, at)) => {
                if at < s.len() && s[at] == ',' {
                    match read_alpha(s, at + 1) {
                        Some((a, end)) => {
                            if end < s.len() && s[end] == ')' && end + 1 == s.len() {
                                Some(
                                    Color {
                                        red: channel_from_byte(r),
                                        green: channel_from_byte(g),
                                        blue: channel_from_byte(b),
                                        alpha: a,
                                    },
                                )
                            } else {
                                None
                            }
                        },
                        None => None,
                    }
                } else {
                    None
                }
            },
            None => None,
        }
    } else {
        proof {
            if s.len() >= 5 {
                let head = s@.subrange(0, 5);
                assert(head[0] == s@[0] && head[1] == s@[1] && head[2] == s@[2] && head[3]
                    == s@[3] && head[4] == s@[4]);
            }
        }
        None
    }
}

/// Reads a colour string. Text that is no colour reads as opaque black.
pub fn parse_color(text: &str) -> (c: Color)
    ensures
        c == spec_parse_color(text@),
        c.wf(),
{
    let s = substitute_named(to_chars(text));
    match read_hex(&s) {
        Some(c) => c,
        None => match read_rgb(&s) {
            Some(c) => c,
            None => match read_rgba(&s) {
                Some(c) => c,
                None => Color::opaque_black(),
            },
        },
    }
}

fn hex_digit_char(n: u8) -> (c: char)
    requires
        n < 16,
    ensures
        c == hex_char(n),
{
    if n == 0 {
        '0'
    } else if n == 1 {
        '1'
    } else if n == 2 {
        '2'
    } else if n == 3 {
        '3'
    } else if n == 4 {
        '4'
    } else if n == 5 {
        '5'
    } else if n == 6 {
        '6'
    } else if n == 7 {
        '7'
    } else if n == 8 {
        '8'
    } else if n == 9 {
        '9'
    } else if n == 10 {
        'a'
    } else if n == 11 {
        'b'
    } else if n == 12 {
        'c'
    } else if n == 13 {
        'd'
    } else if n == 14 {
        'e'
    } else {
        'f'
    }
}

/// Writes a colour as `#rrggbbaa`.
pub fn unparse_color(c: &Color) -> (text: String)
    ensures
        text@ == spec_unparse_color(*c),
{
    let (r, g, b, a) = c.bytes();
    let chars = vec![
        '#',
        hex_digit_char(r / 16),
        hex_digit_char(r % 16),
        hex_digit_char(g / 16),
        hex_digit_char(g % 16),
        hex_digit_char(b / 16),
        hex_digit_char(b % 16),
        hex_digit_char(a / 16),
        hex_digit_char(a % 16),
    ];
    assert(chars@ =~= spec_unparse_color(*c));
    string_from_chars(chars)
}

proof fn lemma_hex_char_reads_back(n: u8)
    requires
        n < 16,
    ensures
        hex_value(hex_char(n)) == Some(n),
{
}

proof fn lemma_hex_pair_reads_back(b: u8)
    ensures
        hex_pair(hex_char(b / 16), hex_char(b % 16)) == Some(b),
{
    lemma_hex_char_reads_back(b / 16);
    lemma_hex_char_reads_back(b % 16);
}

/// No colour name starts with `#`.
#[verifier::rlimit(40)]
proof fn lemma_hash_is_no_name(text: Seq<char>)
    requires
        text.len() > 0,
        text[0] == '#',
    ensures
        named_color(text) == text,
{
    reveal_strlit("none");
    reveal_strlit("transparent");
    reveal_strlit("black");
    reveal_strlit("white");
    reveal_strlit("red");
    reveal_strlit("green");
    reveal_strlit("blue");
    reveal_strlit("purple");
    reveal_strlit("darkturquoise");
    reveal_strlit("tomato");
    reveal_strlit("lawngreen");
    reveal_strlit("orange");
    reveal_strlit("brown");
    reveal_strlit("lightgreen");
}

/// The canonical text of any colour reads back as the colour of its four
/// bytes.
#[verifier::rlimit(40)]
pub proof fn lemma_canonical_text_reads_back(c: Color)
    ensures
        spec_parse_color(spec_unparse_color(c)) == Color::spec_from_rgba8(
            c.spec_bytes().0,
            c.spec_bytes().1,
            c.spec_bytes().2,
            c.spec_bytes().3,
        ),
{
    let b = c.spec_bytes();
    let text = spec_unparse_color(c);
    lemma_hash_is_no_name(text);
    lemma_hex_pair_reads_back(b.0);
    lemma_hex_pair_reads_back(b.1);
    lemma_hex_pair_reads_back(b.2);
    lemma_hex_pair_reads_back(b.3);
}

/// Writing a colour, reading the text and writing the result gives the
/// first text again: reading is inverse to writing up to the rounding of
/// each channel to a byte.
pub proof fn lemma_unparse_parse_unparse(c: Color)
    ensures
        spec_unparse_color(spec_parse_color(spec_unparse_color(c))) == spec_unparse_color(c),
{
    let b = c.spec_bytes();
    lemma_canonical_text_reads_back(c);
    lemma_byte_round_trip(b.0);
    lemma_byte_round_trip(b.1);
    lemma_byte_round_trip(b.2);
    lemma_byte_round_trip(b.3);
}

/// A colour made of four bytes is read back unchanged from its canonical
/// text.
pub proof fn lemma_byte_color_survives_writing(r: u8, g: u8, b: u8, a: u8)
    ensures
        spec_parse_color(spec_unparse_color(Color::spec_from_rgba8(r, g, b, a)))
            == Color::spec_from_rgba8(r, g, b, a),
{
    let c = Color::spec_from_rgba8(r, g, b, a);
    lemma_byte_round_trip(r);
    lemma_byte_round_trip(g);
    lemma_byte_round_trip(b);
    lemma_byte_round_trip(a);
    assert(c.spec_bytes() == (r, g, b, a));
    lemma_canonical_text_reads_back(c);
}

/// A colour that a hexadecimal literal writes is read back unchanged from
/// its canonical text: for such colours reading is the exact inverse of
/// writing.
#[verifier::rlimit(40)]
pub proof fn lemma_hex_color_survives_writing(literal: Seq<char>)
    requires
        parse_hex(literal) is Some,
    ensures
        spec_parse_color(spec_unparse_color(parse_hex(literal)->0)) == parse_hex(literal)->0,
{
    if literal.len() == 4 {
        let r = hex_single(literal[1])->0;
        let g = hex_single(literal[2])->0;
        let b = hex_single(literal[3])->0;
        assert(parse_hex(literal) == Some(Color::spec_from_rgba8(r, g, b, 255)));
        lemma_byte_color_survives_writing(r, g, b, 255);
    } else if literal.len() == 5 {
        let r = hex_single(literal[1])->0;
        let g = hex_single(literal[2])->0;
        let b = hex_single(literal[3])->0;
        let a = hex_single(literal[4])->0;
        assert(parse_hex(literal) == Some(Color::spec_from_rgba8(r, g, b, a)));
        lemma_byte_color_survives_writing(r, g, b, a);
    } else if literal.len() == 7 {
        let r = hex_pair(literal[1], literal[2])->0;
        let g = hex_pair(literal[3], literal[4])->0;
        let b = hex_pair(literal[5], literal[6])->0;
        assert(parse_hex(literal) == Some(Color::spec_from_rgba8(r, g, b, 255)));
        lemma_byte_color_survives_writing(r, g, b, 255);
    } else {
        let r = hex_pair(literal[1], literal[2])->0;
        let g = hex_pair(literal[3], literal[4])->0;
        let b = hex_pair(literal[5], literal[6])->0;
        let a = hex_pair(literal[7], literal[8])->0;
        assert(parse_hex(literal) == Some(Color::spec_from_rgba8(r, g, b, a)));
        lemma_byte_color_survives_writing(r, g, b, a);
    }
}

} // verus!
