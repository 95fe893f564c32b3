//! Font styles and the font-string grammar.
//!
//! A font string is a list of terms separated by white space. A run inside
//! double quotes belongs to its term, so a family name may hold spaces. The
//! terms `bold` and `italic` set the flags, a number followed by `pt` or `px`
//! sets the size, a bare number is skipped, and every other term names font
//! families, separated by commas.

use vstd::prelude::*;
use crate::fixed::Fixed;
use crate::scan::{
    copy_range, decimal_value, digits_end, fixed_text, fraction_value, has_char, is_space,
    is_space_char, push_chars, push_fixed_text, push_str, scan_digits, scan_fraction, spells,
    string_from_chars, to_chars, compose_decimal, digits_value,
};

verus! {

/// A font style as the contracts see it.
pub struct FontStyle {
    /// Family names, most preferred first.
    pub family: Seq<Seq<char>>,
    /// Size in points.
    pub size: Fixed,
    pub bold: bool,
    pub italic: bool,
}

/// A font style: families, size in points, and the two flags.
#[derive(Clone, Debug, PartialEq, Eq)]
pub struct FontInfo {
    pub family: Vec<String>,
    pub size: Fixed,
    pub bold: bool,
    pub italic: bool,
}

impl View for FontInfo {
    type V = FontStyle;

    open spec fn view(&self) -> FontStyle {
        FontStyle {
            family: self.family@.map_values(|s: String| s@),
            size: self.size,
            bold: self.bold,
            italic: self.italic,
        }
    }
}

/// The style of a context that has not been given one: 30 points, upright,
/// regular weight, no family.
pub open spec fn default_style() -> FontStyle {
    FontStyle { family: Seq::empty(), size: Fixed::spec_from_int(30), bold: false, italic: false }
}

/// Where the first double quote at or after `from` stands; the length of `s`
/// if there is none.
pub open spec fn quote_at(s: Seq<char>, from: int) -> int
    decreases s.len() - from,
{
    if 0 <= from < s.len() && s[from] != '"' {
        quote_at(s, from + 1)
    } else {
        from
    }
}

/// Where the term that starts at `from` ends. A term runs over characters
/// that are neither white space nor a double quote, and over quoted runs
/// with both their quotes. The result is `from` where no term can start.
pub open spec fn term_end(s: Seq<char>, from: int) -> int
    decreases s.len() - from,
{
    if from < 0 || from >= s.len() {
        from
    } else if s[from] == '"' {
        let close = quote_at(s, from + 1);
        if from < close < s.len() {
            term_end(s, close + 1)
        } else {
            from
        }
    } else if is_space(s[from]) {
        from
    } else {
        term_end(s, from + 1)
    }
}

/// The terms of `s` from `from` on, in order.
pub open spec fn terms(s: Seq<char>, from: int) -> Seq<Seq<char>>
    decreases s.len() - from,
{
    if from < 0 || from >= s.len() {
        Seq::empty()
    } else {
        let end = term_end(s, from);
        if from < end <= s.len() {
            seq![s.subrange(from, end)] + terms(s, end)
        } else {
            terms(s, from + 1)
        }
    }
}

/// Where the number at the start of a term ends: digits, then optionally a
/// point and more digits.
pub open spec fn number_end(t: Seq<char>) -> int {
    let whole_end = digits_end(t, 0);
    if has_char(t, whole_end, '.') {
        digits_end(t, whole_end + 1)
    } else {
        whole_end
    }
}

/// The number at the start of a term.
pub open spec fn number_value(t: Seq<char>) -> Fixed {
    let whole_end = digits_end(t, 0);
    let fraction = if has_char(t, whole_end, '.') {
        t.subrange(whole_end + 1, number_end(t))
    } else {
        Seq::<char>::empty()
    };
    decimal_value(t.subrange(0, whole_end), fraction)
}

/// Three quarters of a number that is not negative, rounded down.
pub open spec fn three_quarters(v: Fixed) -> Fixed {
    Fixed { raw: ((v.raw * 3) / 4) as i64 }
}

/// The size in points that a term sets: a number followed by `pt` is that
/// many points, a number followed by `px` is three quarters as many.
pub open spec fn term_size(t: Seq<char>) -> Option<Fixed> {
    let end = number_end(t);
    if digits_end(t, 0) > 0 && has_char(t, end, 'p') && has_char(t, end + 1, 't') {
        Some(number_value(t))
    } else if digits_end(t, 0) > 0 && has_char(t, end, 'p') && has_char(t, end + 1, 'x') {
        Some(three_quarters(number_value(t)))
    } else {
        None
    }
}

/// Whether a term is a number and nothing else.
pub open spec fn is_bare_number(t: Seq<char>) -> bool {
    digits_end(t, 0) > 0 && number_end(t) == t.len()
}

/// The family names in a term, read from `at` on with `current` already
/// collected. Commas outside quotes separate names, quotes are dropped, and
/// empty names are skipped.
pub open spec fn family_names(t: Seq<char>, at: int, quoted: bool, current: Seq<char>) -> Seq<
    Seq<char>,
>
    decreases t.len() - at,
{
    let done = if current.len() > 0 {
        seq![current]
    } else {
        Seq::empty()
    };
    if at < 0 || at >= t.len() {
        done
    } else if t[at] == '"' {
        family_names(t, at + 1, !quoted, current)
    } else if t[at] == ',' && !quoted {
        done + family_names(t, at + 1, false, Seq::empty())
    } else {
        family_names(t, at + 1, quoted, current.push(t[at]))
    }
}

/// The style after one more term.
pub open spec fn apply_term(style: FontStyle, t: Seq<char>) -> FontStyle {
    if t == "bold"@ {
        FontStyle { bold: true, ..style }
    } else if t == "italic"@ {
        FontStyle { italic: true, ..style }
    } else {
        match term_size(t) {
            Some(size) => FontStyle { size: size, ..style },
            None => if is_bare_number(t) {
                style
            } else {
                FontStyle {
                    family: style.family + family_names(t, 0, false, Seq::empty()),
                    ..style
                }
            },
        }
    }
}

/// The style after a list of terms, taken in order.
pub open spec fn apply_terms(style: FontStyle, ts: Seq<Seq<char>>) -> FontStyle
    decreases ts.len(),
{
    if ts.len() == 0 {
        style
    } else {
        apply_terms(apply_term(style, ts[0]), ts.drop_first())
    }
}

/// The style that a font string stands for.
pub open spec fn spec_parse_font(text: Seq<char>) -> FontStyle {
    apply_terms(default_style(), terms(text, 0))
}

/// A family name as it is written out: in double quotes if it holds a
/// space.
pub open spec fn family_text(name: Seq<char>) -> Seq<char> {
    if name.contains(' ') {
        seq!['"'] + name + seq!['"']
    } else {
        name
    }
}

/// Family names written out and joined by commas.
pub open spec fn family_list_text(family: Seq<Seq<char>>) -> Seq<char>
    decreases family.len(),
{
    if family.len() == 0 {
        Seq::empty()
    } else if family.len() == 1 {
        family_text(family[0])
    } else {
        family_list_text(family.drop_last()) + seq![','] + family_text(family.last())
    }
}

/// The size term of a style: the size in decimal, then `pt`.
pub open spec fn size_text(size: Fixed) -> Seq<char> {
    fixed_text(size) + seq!['p', 't']
}

/// The canonical text of a style: `bold`, `italic`, the size in points and
/// the family list, each only if present, separated by single spaces.
pub open spec fn spec_unparse_font(style: FontStyle) -> Seq<char> {
    let bold = if style.bold {
        seq!['b', 'o', 'l', 'd', ' ']
    } else {
        Seq::<char>::empty()
    };
    let italic = if style.italic {
        seq!['i', 't', 'a', 'l', 'i', 'c', ' ']
    } else {
        Seq::<char>::empty()
    };
    let family = if style.family.len() > 0 {
        seq![' '] + family_list_text(style.family)
    } else {
        Seq::<char>::empty()
    };
    bold + italic + size_text(style.size) + family
}

impl FontInfo {
    /// The default style.
    pub fn new() -> (info: FontInfo)
        ensures
            info@ == default_style(),
    {
        let info = FontInfo {
            family: Vec::new(),
            size: Fixed::from_int(30),
            bold: false,
            italic: false,
        };
        assert(info@.family =~= Seq::empty());
        info
    }

    /// A copy of this style.
    pub fn duplicate(&self) -> (copy: FontInfo)
        ensures
            copy@ == self@,
    {
        let mut family: Vec<String> = Vec::new();
        let mut i: usize = 0;
        while i < self.family.len()
            invariant
                i <= self.family.len(),
                family@.len() == i,
                forall|k: int| 0 <= k < i ==> family@[k]@ == self.family@[k]@,
            decreases self.family.len() - i,
        {
            family.push(self.family[i].clone());
            i += 1;
        }
        let copy = FontInfo { family, size: self.size, bold: self.bold, italic: self.italic };
        assert(copy@.family =~= self@.family);
        copy
    }
}

fn find_quote(s: &Vec<char>, from: usize) -> (at: usize)
    requires
        from <= s.len(),
    ensures
        at == quote_at(s@, from as int),
        from <= at <= s.len(),
    decreases s.len() - from,
{
    if from < s.len() && s[from] != '"' {
        find_quote(s, from + 1)
    } else {
        from
    }
}

fn find_term_end(s: &Vec<char>, from: usize) -> (end: usize)
    requires
        from <= s.len(),
    ensures
        end == term_end(s@, from as int),
        from <= end <= s.len(),
    decreases s.len() - from,
{
    if from >= s.len() {
        from
    } else if s[from] == '"' {
        let close = find_quote(s, from + 1);
        if close < s.len() {
            find_term_end(s, close + 1)
        } else {
            from
        }
    } else if is_space_char(s[from]) {
        from
    } else {
        find_term_end(s, from + 1)
    }
}

/// Where the number at the start of `t` ends, how many digits stand before
/// the point, and the number.
fn read_number(t: &Vec<char>) -> (r: (usize, usize, Fixed))
    ensures
        r.0 == number_end(t@),
        r.1 == digits_end(t@, 0),
        r.2 == number_value(t@),
        r.0 <= t.len(),
        r.2.raw >= 0,
{
    let (whole_end, whole) = scan_digits(t, 0, 10_000_000_000);
    let has_point = whole_end < t.len() && t[whole_end] == '.';
    let mut end = whole_end;
    let mut fraction: u64 = 0;
    if has_point {
        let (e, f) = scan_fraction(t, whole_end + 1);
        end = e;
        fraction = f;
    }
    let value = compose_decimal(whole, fraction);
    proof {
        let digits = digits_value(t@.subrange(0, whole_end as int));
        assert(fraction_value(Seq::<char>::empty()) == 0);
        if digits >= 10_000_000_000 {
            assert(digits * crate::fixed::SCALE + fraction >= 10_000_000_000
                * crate::fixed::SCALE) by (nonlinear_arith)
                requires
                    digits >= 10_000_000_000,
                    fraction >= 0,
            ;
        }
    }
    (end, whole_end, value)
}

fn scale_three_quarters(v: Fixed) -> (r: Fixed)
    requires
        v.raw >= 0,
    ensures
        r == three_quarters(v),
{
    let wide: u128 = (v.raw as u128) * 3;
    Fixed { raw: (wide / 4) as i64 }
}

/// What a term means for the size, and whether it is a bare number.
fn read_term_size(t: &Vec<char>) -> (r: (Option<Fixed>, bool))
    ensures
        r.0 == term_size(t@),
        r.1 == is_bare_number(t@),
{
    let (end, whole_end, value) = read_number(t);
    let bare = whole_end > 0 && end == t.len();
    if whole_end > 0 && end < t.len() && t[end] == 'p' && end + 1 < t.len() && t[end + 1] == 't' {
        (Some(value), bare)
    } else if whole_end > 0 && end < t.len() && t[end] == 'p' && end + 1 < t.len() && t[end + 1]
        == 'x' {
        (Some(scale_three_quarters(value)), bare)
    } else {
        (None, bare)
    }
}

/// Appends the family names of a term to `family`.
fn push_family_names(t: &Vec<char>, family: &mut Vec<String>)
    ensures
        final(family)@.map_values(|s: String| s@) == old(family)@.map_values(|s: String| s@)
            + family_names(t@, 0, false, Seq::empty()),
{
    let mut at: usize = 0;
    let mut quoted = false;
    let mut current: Vec<char> = Vec::new();
    let ghost view_of = |s: String| s@;
    assert(family@.map_values(view_of) + family_names(t@, 0, false, Seq::empty())
        =~= old(family)@.map_values(view_of) + family_names(t@, 0, false, Seq::empty()));
    while at < t.len()
        invariant
            at <= t.len(),
            view_of == (|s: String| s@),
            family@.map_values(view_of) + family_names(t@, at as int, quoted, current@) == old(
                family,
            )@.map_values(view_of) + family_names(t@, 0, false, Seq::empty()),
        decreases t.len() - at,
    {
        let c = t[at];
        if c == '"' {
            quoted = !quoted;
        } else if c == ',' && !quoted {
            let ghost before = family@.map_values(view_of);
            let ghost rest = family_names(t@, at as int + 1, false, Seq::empty());
            if current.len() > 0 {
                let ghost name = current@;
                let entry = string_from_chars(current);
                family.push(entry);
                assert(family@.map_values(view_of) =~= before.push(name));
                assert(before.push(name) + rest =~= before + (seq![name] + rest));
            } else {
                assert(before + (Seq::<Seq<char>>::empty() + rest) =~= before + rest);
            }
            current = Vec::new();
        } else {
            current.push(c);
        }
        at += 1;
    }
    if current.len() > 0 {
        let ghost before = family@.map_values(view_of);
        let ghost name = current@;
        let entry = string_from_chars(current);
        family.push(entry);
        assert(family@.map_values(view_of) =~= before + seq![name]);
    } else {
        assert(family@.map_values(view_of) + Seq::<Seq<char>>::empty() =~= family@.map_values(
            view_of,
        ));
    }
}

/// Applies one term to a style.
fn apply(info: &mut FontInfo, t: &Vec<char>)
    ensures
        final(info)@ == apply_term(old(info)@, t@),
{
    if spells(t, "bold") {
        info.bold = true;
    } else if spells(t, "italic") {
        info.italic = true;
    } else {
        let (size, bare) = read_term_size(t);
        match size {
            Some(v) => {
                info.size = v;
            },
            None => {
                if !bare {
                    push_family_names(t, &mut info.family);
                }
            },
        }
    }
}

pub(crate) proof fn lemma_apply_first(style: FontStyle, first: Seq<char>, rest: Seq<Seq<char>>)
    ensures
        apply_terms(style, seq![first] + rest) == apply_terms(apply_term(style, first), rest),
{
    let all = seq![first] + rest;
    assert(all[0] == first);
    assert(all.drop_first() =~= rest);
}

/// Reads a font string. Terms that say nothing leave the default in place.
pub fn parse_font(font: &str) -> (info: FontInfo)
    ensures
        info@ == spec_parse_font(font@),
{
    let s = to_chars(font);
    let mut info = FontInfo::new();
    let mut i: usize = 0;
    while i < s.len()
        invariant
            i <= s.len(),
            s@ == font@,
            apply_terms(info@, terms(s@, i as int)) == spec_parse_font(font@),
        decreases s.len() - i,
    {
        let end = find_term_end(&s, i);
        if end > i {
            let term = copy_range(&s, i, end);
            proof {
                lemma_apply_first(info@, term@, terms(s@, end as int));
            }
            apply(&mut info, &term);
            i = end;
        } else {
            i += 1;
        }
    }
    info
}

fn has_space(name: &Vec<char>) -> (found: bool)
    ensures
        found == name@.contains(' '),
{
    let mut i: usize = 0;
    while i < name.len()
        invariant
            i <= name.len(),
            forall|k: int| 0 <= k < i ==> name@[k] != ' ',
        decreases name.len() - i,
    {
        if name[i] == ' ' {
            return true;
        }
        i += 1;
    }
    false
}

fn push_family_text(name: &str, out: &mut Vec<char>)
    ensures
        final(out)@ == old(out)@ + family_text(name@),
{
    let chars = to_chars(name);
    if has_space(&chars) {
        out.push('"');
        push_chars(&chars, out);
        out.push('"');
        assert(final(out)@ =~= old(out)@ + family_text(name@));
    } else {
        push_chars(&chars, out);
    }
}

/// Appends the size term of a style to `out`.
fn push_size_text(size: Fixed, out: &mut Vec<char>)
    ensures
        final(out)@ == old(out)@ + size_text(size),
{
    push_fixed_text(size, out);
    out.push('p');
    out.push('t');
    assert(final(out)@ =~= old(out)@ + size_text(size));
}

/// Writes a style as a font string.
pub fn unparse_font(info: &FontInfo) -> (text: String)
    ensures
        text@ == spec_unparse_font(info@),
{
    let mut out: Vec<char> = Vec::new();
    if info.bold {
        push_str("bold ", &mut out);
    }
    if info.italic {
        push_str("italic ", &mut out);
    }
    proof {
        reveal_strlit("bold ");
        reveal_strlit("italic ");
        assert("bold "@ =~= seq!['b', 'o', 'l', 'd', ' ']);
        assert("italic "@ =~= seq!['i', 't', 'a', 'l', 'i', 'c', ' ']);
    }
    push_size_text(info.size, &mut out);
    let ghost head = out@;
    let ghost family = info@.family;
    if info.family.len() > 0 {
        out.push(' ');
        let mut i: usize = 0;
        while i < info.family.len()
            invariant
                i <= info.family.len(),
                family == info@.family,
                family.len() == info.family.len(),
                out@ == head + seq![' '] + family_list_text(family.take(i as int)),
            decreases info.family.len() - i,
        {
            let ghost before = family.take(i as int);
            let ghost after = family.take(i as int + 1);
            if i > 0 {
                out.push(',');
            }
            push_family_text(info.family[i].as_str(), &mut out);
            proof {
                assert(after.drop_last() =~= before);
                assert(after.last() == family[i as int]);
                assert(family[i as int] == info.family@[i as int]@);
                if i == 0 {
                    assert(family_list_text(before) =~= Seq::<char>::empty());
                }
                assert(out@ =~= head + seq![' '] + family_list_text(after));
            }
            i += 1;
        }
        assert(family.take(family.len() as int) =~= family);
    }
    assert(out@ =~= spec_unparse_font(info@));
    string_from_chars(out)
}

/// A holder of one font style that is read and written as text, for hosts
/// that take font strings apart by setting and reading back a style.
#[derive(Clone, Debug, PartialEq, Eq)]
pub struct SpanFontParser {
    pub font_info: FontInfo,
}

impl SpanFontParser {
    /// A holder with the default style.
    pub fn new() -> (parser: SpanFontParser)
        ensures
            parser.font_info@ == default_style(),
    {
        SpanFontParser { font_info: FontInfo::new() }
    }

    /// The held style as a font string.
    pub fn get_font(&self) -> (text: String)
        ensures
            text@ == spec_unparse_font(self.font_info@),
    {
        unparse_font(&self.font_info)
    }

    /// Replaces the held style by what `font` stands for.
    pub fn set_font(&mut self, font: String)
        ensures
            final(self).font_info@ == spec_parse_font(font@),
    {
        self.font_info = parse_font(font.as_str());
    }

    /// The size term of the held style.
    pub fn get_font_size(&self) -> (text: String)
        ensures
            text@ == size_text(self.font_info@.size),
    {
        let mut out: Vec<char> = Vec::new();
        push_size_text(self.font_info.size, &mut out);
        string_from_chars(out)
    }

    /// Sets the size, in points, and nothing else.
    pub fn set_font_size(&mut self, size: Fixed)
        ensures
            final(self).font_info@ == (FontStyle { size: size, ..old(self).font_info@ }),
    {
        self.font_info.size = size;
    }
}

} // verus!
