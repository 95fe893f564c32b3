//! Reading back what was written: a font string written from a style reads
//! as that style.

use vstd::prelude::*;
use crate::fixed::{Fixed, SCALE};
use crate::font::{
    FontStyle, apply_term, apply_terms, default_style, family_list_text, family_names, family_text,
    is_bare_number, lemma_apply_first, number_end, number_value, quote_at, size_text,
    spec_parse_font, spec_unparse_font, term_end, term_size, terms,
};
use crate::scan::{
    decimal_value, digit_char, digit_value, digits_end, digits_value, fixed_text, fraction_text,
    fraction_value, has_char, is_digit, is_space, lemma_digits_end_step, nat_text, padded_text,
    place_value,
};

verus! {

/// Whether every character of a text is a decimal digit.
pub open spec fn all_digits(t: Seq<char>) -> bool {
    forall|i: int| 0 <= i < t.len() ==> is_digit(#[trigger] t[i])
}

/// Ten to the power of `k`, for `k` up to nine.
spec fn pow10(k: nat) -> nat {
    if k == 0 {
        1
    } else if k == 1 {
        10
    } else if k == 2 {
        100
    } else if k == 3 {
        1_000
    } else if k == 4 {
        10_000
    } else if k == 5 {
        100_000
    } else if k == 6 {
        1_000_000
    } else if k == 7 {
        10_000_000
    } else if k == 8 {
        100_000_000
    } else {
        1_000_000_000
    }
}

proof fn lemma_digit_char(d: nat)
    requires
        d < 10,
    ensures
        is_digit(digit_char(d)),
        digit_value(digit_char(d)) == d,
{
}

/// A number written in decimal is made of digits that write that number.
proof fn lemma_nat_text(n: nat)
    ensures
        nat_text(n).len() >= 1,
        all_digits(nat_text(n)),
        digits_value(nat_text(n)) == n,
    decreases n,
{
    if n < 10 {
        lemma_digit_char(n);
        let t = nat_text(n);
        assert(t.drop_last() =~= Seq::<char>::empty());
        assert(digits_value(t.drop_last()) == 0);
    } else {
        lemma_nat_text(n / 10);
        lemma_digit_char(n % 10);
        let before = nat_text(n / 10);
        let t = nat_text(n);
        assert(t.drop_last() =~= before);
        assert(t.last() == digit_char(n % 10));
    }
}

/// The last digits of a number are its last digit and the last digits of
/// the number before that digit.
proof fn lemma_last_digits(n: nat, m: nat)
    requires
        m > 0,
    ensures
        n % (10 * m) == 10 * ((n / 10) % m) + n % 10,
{
    let q = n / 10;
    let r = n % 10;
    let a = q / m;
    let b = q % m;
    assert(q == m * a + b) by {
        vstd::arithmetic::div_mod::lemma_fundamental_div_mod(q as int, m as int);
    }
    assert(n == (10 * m) * a + (10 * b + r)) by (nonlinear_arith)
        requires
            n == 10 * q + r,
            q == m * a + b,
    ;
    vstd::arithmetic::div_mod::lemma_fundamental_div_mod_converse(
        n as int,
        (10 * m) as int,
        a as int,
        (10 * b + r) as int,
    );
}

/// The last digits of a number, written in `places` places after the
/// decimal point, are worth those digits in units of the last place.
proof fn lemma_padded_text(n: nat, places: nat)
    requires
        places <= 9,
    ensures
        padded_text(n, places).len() == places,
        all_digits(padded_text(n, places)),
        fraction_value(padded_text(n, places)) == (n % pow10(places)) * pow10(
            (9 - places) as nat,
        ),
    decreases places,
{
    if places > 0 {
        let before = padded_text(n / 10, (places - 1) as nat);
        let t = padded_text(n, places);
        lemma_padded_text(n / 10, (places - 1) as nat);
        lemma_digit_char(n % 10);
        assert(t.drop_last() =~= before);
        assert(t.last() == digit_char(n % 10));
        assert(fraction_value(t) == fraction_value(before) + (n % 10) * place_value(places - 1));
        let m = pow10((places - 1) as nat);
        let unit = pow10((9 - places) as nat);
        let high = (n / 10) % m;
        lemma_last_digits(n, m);
        assert(pow10(places) == 10 * m);
        assert(place_value(places - 1) == unit);
        assert(pow10((10 - places) as nat) == 10 * unit);
        assert(fraction_value(before) == high * (10 * unit));
        assert((10 * high + n % 10) * unit == high * (10 * unit) + (n % 10) * unit)
            by (nonlinear_arith);
    }
}

/// The digits of a fraction, written without the zeros at the end, are
/// worth the fraction.
proof fn lemma_fraction_text(f: nat, places: nat)
    requires
        places <= 9,
        0 < f < pow10(places),
    ensures
        1 <= fraction_text(f, places).len() <= places,
        all_digits(fraction_text(f, places)),
        fraction_value(fraction_text(f, places)) == f * pow10((9 - places) as nat),
    decreases places,
{
    let unit = pow10((9 - places) as nat);
    if f % 10 == 0 {
        assert(pow10(places) == 10 * pow10((places - 1) as nat));
        lemma_fraction_text(f / 10, (places - 1) as nat);
        assert(pow10((10 - places) as nat) == 10 * unit);
        assert((f / 10) * (10 * unit) == f * unit) by (nonlinear_arith)
            requires
                f == 10 * (f / 10),
        ;
    } else {
        lemma_padded_text(f, places);
        assert(f % pow10(places) == f) by {
            vstd::arithmetic::div_mod::lemma_small_mod(f, pow10(places));
        }
    }
}

/// Where a run of digits ends when what follows is no digit.
proof fn lemma_digits_run(t: Seq<char>, from: int, to: int)
    requires
        0 <= from <= to <= t.len(),
        forall|i: int| from <= i < to ==> is_digit(#[trigger] t[i]),
        to < t.len() ==> !is_digit(t[to]),
    ensures
        digits_end(t, from) == to,
{
    lemma_digits_end_step(t, from, to);
}

/// A number that is not negative, written in decimal and followed by a
/// letter, is read back as the same number, and nothing more is read.
pub proof fn lemma_fixed_text_reads_back(v: Fixed, tail: Seq<char>)
    requires
        v.raw >= 0,
        tail.len() > 0,
        !is_digit(tail[0]),
        tail[0] != '.',
    ensures
        digits_end(fixed_text(v) + tail, 0) > 0,
        number_end(fixed_text(v) + tail) == fixed_text(v).len(),
        number_value(fixed_text(v) + tail) == v,
{
    let whole: nat = (v.raw as nat) / (SCALE as nat);
    let fraction: nat = (v.raw as nat) % (SCALE as nat);
    let n = nat_text(whole);
    let t = fixed_text(v) + tail;
    lemma_nat_text(whole);
    assert(forall|i: int| 0 <= i < n.len() ==> t[i] == n[i]);
    if fraction == 0 {
        assert(fixed_text(v) =~= n);
        assert(t[n.len() as int] == tail[0]);
        lemma_digits_run(t, 0, n.len() as int);
        assert(t.subrange(0, n.len() as int) =~= n);
        assert(fraction_value(Seq::<char>::empty()) == 0);
    } else {
        let f = fraction_text(fraction, 9);
        lemma_fraction_text(fraction, 9);
        assert(fixed_text(v) =~= n + seq!['.'] + f);
        assert(t[n.len() as int] == '.');
        lemma_digits_run(t, 0, n.len() as int);
        let start = n.len() + 1;
        let end = n.len() + 1 + f.len();
        assert(forall|i: int| start <= i < end ==> t[i] == f[i - start]);
        assert(t[end as int] == tail[0]);
        lemma_digits_run(t, start as int, end as int);
        assert(t.subrange(0, n.len() as int) =~= n);
        assert(t.subrange(start as int, end as int) =~= f);
    }
}

/// Whether a character can stand in a term outside quotes.
pub open spec fn is_plain(c: char) -> bool {
    !is_space(c) && c != '"'
}

proof fn lemma_quote_at_shift(a: Seq<char>, b: Seq<char>, i: int)
    requires
        0 <= i <= b.len(),
    ensures
        quote_at(a + b, a.len() + i) == a.len() + quote_at(b, i),
    decreases b.len() - i,
{
    let s = a + b;
    if i < b.len() {
        assert(s[a.len() + i] == b[i]);
        if b[i] != '"' {
            lemma_quote_at_shift(a, b, i + 1);
        }
    }
}

proof fn lemma_quote_at_bounds(s: Seq<char>, from: int)
    requires
        0 <= from <= s.len(),
    ensures
        from <= quote_at(s, from) <= s.len(),
    decreases s.len() - from,
{
    if from < s.len() && s[from] != '"' {
        lemma_quote_at_bounds(s, from + 1);
    }
}

proof fn lemma_term_end_bounds(s: Seq<char>, from: int)
    requires
        0 <= from <= s.len(),
    ensures
        from <= term_end(s, from) <= s.len(),
    decreases s.len() - from,
{
    if from < s.len() {
        if s[from] == '"' {
            let close = quote_at(s, from + 1);
            lemma_quote_at_bounds(s, from + 1);
            if from < close < s.len() {
                lemma_term_end_bounds(s, close + 1);
            }
        } else if !is_space(s[from]) {
            lemma_term_end_bounds(s, from + 1);
        }
    }
}

/// Where a term ends does not depend on what stands before it.
proof fn lemma_term_end_shift(a: Seq<char>, b: Seq<char>, i: int)
    requires
        0 <= i <= b.len(),
    ensures
        term_end(a + b, a.len() + i) == a.len() + term_end(b, i),
    decreases b.len() - i,
{
    let s = a + b;
    if i < b.len() {
        assert(s[a.len() + i] == b[i]);
        if b[i] == '"' {
            lemma_quote_at_shift(a, b, i + 1);
            lemma_quote_at_bounds(b, i + 1);
            let close = quote_at(b, i + 1);
            if i < close < b.len() {
                lemma_term_end_shift(a, b, close + 1);
            }
        } else if !is_space(b[i]) {
            lemma_term_end_shift(a, b, i + 1);
        }
    }
}

/// The terms of a text do not depend on what stands before them.
proof fn lemma_terms_shift(a: Seq<char>, b: Seq<char>, i: int)
    requires
        0 <= i <= b.len(),
    ensures
        terms(a + b, a.len() + i) == terms(b, i),
    decreases b.len() - i,
{
    let s = a + b;
    if i < b.len() {
        lemma_term_end_shift(a, b, i);
        lemma_term_end_bounds(b, i);
        let end = term_end(b, i);
        if i < end {
            lemma_terms_shift(a, b, end);
            assert(s.subrange(a.len() + i, a.len() + end) =~= b.subrange(i, end));
        } else {
            lemma_terms_shift(a, b, i + 1);
        }
    }
}

/// A term runs on over characters that can stand outside quotes.
proof fn lemma_plain_run(s: Seq<char>, from: int, to: int)
    requires
        0 <= from <= to <= s.len(),
        forall|i: int| from <= i < to ==> is_plain(#[trigger] s[i]),
    ensures
        term_end(s, from) == term_end(s, to),
    decreases to - from,
{
    if from < to {
        assert(is_plain(s[from]));
        lemma_plain_run(s, from + 1, to);
    }
}

/// A term runs on over a quoted run.
proof fn lemma_quoted_run(s: Seq<char>, from: int, close: int)
    requires
        0 <= from < close < s.len(),
        s[from] == '"',
        s[close] == '"',
        forall|i: int| from < i < close ==> #[trigger] s[i] != '"',
    ensures
        term_end(s, from) == term_end(s, close + 1),
{
    lemma_quote_found(s, from + 1, close);
}

proof fn lemma_quote_found(s: Seq<char>, from: int, close: int)
    requires
        0 <= from <= close < s.len(),
        s[close] == '"',
        forall|i: int| from <= i < close ==> #[trigger] s[i] != '"',
    ensures
        quote_at(s, from) == close,
    decreases close - from,
{
    if from < close {
        assert(s[from] != '"');
        lemma_quote_found(s, from + 1, close);
    }
}

/// A word of plain characters, followed by a space and more text, is the
/// first term of the whole, and the terms of the rest follow.
proof fn lemma_word_then_rest(word: Seq<char>, rest: Seq<char>)
    requires
        word.len() > 0,
        forall|i: int| 0 <= i < word.len() ==> is_plain(#[trigger] word[i]),
    ensures
        terms(word + seq![' '] + rest, 0) == seq![word] + terms(rest, 0),
{
    let head = word + seq![' '];
    let s = head + rest;
    let n = word.len() as int;
    assert(forall|i: int| 0 <= i < n ==> s[i] == word[i]);
    assert(s[n] == ' ');
    lemma_plain_run(s, 0, n);
    assert(term_end(s, n) == n);
    assert(s.subrange(0, n) =~= word);
    assert(terms(s, n) == terms(s, n + 1));
    lemma_terms_shift(head, rest, 0);
}

/// A text that is one term from start to end has that term alone.
proof fn lemma_single_term(s: Seq<char>)
    requires
        s.len() > 0,
        term_end(s, 0) == s.len(),
    ensures
        terms(s, 0) == seq![s],
{
    assert(s.subrange(0, s.len() as int) =~= s);
    assert(terms(s, s.len() as int) =~= Seq::<Seq<char>>::empty());
    assert(seq![s] + Seq::<Seq<char>>::empty() =~= seq![s]);
}

/// Whether a family name can be written out and read back: it is not
/// empty, holds no double quote and no comma, and no white space but the
/// plain space.
pub open spec fn plain_name(name: Seq<char>) -> bool {
    &&& name.len() > 0
    &&& forall|i: int|
        0 <= i < name.len() ==> {
            &&& #[trigger] name[i] != '"'
            &&& name[i] != ','
            &&& (is_space(name[i]) ==> name[i] == ' ')
        }
}

/// A term runs on over a family name as it is written out.
proof fn lemma_name_is_a_run(s: Seq<char>, at: int, name: Seq<char>)
    requires
        plain_name(name),
        0 <= at,
        at + family_text(name).len() <= s.len(),
        s.subrange(at, at + family_text(name).len()) == family_text(name),
    ensures
        term_end(s, at) == term_end(s, at + family_text(name).len()),
{
    let written = family_text(name);
    assert forall|j: int| 0 <= j < written.len() implies s[at + j] == #[trigger] written[j] by {
        assert(s.subrange(at, at + written.len())[j] == s[at + j]);
    }
    if name.contains(' ') {
        let close = at + name.len() + 1;
        assert(written[0] == '"');
        assert(written[name.len() as int + 1] == '"');
        assert forall|i: int| at < i < close implies #[trigger] s[i] != '"' by {
            assert(s[i] == written[i - at]);
            assert(written[i - at] == name[i - at - 1]);
        }
        assert(s[at] == written[0]);
        assert(s[close] == written[name.len() as int + 1]);
        lemma_quoted_run(s, at, close);
    } else {
        assert forall|i: int| at <= i < at + name.len() implies is_plain(#[trigger] s[i]) by {
            assert(s[i] == written[i - at]);
            let c = name[i - at];
            if is_space(c) {
                assert(c == ' ');
                assert(name.contains(' '));
            }
        }
        lemma_plain_run(s, at, at + name.len());
    }
}

/// Characters that are pushed onto the name being read are all pushed.
proof fn lemma_push_run(s: Seq<char>, start: int, name: Seq<char>, quoted: bool, i: int)
    requires
        0 <= i <= name.len(),
        0 <= start,
        start + name.len() <= s.len(),
        forall|j: int|
            0 <= j < name.len() ==> {
                &&& s[start + j] == #[trigger] name[j]
                &&& name[j] != '"'
                &&& (quoted || name[j] != ',')
            },
    ensures
        family_names(s, start + i, quoted, name.take(i)) == family_names(
            s,
            start + name.len(),
            quoted,
            name,
        ),
    decreases name.len() - i,
{
    if i < name.len() {
        assert(s[start + i] == name[i]);
        assert(name.take(i).push(name[i]) =~= name.take(i + 1));
        lemma_push_run(s, start, name, quoted, i + 1);
    } else {
        assert(name.take(i) =~= name);
    }
}

/// Reading over a family name as it is written out collects the name.
proof fn lemma_name_is_collected(s: Seq<char>, at: int, name: Seq<char>)
    requires
        plain_name(name),
        0 <= at,
        at + family_text(name).len() <= s.len(),
        s.subrange(at, at + family_text(name).len()) == family_text(name),
    ensures
        family_names(s, at, false, Seq::empty()) == family_names(
            s,
            at + family_text(name).len(),
            false,
            name,
        ),
{
    let written = family_text(name);
    assert forall|j: int| 0 <= j < written.len() implies s[at + j] == #[trigger] written[j] by {
        assert(s.subrange(at, at + written.len())[j] == s[at + j]);
    }
    assert(name.take(0) =~= Seq::<char>::empty());
    if name.contains(' ') {
        assert(s[at] == written[0]);
        assert(s[at + name.len() + 1] == written[name.len() as int + 1]);
        assert forall|j: int| 0 <= j < name.len() implies s[at + 1 + j] == #[trigger] name[j] by {
            assert(s[at + 1 + j] == written[j + 1]);
        }
        lemma_push_run(s, at + 1, name, true, 0);
    } else {
        assert forall|j: int| 0 <= j < name.len() implies s[at + j] == #[trigger] name[j] by {
            assert(s[at + j] == written[j]);
        }
        lemma_push_run(s, at, name, false, 0);
    }
}

/// A list of family names as it is written out, whatever follows it: a
/// term runs on over it, and reading over it gives every name but the last
/// and leaves the last as the name being read.
#[verifier::rlimit(40)]
proof fn lemma_family_list(family: Seq<Seq<char>>, tail: Seq<char>)
    requires
        family.len() > 0,
        forall|i: int| 0 <= i < family.len() ==> plain_name(#[trigger] family[i]),
    ensures
        family_list_text(family).len() > 0,
        term_end(family_list_text(family) + tail, 0) == term_end(
            family_list_text(family) + tail,
            family_list_text(family).len() as int,
        ),
        family_names(family_list_text(family) + tail, 0, false, Seq::empty())
            == family.drop_last() + family_names(
            family_list_text(family) + tail,
            family_list_text(family).len() as int,
            false,
            family.last(),
        ),
    decreases family.len(),
{
    let list = family_list_text(family);
    let s = list + tail;
    let last = family.last();
    let written = family_text(last);
    assert(plain_name(last));
    assert(written.len() > 0);
    if family.len() == 1 {
        assert(list == written);
        assert(s.subrange(0, written.len() as int) =~= written);
        lemma_name_is_a_run(s, 0, last);
        lemma_name_is_collected(s, 0, last);
        assert(family.drop_last() =~= Seq::<Seq<char>>::empty());
        assert(family.drop_last() + family_names(s, list.len() as int, false, last)
            =~= family_names(s, list.len() as int, false, last));
    } else {
        let before = family.drop_last();
        let list_before = family_list_text(before);
        let rest = seq![','] + written + tail;
        assert(list == list_before + seq![','] + written);
        assert(s =~= list_before + rest);
        assert forall|i: int| 0 <= i < before.len() implies plain_name(#[trigger] before[i]) by {
            assert(before[i] == family[i]);
        }
        lemma_family_list(before, rest);
        let comma = list_before.len() as int;
        assert(s[comma] == ',');
        assert(is_plain(s[comma]));
        assert(term_end(s, comma) == term_end(s, comma + 1));
        assert(s.subrange(comma + 1, comma + 1 + written.len()) =~= written);
        lemma_name_is_a_run(s, comma + 1, last);
        lemma_name_is_collected(s, comma + 1, last);
        let previous = before.last();
        assert(plain_name(previous));
        assert(family_names(s, comma, false, previous) == seq![previous] + family_names(
            s,
            comma + 1,
            false,
            Seq::empty(),
        ));
        assert(before.drop_last() + (seq![previous] + family_names(
            s,
            list.len() as int,
            false,
            last,
        )) =~= before + family_names(s, list.len() as int, false, last));
    }
}

/// A list of family names as it is written out is one term, and its names
/// are read back from it.
proof fn lemma_family_term(family: Seq<Seq<char>>)
    requires
        family.len() > 0,
        forall|i: int| 0 <= i < family.len() ==> plain_name(#[trigger] family[i]),
    ensures
        terms(family_list_text(family), 0) == seq![family_list_text(family)],
        family_names(family_list_text(family), 0, false, Seq::empty()) == family,
{
    let list = family_list_text(family);
    lemma_family_list(family, Seq::empty());
    assert(list + Seq::<char>::empty() =~= list);
    lemma_single_term(list);
    assert(plain_name(family.last()));
    assert(family.drop_last() + seq![family.last()] =~= family);
}

/// Whether a style can be written out and read back: the size is not
/// negative, every family name is plain, and the list of family names as it
/// is written out is not a term with a meaning of its own.
pub open spec fn writable(style: FontStyle) -> bool {
    &&& style.size.raw >= 0
    &&& forall|i: int| 0 <= i < style.family.len() ==> plain_name(#[trigger] style.family[i])
    &&& style.family.len() > 0 ==> {
        let list = family_list_text(style.family);
        &&& list != "bold"@
        &&& list != "italic"@
        &&& term_size(list) is None
        &&& !is_bare_number(list)
    }
}

/// The size term of a size that is not negative is a word of plain
/// characters that sets that size.
proof fn lemma_size_term(size: Fixed)
    requires
        size.raw >= 0,
    ensures
        size_text(size).len() > 0,
        forall|i: int| 0 <= i < size_text(size).len() ==> is_plain(#[trigger] size_text(size)[i]),
        size_text(size) != "bold"@,
        size_text(size) != "italic"@,
        term_size(size_text(size)) == Some(size),
{
    let number = fixed_text(size);
    let unit = seq!['p', 't'];
    let term = size_text(size);
    let whole: nat = (size.raw as nat) / (SCALE as nat);
    let fraction: nat = (size.raw as nat) % (SCALE as nat);
    let n = nat_text(whole);
    lemma_nat_text(whole);
    lemma_fixed_text_reads_back(size, unit);
    assert(term[number.len() as int] == 'p');
    assert(term[number.len() as int + 1] == 't');
    if fraction == 0 {
        assert(number =~= n);
    } else {
        let f = fraction_text(fraction, 9);
        lemma_fraction_text(fraction, 9);
        assert(number =~= n + seq!['.'] + f);
        assert(forall|i: int| n.len() < i < number.len() ==> number[i] == f[i - n.len() - 1]);
    }
    assert forall|i: int| 0 <= i < term.len() implies is_plain(#[trigger] term[i]) by {
        if i < number.len() {
            assert(term[i] == number[i]);
            if i < n.len() {
                assert(number[i] == n[i]);
                assert(is_digit(n[i]));
            } else if i > n.len() {
                let f = fraction_text(fraction, 9);
                assert(is_digit(f[i - n.len() - 1]));
            }
        }
    }
    assert(term[0] == n[0]);
    assert(is_digit(n[0]));
    reveal_strlit("bold");
    reveal_strlit("italic");
}

/// A style that can be written out is read back from its canonical text.
#[verifier::rlimit(40)]
pub proof fn lemma_written_font_reads_back(style: FontStyle)
    requires
        writable(style),
    ensures
        spec_parse_font(spec_unparse_font(style)) == style,
{
    reveal_strlit("bold");
    reveal_strlit("italic");
    let bold_word = seq!['b', 'o', 'l', 'd'];
    let italic_word = seq!['i', 't', 'a', 'l', 'i', 'c'];
    assert(bold_word =~= "bold"@);
    assert(italic_word =~= "italic"@);
    let size = size_text(style.size);
    lemma_size_term(style.size);

    // The size term and the family list.
    let end = if style.family.len() > 0 {
        size + seq![' '] + family_list_text(style.family)
    } else {
        size
    };
    let end_terms = if style.family.len() > 0 {
        seq![size, family_list_text(style.family)]
    } else {
        seq![size]
    };
    if style.family.len() > 0 {
        let list = family_list_text(style.family);
        lemma_family_term(style.family);
        lemma_word_then_rest(size, list);
        assert(seq![size] + seq![list] =~= end_terms);
    } else {
        lemma_plain_run(size, 0, size.len() as int);
        lemma_single_term(size);
    }
    assert(terms(end, 0) == end_terms);

    // What the size term and the family list do to a style.
    assert forall|before: FontStyle| before.family.len() == 0 implies #[trigger] apply_terms(
        before,
        end_terms,
    ) == (FontStyle { family: style.family, size: style.size, ..before }) by {
        let after_size = FontStyle { size: style.size, ..before };
        assert(apply_term(before, size) == after_size);
        if style.family.len() > 0 {
            let list = family_list_text(style.family);
            assert(end_terms =~= seq![size] + seq![list]);
            lemma_apply_first(before, size, seq![list]);
            assert(seq![list] =~= seq![list] + Seq::<Seq<char>>::empty());
            lemma_apply_first(after_size, list, Seq::empty());
            assert(before.family + style.family =~= style.family);
            assert(apply_term(after_size, list) == (FontStyle {
                family: style.family,
                ..after_size
            }));
        } else {
            assert(end_terms =~= seq![size] + Seq::<Seq<char>>::empty());
            lemma_apply_first(before, size, Seq::empty());
            assert(style.family =~= before.family);
        }
    }

    // The flags in front of them.
    let italic_part = if style.italic {
        italic_word + seq![' '] + end
    } else {
        end
    };
    let italic_terms = if style.italic {
        seq![italic_word] + end_terms
    } else {
        end_terms
    };
    if style.italic {
        lemma_word_then_rest(italic_word, end);
    }
    assert(terms(italic_part, 0) == italic_terms);
    let text = if style.bold {
        bold_word + seq![' '] + italic_part
    } else {
        italic_part
    };
    let all_terms = if style.bold {
        seq![bold_word] + italic_terms
    } else {
        italic_terms
    };
    if style.bold {
        lemma_word_then_rest(bold_word, italic_part);
    }
    assert(terms(text, 0) == all_terms);
    assert(text =~= spec_unparse_font(style));

    let start = default_style();
    let after_bold = FontStyle { bold: style.bold, ..start };
    let after_italic = FontStyle { italic: style.italic, ..after_bold };
    if style.bold {
        lemma_apply_first(start, bold_word, italic_terms);
        assert(apply_term(start, bold_word) == after_bold);
    }
    assert(apply_terms(start, all_terms) == apply_terms(after_bold, italic_terms));
    if style.italic {
        lemma_apply_first(after_bold, italic_word, end_terms);
        assert(apply_term(after_bold, italic_word) == after_italic);
    }
    assert(apply_terms(after_bold, italic_terms) == apply_terms(after_italic, end_terms));
    assert(after_italic.family.len() == 0);
    assert(apply_terms(after_italic, end_terms) == style);
}

} // verus!
