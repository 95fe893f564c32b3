//! Character classes and the small scanners that the style grammars share.

use vstd::prelude::*;
use crate::fixed::{Fixed, SCALE, clamp};

verus! {

/// Whether `c` is white space: the Unicode property `White_Space`.
pub open spec fn is_space(c: char) -> bool {
    let u = c as u32;
    (0x09 <= u <= 0x0d) || u == 0x20 || u == 0x85 || u == 0xa0 || u == 0x1680 || (0x2000 <= u
        <= 0x200a) || u == 0x2028 || u == 0x2029 || u == 0x202f || u == 0x205f || u == 0x3000
}

/// Whether `c` is one of the ten decimal digits `0` to `9`.
pub open spec fn is_digit(c: char) -> bool {
    '0' <= c <= '9'
}

/// The number a decimal digit stands for.
pub open spec fn digit_value(c: char) -> nat
    recommends
        is_digit(c),
{
    (c as u32 - 0x30) as nat
}

/// The number a hexadecimal digit stands for, in either case.
pub open spec fn hex_value(c: char) -> Option<u8> {
    if '0' <= c <= '9' {
        Some((c as u32 - 0x30) as u8)
    } else if 'a' <= c <= 'f' {
        Some((c as u32 - 0x61 + 10) as u8)
    } else if 'A' <= c <= 'F' {
        Some((c as u32 - 0x41 + 10) as u8)
    } else {
        None
    }
}

/// Whether `s` has the character `c` at `at`.
pub open spec fn has_char(s: Seq<char>, at: int, c: char) -> bool {
    0 <= at < s.len() && s[at] == c
}

/// The character for a number below ten.
pub open spec fn digit_char(d: nat) -> char
    recommends
        d < 10,
{
    if d == 0 {
        '0'
    } else if d == 1 {
        '1'
    } else if d == 2 {
        '2'
    } else if d == 3 {
        '3'
    } else if d == 4 {
        '4'
    } else if d == 5 {
        '5'
    } else if d == 6 {
        '6'
    } else if d == 7 {
        '7'
    } else if d == 8 {
        '8'
    } else {
        '9'
    }
}

/// A natural number in decimal, without leading zeros.
pub open spec fn nat_text(n: nat) -> Seq<char>
    decreases n,
{
    if n < 10 {
        seq![digit_char(n)]
    } else {
        nat_text(n / 10).push(digit_char(n % 10))
    }
}

/// The last `places` decimal digits of `n`, zeros included.
pub open spec fn padded_text(n: nat, places: nat) -> Seq<char>
    decreases places,
{
    if places == 0 {
        Seq::<char>::empty()
    } else {
        padded_text(n / 10, (places - 1) as nat).push(digit_char(n % 10))
    }
}

/// The digits after the decimal point for a fraction of `n` units in
/// `places` places, without the zeros at the end. Empty for zero.
pub open spec fn fraction_text(n: nat, places: nat) -> Seq<char>
    decreases places,
{
    if places == 0 || n == 0 {
        Seq::<char>::empty()
    } else if n % 10 == 0 {
        fraction_text(n / 10, (places - 1) as nat)
    } else {
        padded_text(n, places)
    }
}

/// A fixed-point number in decimal: a minus sign if negative, the whole
/// part, and, unless the number is whole, a point and the fraction.
pub open spec fn fixed_text(v: Fixed) -> Seq<char> {
    let magnitude: nat = if v.raw < 0 {
        (-v.raw) as nat
    } else {
        v.raw as nat
    };
    let sign = if v.raw < 0 {
        seq!['-']
    } else {
        Seq::<char>::empty()
    };
    let whole = nat_text(magnitude / (SCALE as nat));
    let fraction = magnitude % (SCALE as nat);
    if fraction == 0 {
        sign + whole
    } else {
        sign + whole + seq!['.'] + fraction_text(fraction, 9)
    }
}

/// Where the run of white space that starts at `from` ends.
pub open spec fn spaces_end(s: Seq<char>, from: int) -> int
    decreases s.len() - from,
{
    if 0 <= from < s.len() && is_space(s[from]) {
        spaces_end(s, from + 1)
    } else {
        from
    }
}

/// Where the run of decimal digits that starts at `from` ends.
pub open spec fn digits_end(s: Seq<char>, from: int) -> int
    decreases s.len() - from,
{
    if 0 <= from < s.len() && is_digit(s[from]) {
        digits_end(s, from + 1)
    } else {
        from
    }
}

/// The number written by a sequence of decimal digits; zero when empty.
pub open spec fn digits_value(s: Seq<char>) -> nat
    decreases s.len(),
{
    if s.len() == 0 {
        0
    } else {
        digits_value(s.drop_last()) * 10 + digit_value(s.last())
    }
}

/// What a digit in the `k`-th place after the decimal point is worth, in raw
/// units; places past the ninth are worth nothing.
pub open spec fn place_value(k: int) -> nat {
    if k == 0 {
        100_000_000
    } else if k == 1 {
        10_000_000
    } else if k == 2 {
        1_000_000
    } else if k == 3 {
        100_000
    } else if k == 4 {
        10_000
    } else if k == 5 {
        1_000
    } else if k == 6 {
        100
    } else if k == 7 {
        10
    } else if k == 8 {
        1
    } else {
        0
    }
}

/// The raw value of the digits that follow a decimal point, cut off after
/// nine places.
pub open spec fn fraction_value(s: Seq<char>) -> nat
    decreases s.len(),
{
    if s.len() == 0 {
        0
    } else {
        fraction_value(s.drop_last()) + digit_value(s.last()) * place_value(s.len() - 1)
    }
}

/// The fixed-point number written with `whole` before the decimal point and
/// `fraction` after it, saturated at the largest representable value.
pub open spec fn decimal_value(whole: Seq<char>, fraction: Seq<char>) -> Fixed {
    Fixed { raw: clamp(digits_value(whole) * SCALE + fraction_value(fraction)) }
}

/// A run that is known to reach `mid` ends where the run from `mid` ends.
pub(crate) proof fn lemma_spaces_end_step(s: Seq<char>, from: int, mid: int)
    requires
        0 <= from <= mid <= s.len(),
        forall|k: int| from <= k < mid ==> is_space(#[trigger] s[k]),
    ensures
        spaces_end(s, from) == spaces_end(s, mid),
    decreases mid - from,
{
    if from < mid {
        lemma_spaces_end_step(s, from + 1, mid);
    }
}

pub(crate) proof fn lemma_digits_end_step(s: Seq<char>, from: int, mid: int)
    requires
        0 <= from <= mid <= s.len(),
        forall|k: int| from <= k < mid ==> is_digit(#[trigger] s[k]),
    ensures
        digits_end(s, from) == digits_end(s, mid),
    decreases mid - from,
{
    if from < mid {
        lemma_digits_end_step(s, from + 1, mid);
    }
}

/// Whether a character is white space.
pub fn is_space_char(c: char) -> (b: bool)
    ensures
        b == is_space(c),
{
    let u: u32 = c as u32;
    (0x09 <= u && u <= 0x0d) || u == 0x20 || u == 0x85 || u == 0xa0 || u == 0x1680 || (0x2000 <= u
        && u <= 0x200a) || u == 0x2028 || u == 0x2029 || u == 0x202f || u == 0x205f || u == 0x3000
}

/// Whether a character is a decimal digit.
pub fn is_digit_char(c: char) -> (b: bool)
    ensures
        b == is_digit(c),
{
    '0' <= c && c <= '9'
}

/// The number a hexadecimal digit stands for; `None` for any other character.
pub fn hex_digit(c: char) -> (v: Option<u8>)
    ensures
        v == hex_value(c),
        v matches Some(n) ==> n < 16,
{
    let u: u32 = c as u32;
    if '0' <= c && c <= '9' {
        Some((u - 0x30) as u8)
    } else if 'a' <= c && c <= 'f' {
        Some((u - 0x61 + 10) as u8)
    } else if 'A' <= c && c <= 'F' {
        Some((u - 0x41 + 10) as u8)
    } else {
        None
    }
}

/// The characters of a string, in order.
pub fn to_chars(s: &str) -> (v: Vec<char>)
    ensures
        v@ == s@,
{
    let mut v: Vec<char> = Vec::new();
    for c in it: s.chars()
        invariant
            v@ == it.seq().take(it.index() as int),
            it.seq() == s@,
    {
        v.push(c);
    }
    v
}

/// Whether two character sequences are the same.
pub fn same_chars(a: &Vec<char>, b: &Vec<char>) -> (same: bool)
    ensures
        same == (a@ == b@),
{
    if a.len() != b.len() {
        return false;
    }
    let mut i: usize = 0;
    while i < a.len()
        invariant
            a.len() == b.len(),
            i <= a.len(),
            forall|k: int| 0 <= k < i ==> a@[k] == b@[k],
        decreases a.len() - i,
    {
        if a[i] != b[i] {
            return false;
        }
        i += 1;
    }
    assert(a@ =~= b@);
    true
}

/// Whether a character sequence spells out `word`.
pub fn spells(a: &Vec<char>, word: &str) -> (same: bool)
    ensures
        same == (a@ == word@),
{
    let w = to_chars(word);
    same_chars(a, &w)
}

/// Collects characters into a `String` with `String::from_iter`, which keeps
/// every character in its place.
#[verifier::external_body]
pub(crate) fn string_from_chars(chars: Vec<char>) -> (s: String)
    ensures
        s@ == chars@,
{
    String::from_iter(chars)
}

/// Skips white space from `from`.
pub fn skip_spaces(s: &Vec<char>, from: usize) -> (end: usize)
    requires
        from <= s.len(),
    ensures
        end == spaces_end(s@, from as int),
        from <= end <= s.len(),
{
    let mut i: usize = from;
    while i < s.len() && is_space_char(s[i])
        invariant
            from <= i <= s.len(),
            forall|k: int| from <= k < i ==> is_space(#[trigger] s@[k]),
        decreases s.len() - i,
    {
        i += 1;
    }
    proof {
        lemma_spaces_end_step(s@, from as int, i as int);
    }
    i
}

/// Reads the run of digits at `from`. The value is exact up to `cap`, and
/// `cap` for every larger number.
pub fn scan_digits(s: &Vec<char>, from: usize, cap: u64) -> (r: (usize, u64))
    requires
        from <= s.len(),
        cap <= 1_000_000_000_000_000_000,
    ensures
        r.0 == digits_end(s@, from as int),
        from <= r.0 <= s.len(),
        r.1 == if digits_value(s@.subrange(from as int, r.0 as int)) < cap {
            digits_value(s@.subrange(from as int, r.0 as int))
        } else {
            cap as nat
        },
{
    let mut i: usize = from;
    let mut acc: u64 = 0;
    assert(s@.subrange(from as int, from as int) =~= Seq::<char>::empty());
    while i < s.len() && is_digit_char(s[i])
        invariant
            from <= i <= s.len(),
            cap <= 1_000_000_000_000_000_000,
            forall|k: int| from <= k < i ==> is_digit(#[trigger] s@[k]),
            acc <= cap,
            acc == if digits_value(s@.subrange(from as int, i as int)) < cap {
                digits_value(s@.subrange(from as int, i as int))
            } else {
                cap as nat
            },
        decreases s.len() - i,
    {
        let d: u64 = ((s[i] as u32) - 0x30) as u64;
        proof {
            let before = s@.subrange(from as int, i as int);
            let after = s@.subrange(from as int, i as int + 1);
            assert(after.drop_last() =~= before);
            assert(after.last() == s@[i as int]);
            assert(digits_value(after) == digits_value(before) * 10 + d);
        }
        let next: u64 = acc * 10 + d;
        acc = if next < cap {
            next
        } else {
            cap
        };
        i += 1;
    }
    proof {
        lemma_digits_end_step(s@, from as int, i as int);
    }
    (i, acc)
}

/// Reads the run of digits at `from` as the digits after a decimal point.
pub fn scan_fraction(s: &Vec<char>, from: usize) -> (r: (usize, u64))
    requires
        from <= s.len(),
    ensures
        r.0 == digits_end(s@, from as int),
        from <= r.0 <= s.len(),
        r.1 == fraction_value(s@.subrange(from as int, r.0 as int)),
        r.1 < SCALE,
{
    let mut i: usize = from;
    let mut acc: u64 = 0;
    let mut place: u64 = 100_000_000;
    let mut count: usize = 0;
    assert(s@.subrange(from as int, from as int) =~= Seq::<char>::empty());
    while i < s.len() && is_digit_char(s[i])
        invariant
            from <= i <= s.len(),
            forall|k: int| from <= k < i ==> is_digit(#[trigger] s@[k]),
            count == if i - from < 9 {
                (i - from) as usize
            } else {
                9
            },
            place == place_value(i - from),
            acc == fraction_value(s@.subrange(from as int, i as int)),
            acc + 10 * place <= SCALE,
            acc < SCALE,
        decreases s.len() - i,
    {
        let d: u64 = ((s[i] as u32) - 0x30) as u64;
        proof {
            let before = s@.subrange(from as int, i as int);
            let after = s@.subrange(from as int, i as int + 1);
            assert(after.drop_last() =~= before);
            assert(after.last() == s@[i as int]);
            assert(after.len() - 1 == i - from);
        }
        acc = acc + d * place;
        place = place / 10;
        if count < 9 {
            count += 1;
        }
        i += 1;
    }
    proof {
        lemma_digits_end_step(s@, from as int, i as int);
    }
    (i, acc)
}

/// The fixed-point number with the given whole part and raw fraction.
pub fn compose_decimal(whole: u64, fraction: u64) -> (r: Fixed)
    requires
        whole <= 10_000_000_000,
        fraction < SCALE,
    ensures
        r.raw == clamp(whole * SCALE + fraction),
        r.raw >= 0,
{
    let wide: u128 = (whole as u128) * 1_000_000_000 + (fraction as u128);
    if wide > 0x7fff_ffff_ffff_ffff {
        Fixed { raw: i64::MAX }
    } else {
        Fixed { raw: wide as i64 }
    }
}

fn digit_to_char(d: u64) -> (c: char)
    requires
        d < 10,
    ensures
        c == digit_char(d as nat),
{
    if d == 0 {
        '0'
    } else if d == 1 {
        '1'
    } else if d == 2 {
        '2'
    } else if d == 3 {
        '3'
    } else if d == 4 {
        '4'
    } else if d == 5 {
        '5'
    } else if d == 6 {
        '6'
    } else if d == 7 {
        '7'
    } else if d == 8 {
        '8'
    } else {
        '9'
    }
}

fn push_nat_text(n: u64, out: &mut Vec<char>)
    ensures
        final(out)@ == old(out)@ + nat_text(n as nat),
    decreases n,
{
    if n >= 10 {
        push_nat_text(n / 10, out);
    }
    out.push(digit_to_char(n % 10));
    assert(final(out)@ =~= old(out)@ + nat_text(n as nat));
}

fn push_padded_text(n: u64, places: u8, out: &mut Vec<char>)
    ensures
        final(out)@ == old(out)@ + padded_text(n as nat, places as nat),
    decreases places,
{
    if places > 0 {
        push_padded_text(n / 10, places - 1, out);
        out.push(digit_to_char(n % 10));
    }
    assert(final(out)@ =~= old(out)@ + padded_text(n as nat, places as nat));
}

fn push_fraction_text(n: u64, places: u8, out: &mut Vec<char>)
    ensures
        final(out)@ == old(out)@ + fraction_text(n as nat, places as nat),
    decreases places,
{
    if places == 0 || n == 0 {
        assert(final(out)@ =~= old(out)@ + fraction_text(n as nat, places as nat));
    } else if n % 10 == 0 {
        push_fraction_text(n / 10, places - 1, out);
    } else {
        push_padded_text(n, places, out);
    }
}

/// Appends a fixed-point number in decimal to `out`.
pub fn push_fixed_text(v: Fixed, out: &mut Vec<char>)
    ensures
        final(out)@ == old(out)@ + fixed_text(v),
{
    let magnitude: u64 = if v.raw < 0 {
        (-(v.raw as i128)) as u64
    } else {
        v.raw as u64
    };
    if v.raw < 0 {
        out.push('-');
    }
    push_nat_text(magnitude / 1_000_000_000, out);
    let fraction: u64 = magnitude % 1_000_000_000;
    if fraction != 0 {
        out.push('.');
        push_fraction_text(fraction, 9, out);
    }
    assert(final(out)@ =~= old(out)@ + fixed_text(v));
}

/// Appends the characters of `word` to `out`.
pub fn push_str(word: &str, out: &mut Vec<char>)
    ensures
        final(out)@ == old(out)@ + word@,
{
    let w = to_chars(word);
    push_chars(&w, out);
}

/// Appends `chars` to `out`.
pub fn push_chars(chars: &Vec<char>, out: &mut Vec<char>)
    ensures
        final(out)@ == old(out)@ + chars@,
{
    let mut i: usize = 0;
    while i < chars.len()
        invariant
            i <= chars.len(),
            out@ == old(out)@ + chars@.take(i as int),
        decreases chars.len() - i,
    {
        out.push(chars[i]);
        i += 1;
        assert(out@ =~= old(out)@ + chars@.take(i as int));
    }
    assert(chars@.take(chars.len() as int) =~= chars@);
}

/// A copy of the characters of `s` from `from` up to `to`.
pub fn copy_range(s: &Vec<char>, from: usize, to: usize) -> (r: Vec<char>)
    requires
        from <= to <= s.len(),
    ensures
        r@ == s@.subrange(from as int, to as int),
{
    let mut r: Vec<char> = Vec::new();
    let mut i: usize = from;
    while i < to
        invariant
            from <= i <= to <= s.len(),
            r@ == s@.subrange(from as int, i as int),
        decreases to - i,
    {
        r.push(s[i]);
        i += 1;
        assert(r@ =~= s@.subrange(from as int, i as int));
    }
    r
}

} // verus!
