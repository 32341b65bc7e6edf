//! Colors as they are written in the settings, `#rrggbb`, and as Windows
//! packs them.

use vstd::prelude::*;

use crate::single::Single;
use crate::text;

verus! {

/// Red, green and blue, 0 to 255 each.
#[derive(Debug, Clone, Copy, PartialEq, Eq, Structural)]
pub struct Rgb {
    pub r: u8,
    pub g: u8,
    pub b: u8,
}

/// The value of a hexadecimal digit of either case.
pub open spec fn hex_value(c: char) -> Option<u8> {
    if '0' <= c <= '9' {
        Some((c as int - '0' as int) as u8)
    } else if 'a' <= c <= 'f' {
        Some((c as int - 'a' as int + 10) as u8)
    } else if 'A' <= c <= 'F' {
        Some((c as int - 'A' as int + 10) as u8)
    } else {
        None
    }
}

/// The digit at place `i` of a six-digit number, which may have a plus sign
/// in place of its first digit.
pub open spec fn digit_at(s: Seq<char>, i: int) -> Option<u8> {
    if i == 0 && s[0] == '+' {
        Some(0)
    } else {
        hex_value(s[i])
    }
}

/// `s` without the number signs at its start.
pub open spec fn without_hashes(s: Seq<char>) -> Seq<char>
    decreases s.len(),
{
    if s.len() > 0 && s.first() == '#' {
        without_hashes(s.drop_first())
    } else {
        s
    }
}

/// The color that six hexadecimal digits name.
pub open spec fn color_of_digits(s: Seq<char>) -> Option<Rgb> {
    if s.len() == 6 && (forall|i: int| 0 <= i < 6 ==> #[trigger] digit_at(s, i) is Some) {
        Some(
            Rgb {
                r: (digit_at(s, 0)->0 * 16 + digit_at(s, 1)->0) as u8,
                g: (digit_at(s, 2)->0 * 16 + digit_at(s, 3)->0) as u8,
                b: (digit_at(s, 4)->0 * 16 + digit_at(s, 5)->0) as u8,
            },
        )
    } else {
        None
    }
}

/// The color that a setting names: six digits after any number signs, with
/// white space allowed around it all.
pub open spec fn color_of(s: Seq<char>) -> Option<Rgb> {
    color_of_digits(without_hashes(text::trimmed(s)))
}

fn hex_digit(c: char) -> (r: Option<u8>)
    ensures
        r == hex_value(c),
        r matches Some(v) ==> v < 16,
{
    let n: u32 = c as u32;
    if 48 <= n && n <= 57 {
        Some((n - 48) as u8)
    } else if 97 <= n && n <= 102 {
        Some((n - 97 + 10) as u8)
    } else if 65 <= n && n <= 70 {
        Some((n - 65 + 10) as u8)
    } else {
        None
    }
}

/// Reads a color. A setting that names none is the caller's to replace by
/// its fallback color.
pub fn parse_color(s: &str) -> (r: Option<Rgb>)
    ensures
        r == color_of(s@),
{
    let chars = text::letters(s);
    let (from, to) = text::trim(&chars);
    let ghost body = text::trimmed(s@);
    let mut start: usize = from;
    while start < to && chars[start] == '#'
        invariant
            from <= start <= to <= chars.len(),
            chars@.subrange(from as int, to as int) == body,
            without_hashes(chars@.subrange(start as int, to as int)) == without_hashes(body),
        decreases to - start,
    {
        assert(chars@.subrange(start as int, to as int).drop_first() =~= chars@.subrange(
            start + 1,
            to as int,
        ));
        start = start + 1;
    }
    let ghost digits = chars@.subrange(start as int, to as int);
    assert(digits == without_hashes(body));
    if to - start != 6 {
        return None;
    }
    let mut values: Vec<u8> = Vec::new();
    let mut i: usize = 0;
    while i < 6
        invariant
            i <= 6,
            to - start == 6,
            to <= chars.len(),
            digits == chars@.subrange(start as int, to as int),
            digits == without_hashes(text::trimmed(s@)),
            values.len() == i,
            forall|j: int| 0 <= j < i ==> #[trigger] digit_at(digits, j) == Some(values[j])
                && values[j] < 16,
        decreases 6 - i,
    {
        let c = chars[start + i];
        assert(c == digits[i as int]);
        let v: Option<u8> = if i == 0 && c == '+' {
            Some(0)
        } else {
            hex_digit(c)
        };
        assert(v == digit_at(digits, i as int));
        match v {
            None => {
                assert(digit_at(digits, i as int) is None);
                return None;
            },
            Some(d) => {
                values.push(d);
            },
        }
        i = i + 1;
    }
    assert(digit_at(digits, 0) is Some && digit_at(digits, 1) is Some && digit_at(digits, 2) is Some
        && digit_at(digits, 3) is Some && digit_at(digits, 4) is Some && digit_at(digits, 5) is Some);
    Some(
        Rgb {
            r: values[0] * 16 + values[1],
            g: values[2] * 16 + values[3],
            b: values[4] * 16 + values[5],
        },
    )
}

/// The shade of red, green and blue that stands for a setting that names no
/// color: 0.25, 0.62 and 0.88 of full strength.
pub fn fallback_shade() -> (r: (Single, Single, Single))
    ensures
        r.0 == (Single { bits: 0x3e80_0000 }),
        r.1 == (Single { bits: 0x3f1e_b852 }),
        r.2 == (Single { bits: 0x3f61_47ae }),
{
    (
        Single { bits: 0x3e80_0000 },
        Single { bits: 0x3f1e_b852 },
        Single { bits: 0x3f61_47ae },
    )
}

/// The lower-case hexadecimal digit for `n`.
pub open spec fn digit_char(n: int) -> char {
    if n < 10 {
        ('0' as int + n) as char
    } else {
        ('a' as int + n - 10) as char
    }
}

/// A color in the form `#rrggbb`.
pub open spec fn hex_of(c: Rgb) -> Seq<char> {
    seq![
        '#',
        digit_char(c.r as int / 16),
        digit_char(c.r as int % 16),
        digit_char(c.g as int / 16),
        digit_char(c.g as int % 16),
        digit_char(c.b as int / 16),
        digit_char(c.b as int % 16),
    ]
}

fn digit(n: u8) -> (r: &'static str)
    requires
        n < 16,
    ensures
        r@ == seq![digit_char(n as int)],
{
    proof {
        reveal_strlit("0");
        reveal_strlit("1");
        reveal_strlit("2");
        reveal_strlit("3");
        reveal_strlit("4");
        reveal_strlit("5");
        reveal_strlit("6");
        reveal_strlit("7");
        reveal_strlit("8");
        reveal_strlit("9");
        reveal_strlit("a");
        reveal_strlit("b");
        reveal_strlit("c");
        reveal_strlit("d");
        reveal_strlit("e");
        reveal_strlit("f");
    }
    match n {
        0 => "0",
        1 => "1",
        2 => "2",
        3 => "3",
        4 => "4",
        5 => "5",
        6 => "6",
        7 => "7",
        8 => "8",
        9 => "9",
        10 => "a",
        11 => "b",
        12 => "c",
        13 => "d",
        14 => "e",
        _ => "f",
    }
}

/// Writes a color in the form `#rrggbb`.
pub fn hex(c: Rgb) -> (r: String)
    ensures
        r@ == hex_of(c),
{
    proof {
        reveal_strlit("#");
    }
    let mut out: String = "#".to_owned();
    out.append(digit(c.r / 16));
    out.append(digit(c.r % 16));
    out.append(digit(c.g / 16));
    out.append(digit(c.g % 16));
    out.append(digit(c.b / 16));
    out.append(digit(c.b % 16));
    assert(out@ =~= hex_of(c));
    out
}

/// The number that Windows has for a color.
pub open spec fn packed(c: Rgb) -> int {
    c.r + c.g * 0x100 + c.b * 0x1_0000
}

/// A color as Windows packs it: red lowest, then green, then blue.
pub fn colorref(c: Rgb) -> (r: u32)
    ensures
        r == packed(c),
{
    let (r, g, b): (u32, u32, u32) = (c.r as u32, c.g as u32, c.b as u32);
    assert(r < 256 && g < 256 && b < 256 ==> (r | (g << 8) | (b << 16)) == r + g * 0x100 + b * 0x1_0000)
        by (bit_vector);
    r | (g << 8) | (b << 16)
}

/// Reading what was written gives the color back.
pub proof fn law_hex_reads_back(c: Rgb)
    ensures
        color_of(hex_of(c)) == Some(c),
{
    let s = hex_of(c);
    assert(text::without_leading_white(s) == s);
    assert(text::without_trailing_white(s) == s);
    let d = s.drop_first();
    reveal_with_fuel(without_hashes, 2);
    assert(without_hashes(s) == d);
    assert(d.len() == 6);
    assert forall|i: int| 0 <= i < 6 implies #[trigger] digit_at(d, i) is Some by {}
}

/// A hexadecimal digit in lower case.
pub open spec fn lowered(c: char) -> char {
    if 'A' <= c <= 'F' {
        (c as int - 'A' as int + 'a' as int) as char
    } else {
        c
    }
}

/// A color of six digits of either case is written out as it was read, in
/// lower case.
pub proof fn law_written_form_is_stable(s: Seq<char>)
    requires
        s.len() == 7,
        s[0] == '#',
        forall|i: int| 1 <= i < 7 ==> hex_value(#[trigger] s[i]) is Some,
    ensures
        color_of(s) is Some,
        hex_of(color_of(s)->0) == s.map(|i: int, c: char| lowered(c)),
{
    assert(hex_value(s[1]) is Some && hex_value(s[6]) is Some);
    assert(text::without_leading_white(s) == s);
    assert(text::without_trailing_white(s) == s);
    let d = s.drop_first();
    reveal_with_fuel(without_hashes, 2);
    assert(without_hashes(s) == d);
    assert forall|i: int| 0 <= i < 6 implies #[trigger] digit_at(d, i) is Some && digit_at(d, i)
        == hex_value(s[i + 1]) && digit_at(d, i)->0 < 16 && digit_char(digit_at(d, i)->0 as int)
        == lowered(s[i + 1]) by {
        assert(hex_value(s[i + 1]) is Some);
    }
    let c = color_of(s)->0;
    assert(color_of(s) is Some);
    assert(c.r as int / 16 == digit_at(d, 0)->0 && c.r as int % 16 == digit_at(d, 1)->0);
    assert(c.g as int / 16 == digit_at(d, 2)->0 && c.g as int % 16 == digit_at(d, 3)->0);
    assert(c.b as int / 16 == digit_at(d, 4)->0 && c.b as int % 16 == digit_at(d, 5)->0);
    assert(hex_of(c) =~= s.map(|i: int, c: char| lowered(c)));
}

/// A digit stands for its place in the usual order, letters in either case,
/// and nothing else is a digit.
pub proof fn law_hex_digits(c: char, v: int)
    ensures
        hex_value(c) matches Some(d) ==> d < 16 && (if d < 10 {
            c as int == 48 + d
        } else {
            c as int == 87 + d || c as int == 55 + d
        }),
        0 <= v < 10 && c as int == 48 + v ==> hex_value(c) == Some(v as u8),
        10 <= v < 16 && (c as int == 87 + v || c as int == 55 + v) ==> hex_value(c) == Some(v as u8),
{
}

/// Number signs before some text go.
proof fn lemma_hashes(hashes: Seq<char>, body: Seq<char>)
    requires
        forall|i: int| 0 <= i < hashes.len() ==> #[trigger] hashes[i] == '#',
        body.len() > 0 ==> body[0] != '#',
    ensures
        without_hashes(hashes + body) == body,
    decreases hashes.len(),
{
    if hashes.len() == 0 {
        assert(hashes + body =~= body);
    } else {
        assert((hashes + body).drop_first() =~= hashes.drop_first() + body);
        lemma_hashes(hashes.drop_first(), body);
    }
}

/// White space around a color and number signs before it make no difference,
/// whether it is one or not.
pub proof fn law_what_is_around_a_color(
    lead: Seq<char>,
    hashes: Seq<char>,
    body: Seq<char>,
    trail: Seq<char>,
)
    requires
        forall|i: int| 0 <= i < lead.len() ==> text::white(#[trigger] lead[i]),
        forall|i: int| 0 <= i < trail.len() ==> text::white(#[trigger] trail[i]),
        forall|i: int| 0 <= i < hashes.len() ==> #[trigger] hashes[i] == '#',
        body.len() > 0,
        body[0] != '#',
        !text::white(body[0]),
        !text::white(body.last()),
    ensures
        color_of(lead + (hashes + body) + trail) == color_of(body),
{
    let all = hashes + body;
    assert(all.last() == body.last());
    assert(!text::white(all[0])) by {
        if hashes.len() > 0 {
            assert(hashes[0] == '#');
        }
    }
    text::law_trimming(lead, all, trail);
    lemma_hashes(hashes, body);
    let none = Seq::<char>::empty();
    text::law_trimming(none, body, none);
    assert(none + body + none =~= body);
    lemma_hashes(none, body);
    assert(none + body =~= body);
}

/// Six digits are a color: two each for red, green and blue, in this order,
/// the first of the two counting sixteen times.
pub proof fn law_six_digits_are_a_color(s: Seq<char>)
    requires
        s.len() == 6,
        forall|i: int| 0 <= i < 6 ==> hex_value(#[trigger] s[i]) is Some,
    ensures
        color_of(s) matches Some(c) && c.r == 16 * hex_value(s[0])->0 + hex_value(s[1])->0 && c.g
            == 16 * hex_value(s[2])->0 + hex_value(s[3])->0 && c.b == 16 * hex_value(s[4])->0
            + hex_value(s[5])->0,
{
    assert(hex_value(s[0]) is Some && hex_value(s[1]) is Some && hex_value(s[2]) is Some
        && hex_value(s[3]) is Some && hex_value(s[4]) is Some && hex_value(s[5]) is Some);
    lemma_bare(s);
    assert forall|i: int| 0 <= i < 6 implies #[trigger] digit_at(s, i) is Some && digit_at(s, i)
        == hex_value(s[i]) by {
        assert(hex_value(s[i]) is Some);
    }
    assert(digit_at(s, 0) is Some && digit_at(s, 1) is Some && digit_at(s, 2) is Some && digit_at(
        s,
        3,
    ) is Some && digit_at(s, 4) is Some && digit_at(s, 5) is Some);
}

/// Text without number signs and white space at its ends is read as it is.
proof fn lemma_bare(s: Seq<char>)
    requires
        s.len() > 0,
        s[0] != '#',
        !text::white(s[0]),
        !text::white(s.last()),
    ensures
        color_of(s) == color_of_digits(s),
{
    let none = Seq::<char>::empty();
    text::law_trimming(none, s, none);
    assert(none + s + none =~= s);
    lemma_hashes(none, s);
    assert(none + s =~= s);
}

/// Nothing but six digits is a color, except that a plus sign may stand in
/// place of a leading zero, as which it counts.
pub proof fn law_nothing_else_is_a_color(s: Seq<char>)
    requires
        s.len() > 0,
        s[0] != '#',
        !text::white(s[0]),
        !text::white(s.last()),
    ensures
        color_of(s) is Some ==> s.len() == 6,
        color_of(s) is Some ==> forall|i: int| 1 <= i < 6 ==> hex_value(#[trigger] s[i]) is Some,
        color_of(s) is Some ==> s[0] == '+' || hex_value(s[0]) is Some,
        s[0] == '+' ==> color_of(s) == color_of(s.update(0, '0')),
{
    lemma_bare(s);
    let z = s.update(0, '0');
    if s[0] == '+' {
        assert(!text::white(z.last()));
        lemma_bare(z);
        assert forall|i: int| 0 <= i < s.len() implies #[trigger] digit_at(s, i) == digit_at(z, i)
            by {}
        if s.len() == 6 {
            assert(digit_at(s, 0) == digit_at(z, 0));
            assert(digit_at(s, 1) == digit_at(z, 1));
            assert(digit_at(s, 2) == digit_at(z, 2));
            assert(digit_at(s, 3) == digit_at(z, 3));
            assert(digit_at(s, 4) == digit_at(z, 4));
            assert(digit_at(s, 5) == digit_at(z, 5));
            if color_of(z) is Some {
                assert forall|i: int| 0 <= i < 6 implies #[trigger] digit_at(s, i) is Some by {
                    assert(digit_at(z, i) is Some);
                }
            }
            if color_of(s) is Some {
                assert forall|i: int| 0 <= i < 6 implies #[trigger] digit_at(z, i) is Some by {
                    assert(digit_at(s, i) is Some);
                }
            }
        }
    }
    if color_of(s) is Some {
        assert(digit_at(s, 0) is Some);
        assert forall|i: int| 1 <= i < 6 implies hex_value(#[trigger] s[i]) is Some by {
            assert(digit_at(s, i) is Some);
        }
    }
}

/// Two colors are written differently, always with a number sign and six
/// digits, none of them in upper case.
pub proof fn law_colors_are_written_apart(a: Rgb, b: Rgb)
    ensures
        hex_of(a) == hex_of(b) ==> a == b,
        hex_of(a).len() == 7,
        hex_of(a)[0] == '#',
        forall|i: int|
            1 <= i < 7 ==> '0' <= #[trigger] hex_of(a)[i] <= '9' || 'a' <= hex_of(a)[i] <= 'f',
{
    law_hex_reads_back(a);
    law_hex_reads_back(b);
}

/// Windows gets a color's red, green and blue from the lowest byte up, and
/// nothing above.
pub proof fn law_packed_color(c: Rgb)
    ensures
        0 <= packed(c) < 0x100_0000,
        packed(c) % 0x100 == c.r,
        packed(c) / 0x100 % 0x100 == c.g,
        packed(c) / 0x1_0000 == c.b,
{
}

/// White space does not make a color, nor do number signs alone, and between
/// the number signs and the digits there is no room for white space.
pub proof fn law_no_digits_no_color(
    lead: Seq<char>,
    hashes: Seq<char>,
    trail: Seq<char>,
    body: Seq<char>,
)
    requires
        forall|i: int| 0 <= i < lead.len() ==> text::white(#[trigger] lead[i]),
        forall|i: int| 0 <= i < trail.len() ==> text::white(#[trigger] trail[i]),
        forall|i: int| 0 <= i < hashes.len() ==> #[trigger] hashes[i] == '#',
        body.len() > 0,
        text::white(body[0]),
        !text::white(body.last()),
    ensures
        color_of(lead + hashes + trail) is None,
        hashes.len() > 0 ==> color_of(hashes + body) is None,
{
    let none = Seq::<char>::empty();
    if hashes.len() > 0 {
        assert(hashes[0] == '#' && hashes[hashes.len() - 1] == '#');
    }
    text::law_trimming(lead, hashes, trail);
    lemma_hashes(hashes, none);
    assert(hashes + none =~= hashes);
    if hashes.len() > 0 {
        let all = hashes + body;
        assert(all[0] == hashes[0] && all.last() == body.last());
        text::law_trimming(none, all, none);
        assert(none + all + none =~= all);
        lemma_hashes(hashes, body);
        assert(digit_at(body, 0) is None);
    }
}

} // verus!
