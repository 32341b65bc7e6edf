use floaty::color::{colorref, fallback_shade, hex, parse_color, Rgb};

fn rgb(r: u8, g: u8, b: u8) -> Rgb {
    Rgb { r, g, b }
}

#[test]
fn stock_colors_are_read() {
    assert_eq!(parse_color("#3f9de0"), Some(rgb(0x3f, 0x9d, 0xe0)));
    assert_eq!(parse_color("#123f78"), Some(rgb(0x12, 0x3f, 0x78)));
}

#[test]
fn both_cases_and_surroundings_are_accepted() {
    assert_eq!(parse_color("  #AbCdEf\n"), Some(rgb(0xab, 0xcd, 0xef)));
    assert_eq!(parse_color("abcdef"), Some(rgb(0xab, 0xcd, 0xef)));
    assert_eq!(parse_color("###000102"), Some(rgb(0, 1, 2)));
}

#[test]
fn a_plus_sign_counts_as_a_leading_zero() {
    assert_eq!(parse_color("#+12345"), Some(rgb(0x01, 0x23, 0x45)));
    assert_eq!(u32::from_str_radix("+12345", 16), Ok(0x012345));
}

#[test]
fn other_texts_name_no_color() {
    for bad in ["", "#", "#12345", "#1234567", "#12345g", "#-12345", "# 12345", "#1+2345", "äöü"] {
        assert_eq!(parse_color(bad), None, "{bad:?}");
    }
}

#[test]
fn reading_agrees_with_the_standard_library() {
    let letters = ["0", "9", "a", "f", "A", "F", "g", "+", "-", " ", "#"];
    for a in letters {
        for b in letters {
            for c in letters {
                let text = format!("{a}{b}12{c}4");
                let digits = text.trim().trim_start_matches('#');
                let expected = if digits.len() == 6 {
                    u32::from_str_radix(digits, 16).ok()
                } else {
                    None
                };
                let got = parse_color(&text).map(|c| {
                    (c.r as u32) << 16 | (c.g as u32) << 8 | c.b as u32
                });
                assert_eq!(got, expected, "{text:?}");
            }
        }
    }
}

#[test]
fn writing_gives_six_lower_case_digits() {
    assert_eq!(hex(rgb(0, 0, 0)), "#000000");
    assert_eq!(hex(rgb(0xab, 0xcd, 0xef)), "#abcdef");
    assert_eq!(hex(rgb(9, 16, 255)), "#0910ff");
}

#[test]
fn what_is_written_reads_back() {
    for v in 0..=255u8 {
        let c = rgb(v, v.wrapping_mul(7), 255 - v);
        assert_eq!(parse_color(&hex(c)), Some(c));
    }
}

#[test]
fn colors_are_written_in_lower_case() {
    for s in ["#ABCDEF", "#abcdef", "#aBcDeF", "#0f9A1b"] {
        assert_eq!(hex(parse_color(s).unwrap()), s.to_lowercase());
    }
}

#[test]
fn windows_packs_blue_highest() {
    assert_eq!(colorref(rgb(0x11, 0x22, 0x33)), 0x33_22_11);
    assert_eq!(colorref(rgb(255, 255, 255)), 0xff_ff_ff);
}

#[test]
fn the_fallback_has_a_shade_of_its_own() {
    let (r, g, b) = fallback_shade();
    assert_eq!(r.bits, 0.25f32.to_bits());
    assert_eq!(g.bits, 0.62f32.to_bits());
    assert_eq!(b.bits, 0.88f32.to_bits());
}
