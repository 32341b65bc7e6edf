use floaty::text::{is_white, letters, same, trim};

#[test]
fn white_space_is_what_the_standard_library_says() {
    for n in 0..=0x10ffffu32 {
        if let Some(c) = char::from_u32(n) {
            assert_eq!(is_white(c), c.is_whitespace(), "U+{n:04X}");
        }
    }
}

#[test]
fn trimming_takes_white_space_from_both_ends() {
    for text in ["", " ", "a", "  a b\t\n", "\u{3000}x\u{a0}", "x ", " x"] {
        let all = letters(text);
        let (from, to) = trim(&all);
        let cut: String = all[from..to].iter().collect();
        assert_eq!(cut, text.trim());
    }
}

#[test]
fn texts_are_compared_letter_by_letter() {
    assert!(same("duck", "duck"));
    assert!(!same("duck", "Duck"));
    assert!(!same("duck", "duc"));
    assert!(same("", ""));
}
