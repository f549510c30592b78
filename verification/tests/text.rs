use chat_context::text::{
    alphanumeric, ascii_alphanumeric, string_of, to_chars, trim_bounds, whitespace,
};

#[test]
fn whitespace_is_the_unicode_property() {
    let mut code: u32 = 0;
    while code <= 0x10ffff {
        if let Some(c) = char::from_u32(code) {
            assert_eq!(whitespace(c), c.is_whitespace(), "U+{:04X}", code);
        }
        code += 1;
    }
}

#[test]
fn alphanumeric_is_the_unicode_property() {
    let mut code: u32 = 0;
    while code <= 0x10ffff {
        if let Some(c) = char::from_u32(code) {
            assert_eq!(alphanumeric(c), c.is_alphanumeric(), "U+{:04X}", code);
        }
        code += 1;
    }
    assert!(alphanumeric('\u{e9}'));
    assert!(alphanumeric('\u{4f60}'));
    assert!(!alphanumeric('\u{3002}'));
    assert!(!alphanumeric(' '));
}

#[test]
fn ascii_alphanumeric_is_letters_and_digits() {
    let mut code: u32 = 0;
    while code <= 0x10ffff {
        if let Some(c) = char::from_u32(code) {
            assert_eq!(ascii_alphanumeric(c), c.is_ascii_alphanumeric(), "U+{:04X}", code);
        }
        code += 1;
    }
}

#[test]
fn chars_and_back() {
    let chars = to_chars("a\u{4f60}b");
    assert_eq!(chars, vec!['a', '\u{4f60}', 'b']);
    assert_eq!(string_of(&chars, 1, 3), "\u{4f60}b");
    assert_eq!(string_of(&chars, 2, 2), "");
}

#[test]
fn trim_bounds_agree_with_trim() {
    let samples = [
        "",
        " ",
        "  \t\n",
        "a",
        " a",
        "a ",
        "  a b  ",
        "\u{3000}x\u{a0}",
        "\u{2003}\u{2003}",
        "x\u{85}y",
    ];
    for sample in samples {
        let chars = to_chars(sample);
        let (a, b) = trim_bounds(&chars, chars.len());
        assert!(a <= b && b <= chars.len());
        assert_eq!(string_of(&chars, a, b), sample.trim(), "{:?}", sample);
    }
}
