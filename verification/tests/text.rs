use ketabak::text::{
    chars_of, decimal_string, is_blank, is_whitespace, string_of, strip, trim, Margin,
};

#[test]
fn white_space_is_the_unicode_property() {
    let mut code: u32 = 0;
    while code <= 0x10FFFF {
        if let Some(c) = char::from_u32(code) {
            assert_eq!(is_whitespace(c), c.is_whitespace(), "U+{:04X}", code);
        }
        code += 1;
    }
}

#[test]
fn chars_round_trip() {
    let cs = chars_of("a日b");
    assert_eq!(cs, vec!['a', '日', 'b']);
    assert_eq!(string_of(&cs, 0, 3), "a日b");
    assert_eq!(string_of(&cs, 1, 2), "日");
    assert_eq!(string_of(&cs, 2, 2), "");
}

#[test]
fn blank_texts() {
    assert!(is_blank(""));
    assert!(is_blank("   "));
    assert!(is_blank(" \t\r\n\u{A0}\u{3000}"));
    assert!(!is_blank(" a "));
    assert!(!is_blank("\u{200B}"));
}

#[test]
fn trim_agrees_with_std() {
    let samples = [
        "",
        " ",
        "a",
        "  a",
        "a  ",
        "  a b  ",
        "\t\nEnd\r\n",
        "\u{A0}x\u{2003}",
        " \u{200B} ",
        "   ",
    ];
    for sample in samples {
        assert_eq!(trim(sample), sample.trim(), "{:?}", sample);
    }
}

#[test]
fn trim_keeps_inner_white_space() {
    assert_eq!(trim("  My  Book "), "My  Book");
}

#[test]
fn strip_one_character() {
    let samples = ["", "-", "---", "-a-", "a", "--a-b--", "a--", "--a", " - "];
    for sample in samples {
        assert_eq!(strip(sample, Margin::Char('-')), sample.trim_matches('-'), "{:?}", sample);
    }
}

#[test]
fn decimal_numerals() {
    assert_eq!(decimal_string(0), "0");
    assert_eq!(decimal_string(7), "7");
    assert_eq!(decimal_string(10), "10");
    assert_eq!(decimal_string(42), "42");
    assert_eq!(decimal_string(1000), "1000");
    assert_eq!(decimal_string(usize::MAX), usize::MAX.to_string());
}
