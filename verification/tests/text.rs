use werewolf_launcher::text::{
    blank, chars_of, decimal_text, ends_with, equal_ignoring_case, hex_text, join, join3,
    read_u16, same_text, starts_with, text_of, trimmed,
};

#[test]
fn white_space_is_that_of_unicode() {
    for code in 0..=0x10ffff_u32 {
        if let Some(c) = char::from_u32(code) {
            assert_eq!(blank(c), c.is_whitespace(), "U+{code:04X}");
        }
    }
}

#[test]
fn trims_both_ends() {
    for text in ["", " ", "a", " a", "a ", "\t\u{3000} a b \r", "\u{a0}x\u{2028}"] {
        let chars = chars_of(text);
        let (from, to) = trimmed(&chars, 0);
        assert_eq!(text_of(&chars, from, to), text.trim());
    }
    let chars = chars_of("key= 7 ");
    let (from, to) = trimmed(&chars, 4);
    assert_eq!(text_of(&chars, from, to), "7");
}

#[test]
fn joins_texts() {
    assert_eq!(join("人", "狼"), "人狼");
    assert_eq!(join3("a", "", "c"), "ac");
}

#[test]
fn compares_texts() {
    assert!(same_text("人狼", "人狼"));
    assert!(!same_text("人狼", "人"));
    assert!(!same_text("a", "b"));
    assert!(starts_with(&chars_of("level-name=x"), "level-name="));
    assert!(!starts_with(&chars_of("level"), "level-name="));
    assert!(ends_with(&chars_of("a.zip"), ".zip"));
    assert!(!ends_with(&chars_of("zip"), ".zip"));
    assert!(equal_ignoring_case("aBc1", "AbC1"));
    assert!(!equal_ignoring_case("é", "É"));
    assert!(!equal_ignoring_case("ab", "abc"));
}

#[test]
fn writes_decimals() {
    for number in [0, 7, 10, 19132, 65_535, 1_073_741_824, u64::MAX] {
        assert_eq!(decimal_text(number), number.to_string());
    }
}

#[test]
fn writes_small_hexadecimals() {
    assert_eq!(hex_text(&[0x00, 0x0f, 0xa5, 0xff]), "000fa5ff");
    assert_eq!(hex_text(&[]), "");
}

#[test]
fn reads_ports_as_std_does() {
    for text in [
        "", "+", "-", "0", "-0", "00080", "+19132", "++1", "19132", "65535", "65536", "99999999999",
        "12a", "1 2", "\u{0661}", "000000000000000000000000065535",
    ] {
        let chars = chars_of(text);
        assert_eq!(read_u16(&chars, 0, chars.len()), text.parse::<u16>().ok(), "{text}");
    }
}
