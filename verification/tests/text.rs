use watch_history::text::{clone_strings, is_white_space, trim};

#[test]
fn white_space_is_as_the_standard_library_has_it() {
    for code in 0..=0x10FFFF_u32 {
        if let Some(c) = char::from_u32(code) {
            assert_eq!(is_white_space(c), c.is_whitespace(), "U+{:04X}", code);
        }
    }
}

#[test]
fn white_space_characters() {
    for c in ['\t', '\n', '\u{b}', '\u{c}', '\r', ' ', '\u{85}', '\u{a0}', '\u{1680}', '\u{2000}'] {
        assert!(is_white_space(c));
    }
    for c in ['\u{200a}', '\u{2028}', '\u{2029}', '\u{202f}', '\u{205f}', '\u{3000}'] {
        assert!(is_white_space(c));
    }
    for c in ['a', '0', '\u{0}', '\u{8}', '\u{e}', '\u{1f}', '!', '\u{200b}', '\u{180e}', '\u{feff}'] {
        assert!(!is_white_space(c));
    }
}

#[test]
fn trimming_takes_the_white_space_around_a_text_away() {
    assert_eq!(trim(""), "");
    assert_eq!(trim(" "), "");
    assert_eq!(trim(" \t\r\n\u{3000}"), "");
    assert_eq!(trim("a"), "a");
    assert_eq!(trim(" a"), "a");
    assert_eq!(trim("a "), "a");
    assert_eq!(trim("  a b  "), "a b");
    assert_eq!(trim("\n2024-01-02 03:04:05 UTC\n"), "2024-01-02 03:04:05 UTC");
    assert_eq!(trim("\u{a0}é \u{2003} ü\u{2028}"), "é \u{2003} ü");
    assert_eq!(trim("\u{200b} x \u{200b}"), "\u{200b} x \u{200b}");
}

#[test]
fn trimming_is_as_the_standard_library_has_it() {
    let pieces = ["", " ", "\n", "\t\t", "x", "é", "\u{3000}", "\u{85}", "a b", "\u{200b}", "日本"];
    for a in pieces {
        for b in pieces {
            for c in pieces {
                let text = format!("{}{}{}", a, b, c);
                assert_eq!(trim(&text), text.trim(), "{:?}", text);
            }
        }
    }
}

#[test]
fn copies_of_string_lists_hold_the_same() {
    let strings = vec!["a".to_string(), String::new(), "b c".to_string(), "é".to_string()];
    assert_eq!(clone_strings(&strings), strings);
    assert!(clone_strings(&Vec::new()).is_empty());
}
