use export_findmy::text::{chars_of, same_text, text_of, trim, white_space};

#[test]
fn white_space_is_that_of_unicode() {
    for code in 0..=0x10ffff {
        if let Some(c) = char::from_u32(code) {
            assert_eq!(white_space(c), c.is_whitespace(), "U+{:04X}", code);
        }
    }
}

#[test]
fn trim_takes_white_space_off_both_ends() {
    assert_eq!(trim("  secret word \r\n"), "secret word");
    assert_eq!(trim("\u{3000}\u{a0}x\u{2003}"), "x");
    assert_eq!(trim(" \t\n"), "");
    assert_eq!(trim(""), "");
    assert_eq!(trim("\u{200b}x"), "\u{200b}x");
}

#[test]
fn trim_agrees_with_std() {
    for s in ["a", " a", "a ", " a b ", "\n\u{85}é\u{2028}", "\u{feff} x", "  \u{1680}"] {
        assert_eq!(trim(s), s.trim());
        assert_eq!(trim(&trim(s)), s.trim());
        assert_eq!(trim(&format!("{}\n", s)), trim(s));
    }
}

#[test]
fn same_text_compares_all_characters() {
    assert!(same_text("", ""));
    assert!(same_text("né", "né"));
    assert!(!same_text("ne", "né"));
    assert!(!same_text("abc", "ab"));
    assert!(!same_text("ab", "abc"));
}

#[test]
fn text_is_taken_apart_and_put_together() {
    let chars = chars_of("aé🔑z");
    assert_eq!(chars, vec!['a', 'é', '🔑', 'z']);
    assert_eq!(text_of(&chars, 0, 4), "aé🔑z");
    assert_eq!(text_of(&chars, 1, 3), "é🔑");
    assert_eq!(text_of(&chars, 2, 2), "");
}
