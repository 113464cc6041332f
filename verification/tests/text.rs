use api2cli::number::{decimal_text, parse_u32, push_decimal};
use api2cli::text::{chars_of, is_white_space, same_text, split_words, string_of, trim};

#[test]
fn white_space_agrees_with_std() {
    for u in 0..=0x10ffffu32 {
        if let Some(c) = char::from_u32(u) {
            assert_eq!(is_white_space(c), c.is_whitespace(), "{u:x}");
        }
    }
}

#[test]
fn trimming_and_splitting_agree_with_std() {
    for s in ["", " ", "a", " a b ", "\ta\u{3000}\n b\u{85}", "\u{feff}x ", "k\r\n", "a  b\u{2029}c"] {
        assert_eq!(trim(s), s.trim());
        let expected: Vec<String> = s.split_whitespace().map(|w| w.to_string()).collect();
        assert_eq!(split_words(s), expected);
    }
}

#[test]
fn numbers_are_read_as_std_reads_them() {
    for s in [
        "", "0", "00", "7", "+7", "+", "-", "-0", "++1", "1 ", " 1", "1_0", "4294967295", "4294967296",
        "00000000000000000000000000001", "99999999999999999999999", "12a", "\u{661}",
    ] {
        assert_eq!(parse_u32(s), s.parse::<u32>().ok(), "{s:?}");
    }
}

#[test]
fn decimal_notation_reads_back() {
    for n in [0u32, 1, 9, 10, 99, 100, 1337, 65535, u32::MAX] {
        assert_eq!(decimal_text(n as u64), n.to_string());
        assert_eq!(parse_u32(&decimal_text(n as u64)), Some(n));
    }
    assert_eq!(decimal_text(u64::MAX), "18446744073709551615");
    let mut out = "n=".to_string();
    push_decimal(&mut out, 20);
    assert_eq!(out, "n=20");
}

#[test]
fn texts_are_compared_by_character() {
    assert!(same_text("", ""));
    assert!(same_text("h\u{e9}", "h\u{e9}"));
    assert!(!same_text("h\u{e9}", "he\u{301}"));
    assert!(!same_text("a", "ab"));
    assert!(!same_text("ab", "ac"));
}

#[test]
fn characters_make_up_a_string() {
    let chars = chars_of("a\u{1f600}b");
    assert_eq!(chars, vec!['a', '\u{1f600}', 'b']);
    assert_eq!(string_of(&chars, 1, 3), "\u{1f600}b");
    assert_eq!(string_of(&chars, 2, 2), "");
}
