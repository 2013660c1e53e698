use andromeda_transfer_direct_mini::text::{
    is_blank, is_white_space, split_lines, strip_prefix, to_decimal,
};

#[test]
fn white_space_agrees_with_unicode() {
    for u in 0..=0x10ffffu32 {
        if let Some(c) = char::from_u32(u) {
            assert_eq!(is_white_space(c), c.is_whitespace(), "{:x}", u);
        }
    }
}

#[test]
fn blank_text() {
    assert!(is_blank(""));
    assert!(is_blank(" \t\r\u{3000}"));
    assert!(!is_blank("  x "));
    for s in ["", " ", "a", " a ", "\u{85}", "\u{200b}"] {
        assert_eq!(is_blank(s), s.trim().is_empty());
    }
}

#[test]
fn lines_end_in_line_feeds() {
    assert_eq!(split_lines("a\nb\n"), vec!["a", "b"]);
    assert_eq!(split_lines("a\nb"), vec!["a", "b"]);
    assert_eq!(split_lines("a\r\nb\r"), vec!["a", "b\r"]);
    assert_eq!(split_lines(""), Vec::<String>::new());
}

#[test]
fn lines_agree_with_std() {
    let cases = [
        "", "\n", "\n\n", "a", "a\n", "a\r\n", "a\r", "\r", "\r\n", "\r\r\n", "a\r\r\nb", "a\n\nb",
        "x\ry\nz", "\u{e9}\n\u{1f600}", "a\r\n\r\nb\n\r",
    ];
    for s in cases {
        let expected: Vec<String> = s.lines().map(|l| l.to_string()).collect();
        assert_eq!(split_lines(s), expected, "{:?}", s);
    }
}

#[test]
fn prefix_is_stripped() {
    assert_eq!(strip_prefix("/data/x", "/data"), Some("/x".to_string()));
    assert_eq!(strip_prefix("/data", "/data"), Some(String::new()));
    assert_eq!(strip_prefix("/dat", "/data"), None);
    assert_eq!(strip_prefix("/dbta/x", "/data"), None);
    assert_eq!(strip_prefix("x", ""), Some("x".to_string()));
    assert_eq!(strip_prefix("\u{e9}ab", "\u{e9}a"), Some("b".to_string()));
}

#[test]
fn decimal_numbers() {
    for n in [0u64, 7, 9, 10, 99, 100, 1_000, 7000, 1_234_567, u64::MAX] {
        assert_eq!(to_decimal(n), n.to_string());
    }
}
