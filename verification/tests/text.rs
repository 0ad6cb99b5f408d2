use termie::text::{join_with_spaces, split_words, trim_text};

#[test]
fn trim_removes_unicode_white_space() {
    assert_eq!(trim_text("  hello world \n"), "hello world");
    assert_eq!(trim_text("\u{3000}x\u{a0}"), "x");
    assert_eq!(trim_text("   "), "");
    assert_eq!(trim_text(""), "");
    assert_eq!(trim_text("a"), "a");
}

#[test]
fn words_match_split_whitespace() {
    for s in ["", "  ", "ls", " ls  -la\t/tmp ", "a\u{2003}b\nc", "日本 語"] {
        let expected: Vec<String> = s.split_whitespace().map(|w| w.to_string()).collect();
        assert_eq!(split_words(s), expected);
    }
}

#[test]
fn join_with_spaces_from_index() {
    let parts = vec!["cd".to_string(), "my".to_string(), "dir".to_string()];
    assert_eq!(join_with_spaces(&parts, 1), "my dir");
    assert_eq!(join_with_spaces(&parts, 0), "cd my dir");
    assert_eq!(join_with_spaces(&parts, 3), "");
}
