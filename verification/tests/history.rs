use termie::clock::LocalTime;
use termie::history::{
    append_string_to_file, bash_history_entry, format_bash_history_entry, get_string_from_file,
    split_history_lines, HistoryError, HISTORY_CAPACITY,
};

fn numbered_lines(count: usize) -> String {
    let mut text = String::new();
    for i in 1..=count {
        text.push_str(&format!("cmd{}\n", i));
    }
    text
}

#[test]
fn get_line_by_one_based_index() {
    let content = b"ls\npwd\necho hi\n";
    assert_eq!(get_string_from_file(content, 1), "ls");
    assert_eq!(get_string_from_file(content, 2), "pwd");
    assert_eq!(get_string_from_file(content, 3), "echo hi");
}

#[test]
fn get_line_out_of_range_is_empty() {
    let content = b"ls\npwd\n";
    assert_eq!(get_string_from_file(content, 0), "");
    assert_eq!(get_string_from_file(content, -4), "");
    assert_eq!(get_string_from_file(content, 3), "");
    assert_eq!(get_string_from_file(content, 501), "");
    assert_eq!(get_string_from_file(b"", 1), "");
}

#[test]
fn get_line_strips_crlf_and_keeps_last_unterminated_line() {
    let content = b"a\r\nb\r\nc\r";
    assert_eq!(get_string_from_file(content, 1), "a");
    assert_eq!(get_string_from_file(content, 2), "b");
    assert_eq!(get_string_from_file(content, 3), "c\r");
    assert_eq!(get_string_from_file(content, 4), "");
}

#[test]
fn get_line_that_is_not_utf8_is_empty() {
    let content = b"ok\n\xff\xfe\nafter\n";
    assert_eq!(get_string_from_file(content, 1), "ok");
    assert_eq!(get_string_from_file(content, 2), "");
    assert_eq!(get_string_from_file(content, 3), "after");
}

#[test]
fn get_line_with_unicode() {
    let content = "héllo\n日本\n".as_bytes();
    assert_eq!(get_string_from_file(content, 2), "日本");
}

#[test]
fn split_lines_like_bufread() {
    let lines = split_history_lines(b"a\n\nb\r\n\r\nc");
    assert_eq!(lines, vec![b"a".to_vec(), b"".to_vec(), b"b".to_vec(), b"".to_vec(), b"c".to_vec()]);
    assert!(split_history_lines(b"").is_empty());
    assert_eq!(split_history_lines(b"\n"), vec![b"".to_vec()]);
}

#[test]
fn append_to_empty_file() {
    let out = append_string_to_file(b"", "ls -la").unwrap();
    assert_eq!(out, b"ls -la\n".to_vec());
}

#[test]
fn append_rewrites_lines_with_line_feeds() {
    let out = append_string_to_file(b"a\r\nb", "c").unwrap();
    assert_eq!(out, b"a\nb\nc\n".to_vec());
}

#[test]
fn append_empty_string_adds_empty_line() {
    let out = append_string_to_file(b"x\n", "").unwrap();
    assert_eq!(out, b"x\n\n".to_vec());
}

#[test]
fn append_keeps_at_most_capacity_lines() {
    let full = numbered_lines(HISTORY_CAPACITY);
    let out = append_string_to_file(full.as_bytes(), "new").unwrap();
    let lines = split_history_lines(&out);
    assert_eq!(lines.len(), HISTORY_CAPACITY);
    assert_eq!(lines[0], b"cmd2".to_vec());
    assert_eq!(lines[HISTORY_CAPACITY - 1], b"new".to_vec());
}

#[test]
fn append_below_capacity_keeps_everything() {
    let some = numbered_lines(499);
    let out = append_string_to_file(some.as_bytes(), "new").unwrap();
    let lines = split_history_lines(&out);
    assert_eq!(lines.len(), 500);
    assert_eq!(lines[0], b"cmd1".to_vec());
    assert_eq!(lines[499], b"new".to_vec());
}

#[test]
fn append_to_overfull_file_keeps_most_recent() {
    let many = numbered_lines(510);
    let out = append_string_to_file(many.as_bytes(), "new").unwrap();
    let lines = split_history_lines(&out);
    assert_eq!(lines.len(), HISTORY_CAPACITY);
    assert_eq!(lines[0], b"cmd12".to_vec());
    assert_eq!(lines[498], b"cmd510".to_vec());
    assert_eq!(lines[499], b"new".to_vec());
}

#[test]
fn append_refuses_file_that_is_not_utf8() {
    let out = append_string_to_file(b"ok\n\xff\n", "ls");
    assert_eq!(out, Err(HistoryError::InvalidUtf8));
}

#[test]
fn recall_after_append_gives_entry() {
    let content = numbered_lines(20);
    let out = append_string_to_file(content.as_bytes(), "git status ü").unwrap();
    let count = split_history_lines(&out).len() as i32;
    assert_eq!(count, 21);
    assert_eq!(get_string_from_file(&out, count), "git status ü");
    let full = numbered_lines(600);
    let out = append_string_to_file(full.as_bytes(), "last").unwrap();
    assert_eq!(get_string_from_file(&out, 500), "last");
}

#[test]
fn bash_history_entry_layout() {
    assert_eq!(format_bash_history_entry("2024-01-02 03:04:05", "ls"), "#2024-01-02 03:04:05 ls\n");
    let now = LocalTime { year: 2025, month: 3, day: 4, hour: 15, minute: 6, second: 7 };
    assert_eq!(bash_history_entry("make test", &now), "#2025-03-04 15:06:07 make test\n");
}

#[test]
fn append_read_back_keeps_older_lines_in_order() {
    let full = numbered_lines(505);
    let out = append_string_to_file(full.as_bytes(), "newest").unwrap();
    for k in 1..=499 {
        assert_eq!(get_string_from_file(&out, k), get_string_from_file(full.as_bytes(), k + 6));
    }
    assert_eq!(get_string_from_file(&out, 500), "newest");
    let few = "a\nb\n";
    let out = append_string_to_file(few.as_bytes(), "c").unwrap();
    assert_eq!(get_string_from_file(&out, 1), "a");
    assert_eq!(get_string_from_file(&out, 2), "b");
    assert_eq!(get_string_from_file(&out, 3), "c");
}
