use termie::mkdir::{mkdir_failure, mkdir_target, mkdir_usage};

#[test]
fn mkdir_needs_exactly_one_argument() {
    let ok = vec!["mkdir".to_string(), "new_dir".to_string()];
    assert_eq!(mkdir_target(&ok), Some("new_dir".to_string()));
    assert_eq!(mkdir_target(&vec!["mkdir".to_string()]), None);
    let many = vec!["mkdir".to_string(), "a".to_string(), "b".to_string()];
    assert_eq!(mkdir_target(&many), None);
}

#[test]
fn mkdir_messages() {
    assert_eq!(mkdir_usage(), "Usage: mkdir <directory>");
    assert_eq!(mkdir_failure("d", "exists"), "Failed to create directory 'd': exists");
}
