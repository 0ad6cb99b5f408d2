use termie::command::{
    directory_change_outcome, missing_path_error, plan_command, shell_outcome,
    shell_text_outcome, CommandError, CommandErrorKind, CommandPlan,
};

fn other(text: &str) -> CommandError {
    CommandError { kind: CommandErrorKind::Other, message: text.to_string() }
}

#[test]
fn cd_with_path_changes_directory() {
    assert_eq!(plan_command("cd /tmp"), CommandPlan::ChangeDirectory { path: "/tmp".to_string() });
    assert_eq!(plan_command("  cd   my   dir "), CommandPlan::ChangeDirectory { path: "my dir".to_string() });
    assert_eq!(plan_command("cd ./sub"), CommandPlan::ChangeDirectory { path: "./sub".to_string() });
}

#[test]
fn cd_without_path_is_refused() {
    assert_eq!(plan_command("cd"), CommandPlan::MissingPath);
    assert_eq!(plan_command("  cd  "), CommandPlan::MissingPath);
    let e = missing_path_error();
    assert_eq!(e.kind, CommandErrorKind::InvalidInput);
    assert_eq!(e.message, "cd requires a path");
}

#[test]
fn other_commands_go_to_the_shell() {
    assert_eq!(plan_command("ls -la"), CommandPlan::Shell);
    assert_eq!(plan_command("cdx /tmp"), CommandPlan::Shell);
    assert_eq!(plan_command("echo cd"), CommandPlan::Shell);
}

#[test]
fn directory_change_outcomes() {
    assert_eq!(directory_change_outcome::<String>(Ok(())), Ok("Directory changed".to_string()));
    assert_eq!(directory_change_outcome(Err("No such file".to_string())), Err("No such file".to_string()));
}

#[test]
fn shell_outcome_prefers_stderr() {
    assert_eq!(shell_outcome(b"out", b"bad thing\n"), Err(other("bad thing\n")));
    assert_eq!(shell_outcome(b"  out\n\n", b""), Ok("out".to_string()));
    assert_eq!(shell_outcome(b"", b""), Ok("".to_string()));
    assert_eq!(shell_text_outcome(" a b ", ""), Ok("a b".to_string()));
    assert_eq!(shell_text_outcome("x", "e"), Err(other("e")));
}

#[test]
fn shell_outcome_decodes_lossily() {
    assert_eq!(shell_outcome(b"a\xffb", b""), Ok("a\u{fffd}b".to_string()));
    assert_eq!(shell_outcome(b"", b"\xff"), Err(other("\u{fffd}")));
}

#[test]
fn shell_error_output_is_kept_untrimmed() {
    assert_eq!(shell_outcome(b"", b"oops\n"), Err(other("oops\n")));
}
