use termie::clock::LocalTime;
use termie::command::CommandPlan;
use termie::terminal::{CustomCommand, MyApp, SendStep, ARROW_REST};

const NOON: LocalTime = LocalTime { year: 2024, month: 5, day: 6, hour: 12, minute: 0, second: 0 };
const LATER: LocalTime = LocalTime { year: 2024, month: 5, day: 6, hour: 12, minute: 0, second: 1 };

#[test]
fn new_terminal_is_empty_and_at_rest() {
    let app = MyApp::new();
    assert!(app.show_error());
    assert_eq!(app.command_input(), "");
    assert_eq!(app.last_ran_cmd(), "");
    assert!(app.commands().is_empty());
    assert_eq!(app.arrow_index(), ARROW_REST);
    assert_eq!(ARROW_REST, 501);
    assert!(!app.send_button_pressed());
    let default_app = MyApp::default();
    assert_eq!(default_app.arrow_index(), 501);
}

#[test]
fn enter_sends_in_next_frame() {
    let mut app = MyApp::new();
    app.set_command_input("ls".to_string());
    assert!(!app.request_send(false));
    app.enter_pressed();
    assert_eq!(app.last_ran_cmd(), "ls");
    assert!(app.send_button_pressed());
    assert!(app.request_focus_next_frame());
    assert!(app.take_focus_request());
    assert!(!app.take_focus_request());
    app.arrow_up();
    assert!(app.request_send(false));
    assert_eq!(app.arrow_index(), ARROW_REST);
}

#[test]
fn sending_empty_input_does_nothing_more() {
    let mut app = MyApp::new();
    app.enter_pressed();
    assert_eq!(app.begin_send_command(), SendStep::Done);
    assert!(!app.send_button_pressed());
    assert!(app.commands().is_empty());
}

#[test]
fn running_a_command_records_it() {
    let mut app = MyApp::new();
    app.set_command_input("echo hi".to_string());
    assert_eq!(app.begin_send_command(), SendStep::Run(CommandPlan::Shell));
    app.finish_send_command(Ok("hi".to_string()), &NOON);
    app.set_command_input("cd".to_string());
    assert_eq!(app.begin_send_command(), SendStep::Run(CommandPlan::MissingPath));
    app.finish_send_command(Err("cd requires a path".to_string()), &LATER);
    let cmds = app.commands();
    assert_eq!(cmds.len(), 2);
    assert_eq!(cmds[0].counter, 0);
    assert_eq!(cmds[0].command, "echo hi");
    assert_eq!(cmds[0].output, "hi");
    assert_eq!(cmds[0].time, "2024-05-06 12:00:00");
    assert_eq!(cmds[1].time, "2024-05-06 12:00:01");
    assert_eq!(cmds[1].counter, 1);
    assert_eq!(cmds[1].output, "cd requires a path");
    assert_eq!(app.command_input(), "");
    let echo = app.print_command_with_time(&NOON);
    assert_eq!(echo, "=> 2024-05-06 12:00:01 ");
}

#[test]
fn echo_line_without_commands_uses_now() {
    let mut app = MyApp::new();
    app.set_command_input("pwd".to_string());
    let echo = app.print_command_with_time(&NOON);
    assert_eq!(echo, "=> 2024-05-06 12:00:00 pwd");
}

#[test]
fn clear_empties_commands_and_input() {
    let mut app = MyApp::new();
    app.set_command_input("true".to_string());
    app.begin_send_command();
    app.finish_send_command(Ok(String::new()), &NOON);
    app.set_command_input("clear now".to_string());
    app.enter_pressed();
    assert_eq!(app.begin_send_command(), SendStep::Done);
    assert!(app.commands().is_empty());
    assert_eq!(app.command_input(), "");
    assert!(!app.send_button_pressed());
}

#[test]
fn exit_asks_to_close() {
    let mut app = MyApp::new();
    app.set_command_input(" exit ".to_string());
    assert_eq!(app.begin_send_command(), SendStep::Exit);
    assert_eq!(app.command_input(), " exit ");
    assert_eq!(app.custom_command_handling("ls"), CustomCommand::NotCustom);
    assert_eq!(app.custom_command_handling("exit 3"), CustomCommand::Exit);
}

#[test]
fn arrows_walk_history() {
    let mut app = MyApp::new();
    let content = b"first\nsecond\n";
    assert!(!app.arrow_down());
    assert!(app.arrow_up());
    assert_eq!(app.arrow_index(), 500);
    app.recall_history(content);
    assert_eq!(app.command_input(), "");
    for _ in 0..498 {
        assert!(app.arrow_up());
    }
    assert_eq!(app.arrow_index(), 2);
    app.recall_history(content);
    assert_eq!(app.command_input(), "second");
    assert!(app.arrow_up());
    app.recall_history(content);
    assert_eq!(app.command_input(), "first");
    assert!(app.arrow_up());
    assert_eq!(app.arrow_index(), 0);
    assert!(!app.arrow_up());
    assert!(app.arrow_down());
    assert_eq!(app.arrow_index(), 1);
}

#[test]
fn gemini_answer_becomes_input() {
    let mut app = MyApp::new();
    app.set_command_input("list files".to_string());
    assert_eq!(app.begin_gemini_request(), "list files");
    assert_eq!(app.gemini_input(), "list files");
    app.receive_gemini_response(None);
    assert_eq!(app.command_input(), "list files");
    app.receive_gemini_response(Some("ls -la".to_string()));
    assert_eq!(app.gemini_response(), "ls -la");
    assert_eq!(app.command_input(), "ls -la");
}
