//! The terminal window's state and the decisions taken on each event.
//!
//! The program that draws the window reads the keys and buttons, then calls
//! these steps in the order of a frame; it performs the reading and writing
//! of files and the running of commands that the steps ask for.
use vstd::prelude::*;
use vstd::string::StringExecFns;
use crate::clock::{format_timestamp, timestamp_text, LocalTime};
use crate::command::{plan_command, planned, CommandInstance, CommandPlan};
use crate::history::{get_string_from_file, recalled_line, split_lines};
use crate::text::decoded;
use crate::text::{split_words, words};

verus! {

/// The arrow index when no history line is being shown; one past the last line.
pub const ARROW_REST: i32 = 501;

/// What a command that was run holds.
pub struct CommandRecord {
    pub counter: i32,
    pub command: Seq<char>,
    pub output: Seq<char>,
    pub time: Seq<char>,
}

impl CommandInstance {
    /// The values this command holds.
    pub open spec fn record(&self) -> CommandRecord {
        CommandRecord {
            counter: self.counter,
            command: self.command@,
            output: self.output@,
            time: self.time@,
        }
    }
}

/// What the terminal holds, as values.
pub struct Screen {
    pub show_error: bool,
    pub command_input: Seq<char>,
    pub last_ran_cmd: Seq<char>,
    pub send_button_pressed: bool,
    pub commands: Seq<CommandRecord>,
    pub request_focus_next_frame: bool,
    pub gemini_response: Seq<char>,
    pub gemini_input: Seq<char>,
    pub arrow_index: i32,
}

impl Screen {
    /// The arrow index lies from 0 to `ARROW_REST`, and each command's counter
    /// is its position in the list.
    pub open spec fn wf(self) -> bool {
        &&& 0 <= self.arrow_index <= ARROW_REST
        &&& forall|i: int|
            0 <= i < self.commands.len() ==> #[trigger] self.commands[i].counter == i as i32
    }
}

/// The terminal when it opens.
pub open spec fn initial_screen() -> Screen {
    Screen {
        show_error: true,
        command_input: seq![],
        last_ran_cmd: seq![],
        send_button_pressed: false,
        commands: seq![],
        request_focus_next_frame: false,
        gemini_response: seq![],
        gemini_input: seq![],
        arrow_index: ARROW_REST,
    }
}

/// Whether a command is sent this frame: the send button was clicked, or
/// Enter was pressed in an earlier frame.
pub open spec fn sends(s: Screen, clicked: bool) -> bool {
    clicked || s.send_button_pressed
}

/// Sending puts the arrow index back at rest.
pub open spec fn after_send_request(s: Screen, clicked: bool) -> Screen {
    if sends(s, clicked) {
        Screen { arrow_index: ARROW_REST, ..s }
    } else {
        s
    }
}

/// The word that empties the list of commands.
pub open spec fn clear_word() -> Seq<char> {
    seq!['c', 'l', 'e', 'a', 'r']
}

/// The word that closes the terminal.
pub open spec fn exit_word() -> Seq<char> {
    seq!['e', 'x', 'i', 't']
}

/// What a command line handled by the terminal itself comes to.
#[derive(Debug, Clone, Copy, PartialEq, Eq)]
pub enum CustomCommand {
    /// The list of commands and the input were emptied.
    Cleared,
    /// The terminal is to close.
    Exit,
    /// The command line is not one the terminal handles itself.
    NotCustom,
}

/// What to do with the input when a command is sent.
#[derive(Debug, Clone, PartialEq, Eq)]
pub enum SendStep {
    /// Nothing more: the input was empty or handled by the terminal.
    Done,
    /// Close the terminal.
    Exit,
    /// Run the command line as planned, then call `finish_send_command`.
    Run(CommandPlan),
}

/// The terminal after `clear`.
pub open spec fn cleared(s: Screen) -> Screen {
    Screen { commands: seq![], command_input: seq![], ..s }
}

/// The terminal after the send of its input came to nothing more.
pub open spec fn send_settled(s: Screen) -> Screen {
    Screen { send_button_pressed: false, ..s }
}

/// The text of a command's outcome: its output, or the text of its error.
pub open spec fn outcome_text(outcome: Result<String, String>) -> Seq<char> {
    match outcome {
        Ok(text) => text@,
        Err(text) => text@,
    }
}

/// The terminal after the command in its input ran at `time` with `output`:
/// the command is recorded with its position as counter, and the input is emptied.
pub open spec fn after_command(s: Screen, output: Seq<char>, time: Seq<char>) -> Screen {
    Screen {
        commands: s.commands.push(
            CommandRecord {
                counter: s.commands.len() as i32,
                command: s.command_input,
                output,
                time,
            },
        ),
        command_input: seq![],
        send_button_pressed: false,
        ..s
    }
}

/// The line printed when a command is sent.
pub open spec fn echo_text(time: Seq<char>, command: Seq<char>) -> Seq<char> {
    seq!['=', '>', ' '] + time + seq![' '] + command
}

/// The terminal after Enter was pressed: the input is remembered as the last
/// command, sent in the next frame, and the input field asks for the focus.
pub open spec fn after_enter(s: Screen) -> Screen {
    Screen {
        last_ran_cmd: s.command_input,
        send_button_pressed: true,
        request_focus_next_frame: true,
        ..s
    }
}

/// Arrow up moves one history line back unless it is at the start.
pub open spec fn after_arrow_up(s: Screen) -> Screen {
    if s.arrow_index != 0 {
        Screen { arrow_index: (s.arrow_index - 1) as i32, ..s }
    } else {
        s
    }
}

/// Arrow down moves one history line forward unless it is at rest.
pub open spec fn after_arrow_down(s: Screen) -> Screen {
    if s.arrow_index != ARROW_REST {
        Screen { arrow_index: (s.arrow_index + 1) as i32, ..s }
    } else {
        s
    }
}

/// The terminal showing the history line at the arrow index in its input.
pub open spec fn after_recall(s: Screen, content: Seq<u8>) -> Screen {
    Screen { command_input: recalled_line(content, s.arrow_index as int), ..s }
}

/// The terminal state: the input line, the commands run, and the position in
/// the command history.
pub struct MyApp {
    show_error: bool,
    command_input: String,
    last_ran_cmd: String,
    send_button_pressed: bool,
    commands: Vec<CommandInstance>,
    request_focus_next_frame: bool,
    gemini_response: String,
    gemini_input: String,
    arrow_index: i32,
}

impl View for MyApp {
    type V = Screen;

    closed spec fn view(&self) -> Screen {
        Screen {
            show_error: self.show_error,
            command_input: self.command_input@,
            last_ran_cmd: self.last_ran_cmd@,
            send_button_pressed: self.send_button_pressed,
            commands: self.commands@.map_values(|c: CommandInstance| c.record()),
            request_focus_next_frame: self.request_focus_next_frame,
            gemini_response: self.gemini_response@,
            gemini_input: self.gemini_input@,
            arrow_index: self.arrow_index,
        }
    }
}

impl Default for MyApp {
    /// The terminal when it opens.
    fn default() -> (app: MyApp)
        ensures
            app@ == initial_screen(),
    {
        MyApp::new()
    }
}

impl MyApp {
    /// The terminal when it opens.
    pub fn new() -> (app: MyApp)
        ensures
            app@ == initial_screen(),
            app@.wf(),
    {
        let app = MyApp {
            show_error: true,
            command_input: String::new(),
            last_ran_cmd: String::new(),
            send_button_pressed: false,
            commands: Vec::new(),
            request_focus_next_frame: false,
            gemini_response: String::new(),
            gemini_input: String::new(),
            arrow_index: ARROW_REST,
        };
        assert(app@.commands =~= Seq::<CommandRecord>::empty());
        app
    }

    /// Whether the window's content is drawn.
    pub fn show_error(&self) -> (show: bool)
        ensures
            show == self@.show_error,
    {
        self.show_error
    }

    /// The text in the input field.
    pub fn command_input(&self) -> (text: &String)
        ensures
            text@ == self@.command_input,
    {
        &self.command_input
    }

    /// Puts `text` in the input field, as typing does.
    pub fn set_command_input(&mut self, text: String)
        requires
            old(self)@.wf(),
        ensures
            final(self)@ == (Screen { command_input: text@, ..old(self)@ }),
            final(self)@.wf(),
    {
        self.command_input = text;
    }

    /// The command shown in the top panel: the input when Enter was last pressed.
    pub fn last_ran_cmd(&self) -> (text: &String)
        ensures
            text@ == self@.last_ran_cmd,
    {
        &self.last_ran_cmd
    }

    /// The commands run, oldest first.
    pub fn commands(&self) -> (list: &Vec<CommandInstance>)
        ensures
            list@.map_values(|c: CommandInstance| c.record()) == self@.commands,
    {
        &self.commands
    }

    /// Gemini's last answer.
    pub fn gemini_response(&self) -> (text: &String)
        ensures
            text@ == self@.gemini_response,
    {
        &self.gemini_response
    }

    /// The last request sent to Gemini.
    pub fn gemini_input(&self) -> (text: &String)
        ensures
            text@ == self@.gemini_input,
    {
        &self.gemini_input
    }

    /// The line of the history that the arrow keys reached (`ARROW_REST` when none).
    pub fn arrow_index(&self) -> (index: i32)
        ensures
            index == self@.arrow_index,
    {
        self.arrow_index
    }

    /// Whether Enter asked for a send in the next frame.
    pub fn send_button_pressed(&self) -> (pressed: bool)
        ensures
            pressed == self@.send_button_pressed,
    {
        self.send_button_pressed
    }

    /// Whether the input field asked for the focus.
    pub fn request_focus_next_frame(&self) -> (asked: bool)
        ensures
            asked == self@.request_focus_next_frame,
    {
        self.request_focus_next_frame
    }

    /// Decides whether a command is sent this frame; sending puts the arrow
    /// index back at rest. The caller then appends the input to the history
    /// file and sends it with `begin_send_command`.
    pub fn request_send(&mut self, clicked: bool) -> (send: bool)
        requires
            old(self)@.wf(),
        ensures
            send == sends(old(self)@, clicked),
            final(self)@ == after_send_request(old(self)@, clicked),
            final(self)@.wf(),
    {
        if clicked || self.send_button_pressed {
            self.arrow_index = ARROW_REST;
            true
        } else {
            false
        }
    }

    /// The line printed when the input is sent: the time of the last command
    /// run, or the clock reading `now` when there is none, then the input.
    pub fn print_command_with_time(&self, now: &LocalTime) -> (line: String)
        requires
            now.wf(),
        ensures
            self@.commands.len() > 0 ==> line@ == echo_text(
                self@.commands.last().time,
                self@.command_input,
            ),
            self@.commands.len() == 0 ==> line@ == echo_text(
                timestamp_text(*now),
                self@.command_input,
            ),
    {
        let mut line = "=> ".to_owned();
        if self.commands.len() > 0 {
            let last = self.commands.len() - 1;
            line.append(self.commands[last].time.as_str());
        } else {
            let time = format_timestamp(now);
            line.append(time.as_str());
        }
        line.append(" ");
        line.append(self.command_input.as_str());
        proof {
            reveal_strlit("=> ");
            reveal_strlit(" ");
        }
        line
    }

    /// Handles the command lines that the terminal runs itself: `clear`
    /// empties the list of commands and the input; `exit` closes the terminal.
    pub fn custom_command_handling(&mut self, command: &str) -> (handled: CustomCommand)
        requires
            old(self)@.wf(),
            words(command@).len() > 0,
        ensures
            words(command@)[0] == clear_word() ==> handled is Cleared && final(self)@ == cleared(
                old(self)@,
            ),
            words(command@)[0] == exit_word() ==> handled is Exit && final(self)@ == old(self)@,
            words(command@)[0] != clear_word() && words(command@)[0] != exit_word()
                ==> handled is NotCustom && final(self)@ == old(self)@,
            final(self)@.wf(),
    {
        let parts = split_words(command);
        let clear = "clear".to_owned();
        let exit = "exit".to_owned();
        proof {
            reveal_strlit("clear");
            reveal_strlit("exit");
            assert(parts@[0]@ == words(command@)[0]);
            assert(clear@ =~= clear_word());
            assert(exit@ =~= exit_word());
        }
        let is_clear = parts[0] == clear;
        let is_exit = parts[0] == exit;
        if is_clear {
            self.commands.clear();
            self.command_input = String::new();
            assert(self@.commands =~= Seq::<CommandRecord>::empty());
            return CustomCommand::Cleared;
        }
        if is_exit {
            return CustomCommand::Exit;
        }
        CustomCommand::NotCustom
    }

    /// Sends the input: an empty input comes to
    /// nothing; `clear` and `exit` are handled by the terminal; any other
    /// command is to be run as planned, after which the caller hands its
    /// outcome to `finish_send_command`.
    ///
    /// The caller prints `print_command_with_time` and records
    /// `bash_history_entry` of the input before.
    pub fn begin_send_command(&mut self) -> (step: SendStep)
        requires
            old(self)@.wf(),
            old(self)@.command_input.len() == 0 || words(old(self)@.command_input).len() > 0,
        ensures
            old(self)@.command_input.len() == 0 ==> step is Done && final(self)@ == send_settled(
                old(self)@,
            ),
            old(self)@.command_input.len() > 0 && words(old(self)@.command_input)[0]
                == clear_word() ==> step is Done && final(self)@ == send_settled(
                cleared(old(self)@),
            ),
            old(self)@.command_input.len() > 0 && words(old(self)@.command_input)[0]
                == exit_word() ==> step is Exit && final(self)@ == old(self)@,
            old(self)@.command_input.len() > 0 && words(old(self)@.command_input)[0]
                != clear_word() && words(old(self)@.command_input)[0] != exit_word() ==> (
            step matches SendStep::Run(plan) && planned(old(self)@.command_input, plan)
                && final(self)@ == old(self)@),
            final(self)@.wf(),
    {
        if self.command_input.as_str().is_empty() {
            self.send_button_pressed = false;
            return SendStep::Done;
        }
        let command = self.command_input.clone();
        match self.custom_command_handling(command.as_str()) {
            CustomCommand::Cleared => {
                self.send_button_pressed = false;
                SendStep::Done
            },
            CustomCommand::Exit => SendStep::Exit,
            CustomCommand::NotCustom => SendStep::Run(plan_command(command.as_str())),
        }
    }

    /// Records the command in the input with its outcome and the clock reading
    /// `now`, then empties the input.
    pub fn finish_send_command(&mut self, outcome: Result<String, String>, now: &LocalTime)
        requires
            old(self)@.wf(),
            now.wf(),
        ensures
            final(self)@ == after_command(old(self)@, outcome_text(outcome), timestamp_text(*now)),
            final(self)@.wf(),
    {
        let output = match outcome {
            Ok(text) => text,
            Err(text) => text,
        };
        let time = format_timestamp(now);
        let record = CommandInstance {
            counter: self.commands.len() as i32,
            command: self.command_input.clone(),
            output,
            time,
        };
        let ghost old_view = self@;
        self.commands.push(record);
        self.command_input = String::new();
        self.send_button_pressed = false;
        assert(self@.commands =~= old_view.commands.push(record.record()));
        assert(self@ == after_command(old_view, outcome_text(outcome), record.time@));
    }

    /// Starts a request to Gemini with the input; returns the text to send.
    pub fn begin_gemini_request(&mut self) -> (request: String)
        requires
            old(self)@.wf(),
        ensures
            request@ == old(self)@.command_input,
            final(self)@ == (Screen { gemini_input: old(self)@.command_input, ..old(self)@ }),
            final(self)@.wf(),
    {
        self.gemini_input = self.command_input.clone();
        self.gemini_input.clone()
    }

    /// Takes Gemini's answer, when there is one, as the new input.
    pub fn receive_gemini_response(&mut self, answer: Option<String>)
        requires
            old(self)@.wf(),
        ensures
            answer matches Some(text) ==> final(self)@ == (Screen {
                gemini_response: text@,
                command_input: text@,
                ..old(self)@
            }),
            answer is None ==> final(self)@ == old(self)@,
            final(self)@.wf(),
    {
        if let Some(text) = answer {
            self.gemini_response = text;
            self.command_input = self.gemini_response.clone();
        }
    }

    /// Enter was pressed.
    pub fn enter_pressed(&mut self)
        requires
            old(self)@.wf(),
        ensures
            final(self)@ == after_enter(old(self)@),
            final(self)@.wf(),
    {
        self.last_ran_cmd = self.command_input.clone();
        self.send_button_pressed = true;
        self.request_focus_next_frame = true;
        assert(self@.commands == old(self)@.commands);
    }

    /// Arrow up was pressed; returns whether the caller is to show the history
    /// line at the new index with `recall_history`.
    pub fn arrow_up(&mut self) -> (moved: bool)
        requires
            old(self)@.wf(),
        ensures
            moved == (old(self)@.arrow_index != 0),
            final(self)@ == after_arrow_up(old(self)@),
            final(self)@.wf(),
    {
        if self.arrow_index != 0 {
            self.arrow_index = self.arrow_index - 1;
            assert(self@.commands == old(self)@.commands);
            true
        } else {
            false
        }
    }

    /// Arrow down was pressed; returns whether the caller is to show the
    /// history line at the new index with `recall_history`.
    pub fn arrow_down(&mut self) -> (moved: bool)
        requires
            old(self)@.wf(),
        ensures
            moved == (old(self)@.arrow_index != ARROW_REST),
            final(self)@ == after_arrow_down(old(self)@),
            final(self)@.wf(),
    {
        if self.arrow_index != ARROW_REST {
            self.arrow_index = self.arrow_index + 1;
            assert(self@.commands == old(self)@.commands);
            true
        } else {
            false
        }
    }

    /// Shows the line of the history file `content` at the arrow index in the input.
    pub fn recall_history(&mut self, content: &[u8])
        requires
            old(self)@.wf(),
        ensures
            final(self)@ == after_recall(old(self)@, content@),
            final(self)@.wf(),
    {
        self.command_input = get_string_from_file(content, self.arrow_index);
        assert(self@.commands == old(self)@.commands);
    }

    /// Takes the request for the input field's focus; returns whether there was one.
    pub fn take_focus_request(&mut self) -> (asked: bool)
        requires
            old(self)@.wf(),
        ensures
            asked == old(self)@.request_focus_next_frame,
            final(self)@ == (Screen { request_focus_next_frame: false, ..old(self)@ }),
            final(self)@.wf(),
    {
        let asked = self.request_focus_next_frame;
        self.request_focus_next_frame = false;
        asked
    }
}

/// Arrow down undoes arrow up, and arrow up undoes arrow down, wherever the
/// first key moved the index.
pub proof fn lemma_arrow_keys_undo(s: Screen)
    requires
        s.wf(),
    ensures
        s.arrow_index != 0 ==> after_arrow_down(after_arrow_up(s)) == s,
        s.arrow_index != ARROW_REST ==> after_arrow_up(after_arrow_down(s)) == s,
        after_arrow_up(s).wf(),
        after_arrow_down(s).wf(),
{
    assert(after_arrow_up(s).commands == s.commands);
    assert(after_arrow_down(s).commands == s.commands);
}

/// Pressing Enter sends the input in the next frame, even without a click,
/// and the send puts the arrow index back at rest.
pub proof fn lemma_enter_sends_next_frame(s: Screen)
    requires
        s.wf(),
    ensures
        sends(after_enter(s), false),
        after_send_request(after_enter(s), false).arrow_index == ARROW_REST,
        after_send_request(after_enter(s), false).last_ran_cmd == s.command_input,
{
}

/// Running a command keeps the counters equal to the positions: the new
/// command is last, numbered with how many came before, and the input is empty.
pub proof fn lemma_command_recorded(s: Screen, output: Seq<char>, time: Seq<char>)
    requires
        s.wf(),
    ensures
        after_command(s, output, time).wf(),
        after_command(s, output, time).commands.len() == s.commands.len() + 1,
        after_command(s, output, time).commands.last() == (CommandRecord {
            counter: s.commands.len() as i32,
            command: s.command_input,
            output,
            time,
        }),
        after_command(s, output, time).command_input.len() == 0,
{
    let t = after_command(s, output, time);
    assert forall|i: int| 0 <= i < t.commands.len() implies #[trigger] t.commands[i].counter
        == i as i32 by {
        if i < s.commands.len() {
            assert(t.commands[i] == s.commands[i]);
        }
    }
}

/// `clear` leaves no command and an empty input, and keeps the rest.
pub proof fn lemma_clear_empties(s: Screen)
    requires
        s.wf(),
    ensures
        cleared(s).wf(),
        cleared(s).commands.len() == 0,
        cleared(s).command_input.len() == 0,
        cleared(s).arrow_index == s.arrow_index,
{
}

/// A click on Send always sends, whatever the state, and any send puts the
/// history position back at rest without touching anything else; without a
/// click, only a pending Enter sends, and otherwise nothing changes.
pub proof fn lemma_send_request(s: Screen, clicked: bool)
    ensures
        sends(s, true),
        after_send_request(s, true) == (Screen { arrow_index: ARROW_REST, ..s }),
        sends(s, clicked) ==> after_send_request(s, clicked).arrow_index == ARROW_REST,
        sends(s, false) == s.send_button_pressed,
        !clicked && !s.send_button_pressed ==> after_send_request(s, clicked) == s,
        after_send_request(s, clicked).command_input == s.command_input,
        after_send_request(s, clicked).commands == s.commands,
        after_send_request(s, clicked).send_button_pressed == s.send_button_pressed,
{
}

/// Recalling a history line always replaces the input: with the text of the
/// line at the arrow index when there is such a line and it is UTF-8 text,
/// and with nothing otherwise, whatever the input held; nothing else changes.
pub proof fn lemma_recall_replaces_input(s: Screen, content: Seq<u8>)
    ensures
        ({
            let lines = split_lines(content);
            let t = after_recall(s, content);
            &&& (s.arrow_index <= 0 || s.arrow_index > lines.len()) ==> t.command_input.len() == 0
            &&& 1 <= s.arrow_index <= lines.len() ==> (decoded(lines[s.arrow_index - 1]) matches Some(
                text,
            ) ==> t.command_input == text)
            &&& 1 <= s.arrow_index <= lines.len() ==> (decoded(lines[s.arrow_index - 1]) is None
                ==> t.command_input.len() == 0)
            &&& t.arrow_index == s.arrow_index
            &&& t.commands == s.commands
            &&& t.last_ran_cmd == s.last_ran_cmd
            &&& t.send_button_pressed == s.send_button_pressed
            &&& t.gemini_response == s.gemini_response
            &&& t.gemini_input == s.gemini_input
            &&& t.request_focus_next_frame == s.request_focus_next_frame
            &&& t.show_error == s.show_error
        }),
{
}

} // verus!
