//! Commands typed at the prompt: what running one means, and what it printed.
use vstd::prelude::*;
use vstd::string::StringExecFns;
use vstd::utf8::{decode_utf8, valid_utf8};
use crate::text::{join_with_spaces, join_words, split_words, string_views, trim_text, trimmed, words};

verus! {

/// A command that was run, with what it printed and when.
#[derive(Debug, Clone)]
pub struct CommandInstance {
    /// The position of the command in the list of commands shown.
    pub counter: i32,
    /// The command line as it was typed.
    pub command: String,
    /// What the command printed, or why it failed.
    pub output: String,
    /// When the command ran.
    pub time: String,
}

/// What a command line asks for.
#[derive(Debug, Clone, PartialEq, Eq)]
pub enum CommandPlan {
    /// Change the working directory to `path`, taken relative to the current one.
    ChangeDirectory { path: String },
    /// `cd` without a directory.
    MissingPath,
    /// Run the command line with `sh -c` in the working directory.
    Shell,
}

/// The word that changes the working directory.
pub open spec fn cd_word() -> Seq<char> {
    seq!['c', 'd']
}

/// The words of a command line after the first, with one space between each two.
pub open spec fn command_arguments(command: Seq<char>) -> Seq<char> {
    join_words(words(command).skip(1))
}

/// What `command` asks for: a change of directory when its first word is `cd`,
/// a shell command otherwise.
pub open spec fn planned(command: Seq<char>, plan: CommandPlan) -> bool {
    if words(command)[0] != cd_word() {
        plan is Shell
    } else if command_arguments(command).len() == 0 {
        plan is MissingPath
    } else {
        plan matches CommandPlan::ChangeDirectory { path } && path@ == command_arguments(command)
    }
}

/// Decides what the command line `command` asks for.
pub fn plan_command(command: &str) -> (plan: CommandPlan)
    requires
        words(command@).len() > 0,
    ensures
        planned(command@, plan),
{
    let parts = split_words(command);
    let rest = join_with_spaces(&parts, 1);
    let cd = "cd".to_owned();
    proof {
        reveal_strlit("cd");
        assert(parts@[0]@ == words(command@)[0]);
        assert(string_views(parts@).skip(1) =~= words(command@).skip(1));
        assert(cd@ =~= cd_word());
    }
    let is_cd = parts[0] == cd;
    if !is_cd {
        CommandPlan::Shell
    } else if rest.as_str().is_empty() {
        CommandPlan::MissingPath
    } else {
        CommandPlan::ChangeDirectory { path: rest }
    }
}

/// The kind of a command's failure that the terminal itself decides.
#[derive(Debug, Clone, Copy, PartialEq, Eq, Structural)]
pub enum CommandErrorKind {
    /// The command line lacks what it needs (`cd` without a directory).
    InvalidInput,
    /// The command wrote to its standard error.
    Other,
}

/// A command's failure: its kind and its text.
#[derive(Debug, Clone, PartialEq, Eq)]
pub struct CommandError {
    pub kind: CommandErrorKind,
    pub message: String,
}

/// The failure of `cd` without a directory.
pub fn missing_path_error() -> (error: CommandError)
    ensures
        error.kind == CommandErrorKind::InvalidInput,
        error.message@ == "cd requires a path"@,
{
    CommandError { kind: CommandErrorKind::InvalidInput, message: "cd requires a path".to_owned() }
}

/// The outcome of a change of directory: a confirmation when it succeeded, the
/// error otherwise.
pub fn directory_change_outcome<E>(changed: Result<(), E>) -> (outcome: Result<String, E>)
    ensures
        changed is Ok ==> (outcome matches Ok(text) && text@ == "Directory changed"@),
        changed matches Err(e) ==> outcome == Err::<String, E>(e),
{
    match changed {
        Ok(()) => Ok("Directory changed".to_owned()),
        Err(e) => Err(e),
    }
}

/// The text that `String::from_utf8_lossy` makes of `bytes`.
pub uninterp spec fn lossy_text(bytes: Seq<u8>) -> Seq<char>;

/// Decodes `bytes` with `String::from_utf8_lossy`, which puts U+FFFD in place
/// of each sequence that is not UTF-8.
///
/// Trusted: the result is named `lossy_text` of the bytes; std documents that
/// valid UTF-8 comes out as the text it encodes. What becomes of invalid
/// sequences is not stated beyond the name.
#[verifier::external_body]
fn lossy_string(bytes: &[u8]) -> (text: String)
    ensures
        text@ == lossy_text(bytes@),
        valid_utf8(bytes@) ==> text@ == decode_utf8(bytes@),
{
    String::from_utf8_lossy(bytes).into_owned()
}

/// The outcome of a shell command from the text it wrote to standard output
/// and to standard error: anything on standard error makes it a failure with
/// that text; otherwise it is the standard output without surrounding white space.
pub fn shell_text_outcome(stdout: &str, stderr: &str) -> (outcome: Result<String, CommandError>)
    ensures
        stderr@.len() > 0 ==> (outcome matches Err(e) && e.kind == CommandErrorKind::Other
            && e.message@ == stderr@),
        stderr@.len() == 0 ==> (outcome matches Ok(text) && text@ == trimmed(stdout@)),
{
    if !stderr.is_empty() {
        Err(CommandError { kind: CommandErrorKind::Other, message: stderr.to_owned() })
    } else {
        Ok(trim_text(stdout))
    }
}

/// The outcome of a shell command from the bytes it wrote to standard output
/// and to standard error, decoded as `String::from_utf8_lossy` does.
pub fn shell_outcome(stdout: &[u8], stderr: &[u8]) -> (outcome: Result<String, CommandError>)
    ensures
        lossy_text(stderr@).len() > 0 ==> (outcome matches Err(e) && e.kind
            == CommandErrorKind::Other && e.message@ == lossy_text(stderr@)),
        lossy_text(stderr@).len() == 0 ==> (outcome matches Ok(text) && text@ == trimmed(
            lossy_text(stdout@),
        )),
        valid_utf8(stderr@) && decode_utf8(stderr@).len() > 0 ==> (outcome matches Err(e)
            && e.kind == CommandErrorKind::Other && e.message@ == decode_utf8(stderr@)),
        valid_utf8(stderr@) && decode_utf8(stderr@).len() == 0 && valid_utf8(stdout@) ==> (
        outcome matches Ok(text) && text@ == trimmed(decode_utf8(stdout@))),
{
    let out = lossy_string(stdout);
    let err = lossy_string(stderr);
    shell_text_outcome(out.as_str(), err.as_str())
}

} // verus!
