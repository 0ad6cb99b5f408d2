//! The `mkdir` helper program: which directory its arguments name.
use vstd::prelude::*;
use vstd::string::StringExecFns;

verus! {

/// The directory named by the program's arguments (the program's own name
/// first): there must be exactly one argument after it.
pub fn mkdir_target(args: &Vec<String>) -> (target: Option<String>)
    ensures
        target is Some <==> args@.len() == 2,
        target matches Some(dir) ==> dir@ == args@[1]@,
{
    if args.len() != 2 {
        None
    } else {
        Some(args[1].clone())
    }
}

/// The line printed when the arguments do not name one directory.
pub fn mkdir_usage() -> (text: String)
    ensures
        text@ == "Usage: mkdir <directory>"@,
{
    "Usage: mkdir <directory>".to_owned()
}

/// The line printed when `directory` could not be created, with the error's text.
pub fn mkdir_failure(directory: &str, error: &str) -> (text: String)
    ensures
        text@ == "Failed to create directory '"@ + directory@ + "': "@ + error@,
{
    let mut text = "Failed to create directory '".to_owned();
    text.append(directory);
    text.append("': ");
    text.append(error);
    text
}

} // verus!
