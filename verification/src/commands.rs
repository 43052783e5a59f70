//! What the window's queries are answered with: the launch options, kept for
//! the life of the process, and the user's home directory.

use vstd::prelude::*;
use vstd::string::*;
use crate::options::CliOptions;

verus! {

/// The launch options of this process: made once at startup, then only read.
pub struct CliState {
    options: CliOptions,
}

/// The message given where no home directory is known.
pub open spec fn no_home_message() -> Seq<char> {
    "Could not determine home directory"@
}

/// A copy of an optional string.
fn copy_of(text: &Option<String>) -> (copy: Option<String>)
    ensures
        copy == *text,
{
    match text {
        Some(s) => Some(s.clone()),
        None => None,
    }
}

impl CliState {
    /// The options that the state holds.
    pub closed spec fn options_view(&self) -> CliOptions {
        self.options
    }

    /// Keeps the options.
    pub fn new(options: CliOptions) -> (state: CliState)
        ensures
            state.options_view() == options,
    {
        CliState { options }
    }
}

/// The document to open on startup, if the command line named one.
pub fn get_cli_file_path(state: &CliState) -> (file: Option<String>)
    ensures
        file == state.options_view().file_path,
{
    copy_of(&state.options.file_path)
}

/// The launch options in full.
pub fn get_cli_options(state: &CliState) -> (options: CliOptions)
    ensures
        options == state.options_view(),
{
    CliOptions {
        file_path: copy_of(&state.options.file_path),
        bundle_dir: copy_of(&state.options.bundle_dir),
        principles_path: copy_of(&state.options.principles_path),
        out_path: copy_of(&state.options.out_path),
    }
}

/// The user's home directory as `dirs::home_dir` finds it, as text. What it
/// finds depends on the environment and on the user database, so nothing is
/// claimed of the result.
#[verifier::external_body]
fn home_dir_text() -> (home: Option<String>) {
    match dirs::home_dir() {
        Some(path) => Some(path.to_string_lossy().to_string()),
        None => None,
    }
}

/// The reply for a home directory that was looked up: the directory, or the
/// message that none is known.
pub fn home_dir_reply(home: Option<String>) -> (reply: Result<String, String>)
    ensures
        match home {
            Some(path) => reply == Ok::<String, String>(path),
            None => reply.is_err() && reply.unwrap_err()@ == no_home_message(),
        },
{
    match home {
        Some(path) => Ok(path),
        None => Err("Could not determine home directory".to_owned()),
    }
}

/// Looks up the user's home directory. Whether one is found is the
/// system's matter; where none is, the reply is the message that says so.
pub fn get_home_dir() -> (reply: Result<String, String>)
    ensures
        reply.is_err() ==> reply.unwrap_err()@ == no_home_message(),
{
    home_dir_reply(home_dir_text())
}

} // verus!
