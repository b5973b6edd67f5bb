//! The ways in which preparing one test file can fail.

use vstd::prelude::*;

verus! {

/// Why a test file could not be assembled or run.
#[derive(Debug, PartialEq, Eq)]
pub enum HarnessError {
    /// The metadata markers are missing or out of order.
    MalformedInput,
    /// The metadata block is not valid YAML, or holds no document.
    ParseError,
    /// A support file could not be opened; it carries the file's name.
    IncludeNotFound(String),
    /// Reading or writing a file failed; it carries the system's message.
    IoError(String),
    /// The interpreter could not be started; it carries the system's message.
    SpawnError(String),
    /// The interpreter ran and exited with a failing status; it carries that status.
    InterpreterFailed(String),
}

} // verus!
