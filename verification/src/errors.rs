//! The tool's error type.
//!
//! Three kinds of failure are fatal: replacing the process image with the
//! editor, filesystem I/O, and reading timestamps from the clock. Each
//! carries the message that is printed to standard error before the process
//! exits with the fixed failure status.

use vstd::prelude::*;

verus! {

/// The process exit status used for every error.
pub const FAILURE_EXIT_CODE: i32 = 7;

/// A fatal failure, carrying the message to print to standard error.
#[derive(Debug, Clone, PartialEq, Eq)]
pub enum Error {
    /// Replacing the process image with the editor failed.
    Exec(String),
    /// A filesystem operation failed.
    IO(String),
    /// Reading a modification or current timestamp failed.
    Clock(String),
}

impl Error {
    /// The message carried by the error, whatever its kind.
    pub open spec fn message_view(&self) -> Seq<char> {
        match self {
            Error::Exec(m) => m@,
            Error::IO(m) => m@,
            Error::Clock(m) => m@,
        }
    }

    /// The message that the tool prints to standard error.
    pub fn message(&self) -> (r: &String)
        ensures
            r@ == self.message_view(),
    {
        match self {
            Error::Exec(m) => m,
            Error::IO(m) => m,
            Error::Clock(m) => m,
        }
    }

    /// The status the process exits with on this error: always the fixed
    /// failure status.
    pub fn exit_code(&self) -> (r: i32)
        ensures
            r == FAILURE_EXIT_CODE,
    {
        FAILURE_EXIT_CODE
    }
}

} // verus!
