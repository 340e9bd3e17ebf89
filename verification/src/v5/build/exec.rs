//! The outcome of a shell command run inside a repo checkout (the
//! running itself is done by the program around this library).

use vstd::prelude::*;

use crate::text::concat;

verus! {

/// An I/O failure of running a command.
#[derive(Debug, Clone)]
pub enum ExecError {
    Io(String),
}

impl ExecError {
    /// The stable machine-readable code of the error.
    pub fn code(&self) -> (s: &'static str)
        ensures
            s@ == "io"@,
    {
        "io"
    }

    /// The human-readable description of the error.
    pub fn message(&self) -> (s: String)
        ensures
            s@ == match self {
                ExecError::Io(m) => "io error: "@ + m@,
            },
    {
        match self {
            ExecError::Io(m) => concat("io error: ", m.as_str()),
        }
    }
}

/// The captured outcome of a command.
#[derive(Debug, Clone)]
pub struct ExecResult {
    pub exit_code: i32,
    pub stdout: String,
    pub stderr: String,
}

} // verus!
