//! The failure taxonomy shared by the whole library.

use vstd::prelude::*;

verus! {

/// Every way an operation of this library can fail.
///
/// `ExternalToolFailure` carries the invoked command line and its exit
/// status, so failures of outside tools keep their diagnostics.
#[derive(Debug, Clone, PartialEq, Eq)]
pub enum Error {
    /// An external command exited with a non-zero status.
    ExternalToolFailure { command: String, status: i32 },
    /// A line of tool output did not have the expected shape.
    ParseFailure { line: String },
    /// The destination's newest snapshot is unknown to the source.
    DivergedHistory,
    /// The destination volume exists but holds no snapshot to extend.
    EmptyDestination,
    /// The volume is not present in the system mount table.
    NotMounted,
    /// The request itself is unusable (bad pattern, unknown volume, ...).
    ConfigurationError,
}

impl Error {
    /// The error is a parse failure remembering exactly the line `l`.
    pub open spec fn is_parse_failure_of(self, l: Seq<char>) -> bool {
        match self {
            Error::ParseFailure { line } => line@ == l,
            _ => false,
        }
    }

    /// The error is an external-tool failure for command `cmd` with exit
    /// status `status`.
    pub open spec fn is_tool_failure_of(self, cmd: Seq<char>, status: i32) -> bool {
        match self {
            Error::ExternalToolFailure { command, status: st } => command@ == cmd && st == status,
            _ => false,
        }
    }

    /// Build a parse failure that remembers the offending line.
    pub fn parse_failure(line: &str) -> (r: Error)
        ensures
            r.is_parse_failure_of(line@),
    {
        Error::ParseFailure { line: line.to_owned() }
    }
}

/// Map an external command's exit to the library's result type: success is
/// `Ok`, anything else names the command and its status.
pub fn check_exit(command: &str, success: bool, status: i32) -> (r: Result<(), Error>)
    ensures
        success <==> r is Ok,
        !success ==> (r matches Err(e) && e.is_tool_failure_of(command@, status)),
{
    if success {
        Ok(())
    } else {
        Err(Error::ExternalToolFailure { command: command.to_owned(), status })
    }
}

} // verus!
