//! The errors that operations and chains report.
use vstd::prelude::*;
use crate::files::FileArg;

verus! {

/// Why an operation could not be performed.  Operating-system errors are
/// carried as their text.
#[derive(Debug, PartialEq)]
pub enum SubProcError {
    /// A file that the operation needs was never specified.
    ErrorMissingFile,
    /// The directory to run in is not usable: the tool, the directory and the
    /// reason.
    ErrorBadDirectory(String, String, String),
    /// The command ran and failed: the tool, its arguments, the exit code if
    /// any, the directory, and what it wrote to its error stream.
    ErrorRunningCmd(String, Vec<String>, Option<i32>, Option<String>, String),
    /// The command could not be started: the tool, its arguments, the reason
    /// and the directory.
    ErrorCmdSetup(String, Vec<String>, String, Option<String>),
    /// A local call or a step on the way failed: the tool, its arguments, the
    /// reason and the directory.
    ErrorExecuting(String, Vec<String>, String, Option<String>),
    /// The file specification cannot be used by the tool.
    ErrorUnsupportedFile(String, FileArg),
    /// The actual files have a shape that the request cannot use.
    ErrorUnsupportedActualFile(String),
    /// No valid operation was specified.
    ErrorInvalidOperation,
}

/// An error that running an operation can end in: a missing file, or a
/// failure to set up, start, run or place a command or call.
pub open spec fn run_error(e: SubProcError) -> bool {
    ||| e is ErrorMissingFile
    ||| e is ErrorExecuting
    ||| e is ErrorCmdSetup
    ||| e is ErrorRunningCmd
    ||| e is ErrorBadDirectory
}

} // verus!
