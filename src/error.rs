//! The errors the shell reports to its user in place of a command's output.

use vstd::prelude::*;

verus! {

/// Why an input line or a command could not be handled.
#[derive(Clone, Copy, Debug, PartialEq, Eq, Structural)]
pub enum ShellError {
    /// The line held no command word.
    EmptyCommand,
    /// `type` or `cd` was not given exactly one argument.
    WrongArgumentCount,
    /// `exit` was not given exactly one argument, or it is not a decimal `i32`.
    InvalidExitCode,
    /// The word that opens a redirection is no redirection operator.
    UnknownRedirection,
    /// A redirection operator stands last, with no file after it.
    RedirectionTargetMissing,
    /// Changing directory failed for a reason other than a missing directory.
    DirectoryChangeFailed,
}

} // verus!
