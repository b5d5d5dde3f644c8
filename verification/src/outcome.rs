//! The command's error taxonomy and the mapping from the subprocess
//! outcome to the command's result.

use vstd::prelude::*;
use vstd::string::*;

verus! {

/// The OS error kind reported when a subprocess could not be launched.
#[derive(Clone, Copy, PartialEq, Eq, Structural, Debug)]
pub enum OsErrorKind {
    NotFound,
    PermissionDenied,
    Interrupted,
    WouldBlock,
    Other,
}

/// What can go wrong while driving the runner. Resolver, builder and
/// directory-listing failures are propagated as they surfaced; only the
/// `ShellCommand` variant originates here.
#[derive(PartialEq, Debug)]
pub enum Error {
    /// The resolver could not produce a configuration.
    ConfigLoad { message: String },
    /// The builder failed.
    Build { message: String },
    /// Listing the build-library directory failed.
    Filesystem { message: String },
    /// The runner subprocess could not be launched (`cause` holds the OS
    /// error kind) or exited non-zero (`cause` is absent).
    ShellCommand { command: String, cause: Option<OsErrorKind> },
}

/// How launching the runner subprocess went.
#[derive(Clone, Copy, PartialEq, Eq, Structural, Debug)]
pub enum SpawnOutcome {
    /// The process ran to completion; `exit_success` is whether it exited
    /// with status zero.
    Spawned { exit_success: bool },
    /// The spawn itself failed with the given OS error kind.
    Failed { kind: OsErrorKind },
}

/// Maps the subprocess outcome to the command's outcome: exit zero is
/// success; a non-zero exit is a `ShellCommand` error without a cause; a
/// failed spawn is a `ShellCommand` error whose cause is the OS error
/// kind. The error always names the runner executable.
pub fn run_outcome(spawn: SpawnOutcome) -> (r: Result<(), Error>)
    ensures
        match spawn {
            SpawnOutcome::Spawned { exit_success } => if exit_success {
                r is Ok
            } else {
                r matches Err(Error::ShellCommand { command, cause }) && command@ == "erl"@
                    && cause is None
            },
            SpawnOutcome::Failed { kind } => r matches Err(
                Error::ShellCommand { command, cause },
            ) && command@ == "erl"@ && cause == Some(kind),
        },
{
    match spawn {
        SpawnOutcome::Spawned { exit_success } => {
            if exit_success {
                Ok(())
            } else {
                Err(Error::ShellCommand { command: String::from_str("erl"), cause: None })
            }
        },
        SpawnOutcome::Failed { kind } => {
            Err(Error::ShellCommand { command: String::from_str("erl"), cause: Some(kind) })
        },
    }
}

} // verus!
