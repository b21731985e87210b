//! Failure kinds and their process exit codes.

use vstd::prelude::*;

verus! {

/// Why a run failed. Each variant but `CommandFailed` carries the message
/// that the remote-management library gave.
pub enum Failure {
    /// Credentials or authentication method rejected by the host.
    AuthenticationFailed(String),
    /// Host unreachable, connection refused, TLS failure.
    ConnectionError(String),
    /// Malformed or unexpected protocol response.
    InvalidResponse(String),
    /// Upload or download failed.
    FileTransferError(String),
    /// The remote command ran and exited with this non-zero code.
    CommandFailed(i32),
    /// Any other failure.
    Other(String),
}

pub const EXIT_SUCCESS: i32 = 0;

pub const EXIT_AUTH_ERROR: i32 = 1;

pub const EXIT_CONNECTION_ERROR: i32 = 2;

pub const EXIT_COMMAND_ERROR: i32 = 3;

pub const EXIT_FILE_ERROR: i32 = 4;

/// The process exit code of a failure.
pub open spec fn failure_code(f: Failure) -> i32 {
    match f {
        Failure::AuthenticationFailed(_) => 1,
        Failure::ConnectionError(_) => 2,
        Failure::InvalidResponse(_) => 2,
        Failure::FileTransferError(_) => 4,
        Failure::CommandFailed(_) => 3,
        Failure::Other(_) => 3,
    }
}

/// The process exit code of a whole run.
pub open spec fn outcome_code(outcome: Result<(), Failure>) -> i32 {
    match outcome {
        Ok(()) => 0,
        Err(f) => failure_code(f),
    }
}

impl Failure {
    /// The process exit code for this failure.
    pub fn exit_code(&self) -> (r: i32)
        ensures
            r == failure_code(*self),
    {
        match self {
            Failure::AuthenticationFailed(_) => EXIT_AUTH_ERROR,
            Failure::ConnectionError(_) => EXIT_CONNECTION_ERROR,
            Failure::InvalidResponse(_) => EXIT_CONNECTION_ERROR,
            Failure::FileTransferError(_) => EXIT_FILE_ERROR,
            Failure::CommandFailed(_) => EXIT_COMMAND_ERROR,
            Failure::Other(_) => EXIT_COMMAND_ERROR,
        }
    }
}

/// The process exit code for the outcome of a run: 0 on success, else the
/// failure's code.
pub fn exit_code(outcome: &Result<(), Failure>) -> (r: i32)
    ensures
        r == outcome_code(*outcome),
{
    match outcome {
        Ok(()) => EXIT_SUCCESS,
        Err(f) => f.exit_code(),
    }
}

/// What a finished remote command amounts to: success when it exited with 0,
/// else a `CommandFailed` carrying its code.
pub fn command_result(remote_exit_code: i32) -> (r: Result<(), Failure>)
    ensures
        r == command_result_spec(remote_exit_code),
{
    if remote_exit_code == 0 {
        Ok(())
    } else {
        Err(Failure::CommandFailed(remote_exit_code))
    }
}

pub open spec fn command_result_spec(remote_exit_code: i32) -> Result<(), Failure> {
    if remote_exit_code == 0 {
        Ok(())
    } else {
        Err(Failure::CommandFailed(remote_exit_code))
    }
}

} // verus!
