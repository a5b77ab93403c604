//! Error values and the process exit codes they map to.

use vstd::prelude::*;

use crate::text::concat3;

verus! {

/// Process exit codes for each failure class.
#[derive(Clone, Copy, Debug, PartialEq, Eq, Structural)]
pub enum ExitCode {
    ConfigIo,
    ConfigInvalid,
    StartupFailed,
    RuntimeFailed,
    ShutdownTimedOut,
}

/// The numeric code of each exit class.
pub open spec fn exit_code_number(code: ExitCode) -> i32 {
    match code {
        ExitCode::ConfigIo => 3,
        ExitCode::ConfigInvalid => 4,
        ExitCode::StartupFailed => 5,
        ExitCode::RuntimeFailed => 6,
        ExitCode::ShutdownTimedOut => 7,
    }
}

impl ExitCode {
    /// The process exit status for this class.
    pub fn code(self) -> (r: i32)
        ensures
            r == exit_code_number(self),
    {
        match self {
            ExitCode::ConfigIo => 3,
            ExitCode::ConfigInvalid => 4,
            ExitCode::StartupFailed => 5,
            ExitCode::RuntimeFailed => 6,
            ExitCode::ShutdownTimedOut => 7,
        }
    }
}

/// An error with its exit class and its message.
#[derive(Debug)]
pub struct AppError {
    pub exit_code: ExitCode,
    pub message: String,
}

pub type AppResult<T> = Result<T, AppError>;

impl AppError {
    pub fn new(exit_code: ExitCode, message: String) -> (r: Self)
        ensures
            r.exit_code == exit_code,
            r.message@ == message@,
    {
        AppError { exit_code, message }
    }

    /// A failure to read the configuration file at `path`.
    pub fn config_io(path: &str, error: &str) -> (r: Self)
        ensures
            r.exit_code == ExitCode::ConfigIo,
            r.message@ == "failed to read configuration at "@ + path@ + ": "@ + error@,
    {
        let mut message = concat3("failed to read configuration at ", path, ": ");
        message.append(error);
        Self::new(ExitCode::ConfigIo, message)
    }

    pub fn config_invalid(message: String) -> (r: Self)
        ensures
            r.exit_code == ExitCode::ConfigInvalid,
            r.message@ == message@,
    {
        Self::new(ExitCode::ConfigInvalid, message)
    }

    pub fn startup_failed(message: String) -> (r: Self)
        ensures
            r.exit_code == ExitCode::StartupFailed,
            r.message@ == message@,
    {
        Self::new(ExitCode::StartupFailed, message)
    }

    pub fn runtime_failed(message: String) -> (r: Self)
        ensures
            r.exit_code == ExitCode::RuntimeFailed,
            r.message@ == message@,
    {
        Self::new(ExitCode::RuntimeFailed, message)
    }

    pub fn shutdown_timed_out(message: String) -> (r: Self)
        ensures
            r.exit_code == ExitCode::ShutdownTimedOut,
            r.message@ == message@,
    {
        Self::new(ExitCode::ShutdownTimedOut, message)
    }

    pub fn exit_code(&self) -> (r: ExitCode)
        ensures
            r == self.exit_code,
    {
        self.exit_code
    }

    /// The message that the error displays.
    pub fn to_string(&self) -> (r: String)
        ensures
            r@ == self.message@,
    {
        self.message.clone()
    }
}

} // verus!
