//! The error type shared by the whole library.

use vstd::prelude::*;

use crate::text::join2;

verus! {

/// Every way an operation of the library can fail.
///
/// `Io` and `Json` carry the message of an error raised by the program around
/// the library (file access, session files).
#[derive(Debug)]
pub enum AppError {
    UnknownCommand(String),
    InvalidArgs(String),
    InvalidCommand(String),
    Io(String),
    Json(String),
    InternalError(String),
}

pub type AppResult<T> = Result<T, AppError>;

/// The numeric code reported for each kind of error.
pub open spec fn code_of(e: AppError) -> u32 {
    match e {
        AppError::UnknownCommand(_) => 1001,
        AppError::InvalidArgs(_) => 1002,
        AppError::InvalidCommand(_) => 1003,
        AppError::Io(_) => 2001,
        AppError::Json(_) => 2002,
        AppError::InternalError(_) => 3001,
    }
}

/// An `InvalidArgs` error with the given detail.
pub(crate) fn invalid_args(detail: &str) -> (r: AppError)
    ensures
        r is InvalidArgs,
{
    AppError::InvalidArgs(detail.to_owned())
}

/// An `InternalError` with the given detail.
pub(crate) fn internal_error(detail: &str) -> (r: AppError)
    ensures
        r is InternalError,
{
    AppError::InternalError(detail.to_owned())
}

/// The text an error reads as: its kind, then its detail.
pub open spec fn message_of(e: AppError) -> Seq<char> {
    match e {
        AppError::UnknownCommand(d) => "Unknown command: "@ + d@,
        AppError::InvalidArgs(d) => "Invalid arguments: "@ + d@,
        AppError::InvalidCommand(d) => "Invalid command: "@ + d@,
        AppError::Io(d) => "IO error: "@ + d@,
        AppError::Json(d) => "JSON error: "@ + d@,
        AppError::InternalError(d) => "Internal error: "@ + d@,
    }
}

impl AppError {
    /// The text this error reads as.
    pub fn message(&self) -> (r: String)
        ensures
            r@ == message_of(*self),
    {
        match self {
            AppError::UnknownCommand(d) => join2("Unknown command: ", d.as_str()),
            AppError::InvalidArgs(d) => join2("Invalid arguments: ", d.as_str()),
            AppError::InvalidCommand(d) => join2("Invalid command: ", d.as_str()),
            AppError::Io(d) => join2("IO error: ", d.as_str()),
            AppError::Json(d) => join2("JSON error: ", d.as_str()),
            AppError::InternalError(d) => join2("Internal error: ", d.as_str()),
        }
    }

    pub fn code(&self) -> (r: u32)
        ensures
            r == code_of(*self),
    {
        match self {
            AppError::UnknownCommand(_) => 1001,
            AppError::InvalidArgs(_) => 1002,
            AppError::InvalidCommand(_) => 1003,
            AppError::Io(_) => 2001,
            AppError::Json(_) => 2002,
            AppError::InternalError(_) => 3001,
        }
    }
}

} // verus!
