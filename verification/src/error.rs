//! The failures of the server and what a client is told of them.

use crate::path::PathError;
use crate::text::catenate;
use vstd::prelude::*;

verus! {

/// The kind of a failure of the filesystem or of a process.
#[derive(Debug, Clone, Copy, PartialEq, Eq, Structural)]
pub enum IoFailure {
    /// What was asked for does not exist.
    NotFound,
    /// What was asked for lies outside the sandbox.
    PermissionDenied,
    /// Anything else.
    Other,
}

/// A failure of the server.
#[derive(Debug)]
pub enum AppError {
    /// The store failed; the text is kept for the log.
    Database(String),
    /// The filesystem or a process failed.
    Io(IoFailure),
    /// No job has this id.
    TaskNotFound(String),
    /// The operation does not fit the job's state.
    TaskAlreadyRunning,
    /// An upload was malformed; the text says how.
    Multipart(String),
    /// The settings were refused or could not be read; the text is kept for
    /// the log.
    Config(String),
}

/// The status that answers a failure: 404 for what is missing, 403 for what
/// is out of bounds, 409 for a conflict, 400 for a malformed upload, and 500
/// for the rest.
pub open spec fn status_of(error: AppError) -> u16 {
    match error {
        AppError::Database(_) => 500,
        AppError::Io(IoFailure::NotFound) => 404,
        AppError::Io(IoFailure::PermissionDenied) => 403,
        AppError::Io(IoFailure::Other) => 500,
        AppError::TaskNotFound(_) => 404,
        AppError::TaskAlreadyRunning => 409,
        AppError::Multipart(_) => 400,
        AppError::Config(_) => 500,
    }
}

/// What the client is told. Failures of the store, of the filesystem and of
/// the settings are named without their detail.
pub open spec fn message_of(error: AppError) -> Seq<char> {
    match error {
        AppError::Database(_) => "Database error"@,
        AppError::Io(IoFailure::NotFound) => "Not found"@,
        AppError::Io(IoFailure::PermissionDenied) => "Access denied."@,
        AppError::Io(IoFailure::Other) => "IO error"@,
        AppError::TaskNotFound(id) => "Task not found: "@ + id@,
        AppError::TaskAlreadyRunning => "Task already running"@,
        AppError::Multipart(detail) => "Multipart form error: "@ + detail@,
        AppError::Config(_) => "Configuration error"@,
    }
}

impl AppError {
    /// The failure that a refused path stands for.
    pub fn from_path_error(error: PathError) -> (e: AppError)
        ensures
            e == (match error {
                PathError::NotFound => AppError::Io(IoFailure::NotFound),
                PathError::PermissionDenied => AppError::Io(IoFailure::PermissionDenied),
            }),
    {
        match error {
            PathError::NotFound => AppError::Io(IoFailure::NotFound),
            PathError::PermissionDenied => AppError::Io(IoFailure::PermissionDenied),
        }
    }

    /// The status that answers the failure.
    pub fn status_code(&self) -> (code: u16)
        ensures
            code == status_of(*self),
    {
        match self {
            AppError::Database(_) => 500,
            AppError::Io(IoFailure::NotFound) => 404,
            AppError::Io(IoFailure::PermissionDenied) => 403,
            AppError::Io(IoFailure::Other) => 500,
            AppError::TaskNotFound(_) => 404,
            AppError::TaskAlreadyRunning => 409,
            AppError::Multipart(_) => 400,
            AppError::Config(_) => 500,
        }
    }

    /// What the client is told of the failure.
    pub fn client_message(&self) -> (message: String)
        ensures
            message@ == message_of(*self),
    {
        match self {
            AppError::Database(_) => "Database error".to_owned(),
            AppError::Io(IoFailure::NotFound) => "Not found".to_owned(),
            AppError::Io(IoFailure::PermissionDenied) => "Access denied.".to_owned(),
            AppError::Io(IoFailure::Other) => "IO error".to_owned(),
            AppError::TaskNotFound(id) => catenate("Task not found: ", id.as_str()),
            AppError::TaskAlreadyRunning => "Task already running".to_owned(),
            AppError::Multipart(detail) => catenate("Multipart form error: ", detail.as_str()),
            AppError::Config(_) => "Configuration error".to_owned(),
        }
    }
}

} // verus!
