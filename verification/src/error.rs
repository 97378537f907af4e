//! The error type of the ledger and its process exit codes.
use vstd::prelude::*;
use crate::text::join2;

verus! {

/// What went wrong in a command.  Storage, database, JSON and I/O failures
/// carry the message of the underlying error.
#[derive(Debug)]
pub enum LatchError {
    Validation(String),
    ClaimConflict(String),
    NotFound(String),
    Storage(String),
    Db(String),
    Json(String),
    Io(String),
}

/// The mathematical view of `LatchError`.
pub enum ErrorView {
    Validation(Seq<char>),
    ClaimConflict(Seq<char>),
    NotFound(Seq<char>),
    Storage(Seq<char>),
    Db(Seq<char>),
    Json(Seq<char>),
    Io(Seq<char>),
}

impl View for LatchError {
    type V = ErrorView;

    open spec fn view(&self) -> ErrorView {
        match self {
            LatchError::Validation(m) => ErrorView::Validation(m@),
            LatchError::ClaimConflict(m) => ErrorView::ClaimConflict(m@),
            LatchError::NotFound(m) => ErrorView::NotFound(m@),
            LatchError::Storage(m) => ErrorView::Storage(m@),
            LatchError::Db(m) => ErrorView::Db(m@),
            LatchError::Json(m) => ErrorView::Json(m@),
            LatchError::Io(m) => ErrorView::Io(m@),
        }
    }
}

/// The process exit code for each kind of error.
pub open spec fn exit_code_of(e: ErrorView) -> i32 {
    match e {
        ErrorView::Validation(_) => 1,
        ErrorView::ClaimConflict(_) => 2,
        ErrorView::NotFound(_) => 3,
        ErrorView::Storage(_) => 4,
        ErrorView::Db(_) => 4,
        ErrorView::Io(_) => 4,
        ErrorView::Json(_) => 1,
    }
}

/// The machine-readable code for each kind of error.
pub open spec fn error_code_of(e: ErrorView) -> Seq<char> {
    match e {
        ErrorView::Validation(_) => "validation_error"@,
        ErrorView::ClaimConflict(_) => "claim_conflict"@,
        ErrorView::NotFound(_) => "not_found"@,
        ErrorView::Storage(_) => "storage_error"@,
        ErrorView::Db(_) => "storage_error"@,
        ErrorView::Io(_) => "io_error"@,
        ErrorView::Json(_) => "json_error"@,
    }
}

/// The human-readable message of an error.
pub open spec fn message_of(e: ErrorView) -> Seq<char> {
    match e {
        ErrorView::Validation(m) => m,
        ErrorView::ClaimConflict(m) => "claim conflict: "@ + m,
        ErrorView::NotFound(m) => "not found: "@ + m,
        ErrorView::Storage(m) => "storage error: "@ + m,
        ErrorView::Db(m) => "database error: "@ + m,
        ErrorView::Json(m) => "json error: "@ + m,
        ErrorView::Io(m) => "io error: "@ + m,
    }
}

impl LatchError {
    /// The process exit code: 1 validation or JSON, 2 claim conflict,
    /// 3 not found, 4 storage, database or I/O.
    pub fn exit_code(&self) -> (code: i32)
        ensures
            code == exit_code_of(self@),
    {
        match self {
            LatchError::Validation(_) => 1,
            LatchError::ClaimConflict(_) => 2,
            LatchError::NotFound(_) => 3,
            LatchError::Storage(_) | LatchError::Db(_) | LatchError::Io(_) => 4,
            LatchError::Json(_) => 1,
        }
    }

    /// The machine-readable error code.
    pub fn error_code(&self) -> (code: &'static str)
        ensures
            code@ == error_code_of(self@),
    {
        match self {
            LatchError::Validation(_) => "validation_error",
            LatchError::ClaimConflict(_) => "claim_conflict",
            LatchError::NotFound(_) => "not_found",
            LatchError::Storage(_) | LatchError::Db(_) => "storage_error",
            LatchError::Io(_) => "io_error",
            LatchError::Json(_) => "json_error",
        }
    }

    /// The human-readable message.
    pub fn message(&self) -> (m: String)
        ensures
            m@ == message_of(self@),
    {
        match self {
            LatchError::Validation(m) => m.clone(),
            LatchError::ClaimConflict(m) => join2("claim conflict: ", m.as_str()),
            LatchError::NotFound(m) => join2("not found: ", m.as_str()),
            LatchError::Storage(m) => join2("storage error: ", m.as_str()),
            LatchError::Db(m) => join2("database error: ", m.as_str()),
            LatchError::Json(m) => join2("json error: ", m.as_str()),
            LatchError::Io(m) => join2("io error: ", m.as_str()),
        }
    }
}

} // verus!
