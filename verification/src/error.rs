//! Errors of the data store.

use vstd::prelude::*;
use vstd::string::StringExecFns;

verus! {

/// The kind of a failure, without its message.
#[derive(Debug, Clone, Copy, PartialEq, Eq, Structural)]
pub enum ErrorKind {
    Storage,
    Operation,
    Query,
    Schema,
    General,
    NotFound,
    AlreadyExists,
    CorruptState,
    IO,
    LockFailure,
}

/// A failure of the data store: its kind and a message.
///
/// The storage engine itself reports `NotFound`, `AlreadyExists` and
/// `CorruptState`. `IOError` and `LockFailure` are for the code that holds
/// the engine: the snapshot file and the lock around the shared handle are
/// not the engine's own.
#[derive(Debug, PartialEq, Eq)]
pub enum DBError {
    StorageError(String),
    OperationError(String),
    QueryError(String),
    SchemaError(String),
    GeneralError(String),
    /// Something addressed does not exist; the message says what kind of
    /// thing (see [`missing_collection`] and [`missing_record`]).
    NotFound(String),
    /// A collection of that name is already registered; the message is the
    /// name.
    AlreadyExists(String),
    /// The snapshot file is there but is no valid snapshot.
    CorruptState(String),
    /// The snapshot file could not be created, written or locked.
    IOError(String),
    /// A lock of the shared handle can no longer be used.
    LockFailure(String),
}

/// What a `DBError` is, as mathematics.
pub struct ErrorView {
    pub kind: ErrorKind,
    pub message: Seq<char>,
}

impl View for DBError {
    type V = ErrorView;

    open spec fn view(&self) -> ErrorView {
        match self {
            DBError::StorageError(m) => ErrorView { kind: ErrorKind::Storage, message: m@ },
            DBError::OperationError(m) => ErrorView { kind: ErrorKind::Operation, message: m@ },
            DBError::QueryError(m) => ErrorView { kind: ErrorKind::Query, message: m@ },
            DBError::SchemaError(m) => ErrorView { kind: ErrorKind::Schema, message: m@ },
            DBError::GeneralError(m) => ErrorView { kind: ErrorKind::General, message: m@ },
            DBError::NotFound(m) => ErrorView { kind: ErrorKind::NotFound, message: m@ },
            DBError::AlreadyExists(m) => ErrorView { kind: ErrorKind::AlreadyExists, message: m@ },
            DBError::CorruptState(m) => ErrorView { kind: ErrorKind::CorruptState, message: m@ },
            DBError::IOError(m) => ErrorView { kind: ErrorKind::IO, message: m@ },
            DBError::LockFailure(m) => ErrorView { kind: ErrorKind::LockFailure, message: m@ },
        }
    }
}

/// The message of a `NotFound` error about a collection.
pub open spec fn missing_collection() -> ErrorView {
    ErrorView { kind: ErrorKind::NotFound, message: "collection"@ }
}

/// The message of a `NotFound` error about a record of a collection that
/// exists.
pub open spec fn missing_record() -> ErrorView {
    ErrorView { kind: ErrorKind::NotFound, message: "record"@ }
}

/// The error that says that collection `name` is already registered.
pub open spec fn duplicate_collection(name: Seq<char>) -> ErrorView {
    ErrorView { kind: ErrorKind::AlreadyExists, message: name }
}

/// The error that says that the snapshot file is no valid snapshot, with the
/// parser's complaint.
pub open spec fn corrupt_snapshot(complaint: Seq<char>) -> ErrorView {
    ErrorView { kind: ErrorKind::CorruptState, message: complaint }
}

/// The heading under which an error of a kind is shown. An error of kind
/// `Schema` is shown under the heading of the general errors.
pub open spec fn heading(kind: ErrorKind) -> Seq<char> {
    match kind {
        ErrorKind::Storage => "StorageError: "@,
        ErrorKind::Operation => "OperationError: "@,
        ErrorKind::Query => "QueryError: "@,
        ErrorKind::Schema => "GeneralError: "@,
        ErrorKind::General => "GeneralError: "@,
        ErrorKind::NotFound => "NotFound: "@,
        ErrorKind::AlreadyExists => "AlreadyExists: "@,
        ErrorKind::CorruptState => "CorruptState: "@,
        ErrorKind::IO => "IOError: "@,
        ErrorKind::LockFailure => "LockFailure: "@,
    }
}

impl DBError {
    /// The kind of this error.
    pub fn kind(&self) -> (k: ErrorKind)
        ensures
            k == self@.kind,
    {
        match self {
            DBError::StorageError(_) => ErrorKind::Storage,
            DBError::OperationError(_) => ErrorKind::Operation,
            DBError::QueryError(_) => ErrorKind::Query,
            DBError::SchemaError(_) => ErrorKind::Schema,
            DBError::GeneralError(_) => ErrorKind::General,
            DBError::NotFound(_) => ErrorKind::NotFound,
            DBError::AlreadyExists(_) => ErrorKind::AlreadyExists,
            DBError::CorruptState(_) => ErrorKind::CorruptState,
            DBError::IOError(_) => ErrorKind::IO,
            DBError::LockFailure(_) => ErrorKind::LockFailure,
        }
    }

    /// The message of this error.
    pub fn message(&self) -> (m: &str)
        ensures
            m@ == self@.message,
    {
        match self {
            DBError::StorageError(m) => m.as_str(),
            DBError::OperationError(m) => m.as_str(),
            DBError::QueryError(m) => m.as_str(),
            DBError::SchemaError(m) => m.as_str(),
            DBError::GeneralError(m) => m.as_str(),
            DBError::NotFound(m) => m.as_str(),
            DBError::AlreadyExists(m) => m.as_str(),
            DBError::CorruptState(m) => m.as_str(),
            DBError::IOError(m) => m.as_str(),
            DBError::LockFailure(m) => m.as_str(),
        }
    }

    /// The text shown for this error: the heading of its kind, then the
    /// message.
    pub fn to_text(&self) -> (text: String)
        ensures
            text@ == heading(self@.kind) + self@.message,
    {
        let head = match self {
            DBError::StorageError(_) => "StorageError: ",
            DBError::OperationError(_) => "OperationError: ",
            DBError::QueryError(_) => "QueryError: ",
            DBError::SchemaError(_) => "GeneralError: ",
            DBError::GeneralError(_) => "GeneralError: ",
            DBError::NotFound(_) => "NotFound: ",
            DBError::AlreadyExists(_) => "AlreadyExists: ",
            DBError::CorruptState(_) => "CorruptState: ",
            DBError::IOError(_) => "IOError: ",
            DBError::LockFailure(_) => "LockFailure: ",
        };
        let mut text = head.to_owned();
        text.append(self.message());
        text
    }
}

/// A storage error with the given message.
pub fn storage_error(msg: &str) -> (e: DBError)
    ensures
        e@ == (ErrorView { kind: ErrorKind::Storage, message: msg@ }),
{
    DBError::StorageError(msg.to_owned())
}

/// An operation error with the given message.
pub fn operation_error(msg: &str) -> (e: DBError)
    ensures
        e@ == (ErrorView { kind: ErrorKind::Operation, message: msg@ }),
{
    DBError::OperationError(msg.to_owned())
}

/// A query error with the given message.
pub fn query_error(msg: &str) -> (e: DBError)
    ensures
        e@ == (ErrorView { kind: ErrorKind::Query, message: msg@ }),
{
    DBError::QueryError(msg.to_owned())
}

/// A general error with the given message.
pub fn general_error(msg: &str) -> (e: DBError)
    ensures
        e@ == (ErrorView { kind: ErrorKind::General, message: msg@ }),
{
    DBError::GeneralError(msg.to_owned())
}

/// The error for a schema problem with the given message. Schema problems
/// are reported as general errors.
pub fn schema_error(msg: &str) -> (e: DBError)
    ensures
        e@ == (ErrorView { kind: ErrorKind::General, message: msg@ }),
{
    DBError::GeneralError(msg.to_owned())
}

} // verus!
