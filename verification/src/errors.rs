//! The error type of the library and the kinds of failure it tells apart.

use vstd::prelude::*;

verus! {

/// The ways in which an operation can fail.
#[derive(Clone, Copy, Debug, PartialEq, Eq, Structural)]
pub enum ErrorKind {
    /// The user's home directory, under which the registry lives, is unknown.
    StoreUnavailable,
    /// The registry file could not be read, written or understood.
    PersistenceError,
    /// No bucket has the name that was asked for.
    BucketNotFound,
    /// The directory that was to be created is already there.
    PathExists,
    /// The file system refused to create a directory.
    DirectoryCreateError,
    /// The contents of a bucket's directory could not be listed.
    DirectoryReadError,
    /// A directory entry has no underscore between its date and its name.
    MalformedEntryName,
}

impl ErrorKind {
    /// The exit status that a program reports for a failure of this kind.
    pub open spec fn code(self) -> u8 {
        match self {
            ErrorKind::StoreUnavailable => 2,
            ErrorKind::PersistenceError => 3,
            ErrorKind::BucketNotFound => 4,
            ErrorKind::PathExists => 5,
            ErrorKind::DirectoryCreateError => 6,
            ErrorKind::DirectoryReadError => 7,
            ErrorKind::MalformedEntryName => 8,
        }
    }

    /// The exit status for this kind of failure: never zero, and different
    /// for different kinds.
    pub fn exit_code(self) -> (code: u8)
        ensures
            code == self.code(),
            code != 0,
    {
        match self {
            ErrorKind::StoreUnavailable => 2,
            ErrorKind::PersistenceError => 3,
            ErrorKind::BucketNotFound => 4,
            ErrorKind::PathExists => 5,
            ErrorKind::DirectoryCreateError => 6,
            ErrorKind::DirectoryReadError => 7,
            ErrorKind::MalformedEntryName => 8,
        }
    }

    /// Two kinds with the same exit status are the same kind.
    pub proof fn lemma_codes_distinct(a: ErrorKind, b: ErrorKind)
        requires
            a.code() == b.code(),
        ensures
            a == b,
    {
    }
}

/// What an error is, as a mathematical value: its kind and its message.
pub struct ErrorView {
    pub kind: ErrorKind,
    pub details: Seq<char>,
}

/// A failure, with a message for the user.
#[derive(Debug, PartialEq, Eq)]
pub struct ZugzugError {
    kind: ErrorKind,
    details: String,
}

impl View for ZugzugError {
    type V = ErrorView;

    closed spec fn view(&self) -> ErrorView {
        ErrorView { kind: self.kind, details: self.details@ }
    }
}

impl ZugzugError {
    /// An error of the given kind that carries `msg`.
    pub fn new(kind: ErrorKind, msg: &str) -> (err: ZugzugError)
        ensures
            err@ == (ErrorView { kind: kind, details: msg@ }),
    {
        ZugzugError { kind: kind, details: msg.to_owned() }
    }

    /// The kind of failure.
    pub fn kind(&self) -> (kind: ErrorKind)
        ensures
            kind == self@.kind,
    {
        self.kind
    }

    /// The message, as it is shown to the user.
    pub fn description(&self) -> (msg: &str)
        ensures
            msg@ == self@.details,
    {
        self.details.as_str()
    }
}

} // verus!
