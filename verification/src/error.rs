//! The errors that a synchronization run can meet.

use vstd::prelude::*;

verus! {

/// What went wrong.
#[derive(Clone, Copy, Debug, PartialEq, Eq, Structural)]
pub enum ErrorKind {
    /// The source would not let the run in. Nothing is copied.
    AuthenticationFailure,
    /// The documents of the source could not be listed. Nothing is copied.
    ListingFailure,
    /// A document's text is not a tree of mappings, sequences and scalars
    /// under a mapping.
    ParseError,
    /// A document could not be fetched from the source.
    FetchFailure,
    /// A document could not be written as text.
    SerializeFailure,
    /// A document could not be published to the destination.
    PublishFailure,
    /// A node was asked for as a shape that it has not.
    TypeMismatch,
}

/// An error, with the words of whoever met it.
#[derive(Debug, PartialEq, Eq)]
pub struct SyncError {
    pub kind: ErrorKind,
    pub detail: String,
}

/// An error as a mathematical value.
pub struct SyncErrorView {
    pub kind: ErrorKind,
    pub detail: Seq<char>,
}

impl View for SyncError {
    type V = SyncErrorView;

    open spec fn view(&self) -> SyncErrorView {
        SyncErrorView { kind: self.kind, detail: self.detail@ }
    }
}

impl SyncError {
    /// An error of the given kind, with the given words.
    pub fn new(kind: ErrorKind, detail: &str) -> (error: SyncError)
        ensures
            error@ == (SyncErrorView { kind, detail: detail@ }),
    {
        SyncError { kind, detail: detail.to_owned() }
    }
}

impl Clone for SyncError {
    fn clone(&self) -> (copy: SyncError)
        ensures
            copy@ == self@,
    {
        SyncError { kind: self.kind, detail: self.detail.clone() }
    }
}

} // verus!
