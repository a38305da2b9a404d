//! What can go wrong while a filter is evaluated.

use vstd::prelude::*;

verus! {

/// The reason why a filter could not be evaluated against a document.
///
/// A filter that fails this way has not been found false: it has no answer.
#[derive(Debug)]
pub enum FilterError {
    /// A key was looked up in a value that is no object, or that lacks it.
    /// Holds the key.
    PathNotFound(String),
    /// A value is not of the kind that an operator or an array index needs.
    /// Holds the name of the kind that was needed and a rendering of the
    /// value that was found.
    TypeMismatch { expected: String, got: String },
    /// The text between the brackets of a path segment is no index, or the
    /// index lies beyond the end of the array.  Holds the text in the first
    /// case and the index in decimal in the second.
    InvalidArrayIndex(String),
    /// A path segment that should hold an index has no `[`, or does not end
    /// in `]`.  Holds the segment.
    InvalidPath(String),
}

/// The mathematical model of a [`FilterError`].
pub enum Failure {
    PathNotFound(Seq<char>),
    TypeMismatch { expected: Seq<char>, got: Seq<char> },
    InvalidArrayIndex(Seq<char>),
    InvalidPath(Seq<char>),
}

impl View for FilterError {
    type V = Failure;

    open spec fn view(&self) -> Failure {
        match self {
            FilterError::PathNotFound(key) => Failure::PathNotFound(key@),
            FilterError::TypeMismatch { expected, got } => Failure::TypeMismatch {
                expected: expected@,
                got: got@,
            },
            FilterError::InvalidArrayIndex(text) => Failure::InvalidArrayIndex(text@),
            FilterError::InvalidPath(segment) => Failure::InvalidPath(segment@),
        }
    }
}

/// The model of a verdict or of the error that took its place.
pub open spec fn outcome(r: Result<bool, FilterError>) -> Result<bool, Failure> {
    match r {
        Ok(verdict) => Ok(verdict),
        Err(e) => Err(e@),
    }
}

} // verus!
