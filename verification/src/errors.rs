//! Error taxonomy of the engine.
//!
//! Every failure is a typed value carrying the offending path, revision or
//! range, so a caller can present a precise message; no operation aborts.

use vstd::prelude::*;

verus! {

/// Errors of the archive store and the operations built on it.
///
/// - `NotFound`: a named archive entry or the index document is absent.
/// - `InvalidInput`: the archive path has the wrong shape (extension).
/// - `Corrupt`: the container failed to open, an entry was not valid UTF-8
///   where text was required, or the index document failed to parse.
/// - `StateError`: the operation needs an archive and none is configured.
#[derive(Debug, Clone, Copy, PartialEq, Eq, Structural)]
pub enum ArchiveError {
    NotFound,
    InvalidInput,
    Corrupt,
    StateError,
}

/// Errors of commit-metadata retrieval.
#[derive(Debug, Clone, Copy, PartialEq, Eq, Structural)]
pub enum CommitError {
    Git,
    RevisionNotFound,
    InvalidUtf8,
    TimeConversion,
}

/// Errors of file-window operations against a git repository.
#[derive(Debug, Clone, Copy, PartialEq, Eq, Structural)]
pub enum GitFileError {
    Git,
    Io,
    InvalidRange,
    FileNotFound,
    Generic,
    RevisionNotFound,
}

/// Errors of tree-diff operations against a git repository.
#[derive(Debug, Clone, Copy, PartialEq, Eq, Structural)]
pub enum GitDiffError {
    Git,
    RevisionNotFound,
    Generic,
}

} // verus!
