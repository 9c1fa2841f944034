//! Commit metadata retrieval.

use vstd::prelude::*;
use crate::errors::CommitError;
use crate::git_raw::{
    revparse_single, peel_to_commit, commit_id_string, commit_message, commit_summary,
    commit_author, commit_committer, sig_name, sig_email, sig_time_seconds, timestamp_valid,
    timestamp_in_range,
};

verus! {

/// Metadata of one commit. Timestamps are seconds since the epoch, checked
/// to lie in the representable calendar range.
pub struct CommitMetadata {
    /// The full commit hash.
    pub commit_id: String,
    /// The commit message.
    pub message: String,
    /// The message's first line.
    pub summary: String,
    /// The author's name.
    pub author_name: String,
    /// The author's email.
    pub author_email: String,
    /// When the change was originally authored, seconds since the epoch.
    pub author_time: i64,
    /// The committer's name.
    pub committer_name: String,
    /// The committer's email.
    pub committer_email: String,
    /// When the change entered the repository, seconds since the epoch.
    pub commit_time: i64,
}

/// Checks that a git timestamp lies in the representable range.
fn convert_git_time(seconds: i64) -> (r: Result<i64, CommitError>)
    ensures
        match r {
            Ok(t) => t == seconds && timestamp_in_range(seconds as int),
            Err(e) => e == CommitError::TimeConversion && !timestamp_in_range(seconds as int),
        },
{
    if timestamp_valid(seconds) {
        Ok(seconds)
    } else {
        Err(CommitError::TimeConversion)
    }
}

/// Resolves `revision` to a commit — peeling tags if need be, failing with
/// `RevisionNotFound` when resolution or peeling fails — and extracts its
/// identity, message, summary, author and committer. A field the store does
/// not hold as text yields `InvalidUtf8`; an out-of-range timestamp yields
/// `TimeConversion`.
pub fn get_commit_metadata(repo: &git2::Repository, revision: &str) -> (r: Result<
    CommitMetadata,
    CommitError,
>)
    ensures
        match r {
            Ok(m) => timestamp_in_range(m.author_time as int) && timestamp_in_range(
                m.commit_time as int,
            ),
            Err(e) => e == CommitError::RevisionNotFound || e == CommitError::InvalidUtf8 || e
                == CommitError::TimeConversion,
        },
{
    let obj = match revparse_single(repo, revision) {
        Ok(o) => o,
        Err(_) => {
            return Err(CommitError::RevisionNotFound);
        },
    };
    let commit = match peel_to_commit(&obj) {
        Some(c) => c,
        None => {
            return Err(CommitError::RevisionNotFound);
        },
    };
    let commit_id = commit_id_string(&commit);
    let message = match commit_message(&commit) {
        Some(m) => m,
        None => {
            return Err(CommitError::InvalidUtf8);
        },
    };
    let summary = match commit_summary(&commit) {
        Some(s) => s,
        None => {
            return Err(CommitError::InvalidUtf8);
        },
    };
    let author = commit_author(&commit);
    let author_name = match sig_name(&author) {
        Some(s) => s,
        None => {
            return Err(CommitError::InvalidUtf8);
        },
    };
    let author_email = match sig_email(&author) {
        Some(s) => s,
        None => {
            return Err(CommitError::InvalidUtf8);
        },
    };
    let author_time = match convert_git_time(sig_time_seconds(&author)) {
        Ok(t) => t,
        Err(e) => {
            return Err(e);
        },
    };
    let committer = commit_committer(&commit);
    let committer_name = match sig_name(&committer) {
        Some(s) => s,
        None => {
            return Err(CommitError::InvalidUtf8);
        },
    };
    let committer_email = match sig_email(&committer) {
        Some(s) => s,
        None => {
            return Err(CommitError::InvalidUtf8);
        },
    };
    let commit_time = match convert_git_time(sig_time_seconds(&committer)) {
        Ok(t) => t,
        Err(e) => {
            return Err(e);
        },
    };
    Ok(CommitMetadata {
        commit_id,
        message,
        summary,
        author_name,
        author_email,
        author_time,
        committer_name,
        committer_email,
        commit_time,
    })
}

} // verus!
