//! Content engine for browsing an exported archive of code-review ("PR")
//! records next to the version-control history they came from.
//!
//! The crate is organised around four pieces:
//! - an archive store over an immutable compressed container (zip or
//!   gzip-compressed tar) with a content cache and an extraction workspace,
//! - a search index over PR metadata (numeric ids and free text),
//! - a generation-counter based, cancellable background cache warmer,
//! - a revision-diff and line-window engine over a git object store.
//!
//! All state lives in explicitly owned values (no process-wide globals), so
//! several independent sessions can coexist in one process.

pub mod errors;
pub mod filesystem;
pub mod git_raw;
pub mod git_commit;
pub mod git_lines;
pub mod git_diff;
pub mod index;
pub mod json;
pub mod preload;
pub mod search;
pub mod session;
pub mod text;
