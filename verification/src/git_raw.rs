//! Trusted boundary to the git object store (the `git2` crate) and to the
//! timestamp range check (`chrono`).
//!
//! Every wrapper makes exactly one logical call and converts its arguments
//! and result; what the repository on disk contains is never assumed, so the
//! wrappers promise only shape, never success. The engine's logic takes
//! their results as plain values and is verified separately.

use vstd::prelude::*;

verus! {

#[verifier::external_type_specification]
#[verifier::external_body]
pub struct ExGitRepository(git2::Repository);

#[verifier::external_type_specification]
#[verifier::external_body]
pub struct ExGitError(git2::Error);

#[verifier::external_type_specification]
#[verifier::external_body]
pub struct ExGitObject<'a>(git2::Object<'a>);

#[verifier::external_type_specification]
#[verifier::external_body]
pub struct ExGitCommit<'a>(git2::Commit<'a>);

#[verifier::external_type_specification]
#[verifier::external_body]
pub struct ExGitTree<'a>(git2::Tree<'a>);

#[verifier::external_type_specification]
#[verifier::external_body]
pub struct ExGitBlob<'a>(git2::Blob<'a>);

#[verifier::external_type_specification]
#[verifier::external_body]
pub struct ExGitSignature<'a>(git2::Signature<'a>);

#[verifier::external_type_specification]
#[verifier::external_body]
pub struct ExGitOid(git2::Oid);

#[verifier::external_type_specification]
#[verifier::external_body]
pub struct ExGitDiff<'a>(git2::Diff<'a>);

#[verifier::external_type_specification]
#[verifier::external_body]
pub struct ExGitDiffOptions(git2::DiffOptions);

#[verifier::external_type_specification]
#[verifier::external_body]
pub struct ExGitDelta(git2::Delta);

/// Relies on `git2::Repository::open`: opens the object store at a local
/// path.
#[verifier::external_body]
pub fn repo_open(path: &str) -> Result<git2::Repository, git2::Error> {
    git2::Repository::open(path)
}

/// Relies on `git2::Repository::path`: the on-disk location of the
/// repository (its `.git` directory), as text.
#[verifier::external_body]
pub fn repo_path_string(repo: &git2::Repository) -> String {
    match repo.path().to_str() {
        Some(s) => s.to_string(),
        None => String::new(),
    }
}

/// Relies on `git2::Error::message`: the error's text.
#[verifier::external_body]
pub fn git_error_message(e: &git2::Error) -> String {
    e.message().to_string()
}

/// Relies on `git2::Repository::revparse_single`: resolves a revision
/// expression to an object.
#[verifier::external_body]
pub fn revparse_single<'r>(repo: &'r git2::Repository, spec: &str) -> Result<
    git2::Object<'r>,
    git2::Error,
> {
    repo.revparse_single(spec)
}

/// Relies on `git2::Object::peel` to a commit and `Object::into_commit`:
/// the commit an object refers to, through tags if need be.
#[verifier::external_body]
pub fn peel_to_commit<'r>(obj: &git2::Object<'r>) -> Option<git2::Commit<'r>> {
    match obj.peel(git2::ObjectType::Commit) {
        Ok(o) => o.into_commit().ok(),
        Err(_) => None,
    }
}

/// Relies on `git2::Object::peel` to a tree and `Object::into_tree`: the
/// tree an object refers to, through commits and tags if need be.
#[verifier::external_body]
pub fn peel_to_tree<'r>(obj: &git2::Object<'r>) -> Option<git2::Tree<'r>> {
    match obj.peel(git2::ObjectType::Tree) {
        Ok(o) => o.into_tree().ok(),
        Err(_) => None,
    }
}

/// Relies on `git2::Commit::tree`: the root tree of a commit.
#[verifier::external_body]
pub fn commit_tree<'r>(c: &git2::Commit<'r>) -> Result<git2::Tree<'r>, git2::Error> {
    c.tree()
}

/// Relies on `git2::Tree::get_path` and `TreeEntry::id`: the object id the
/// tree maps a slash-separated path to, if any.
#[verifier::external_body]
pub fn tree_entry_id(tree: &git2::Tree, path: &str) -> Option<git2::Oid> {
    match tree.get_path(std::path::Path::new(path)) {
        Ok(entry) => Some(entry.id()),
        Err(_) => None,
    }
}

/// Relies on `git2::Repository::find_blob`: the blob with the given id.
#[verifier::external_body]
pub fn find_blob<'r>(repo: &'r git2::Repository, oid: git2::Oid) -> Result<
    git2::Blob<'r>,
    git2::Error,
> {
    repo.find_blob(oid)
}

/// Relies on `git2::Blob::content`: the blob's bytes.
#[verifier::external_body]
pub fn blob_content(b: &git2::Blob) -> Vec<u8> {
    b.content().to_vec()
}

/// Relies on `git2::Commit::id` and `Oid` rendering: the full commit hash
/// as text.
#[verifier::external_body]
pub fn commit_id_string(c: &git2::Commit) -> String {
    c.id().to_string()
}

/// Relies on `git2::Commit::message`: the message where it is valid UTF-8.
#[verifier::external_body]
pub fn commit_message(c: &git2::Commit) -> Option<String> {
    match c.message() {
        Ok(m) => Some(m.to_string()),
        Err(_) => None,
    }
}

/// Relies on `git2::Commit::summary`: the message's first line, where the
/// message is valid UTF-8.
#[verifier::external_body]
pub fn commit_summary(c: &git2::Commit) -> Option<String> {
    match c.summary() {
        Ok(Some(s)) => Some(s.to_string()),
        _ => None,
    }
}

/// Relies on `git2::Commit::author`: the author signature.
#[verifier::external_body]
pub fn commit_author<'a>(c: &'a git2::Commit) -> git2::Signature<'a> {
    c.author()
}

/// Relies on `git2::Commit::committer`: the committer signature.
#[verifier::external_body]
pub fn commit_committer<'a>(c: &'a git2::Commit) -> git2::Signature<'a> {
    c.committer()
}

/// Relies on `git2::Signature::name`: the identity where it is valid UTF-8.
#[verifier::external_body]
pub fn sig_name(s: &git2::Signature) -> Option<String> {
    match s.name() {
        Ok(n) => Some(n.to_string()),
        Err(_) => None,
    }
}

/// Relies on `git2::Signature::email`: the address where it is valid UTF-8.
#[verifier::external_body]
pub fn sig_email(s: &git2::Signature) -> Option<String> {
    match s.email() {
        Ok(n) => Some(n.to_string()),
        Err(_) => None,
    }
}

/// Relies on `git2::Signature::when` and `Time::seconds`: the signature
/// time as seconds since the epoch.
#[verifier::external_body]
pub fn sig_time_seconds(s: &git2::Signature) -> i64 {
    s.when().seconds()
}

/// Whether `chrono` can represent a timestamp: a fixed predicate of the
/// seconds value.
pub uninterp spec fn timestamp_in_range(secs: int) -> bool;

/// Relies on `chrono::DateTime::from_timestamp`: succeeds exactly on the
/// representable range of timestamps, a function of the seconds alone.
#[verifier::external_body]
pub fn timestamp_valid(secs: i64) -> (r: bool)
    ensures
        r == timestamp_in_range(secs as int),
{
    chrono::DateTime::from_timestamp(secs, 0).is_some()
}

// ----- diffs -----

/// One printed diff line, with the delta and hunk context it arrived in.
pub struct RawDiffLine {
    /// Status of the delta this line belongs to.
    pub delta_status: DeltaKind,
    /// Old-side path of the delta, where it has one in valid UTF-8.
    pub delta_old_path: Option<String>,
    /// New-side path of the delta, where it has one in valid UTF-8.
    pub delta_new_path: Option<String>,
    /// Line origin: `+`, `-`, a space, or a header marker.
    pub origin: char,
    /// Old-side line number, where the line has one.
    pub old_lineno: Option<u32>,
    /// New-side line number, where the line has one.
    pub new_lineno: Option<u32>,
    /// The raw bytes of the line.
    pub content: Vec<u8>,
    /// New-side start of the enclosing hunk, where one is known.
    pub hunk_new_start: Option<u32>,
    /// New-side length of the enclosing hunk, where one is known.
    pub hunk_new_lines: Option<u32>,
}

impl RawDiffLine {
    /// Bundles the copied-out fields of one printed line.
    pub fn gather(
        delta_status: DeltaKind,
        delta_old_path: Option<String>,
        delta_new_path: Option<String>,
        origin: char,
        old_lineno: Option<u32>,
        new_lineno: Option<u32>,
        content: Vec<u8>,
        hunk_new_start: Option<u32>,
        hunk_new_lines: Option<u32>,
    ) -> (r: RawDiffLine)
        ensures
            r == (RawDiffLine {
                delta_status,
                delta_old_path,
                delta_new_path,
                origin,
                old_lineno,
                new_lineno,
                content,
                hunk_new_start,
                hunk_new_lines,
            }),
    {
        RawDiffLine {
            delta_status,
            delta_old_path,
            delta_new_path,
            origin,
            old_lineno,
            new_lineno,
            content,
            hunk_new_start,
            hunk_new_lines,
        }
    }
}

/// The engine's image of `git2::Delta`.
#[derive(Debug, Clone, Copy, PartialEq, Eq, Structural)]
pub enum DeltaKind {
    Added,
    Deleted,
    Modified,
    Renamed,
    Copied,
    Ignored,
    Untracked,
    Typechange,
    Unreadable,
    Unmodified,
    Unknown,
}

/// One file-level change of a tree diff.
pub struct RawDelta {
    /// The delta's status.
    pub status: DeltaKind,
    /// Old-side path, where present in valid UTF-8.
    pub old_path: Option<String>,
    /// New-side path, where present in valid UTF-8.
    pub new_path: Option<String>,
    /// The old side is flagged binary.
    pub old_binary: bool,
    /// The new side is flagged binary.
    pub new_binary: bool,
}

/// Relies on `git2::DiffOptions::new`: fresh diff options.
#[verifier::external_body]
pub fn new_diff_options() -> git2::DiffOptions {
    git2::DiffOptions::new()
}

/// Relies on `git2::DiffOptions::pathspec`: restricts the diff to paths
/// matching the given pattern.
#[verifier::external_body]
pub fn diff_options_pathspec(opts: &mut git2::DiffOptions, spec: &str) {
    opts.pathspec(spec);
}

/// Relies on `git2::DiffOptions::context_lines`: sets how many unchanged
/// lines are shown around each change.
#[verifier::external_body]
pub fn diff_options_context_lines(opts: &mut git2::DiffOptions, n: u32) {
    opts.context_lines(n);
}

/// Relies on `git2::Repository::diff_tree_to_tree`: the diff between two
/// trees under the given options.
#[verifier::external_body]
pub fn diff_tree_to_tree<'r>(
    repo: &'r git2::Repository,
    from: &git2::Tree<'r>,
    to: &git2::Tree<'r>,
    opts: &mut git2::DiffOptions,
) -> Result<git2::Diff<'r>, git2::Error> {
    repo.diff_tree_to_tree(Some(from), Some(to), Some(opts))
}

/// The line-number convention of printed content lines: a deleted line
/// carries an old-side number and no new-side number, an added line the
/// reverse, a context line both.
pub open spec fn raw_line_shape_ok(l: RawDiffLine) -> bool {
    &&& (l.origin == '-' ==> l.old_lineno is Some && l.new_lineno is None)
    &&& (l.origin == '+' ==> l.new_lineno is Some && l.old_lineno is None)
    &&& (l.origin == ' ' ==> l.old_lineno is Some && l.new_lineno is Some)
}

/// Relies on `git2::Diff::print` in patch format: streams every diff line;
/// the callback only copies the delta, hunk and line fields out as plain
/// values, in print order. The line numbers follow the documented
/// convention: an old-side number on every line but additions, a new-side
/// number on every line but deletions.
#[verifier::external_body]
pub fn diff_print_lines(diff: &git2::Diff) -> (r: Result<Vec<RawDiffLine>, git2::Error>)
    ensures
        r matches Ok(v) ==> forall|i: int|
            0 <= i < v@.len() ==> raw_line_shape_ok(#[trigger] v@[i]),
{
    let mut out: Vec<RawDiffLine> = Vec::new();
    diff.print(git2::DiffFormat::Patch, |delta, hunk, line| {
        out.push(RawDiffLine::gather(
            delta_kind_of(delta.status()),
            delta.old_file().path().and_then(|p| p.to_str()).map(String::from),
            delta.new_file().path().and_then(|p| p.to_str()).map(String::from),
            line.origin(), line.old_lineno(), line.new_lineno(), line.content().to_vec(),
            hunk.as_ref().map(|h| h.new_start()),
            hunk.as_ref().map(|h| h.new_lines()),
        ));
        true
    })?;
    Ok(out)
}

/// Relies on `git2::Diff::deltas` and the `DiffDelta` accessors: the file-
/// level changes, in diff order, each with its status, paths and binary
/// flags copied out as plain values.
#[verifier::external_body]
pub fn diff_delta_list(diff: &git2::Diff) -> Vec<RawDelta> {
    diff.deltas().map(|delta| RawDelta {
        status: delta_kind_of(delta.status()),
        old_path: delta.old_file().path().and_then(|p| p.to_str()).map(String::from),
        new_path: delta.new_file().path().and_then(|p| p.to_str()).map(String::from),
        old_binary: delta.old_file().is_binary(),
        new_binary: delta.new_file().is_binary(),
    }).collect()
}

/// Relies on the variants of `git2::Delta`: told apart one arm each.
#[verifier::external_body]
fn delta_kind_of(d: git2::Delta) -> DeltaKind {
    match d {
        git2::Delta::Added => DeltaKind::Added,
        git2::Delta::Deleted => DeltaKind::Deleted,
        git2::Delta::Modified => DeltaKind::Modified,
        git2::Delta::Renamed => DeltaKind::Renamed,
        git2::Delta::Copied => DeltaKind::Copied,
        git2::Delta::Ignored => DeltaKind::Ignored,
        git2::Delta::Untracked => DeltaKind::Untracked,
        git2::Delta::Typechange => DeltaKind::Typechange,
        git2::Delta::Unreadable => DeltaKind::Unreadable,
        git2::Delta::Unmodified => DeltaKind::Unmodified,
        git2::Delta::Conflicted => DeltaKind::Unknown,
    }
}

} // verus!
