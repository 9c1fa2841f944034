//! Line windows and windowed line diffs against the git object store.
//!
//! The object-store steps (revision resolution, tree lookup, blob reads,
//! diff printing) go through the trusted wrappers of `git_raw`; everything
//! that decides — range validation, line slicing, the extended-window
//! inclusion rule, diff formatting — is verified code over plain values.

use vstd::prelude::*;
use vstd::string::*;
use vstd::utf8::{valid_utf8, decode_utf8};
use crate::errors::GitFileError;
use crate::git_raw::{
    revparse_single, peel_to_commit, peel_to_tree, commit_tree, tree_entry_id, find_blob,
    blob_content, new_diff_options, diff_options_pathspec, diff_options_context_lines,
    diff_tree_to_tree, diff_print_lines, raw_line_shape_ok, RawDiffLine,
};
use crate::text::{split_lines, spec_lines, string_from_utf8, push_char, copy_bytes};

verus! {

/// One diff line handed to the UI: line numbers on both sides where they
/// exist, the text, and the origin tag (`+`, `-`, or a space).
pub struct DiffLineInfo {
    /// Line number in the first revision, where the line has one.
    pub old_lineno: Option<u32>,
    /// Line number in the second revision, where the line has one.
    pub new_lineno: Option<u32>,
    /// The content of the line.
    pub content: String,
    /// `+` for an addition, `-` for a deletion, a space for context.
    pub origin: char,
}

/// Mathematical image of a `DiffLineInfo`.
pub ghost struct DiffLineV {
    pub old_lineno: Option<u32>,
    pub new_lineno: Option<u32>,
    pub content: Seq<char>,
    pub origin: char,
}

impl View for DiffLineInfo {
    type V = DiffLineV;

    open spec fn view(&self) -> DiffLineV {
        DiffLineV {
            old_lineno: self.old_lineno,
            new_lineno: self.new_lineno,
            content: self.content@,
            origin: self.origin,
        }
    }
}

impl DeepView for DiffLineInfo {
    type V = DiffLineV;

    open spec fn deep_view(&self) -> DiffLineV {
        self.view()
    }
}

// ----- line windows -----

/// The last line index of the slice: the window end, clamped to the file.
pub open spec fn window_stop(end_line: int, count: int) -> int {
    if end_line <= count {
        end_line
    } else {
        count
    }
}

/// Slices the window `[start_line, end_line]` (1-based, inclusive) out of a
/// file's lines. Succeeds exactly when the range is well-formed and the
/// file reaches `start_line`; the slice runs to `end_line` or the file's
/// end, whichever comes first.
pub fn window_of_content(content: &str, start_line: usize, end_line: usize) -> (r: Result<
    Vec<String>,
    GitFileError,
>)
    ensures
        match r {
            Ok(v) => 1 <= start_line <= end_line && start_line <= spec_lines(content@).len()
                && v.deep_view() == spec_lines(content@).subrange(
                start_line - 1,
                window_stop(end_line as int, spec_lines(content@).len() as int),
            ),
            Err(e) => e == GitFileError::InvalidRange && (start_line < 1 || start_line > end_line
                || start_line > spec_lines(content@).len()),
        },
{
    if start_line < 1 || start_line > end_line {
        return Err(GitFileError::InvalidRange);
    }
    let lines = split_lines(content);
    if start_line > lines.len() {
        return Err(GitFileError::InvalidRange);
    }
    let stop: usize = if end_line <= lines.len() {
        end_line
    } else {
        lines.len()
    };
    let mut out: Vec<String> = Vec::new();
    let mut i: usize = start_line - 1;
    while i < stop
        invariant
            1 <= start_line,
            start_line - 1 <= i <= stop <= lines@.len(),
            lines.deep_view() == spec_lines(content@),
            out.deep_view() =~= lines.deep_view().subrange(start_line - 1, i as int),
        decreases stop - i,
    {
        out.push(lines[i].clone());
        i = i + 1;
        proof {
            assert(lines.deep_view().len() == lines@.len());
            assert(lines.deep_view().subrange(start_line - 1, i as int)
                =~= lines.deep_view().subrange(start_line - 1, i - 1).push(
                lines.deep_view()[i - 1],
            ));
        }
    }
    Ok(out)
}

/// A window lying wholly inside the file yields exactly
/// `end_line - start_line + 1` lines, each equal to the corresponding line
/// of the file.
pub proof fn lemma_full_window(content: Seq<char>, start_line: int, end_line: int)
    requires
        1 <= start_line <= end_line <= spec_lines(content).len(),
    ensures
        spec_lines(content).subrange(
            start_line - 1,
            window_stop(end_line, spec_lines(content).len() as int),
        ).len() == end_line - start_line + 1,
        forall|k: int|
            0 <= k < end_line - start_line + 1 ==> #[trigger] spec_lines(content).subrange(
                start_line - 1,
                window_stop(end_line, spec_lines(content).len() as int),
            )[k] == spec_lines(content)[start_line - 1 + k],
{
}

/// Retrieves the lines of `file_path` at `revision` whose 1-based positions
/// fall in `[start_line, end_line]`.
///
/// A malformed range fails with `InvalidRange` before the repository is
/// touched; an unresolvable revision with `RevisionNotFound`; a path absent
/// from the revision's tree with `FileNotFound`; non-text content with `Io`;
/// a range beyond the file's last line with `InvalidRange`. Whatever the
/// repository held, a returned window is never empty and never longer than
/// the requested range.
pub fn get_file_lines_at_revision(
    repo: &git2::Repository,
    file_path: &str,
    revision: &str,
    start_line: usize,
    end_line: usize,
) -> (r: Result<Vec<String>, GitFileError>)
    ensures
        start_line < 1 || start_line > end_line ==> r == Err::<Vec<String>, GitFileError>(
            GitFileError::InvalidRange,
        ),
        r matches Ok(v) ==> 1 <= start_line <= end_line && 1 <= v@.len() && v@.len() <= end_line
            - start_line + 1,
{
    if start_line < 1 || start_line > end_line {
        return Err(GitFileError::InvalidRange);
    }
    let obj = match revparse_single(repo, revision) {
        Ok(o) => o,
        Err(_) => {
            return Err(GitFileError::RevisionNotFound);
        },
    };
    let commit = match peel_to_commit(&obj) {
        Some(c) => c,
        None => {
            return Err(GitFileError::RevisionNotFound);
        },
    };
    let tree = match commit_tree(&commit) {
        Ok(t) => t,
        Err(_) => {
            return Err(GitFileError::Git);
        },
    };
    let oid = match tree_entry_id(&tree, file_path) {
        Some(o) => o,
        None => {
            return Err(GitFileError::FileNotFound);
        },
    };
    let blob = match find_blob(repo, oid) {
        Ok(b) => b,
        Err(_) => {
            return Err(GitFileError::Git);
        },
    };
    let bytes = blob_content(&blob);
    let content = match string_from_utf8(bytes) {
        Some(s) => s,
        None => {
            return Err(GitFileError::Io);
        },
    };
    let res = window_of_content(content.as_str(), start_line, end_line);
    proof {
        if res is Ok {
            let v = res.unwrap();
            assert(v.deep_view().len() == v@.len());
        }
    }
    res
}

// ----- windowed diffs -----

/// What a diff line reads as: its UTF-8 text, or a fixed marker where the
/// bytes are not valid UTF-8.
pub open spec fn line_text(bytes: Seq<u8>) -> Seq<char> {
    if valid_utf8(bytes) {
        decode_utf8(bytes)
    } else {
        "[Binary content]"@
    }
}

/// The image of a printed diff line.
pub open spec fn raw_line_view(l: RawDiffLine) -> DiffLineV {
    DiffLineV {
        old_lineno: l.old_lineno,
        new_lineno: l.new_lineno,
        content: line_text(l.content@),
        origin: l.origin,
    }
}

/// Lower edge of the extended window: three lines of slack, clamped at 1.
pub open spec fn window_lo(start_line: int) -> int {
    if start_line - 3 < 1 {
        1
    } else {
        start_line - 3
    }
}

/// Upper edge of the extended window: three lines of slack.
pub open spec fn window_hi(end_line: int) -> int {
    end_line + 3
}

/// The line's enclosing hunk is known.
pub open spec fn hunk_known(l: RawDiffLine) -> bool {
    l.hunk_new_start is Some && l.hunk_new_lines is Some
}

/// The known hunk's new-side span overlaps `[lo, hi]`.
pub open spec fn hunk_overlaps(l: RawDiffLine, lo: int, hi: int) -> bool {
    match (l.hunk_new_start, l.hunk_new_lines) {
        (Some(hs), Some(hl)) => hs <= hi && lo <= hs + hl - 1,
        _ => false,
    }
}

/// The inclusion rule of the windowed diff, by line kind: a context or
/// added line by its new-side number; a deleted line by its hunk's new-side
/// span where the hunk is known, else by its old-side number; anything else
/// (headers and the like) never.
pub open spec fn line_included(l: RawDiffLine, lo: int, hi: int) -> bool {
    if l.origin == ' ' || l.origin == '+' {
        match l.new_lineno {
            Some(n) => lo <= n <= hi,
            None => false,
        }
    } else if l.origin == '-' {
        if hunk_known(l) {
            hunk_overlaps(l, lo, hi)
        } else {
            match l.old_lineno {
                Some(n) => lo <= n <= hi,
                None => false,
            }
        }
    } else {
        false
    }
}

/// The line belongs to the requested file: its delta's new-side path is
/// exactly the path asked for.
pub open spec fn line_for_file(l: RawDiffLine, path: Seq<char>) -> bool {
    match l.delta_new_path {
        Some(ref p) => p@ == path,
        None => false,
    }
}

/// The shape every included line has: a change or context origin; a
/// new-side number inside the extended window on context and added lines;
/// an old-side number and no new-side number on deleted lines; no old-side
/// number on added lines; both numbers on context lines.
pub open spec fn window_line_ok(l: DiffLineV, lo: int, hi: int) -> bool {
    &&& (l.origin == '+' || l.origin == '-' || l.origin == ' ')
    &&& ((l.origin == '+' || l.origin == ' ') ==> match l.new_lineno {
        Some(n) => lo <= n <= hi,
        None => false,
    })
    &&& (l.origin == '-' ==> l.old_lineno is Some && l.new_lineno is None)
    &&& (l.origin == '+' ==> l.old_lineno is None)
    &&& (l.origin == ' ' ==> l.old_lineno is Some)
}

/// Every line of a filtered window satisfies the window shape, given the
/// printed lines follow the line-number convention.
pub proof fn lemma_spec_window_shape(lines: Seq<RawDiffLine>, path: Seq<char>, lo: int, hi: int)
    requires
        forall|i: int| 0 <= i < lines.len() ==> raw_line_shape_ok(#[trigger] lines[i]),
    ensures
        forall|i: int|
            0 <= i < spec_window(lines, path, lo, hi).len() ==> window_line_ok(
                #[trigger] spec_window(lines, path, lo, hi)[i],
                lo,
                hi,
            ),
    decreases lines.len(),
{
    if lines.len() > 0 {
        assert(forall|i: int|
            0 <= i < lines.drop_last().len() ==> raw_line_shape_ok(
                #[trigger] lines.drop_last()[i],
            ));
        lemma_spec_window_shape(lines.drop_last(), path, lo, hi);
        let w = spec_window(lines, path, lo, hi);
        let wr = spec_window(lines.drop_last(), path, lo, hi);
        let l = lines.last();
        assert forall|i: int| 0 <= i < w.len() implies window_line_ok(#[trigger] w[i], lo, hi) by {
            if line_for_file(l, path) && line_included(l, lo, hi) {
                assert(w == wr.push(raw_line_view(l)));
                if i < wr.len() {
                    assert(w[i] == wr[i]);
                } else {
                    assert(w[i] == raw_line_view(l));
                    assert(window_line_ok(raw_line_view(l), lo, hi));
                }
            } else {
                assert(w == wr);
                assert(w[i] == wr[i]);
            }
        }
    }
}

/// The ordered sequence of included lines of the requested file.
pub open spec fn spec_window(
    lines: Seq<RawDiffLine>,
    path: Seq<char>,
    lo: int,
    hi: int,
) -> Seq<DiffLineV>
    decreases lines.len(),
{
    if lines.len() == 0 {
        Seq::empty()
    } else {
        let rest = spec_window(lines.drop_last(), path, lo, hi);
        let l = lines.last();
        if line_for_file(l, path) && line_included(l, lo, hi) {
            rest.push(raw_line_view(l))
        } else {
            rest
        }
    }
}

/// For a single-line request `[line, line]`, a context or added line is
/// kept exactly when its new-side number lies within three lines of the
/// requested one, the window clamped at the file's first line.
pub proof fn lemma_single_line_window(l: RawDiffLine, line: int, n: u32)
    requires
        l.origin == ' ' || l.origin == '+',
        l.new_lineno == Some(n),
        1 <= line,
    ensures
        line_included(l, window_lo(line), window_hi(line)) <==> (window_lo(line) <= n
            && n <= line + 3),
{
}

/// Whether the printed line falls inside the extended window.
fn line_included_exec(l: &RawDiffLine, lo: u128, hi: u128) -> (r: bool)
    ensures
        r == line_included(*l, lo as int, hi as int),
{
    if l.origin == ' ' || l.origin == '+' {
        match l.new_lineno {
            Some(n) => lo <= n as u128 && n as u128 <= hi,
            None => false,
        }
    } else if l.origin == '-' {
        let known = l.hunk_new_start.is_some() && l.hunk_new_lines.is_some();
        if known {
            let hs = match l.hunk_new_start {
                Some(v) => v,
                None => 0,
            };
            let hl = match l.hunk_new_lines {
                Some(v) => v,
                None => 0,
            };
            hs as u128 <= hi && lo <= hs as u128 + hl as u128 && lo + 1 <= hs as u128 + hl as u128
    // lo <= hs + hl - 1, written without underflow

        } else {
            match l.old_lineno {
                Some(n) => lo <= n as u128 && n as u128 <= hi,
                None => false,
            }
        }
    } else {
        false
    }
}

/// Filters printed diff lines down to the requested file's lines inside the
/// extended window `[max(1, start-3), end+3]`, in print order.
pub fn window_filter(
    lines: &Vec<RawDiffLine>,
    file_path: &str,
    start_line: usize,
    end_line: usize,
) -> (r: Vec<DiffLineInfo>)
    requires
        1 <= start_line <= end_line,
        end_line + 3 <= u128::MAX,
    ensures
        r.deep_view() == spec_window(
            lines@,
            file_path@,
            window_lo(start_line as int),
            window_hi(end_line as int),
        ),
{
    let lo: u128 = if start_line >= 4 {
        (start_line - 3) as u128
    } else {
        1
    };
    let hi: u128 = end_line as u128 + 3;
    let needle = String::from_str(file_path);
    let mut out: Vec<DiffLineInfo> = Vec::new();
    let n = lines.len();
    let mut i: usize = 0;
    while i < n
        invariant
            n == lines@.len(),
            i <= n,
            lo == window_lo(start_line as int),
            hi == window_hi(end_line as int),
            needle@ == file_path@,
            out.deep_view() == spec_window(
                lines@.take(i as int),
                file_path@,
                lo as int,
                hi as int,
            ),
        decreases n - i,
    {
        let l = &lines[i];
        let ghost prev = out.deep_view();
        let for_file = match &l.delta_new_path {
            Some(p) => p.eq(&needle),
            None => false,
        };
        if for_file && line_included_exec(l, lo, hi) {
            let text = match string_from_utf8(copy_bytes(l.content.as_slice())) {
                Some(s) => s,
                None => String::from_str("[Binary content]"),
            };
            out.push(DiffLineInfo {
                old_lineno: l.old_lineno,
                new_lineno: l.new_lineno,
                content: text,
                origin: l.origin,
            });
            proof {
                assert(out.deep_view() =~= prev.push(raw_line_view(lines@[i as int])));
            }
        }
        i = i + 1;
        proof {
            assert(lines@.take(i as int).drop_last() =~= lines@.take(i - 1));
            assert(lines@.take(i as int).last() == lines@[i - 1]);
        }
    }
    proof {
        assert(lines@.take(n as int) =~= lines@);
    }
    out
}

/// Retrieves the windowed line diff of `file_path` between two revisions.
///
/// A malformed range fails with `InvalidRange` before the repository is
/// touched; an unresolvable revision with `RevisionNotFound`. The diff is
/// computed tree-to-tree with three context lines, restricted to the path,
/// and filtered by the extended-window rule. An empty result is
/// `FileNotFound` when the path is absent from either endpoint tree, and an
/// empty change set otherwise. Whatever the repository held, every returned
/// line carries a change or context origin, and every context or added line
/// lies inside the extended window.
pub fn get_file_diff_between_revisions(
    repo: &git2::Repository,
    file_path: &str,
    from_revision: &str,
    to_revision: &str,
    start_line: usize,
    end_line: usize,
) -> (r: Result<Vec<DiffLineInfo>, GitFileError>)
    ensures
        start_line < 1 || start_line > end_line ==> r == Err::<Vec<DiffLineInfo>, GitFileError>(
            GitFileError::InvalidRange,
        ),
        r matches Ok(v) ==> 1 <= start_line <= end_line && forall|i: int|
            0 <= i < v@.len() ==> window_line_ok(
                #[trigger] v.deep_view()[i],
                window_lo(start_line as int),
                window_hi(end_line as int),
            ),
{
    if start_line < 1 || start_line > end_line {
        return Err(GitFileError::InvalidRange);
    }
    if end_line > usize::MAX - 3 {
        return Err(GitFileError::InvalidRange);
    }
    let from_obj = match revparse_single(repo, from_revision) {
        Ok(o) => o,
        Err(_) => {
            return Err(GitFileError::RevisionNotFound);
        },
    };
    let from_tree = match peel_to_tree(&from_obj) {
        Some(t) => t,
        None => {
            return Err(GitFileError::RevisionNotFound);
        },
    };
    let to_obj = match revparse_single(repo, to_revision) {
        Ok(o) => o,
        Err(_) => {
            return Err(GitFileError::RevisionNotFound);
        },
    };
    let to_tree = match peel_to_tree(&to_obj) {
        Some(t) => t,
        None => {
            return Err(GitFileError::RevisionNotFound);
        },
    };
    let mut opts = new_diff_options();
    diff_options_pathspec(&mut opts, file_path);
    diff_options_context_lines(&mut opts, 3);
    let diff = match diff_tree_to_tree(repo, &from_tree, &to_tree, &mut opts) {
        Ok(d) => d,
        Err(_) => {
            return Err(GitFileError::Git);
        },
    };
    let raw = match diff_print_lines(&diff) {
        Ok(v) => v,
        Err(_) => {
            return Err(GitFileError::Git);
        },
    };
    let out = window_filter(&raw, file_path, start_line, end_line);
    proof {
        lemma_spec_window_shape(
            raw@,
            file_path@,
            window_lo(start_line as int),
            window_hi(end_line as int),
        );
        assert(out.deep_view().len() == out@.len());
    }
    if out.len() == 0 {
        match tree_entry_id(&from_tree, file_path) {
            Some(_) => {},
            None => {
                return Err(GitFileError::FileNotFound);
            },
        }
        match tree_entry_id(&to_tree, file_path) {
            Some(_) => {},
            None => {
                return Err(GitFileError::FileNotFound);
            },
        }
    }
    Ok(out)
}

// ----- unified-text rendering -----

/// One rendered diff line: the origin tag first for changes and context,
/// then the text, with a newline supplied where the text lacks one.
pub open spec fn line_render(l: DiffLineV) -> Seq<char> {
    let body = if l.origin == '+' || l.origin == '-' || l.origin == ' ' {
        seq![l.origin] + l.content
    } else {
        l.content
    };
    if l.content.len() > 0 && l.content.last() == '\n' {
        body
    } else {
        body.push('\n')
    }
}

/// The whole rendered diff.
pub open spec fn diff_text_of(lines: Seq<DiffLineV>) -> Seq<char>
    decreases lines.len(),
{
    if lines.len() == 0 {
        Seq::empty()
    } else {
        diff_text_of(lines.drop_last()) + line_render(lines.last())
    }
}

/// Renders diff lines as one unified-diff string.
pub fn format_diff_lines(lines: &Vec<DiffLineInfo>) -> (r: String)
    ensures
        r@ == diff_text_of(lines.deep_view()),
{
    let mut s = String::new();
    let n = lines.len();
    let mut i: usize = 0;
    proof {
        assert(lines.deep_view().take(0) =~= Seq::<DiffLineV>::empty());
    }
    while i < n
        invariant
            n == lines@.len(),
            i <= n,
            s@ == diff_text_of(lines.deep_view().take(i as int)),
        decreases n - i,
    {
        let l = &lines[i];
        let ghost prev = s@;
        if l.origin == '+' || l.origin == '-' || l.origin == ' ' {
            push_char(&mut s, l.origin);
        }
        s.append(l.content.as_str());
        let content_len = l.content.as_str().unicode_len();
        let ends_nl = if content_len > 0 {
            l.content.as_str().get_char(content_len - 1) == '\n'
        } else {
            false
        };
        if !ends_nl {
            push_char(&mut s, '\n');
        }
        proof {
            assert(s@ =~= prev + line_render(lines.deep_view()[i as int]));
        }
        i = i + 1;
        proof {
            assert(lines.deep_view().take(i as int).drop_last()
                =~= lines.deep_view().take(i - 1));
            assert(lines.deep_view().take(i as int).last() == lines.deep_view()[i - 1]);
            assert(s@ =~= diff_text_of(lines.deep_view().take(i as int)));
        }
    }
    proof {
        assert(lines.deep_view().take(n as int) =~= lines.deep_view());
    }
    s
}

/// The windowed diff of `file_path` between two revisions, rendered as one
/// unified-diff string.
pub fn get_file_diff_as_strings(
    repo: &git2::Repository,
    file_path: &str,
    from_revision: &str,
    to_revision: &str,
    start_line: usize,
    end_line: usize,
) -> (r: Result<String, GitFileError>)
    ensures
        start_line < 1 || start_line > end_line ==> r == Err::<String, GitFileError>(
            GitFileError::InvalidRange,
        ),
        r is Ok ==> 1 <= start_line <= end_line,
{
    let lines = match get_file_diff_between_revisions(
        repo,
        file_path,
        from_revision,
        to_revision,
        start_line,
        end_line,
    ) {
        Ok(v) => v,
        Err(e) => {
            return Err(e);
        },
    };
    Ok(format_diff_lines(&lines))
}

} // verus!
