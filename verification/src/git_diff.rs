//! Whole-tree diffs between two revisions, optionally path-filtered.
//!
//! The diff itself comes from the object store through the trusted wrappers
//! of `git_raw`; assembling the file list, matching each printed line to its
//! file, and the per-line text handling are verified against an exact
//! specification of the fold.

use vstd::prelude::*;
use vstd::string::*;
use vstd::utf8::{valid_utf8, decode_utf8};
use crate::errors::GitDiffError;
use crate::git_raw::{
    revparse_single, peel_to_tree, new_diff_options, diff_options_pathspec,
    diff_options_context_lines, diff_tree_to_tree, diff_print_lines, diff_delta_list,
    RawDiffLine, RawDelta, DeltaKind,
};
use crate::git_lines::line_text;
use crate::text::{string_from_utf8, copy_bytes};

verus! {

/// One changed path rendered as a single content blob (kept for callers
/// that want a flat list of per-file patches).
pub struct DiffEntry {
    pub file_path: String,
    pub status: char,
    pub content: String,
    pub binary: bool,
}

/// One line of a file's patch.
pub struct LineDiff {
    pub old_lineno: Option<u32>,
    pub new_lineno: Option<u32>,
    pub content: String,
    pub origin: char,
}

/// Mathematical image of a `LineDiff`.
pub ghost struct LineDiffV {
    pub old_lineno: Option<u32>,
    pub new_lineno: Option<u32>,
    pub content: Seq<char>,
    pub origin: char,
}

impl View for LineDiff {
    type V = LineDiffV;

    open spec fn view(&self) -> LineDiffV {
        LineDiffV {
            old_lineno: self.old_lineno,
            new_lineno: self.new_lineno,
            content: self.content@,
            origin: self.origin,
        }
    }
}

impl DeepView for LineDiff {
    type V = LineDiffV;

    open spec fn deep_view(&self) -> LineDiffV {
        self.view()
    }
}

/// One changed file of a tree diff: paths on both sides, a one-letter
/// status, the patch lines (empty for binary files), and the binary flag.
pub struct FileDiff {
    pub old_file: String,
    pub new_file: String,
    pub status: char,
    pub lines: Vec<LineDiff>,
    pub binary: bool,
}

/// Mathematical image of a `FileDiff`.
pub ghost struct FileDiffV {
    pub old_file: Seq<char>,
    pub new_file: Seq<char>,
    pub status: char,
    pub lines: Seq<LineDiffV>,
    pub binary: bool,
}

impl View for FileDiff {
    type V = FileDiffV;

    open spec fn view(&self) -> FileDiffV {
        FileDiffV {
            old_file: self.old_file@,
            new_file: self.new_file@,
            status: self.status,
            lines: self.lines.deep_view(),
            binary: self.binary,
        }
    }
}

impl DeepView for FileDiff {
    type V = FileDiffV;

    open spec fn deep_view(&self) -> FileDiffV {
        self.view()
    }
}

/// A whole tree diff: the changed files in diff order.
pub struct TreeDiff {
    pub files: Vec<FileDiff>,
}

impl View for TreeDiff {
    type V = Seq<FileDiffV>;

    open spec fn view(&self) -> Seq<FileDiffV> {
        self.files.deep_view()
    }
}

// ----- the fold, specified -----

/// The one-letter status of a delta kind.
pub open spec fn status_char_of(k: DeltaKind) -> char {
    match k {
        DeltaKind::Added => 'A',
        DeltaKind::Deleted => 'D',
        DeltaKind::Modified => 'M',
        DeltaKind::Renamed => 'R',
        DeltaKind::Copied => 'C',
        DeltaKind::Ignored => 'I',
        DeltaKind::Untracked => 'U',
        DeltaKind::Typechange => 'T',
        DeltaKind::Unreadable => 'X',
        DeltaKind::Unmodified => ' ',
        DeltaKind::Unknown => '?',
    }
}

/// A delta path as text, empty where the delta has none.
pub open spec fn path_text(p: Option<String>) -> Seq<char> {
    match p {
        Some(s) => s@,
        None => Seq::empty(),
    }
}

/// The file entry a delta contributes, before lines are attached.
pub open spec fn file_of_delta(d: RawDelta) -> FileDiffV {
    FileDiffV {
        old_file: path_text(d.old_path),
        new_file: path_text(d.new_path),
        status: status_char_of(d.status),
        lines: Seq::empty(),
        binary: d.old_binary || d.new_binary,
    }
}

/// The image of one printed line in a file's patch: the raw text of the
/// line, or a fixed marker where the bytes are not valid UTF-8.
pub open spec fn tree_line_view(l: RawDiffLine) -> LineDiffV {
    LineDiffV {
        old_lineno: l.old_lineno,
        new_lineno: l.new_lineno,
        content: line_text(l.content@),
        origin: l.origin,
    }
}

/// The printed line's delta names the file on either side.
pub open spec fn line_matches_file(l: RawDiffLine, f: FileDiffV) -> bool {
    (match l.delta_old_path {
        Some(ref p) => p@ == f.old_file,
        None => false,
    }) || (match l.delta_new_path {
        Some(ref p) => p@ == f.new_file,
        None => false,
    })
}

/// Index of the first file the line's delta names at or after `i`, or the
/// length if none.
pub open spec fn find_file_from(files: Seq<FileDiffV>, l: RawDiffLine, i: int) -> int
    decreases files.len() - i,
{
    if i >= files.len() {
        files.len() as int
    } else if line_matches_file(l, files[i]) {
        i
    } else {
        find_file_from(files, l, i + 1)
    }
}

/// The file a printed line lands in: for a line of a changed delta, the
/// first file its delta names, else wherever the previous line landed.
pub open spec fn line_target(files: Seq<FileDiffV>, l: RawDiffLine, cur: int) -> int {
    if l.delta_status != DeltaKind::Unmodified {
        let p = find_file_from(files, l, 0);
        if p < files.len() {
            p
        } else {
            cur
        }
    } else {
        cur
    }
}

/// Distributes the printed lines `lines[i..]` over the per-file buckets
/// `acc`, carrying the current file index; lines landing in a binary file
/// (or out of range) are dropped.
pub open spec fn assign_from(
    files: Seq<FileDiffV>,
    lines: Seq<RawDiffLine>,
    i: int,
    cur: int,
    acc: Seq<Seq<LineDiffV>>,
) -> Seq<Seq<LineDiffV>>
    decreases lines.len() - i,
{
    if i < 0 || i >= lines.len() {
        acc
    } else {
        let cur2 = line_target(files, lines[i], cur);
        let acc2 = if 0 <= cur2 < files.len() && cur2 < acc.len() && !files[cur2].binary {
            acc.update(cur2, acc[cur2].push(tree_line_view(lines[i])))
        } else {
            acc
        };
        assign_from(files, lines, i + 1, cur2, acc2)
    }
}

/// The whole tree diff: one file per delta, each non-binary file carrying
/// the printed lines that landed in it, in print order.
pub open spec fn spec_tree_diff(deltas: Seq<RawDelta>, lines: Seq<RawDiffLine>) -> Seq<FileDiffV> {
    let files0 = deltas.map_values(|d: RawDelta| file_of_delta(d));
    let buckets = assign_from(
        files0,
        lines,
        0,
        0,
        Seq::new(files0.len(), |i: int| Seq::<LineDiffV>::empty()),
    );
    Seq::new(
        files0.len(),
        |i: int|
            FileDiffV {
                old_file: files0[i].old_file,
                new_file: files0[i].new_file,
                status: files0[i].status,
                lines: buckets[i],
                binary: files0[i].binary,
            },
    )
}

/// A status letter the engine emits.
pub open spec fn valid_status_char(c: char) -> bool {
    c == 'A' || c == 'D' || c == 'M' || c == 'R' || c == 'C' || c == 'I' || c == 'U' || c == 'T'
        || c == 'X' || c == ' ' || c == '?'
}

/// The shape every assembled tree diff has: a recognised status letter on
/// every file, and no patch lines on a binary file.
pub open spec fn well_formed_tree_diff(files: Seq<FileDiffV>) -> bool {
    forall|i: int|
        0 <= i < files.len() ==> valid_status_char(#[trigger] files[i].status) && (files[i].binary
            ==> files[i].lines.len() == 0)
}

proof fn lemma_assign_keeps_binary_empty(
    files: Seq<FileDiffV>,
    lines: Seq<RawDiffLine>,
    i: int,
    cur: int,
    acc: Seq<Seq<LineDiffV>>,
    b: int,
)
    requires
        0 <= b < files.len(),
        b < acc.len(),
        files[b].binary,
    ensures
        assign_from(files, lines, i, cur, acc).len() == acc.len(),
        assign_from(files, lines, i, cur, acc)[b] == acc[b],
    decreases lines.len() - i,
{
    if !(i < 0 || i >= lines.len()) {
        let cur2 = line_target(files, lines[i], cur);
        let acc2 = if 0 <= cur2 < files.len() && cur2 < acc.len() && !files[cur2].binary {
            acc.update(cur2, acc[cur2].push(tree_line_view(lines[i])))
        } else {
            acc
        };
        assert(acc2[b] == acc[b]);
        lemma_assign_keeps_binary_empty(files, lines, i + 1, cur2, acc2, b);
    }
}

/// Whatever the deltas and printed lines were, the assembled tree diff is
/// well-formed: recognised status letters, and binary files without lines.
pub proof fn lemma_spec_tree_diff_shape(deltas: Seq<RawDelta>, lines: Seq<RawDiffLine>)
    ensures
        well_formed_tree_diff(spec_tree_diff(deltas, lines)),
{
    let files0 = deltas.map_values(|d: RawDelta| file_of_delta(d));
    let init = Seq::new(files0.len(), |i: int| Seq::<LineDiffV>::empty());
    let result = spec_tree_diff(deltas, lines);
    assert forall|i: int|
        0 <= i < result.len() implies valid_status_char(#[trigger] result[i].status) && (
    result[i].binary ==> result[i].lines.len() == 0) by {
        assert(result[i].status == status_char_of(deltas[i].status));
        match deltas[i].status {
            DeltaKind::Added => {},
            DeltaKind::Deleted => {},
            DeltaKind::Modified => {},
            DeltaKind::Renamed => {},
            DeltaKind::Copied => {},
            DeltaKind::Ignored => {},
            DeltaKind::Untracked => {},
            DeltaKind::Typechange => {},
            DeltaKind::Unreadable => {},
            DeltaKind::Unmodified => {},
            DeltaKind::Unknown => {},
        }
        if result[i].binary {
            lemma_assign_keeps_binary_empty(files0, lines, 0, 0, init, i);
        }
    }
}

// ----- the fold, executed -----

proof fn lemma_find_file_from_is(files: Seq<FileDiffV>, l: RawDiffLine, i: int, j: int)
    requires
        0 <= i <= j <= files.len(),
        forall|k: int| i <= k < j ==> !line_matches_file(l, files[k]),
        j < files.len() ==> line_matches_file(l, files[j]),
    ensures
        find_file_from(files, l, i) == j,
    decreases j - i,
{
    if i < j {
        lemma_find_file_from_is(files, l, i + 1, j);
    }
}

/// The one-letter status of a delta kind.
pub fn status_char_exec(k: DeltaKind) -> (c: char)
    ensures
        c == status_char_of(k),
{
    match k {
        DeltaKind::Added => 'A',
        DeltaKind::Deleted => 'D',
        DeltaKind::Modified => 'M',
        DeltaKind::Renamed => 'R',
        DeltaKind::Copied => 'C',
        DeltaKind::Ignored => 'I',
        DeltaKind::Untracked => 'U',
        DeltaKind::Typechange => 'T',
        DeltaKind::Unreadable => 'X',
        DeltaKind::Unmodified => ' ',
        DeltaKind::Unknown => '?',
    }
}

fn path_text_exec(p: &Option<String>) -> (r: String)
    ensures
        r@ == path_text(*p),
{
    match p {
        Some(s) => s.clone(),
        None => String::new(),
    }
}

/// Whether the printed line's delta names file `f` on either side.
fn line_matches_file_exec(l: &RawDiffLine, f: &FileDiff) -> (r: bool)
    ensures
        r == line_matches_file(*l, f@),
{
    let old_match = match &l.delta_old_path {
        Some(p) => p.eq(&f.old_file),
        None => false,
    };
    if old_match {
        return true;
    }
    match &l.delta_new_path {
        Some(p) => p.eq(&f.new_file),
        None => false,
    }
}

/// The first file of `files` that the printed line's delta names, if any.
fn find_matching_file(files: &Vec<FileDiff>, l: &RawDiffLine) -> (r: Option<usize>)
    ensures
        match r {
            Some(p) => p < files.deep_view().len() && p as int == find_file_from(
                files.deep_view(),
                *l,
                0,
            ),
            None => find_file_from(files.deep_view(), *l, 0) == files.deep_view().len(),
        },
{
    let n = files.len();
    let mut p: usize = 0;
    while p < n
        invariant
            n == files@.len(),
            p <= n,
            forall|k: int| 0 <= k < p ==> !line_matches_file(*l, files.deep_view()[k]),
        decreases n - p,
    {
        if line_matches_file_exec(l, &files[p]) {
            proof {
                assert(files.deep_view().len() == files@.len());
                lemma_find_file_from_is(files.deep_view(), *l, 0, p as int);
            }
            return Some(p);
        }
        p = p + 1;
    }
    proof {
        assert(files.deep_view().len() == files@.len());
        lemma_find_file_from_is(files.deep_view(), *l, 0, n as int);
    }
    None
}

/// The raw text of one printed line.
fn tree_line_text_exec(bytes: &Vec<u8>) -> (r: String)
    ensures
        r@ == line_text(bytes@),
{
    match string_from_utf8(copy_bytes(bytes.as_slice())) {
        Some(s) => s,
        None => String::from_str("[Binary content]"),
    }
}

/// Assembles a tree diff from its deltas and printed lines, exactly as
/// `spec_tree_diff` lays it out.
pub fn process_tree_diff(deltas: &Vec<RawDelta>, lines: &Vec<RawDiffLine>) -> (t: TreeDiff)
    ensures
        t@ == spec_tree_diff(deltas@, lines@),
{
    let ghost files0 = deltas@.map_values(|d: RawDelta| file_of_delta(d));
    let mut files: Vec<FileDiff> = Vec::new();
    let nd = deltas.len();
    let mut i: usize = 0;
    while i < nd
        invariant
            nd == deltas@.len(),
            i <= nd,
            files0 == deltas@.map_values(|d: RawDelta| file_of_delta(d)),
            files.deep_view() =~= files0.take(i as int),
        decreases nd - i,
    {
        let d = &deltas[i];
        let no_lines: Vec<LineDiff> = Vec::new();
        proof {
            assert(no_lines.deep_view() =~= Seq::<LineDiffV>::empty());
        }
        let entry = FileDiff {
            old_file: path_text_exec(&d.old_path),
            new_file: path_text_exec(&d.new_path),
            status: status_char_exec(d.status),
            lines: no_lines,
            binary: d.old_binary || d.new_binary,
        };
        proof {
            assert(entry@ == file_of_delta(deltas@[i as int]));
        }
        files.push(entry);
        i = i + 1;
        proof {
            assert(files.deep_view() =~= files0.take(i - 1).push(file_of_delta(deltas@[i - 1])));
            assert(files0.take(i as int) =~= files0.take(i - 1).push(files0[i - 1]));
        }
    }
    proof {
        assert(files0.take(nd as int) =~= files0);
        assert(files.deep_view() =~= files0);
    }
    let mut buckets: Vec<Vec<LineDiff>> = Vec::new();
    let mut j: usize = 0;
    while j < nd
        invariant
            j <= nd,
            buckets@.len() == j,
            buckets.deep_view() =~= Seq::new(j as nat, |k: int| Seq::<LineDiffV>::empty()),
        decreases nd - j,
    {
        let empty_bucket: Vec<LineDiff> = Vec::new();
        proof {
            assert(empty_bucket.deep_view() =~= Seq::<LineDiffV>::empty());
        }
        let ghost prev_vecs = buckets@;
        let ghost prev_deep = buckets.deep_view();
        buckets.push(empty_bucket);
        j = j + 1;
        proof {
            assert forall|k: int| 0 <= k < j implies buckets.deep_view()[k]
                =~= Seq::<LineDiffV>::empty() by {
                if k < j - 1 {
                    assert(buckets@[k] == prev_vecs[k]);
                    assert(prev_deep[k] =~= Seq::<LineDiffV>::empty());
                } else {
                    assert(buckets@[k] == empty_bucket);
                }
            }
            assert(buckets.deep_view() =~= Seq::new(j as nat, |k: int| Seq::<LineDiffV>::empty()));
        }
    }
    let ghost init = Seq::new(files0.len(), |k: int| Seq::<LineDiffV>::empty());
    proof {
        assert(buckets.deep_view() =~= init);
    }
    let nl = lines.len();
    let mut li: usize = 0;
    let mut cur: usize = 0;
    while li < nl
        invariant
            nl == lines@.len(),
            li <= nl,
            nd == deltas@.len(),
            files0 == deltas@.map_values(|d: RawDelta| file_of_delta(d)),
            files.deep_view() == files0,
            files@.len() == nd,
            buckets@.len() == nd,
            files0.len() == nd,
            assign_from(files0, lines@, li as int, cur as int, buckets.deep_view())
                == assign_from(files0, lines@, 0, 0, init),
        decreases nl - li,
    {
        let ghost entry_cur = cur as int;
        let ghost entry_buckets = buckets.deep_view();
        let ghost l0 = lines@[li as int];
        let l = &lines[li];
        let is_unmodified = l.delta_status == DeltaKind::Unmodified;
        if !is_unmodified {
            match find_matching_file(&files, l) {
                Some(p) => {
                    cur = p;
                },
                None => {},
            }
        }
        proof {
            assert(files.deep_view() == files0);
            assert(cur as int == line_target(files0, l0, entry_cur));
        }
        let ghost pre_vecs = buckets@;
        if cur < nd {
            let binary = files[cur].binary;
            if !binary {
                let line_rec = LineDiff {
                    old_lineno: l.old_lineno,
                    new_lineno: l.new_lineno,
                    content: tree_line_text_exec(&l.content),
                    origin: l.origin,
                };
                proof {
                    assert(line_rec@ == tree_line_view(l0));
                }
                let mut bucket = buckets.remove(cur);
                bucket.push(line_rec);
                let ghost new_bucket = bucket;
                buckets.insert(cur, bucket);
                proof {
                    assert(buckets@ =~= pre_vecs.update(cur as int, new_bucket));
                    assert(new_bucket.deep_view() =~= entry_buckets[cur as int].push(
                        tree_line_view(l0),
                    ));
                    assert(buckets.deep_view() =~= entry_buckets.update(
                        cur as int,
                        entry_buckets[cur as int].push(tree_line_view(l0)),
                    ));
                }
            }
        }
        proof {
            let cur2 = line_target(files0, l0, entry_cur);
            let acc2 = if 0 <= cur2 < files0.len() && cur2 < entry_buckets.len()
                && !files0[cur2].binary {
                entry_buckets.update(cur2, entry_buckets[cur2].push(tree_line_view(l0)))
            } else {
                entry_buckets
            };
            assert(entry_buckets.len() == nd);
            assert(buckets.deep_view() == acc2);
            assert(assign_from(files0, lines@, li as int, entry_cur, entry_buckets)
                == assign_from(files0, lines@, li + 1, cur2, acc2));
        }
        li = li + 1;
    }
    let mut out_files: Vec<FileDiff> = Vec::new();
    let ghost finalbuckets = buckets.deep_view();
    let ghost result = spec_tree_diff(deltas@, lines@);
    proof {
        assert(finalbuckets == assign_from(files0, lines@, 0, 0, init));
        assert(result.len() == files0.len());
    }
    let mut fi: usize = 0;
    while fi < nd
        invariant
            nd == files@.len(),
            nd == buckets@.len(),
            fi <= nd,
            files.deep_view() == files0,
            files0.len() == nd,
            buckets.deep_view() == finalbuckets,
            result == spec_tree_diff(deltas@, lines@),
            result.len() == nd,
            forall|k: int| 0 <= k < nd ==> #[trigger] result[k] == (FileDiffV {
                old_file: files0[k].old_file,
                new_file: files0[k].new_file,
                status: files0[k].status,
                lines: finalbuckets[k],
                binary: files0[k].binary,
            }),
            out_files.deep_view() =~= result.take(fi as int),
        decreases nd - fi,
    {
        let f = &files[fi];
        let bucket_lines = clone_line_diffs(&buckets[fi]);
        out_files.push(FileDiff {
            old_file: f.old_file.clone(),
            new_file: f.new_file.clone(),
            status: f.status,
            lines: bucket_lines,
            binary: f.binary,
        });
        fi = fi + 1;
        proof {
            assert(result.take(fi as int) =~= result.take(fi - 1).push(result[fi - 1]));
            assert(out_files.deep_view() =~= result.take(fi as int));
        }
    }
    proof {
        assert(result.take(nd as int) =~= result);
    }
    TreeDiff { files: out_files }
}

/// Line records copied one for one.
fn clone_line_diffs(v: &Vec<LineDiff>) -> (r: Vec<LineDiff>)
    ensures
        r.deep_view() == v.deep_view(),
{
    let mut r: Vec<LineDiff> = Vec::new();
    let n = v.len();
    let mut i: usize = 0;
    while i < n
        invariant
            n == v@.len(),
            i <= n,
            r.deep_view() =~= v.deep_view().take(i as int),
        decreases n - i,
    {
        let l = &v[i];
        r.push(LineDiff {
            old_lineno: l.old_lineno,
            new_lineno: l.new_lineno,
            content: l.content.clone(),
            origin: l.origin,
        });
        i = i + 1;
        proof {
            assert(v.deep_view().take(i as int) =~= v.deep_view().take(i - 1).push(
                v.deep_view()[i - 1],
            ));
        }
    }
    proof {
        assert(v.deep_view().take(n as int) =~= v.deep_view());
    }
    r
}

// ----- the public operations -----

/// The whole-tree diff between two revisions, with three context lines.
/// An unresolvable revision fails with `RevisionNotFound`; object-store
/// failures with `Git`.
pub fn get_tree_diff_between_revisions(
    repo: &git2::Repository,
    from_revision: &str,
    to_revision: &str,
) -> (r: Result<TreeDiff, GitDiffError>)
    ensures
        r matches Ok(t) ==> well_formed_tree_diff(t@),
{
    let from_obj = match revparse_single(repo, from_revision) {
        Ok(o) => o,
        Err(_) => {
            return Err(GitDiffError::RevisionNotFound);
        },
    };
    let from_tree = match peel_to_tree(&from_obj) {
        Some(t) => t,
        None => {
            return Err(GitDiffError::RevisionNotFound);
        },
    };
    let to_obj = match revparse_single(repo, to_revision) {
        Ok(o) => o,
        Err(_) => {
            return Err(GitDiffError::RevisionNotFound);
        },
    };
    let to_tree = match peel_to_tree(&to_obj) {
        Some(t) => t,
        None => {
            return Err(GitDiffError::RevisionNotFound);
        },
    };
    let mut opts = new_diff_options();
    diff_options_context_lines(&mut opts, 3);
    let diff = match diff_tree_to_tree(repo, &from_tree, &to_tree, &mut opts) {
        Ok(d) => d,
        Err(_) => {
            return Err(GitDiffError::Git);
        },
    };
    let deltas = diff_delta_list(&diff);
    let raw = match diff_print_lines(&diff) {
        Ok(v) => v,
        Err(_) => {
            return Err(GitDiffError::Git);
        },
    };
    proof {
        lemma_spec_tree_diff_shape(deltas@, raw@);
    }
    Ok(process_tree_diff(&deltas, &raw))
}

/// The whole-tree diff between two revisions, restricted to paths matching
/// `file_pattern`, with three context lines.
pub fn get_filtered_tree_diff(
    repo: &git2::Repository,
    from_revision: &str,
    to_revision: &str,
    file_pattern: &str,
) -> (r: Result<TreeDiff, GitDiffError>)
    ensures
        r matches Ok(t) ==> well_formed_tree_diff(t@),
{
    let from_obj = match revparse_single(repo, from_revision) {
        Ok(o) => o,
        Err(_) => {
            return Err(GitDiffError::RevisionNotFound);
        },
    };
    let from_tree = match peel_to_tree(&from_obj) {
        Some(t) => t,
        None => {
            return Err(GitDiffError::RevisionNotFound);
        },
    };
    let to_obj = match revparse_single(repo, to_revision) {
        Ok(o) => o,
        Err(_) => {
            return Err(GitDiffError::RevisionNotFound);
        },
    };
    let to_tree = match peel_to_tree(&to_obj) {
        Some(t) => t,
        None => {
            return Err(GitDiffError::RevisionNotFound);
        },
    };
    let mut opts = new_diff_options();
    diff_options_context_lines(&mut opts, 3);
    diff_options_pathspec(&mut opts, file_pattern);
    let diff = match diff_tree_to_tree(repo, &from_tree, &to_tree, &mut opts) {
        Ok(d) => d,
        Err(_) => {
            return Err(GitDiffError::Git);
        },
    };
    let deltas = diff_delta_list(&diff);
    let raw = match diff_print_lines(&diff) {
        Ok(v) => v,
        Err(_) => {
            return Err(GitDiffError::Git);
        },
    };
    proof {
        lemma_spec_tree_diff_shape(deltas@, raw@);
    }
    Ok(process_tree_diff(&deltas, &raw))
}

} // verus!
