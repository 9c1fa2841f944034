//! One engine session: the archive stores, the search index, the preload
//! warmer and the repository handle, owned together so that several
//! independent sessions can coexist in one process.
//!
//! The session keeps the cross-component invariant that every entry of the
//! dedicated preload cache is the decoded text of the entry it names in the
//! current PR archive; swapping archives clears that cache and supersedes
//! any in-flight preload task before the invariant could be violated.

use vstd::prelude::*;
use vstd::string::*;
use vstd::utf8::{valid_utf8, decode_utf8};
use crate::errors::{ArchiveError, CommitError, GitFileError, GitDiffError};
use crate::filesystem::{
    FileSystem, FileSystemView, valid_archive_path, has_index_doc, archive_parse_ok,
    archive_parsed_names, archive_parsed_contents, index_text_of, index_readable,
};
use crate::json::spec_pr_index;
use crate::index::{PrEntryView, PrFile, PrFileView, pr_files_of, index_entries_to_pr_files};
use crate::search::{SearchIndex, spec_search};
use crate::preload::{Preloader, PreloaderView};
use crate::git_commit::{CommitMetadata, get_commit_metadata};
use crate::git_lines::{get_file_lines_at_revision, get_file_diff_as_strings};
use crate::git_diff::{TreeDiff, get_tree_diff_between_revisions, get_filtered_tree_diff};
use crate::git_raw::{repo_open, repo_path_string, git_error_message};
use crate::text::{
    chars_vec, chars_end_with, string_from_chars, subvec_chars, chars_match_at, seq_ends_with,
};

verus! {

/// A git-side session error: no repository configured, or the underlying
/// engine error.
#[derive(Debug, Clone, Copy, PartialEq, Eq, Structural)]
pub enum SessionGitError {
    NoRepository,
    Commit(CommitError),
    File(GitFileError),
    Diff(GitDiffError),
}

/// What the embedding process hands the engine at startup.
pub struct InitialState {
    /// Path of the main PR archive, if one is preconfigured.
    pub archive_path: Option<String>,
    /// Path of the image archive, if one is preconfigured.
    pub images_archive_path: Option<String>,
    /// Path of the git repository, if one is preconfigured.
    pub repo_path: Option<String>,
}

impl Default for InitialState {
    /// No archive, no image archive, no repository.
    fn default() -> (r: Self)
        ensures
            r.archive_path is None,
            r.images_archive_path is None,
            r.repo_path is None,
    {
        InitialState { archive_path: None, images_archive_path: None, repo_path: None }
    }
}

// ----- descending order of PR files -----

/// Stable insertion of `e` behind the files of equal or greater number.
pub open spec fn insert_file_desc(s: Seq<PrFileView>, e: PrFileView) -> Seq<PrFileView>
    decreases s.len(),
{
    if s.len() == 0 {
        seq![e]
    } else if s.last().pr_number >= e.pr_number {
        s.push(e)
    } else {
        insert_file_desc(s.drop_last(), e).push(s.last())
    }
}

/// Stable sort of files descending by PR number.
pub open spec fn sort_files_desc(s: Seq<PrFileView>) -> Seq<PrFileView>
    decreases s.len(),
{
    if s.len() == 0 {
        s
    } else {
        insert_file_desc(sort_files_desc(s.drop_last()), s.last())
    }
}

/// Files stand in descending PR-number order.
pub open spec fn sorted_desc(s: Seq<PrFileView>) -> bool {
    forall|i: int, j: int| 0 <= i <= j < s.len() ==> s[i].pr_number >= s[j].pr_number
}

proof fn lemma_insert_file_desc_set(s: Seq<PrFileView>, e: PrFileView)
    ensures
        insert_file_desc(s, e).to_set() == s.to_set().insert(e),
    decreases s.len(),
{
    if s.len() == 0 {
        crate::text::lemma_push_to_set(s, e);
        assert(insert_file_desc(s, e) =~= s.push(e));
    } else if s.last().pr_number >= e.pr_number {
        crate::text::lemma_push_to_set(s, e);
    } else {
        lemma_insert_file_desc_set(s.drop_last(), e);
        crate::text::lemma_push_to_set(insert_file_desc(s.drop_last(), e), s.last());
        crate::text::lemma_push_to_set(s.drop_last(), s.last());
        assert(s.drop_last().push(s.last()) =~= s);
        assert(insert_file_desc(s, e).to_set() =~= s.to_set().insert(e));
    }
}

proof fn lemma_insert_file_desc_sorted(s: Seq<PrFileView>, e: PrFileView)
    requires
        sorted_desc(s),
    ensures
        sorted_desc(insert_file_desc(s, e)),
    decreases s.len(),
{
    if s.len() == 0 {
    } else if s.last().pr_number >= e.pr_number {
    } else {
        assert(sorted_desc(s.drop_last())) by {
            assert(forall|i: int, j: int|
                0 <= i <= j < s.drop_last().len() ==> s.drop_last()[i].pr_number
                    >= s.drop_last()[j].pr_number);
        }
        lemma_insert_file_desc_sorted(s.drop_last(), e);
        lemma_insert_file_desc_set(s.drop_last(), e);
        let inner = insert_file_desc(s.drop_last(), e);
        let r = inner.push(s.last());
        assert forall|i: int, j: int| 0 <= i <= j < r.len() implies r[i].pr_number
            >= r[j].pr_number by {
            if j < inner.len() {
                assert(inner[i].pr_number >= inner[j].pr_number);
            } else if i < inner.len() {
                assert(inner.to_set().contains(inner[i]));
                if s.drop_last().to_set().contains(inner[i]) {
                    let k = choose|k: int|
                        0 <= k < s.drop_last().len() && s.drop_last()[k] == inner[i];
                    assert(s[k].pr_number >= s.last().pr_number);
                } else {
                    assert(inner[i] == e);
                }
            }
        }
    }
}

/// A descending stable sort is sorted descending.
pub proof fn lemma_sort_files_desc_sorted(s: Seq<PrFileView>)
    ensures
        sorted_desc(sort_files_desc(s)),
    decreases s.len(),
{
    if s.len() > 0 {
        lemma_sort_files_desc_sorted(s.drop_last());
        lemma_insert_file_desc_sorted(sort_files_desc(s.drop_last()), s.last());
    }
}

proof fn lemma_insert_file_desc_at(s: Seq<PrFileView>, e: PrFileView, p: int)
    requires
        0 <= p <= s.len(),
        forall|j: int| p <= j < s.len() ==> s[j].pr_number < e.pr_number,
        p > 0 ==> s[p - 1].pr_number >= e.pr_number,
    ensures
        insert_file_desc(s, e) == s.take(p) + seq![e] + s.skip(p),
    decreases s.len(),
{
    if s.len() == 0 {
        assert(insert_file_desc(s, e) =~= s.take(p) + seq![e] + s.skip(p));
    } else if s.last().pr_number >= e.pr_number {
        assert(p == s.len());
        assert(s.take(p) =~= s);
        assert(insert_file_desc(s, e) =~= s.take(p) + seq![e] + s.skip(p));
    } else {
        assert(p < s.len());
        lemma_insert_file_desc_at(s.drop_last(), e, p);
        assert(insert_file_desc(s, e) =~= s.take(p) + seq![e] + s.skip(p));
    }
}

fn insert_pr_file_desc(v: &mut Vec<PrFile>, e: PrFile)
    ensures
        final(v).deep_view() == insert_file_desc(old(v).deep_view(), e@),
{
    let mut pos: usize = v.len();
    while pos > 0 && v[pos - 1].pr_number < e.pr_number
        invariant
            pos <= v@.len(),
            forall|j: int| pos <= j < v@.len() ==> v.deep_view()[j].pr_number < e@.pr_number,
        decreases pos,
    {
        pos = pos - 1;
    }
    proof {
        lemma_insert_file_desc_at(v.deep_view(), e@, pos as int);
    }
    v.insert(pos, e);
    proof {
        assert(final(v).deep_view() =~= old(v).deep_view().take(pos as int) + seq![e@]
            + old(v).deep_view().skip(pos as int));
    }
}

/// Sorts PR files descending by PR number, stably.
pub fn sort_pr_files_desc(v: Vec<PrFile>) -> (r: Vec<PrFile>)
    ensures
        r.deep_view() == sort_files_desc(v.deep_view()),
{
    let mut out: Vec<PrFile> = Vec::new();
    let n = v.len();
    let mut i: usize = 0;
    while i < n
        invariant
            n == v@.len(),
            i <= n,
            out.deep_view() == sort_files_desc(v.deep_view().take(i as int)),
        decreases n - i,
    {
        insert_pr_file_desc(&mut out, v[i].duplicate());
        i = i + 1;
        proof {
            assert(v.deep_view().take(i as int).drop_last() =~= v.deep_view().take(i - 1));
            assert(v.deep_view().take(i as int).last() == v.deep_view()[i - 1]);
        }
    }
    proof {
        assert(v.deep_view().take(n as int) =~= v.deep_view());
    }
    out
}

/// The archive paths of the first `limit` files: the candidate set a
/// preload task warms.
pub fn preload_candidates(files: &Vec<PrFile>, limit: usize) -> (r: Vec<String>)
    ensures
        r.deep_view() == files.deep_view().take(
            if limit <= files@.len() {
                limit as int
            } else {
                files@.len() as int
            },
        ).map_values(|f: PrFileView| f.archive_path),
{
    let stop: usize = if limit <= files.len() {
        limit
    } else {
        files.len()
    };
    let mut out: Vec<String> = Vec::new();
    let mut i: usize = 0;
    while i < stop
        invariant
            stop <= files@.len(),
            i <= stop,
            out.deep_view() =~= files.deep_view().take(i as int).map_values(
                |f: PrFileView| f.archive_path,
            ),
        decreases stop - i,
    {
        out.push(files[i].archive_path.clone());
        i = i + 1;
        proof {
            let m = |f: PrFileView| f.archive_path;
            assert(files.deep_view().take(i as int).map_values(m)
                =~= files.deep_view().take(i - 1).map_values(m).push(
                files.deep_view()[i - 1].archive_path,
            ));
        }
    }
    out
}

// ----- the session -----

/// One engine session.
pub struct Session {
    fs: FileSystem,
    images_fs: FileSystem,
    search: SearchIndex,
    preload: Preloader,
    repo: Option<git2::Repository>,
}

impl Session {
    /// The archive store's state.
    pub closed spec fn fs_view(&self) -> FileSystemView {
        self.fs@
    }

    /// The image store's state.
    pub closed spec fn images_view(&self) -> FileSystemView {
        self.images_fs@
    }

    /// The search index snapshot, if built.
    pub closed spec fn search_view(&self) -> Option<Seq<PrEntryView>> {
        self.search@
    }

    /// The preload warmer's state.
    pub closed spec fn preload_view(&self) -> PreloaderView {
        self.preload@
    }

    /// Whether a repository is configured.
    pub closed spec fn has_repo(&self) -> bool {
        self.repo is Some
    }

    /// Session consistency: both stores are consistent, and every preload
    /// cache entry is the decoded text of the archive entry it names.
    pub closed spec fn wf(&self) -> bool {
        &&& self.fs.wf()
        &&& self.images_fs.wf()
        &&& forall|k: Seq<char>|
            #[trigger] self.preload@.cache.contains_key(k) ==> self.fs@.entry_data.contains_key(k)
                && valid_utf8(self.fs@.entry_data[k]) && self.preload@.cache[k] == decode_utf8(
                self.fs@.entry_data[k],
            )
    }

    /// A fresh session around the given stores and optional repository.
    pub fn new(fs: FileSystem, images_fs: FileSystem, repo: Option<git2::Repository>) -> (r:
        Session)
        requires
            fs.wf(),
            images_fs.wf(),
        ensures
            r.wf(),
            r.fs_view() == fs@,
            r.images_view() == images_fs@,
            r.search_view() is None,
            r.preload_view().generation == 0,
            r.preload_view().cache == Map::<Seq<char>, Seq<char>>::empty(),
    {
        Session {
            fs,
            images_fs,
            search: SearchIndex::new(),
            preload: Preloader::new(),
            repo,
        }
    }

    /// Configures the main PR archive. Succeeds exactly when the path, the
    /// container parse and the index document do (per `FileSystem::
    /// set_archive`); on success every piece of derived state — content
    /// cache, extraction bookkeeping, dedicated preload cache, search
    /// index — is discarded and the preload generation is bumped,
    /// superseding any in-flight task; on failure nothing changes.
    pub fn set_archive_file(&mut self, path: &str, bytes: Vec<u8>) -> (r: Result<(), ArchiveError>)
        requires
            old(self).wf(),
            old(self).preload_view().generation < u64::MAX,
        ensures
            final(self).wf(),
            final(self).images_view() == old(self).images_view(),
            final(self).has_repo() == old(self).has_repo(),
            match r {
                Ok(_) => valid_archive_path(path@) && archive_parse_ok(path@, bytes@)
                    && final(self).fs_view().loaded && final(self).fs_view().archive_path == path@
                    && final(self).fs_view().entry_names == archive_parsed_names(path@, bytes@)
                    && final(self).fs_view().entry_data == archive_parsed_contents(path@, bytes@)
                    && has_index_doc(final(self).fs_view().entry_names)
                    && final(self).fs_view().cache.dom().is_empty() && final(self).preload_view().cache.dom().is_empty() && final(self).preload_view().generation
                    == old(self).preload_view().generation + 1 && final(self).search_view() is None,
                Err(e) => final(self).fs_view() == old(self).fs_view() && final(self).preload_view()
                    == old(self).preload_view() && final(self).search_view() == old(self).search_view() && (if !valid_archive_path(path@) {
                    e == ArchiveError::InvalidInput
                } else if !archive_parse_ok(path@, bytes@) {
                    e == ArchiveError::Corrupt
                } else {
                    e == ArchiveError::NotFound && !has_index_doc(
                        archive_parsed_names(path@, bytes@),
                    )
                }),
            },
    {
        let result = self.fs.set_archive(path, bytes);
        match result {
            Ok(_) => {
                self.preload.clear_cache();
                self.preload.bump_generation();
                self.search = SearchIndex::new();
                Ok(())
            },
            Err(e) => Err(e),
        }
    }

    /// Configures the image archive; the PR-side state is untouched.
    pub fn set_images_archive_file(&mut self, path: &str, bytes: Vec<u8>) -> (r: Result<
        (),
        ArchiveError,
    >)
        requires
            old(self).wf(),
        ensures
            final(self).wf(),
            final(self).fs_view() == old(self).fs_view(),
            final(self).preload_view() == old(self).preload_view(),
            final(self).search_view() == old(self).search_view(),
            final(self).has_repo() == old(self).has_repo(),
            match r {
                Ok(_) => valid_archive_path(path@) && archive_parse_ok(path@, bytes@) && final(self).images_view().loaded && final(self).images_view().archive_path == path@
                    && final(self).images_view().entry_data == archive_parsed_contents(
                    path@,
                    bytes@,
                ) && has_index_doc(final(self).images_view().entry_names),
                Err(e) => final(self).images_view() == old(self).images_view() && (if !valid_archive_path(path@) {
                    e == ArchiveError::InvalidInput
                } else if !archive_parse_ok(path@, bytes@) {
                    e == ArchiveError::Corrupt
                } else {
                    e == ArchiveError::NotFound && !has_index_doc(
                        archive_parsed_names(path@, bytes@),
                    )
                }),
            },
    {
        self.images_fs.set_archive(path, bytes)
    }

    /// The main archive's path, empty while none is set.
    pub fn get_archive_path(&self) -> (r: String)
        ensures
            r@ == self.fs_view().archive_path,
    {
        self.fs.get_archive_path()
    }

    /// The image archive's path, empty while none is set.
    pub fn get_images_archive_path(&self) -> (r: String)
        ensures
            r@ == self.images_view().archive_path,
    {
        self.images_fs.get_archive_path()
    }

    /// The entry names of the main archive.
    pub fn list_files(&self) -> (r: Result<Vec<String>, ArchiveError>)
        requires
            self.wf(),
        ensures
            match r {
                Ok(v) => self.fs_view().loaded && v.deep_view() == self.fs_view().entry_names,
                Err(e) => !self.fs_view().loaded && e == ArchiveError::StateError,
            },
    {
        self.fs.list_files()
    }

    /// Reads one PR content file: the dedicated preload cache first, then
    /// the archive store's cache-first read path; a fresh read is also
    /// recorded in the dedicated cache unless a racing task already did.
    /// A dedicated-cache hit succeeds without touching the store at all;
    /// success is also owed whenever the entry is present, decompressible
    /// and valid UTF-8.
    pub fn read_pr_file(&mut self, path: &str) -> (r: Result<String, ArchiveError>)
        requires
            old(self).wf(),
        ensures
            final(self).wf(),
            final(self).fs_view().archive_path == old(self).fs_view().archive_path,
            final(self).fs_view().entry_names == old(self).fs_view().entry_names,
            final(self).fs_view().entry_data == old(self).fs_view().entry_data,
            final(self).fs_view().decodable == old(self).fs_view().decodable,
            final(self).fs_view().loaded == old(self).fs_view().loaded,
            final(self).preload_view().generation == old(self).preload_view().generation,
            final(self).search_view() == old(self).search_view(),
            old(self).preload_view().cache.contains_key(path@) ==> r is Ok && final(self).fs_view()
                == old(self).fs_view() && final(self).preload_view() == old(self).preload_view(),
            old(self).fs_view().loaded && old(self).fs_view().entry_data.contains_key(path@) && old(self).fs_view().decodable.contains(path@) && valid_utf8(
                old(self).fs_view().entry_data[path@],
            ) ==> r is Ok,
            match r {
                Ok(s) => old(self).fs_view().entry_data.contains_key(path@) && valid_utf8(
                    old(self).fs_view().entry_data[path@],
                ) && s@ == decode_utf8(old(self).fs_view().entry_data[path@]) && final(self).preload_view().cache == (if old(self).preload_view().cache.contains_key(path@) {
                    old(self).preload_view().cache
                } else {
                    old(self).preload_view().cache.insert(path@, s@)
                }),
                Err(_) => final(self).preload_view().cache == old(self).preload_view().cache,
            },
    {
        match self.preload.cache_get(path) {
            Some(s) => {
                proof {
                    assert(old(self).preload_view().cache.contains_key(path@));
                }
                return Ok(s);
            },
            None => {},
        }
        match self.fs.read_file_from_memory(path) {
            Ok(content) => {
                self.preload.insert_if_absent(path, content.clone());
                Ok(content)
            },
            Err(e) => Err(e),
        }
    }

    /// The live preload generation; a task started now would get exactly
    /// this ticket.
    pub fn current_preload_generation(&self) -> (r: u64)
        ensures
            r == self.preload_view().generation,
    {
        self.preload.current_generation()
    }

    /// One step of a preload task: hands back what to do for `path` under
    /// `ticket` (stop, skip, or fetch).
    pub fn preload_step(&self, ticket: u64, path: &str) -> (r: crate::preload::PreloadStep)
        ensures
            r == (if self.preload_view().generation != ticket {
                crate::preload::PreloadStep::Cancelled
            } else if self.preload_view().cache.contains_key(path@) {
                crate::preload::PreloadStep::AlreadyCached
            } else {
                crate::preload::PreloadStep::Fetch
            }),
    {
        self.preload.preload_step(ticket, path)
    }

    /// The read-and-commit of one preload candidate: reads the entry from
    /// the archive and caches it unless the ticket has gone stale or a
    /// racing read already cached it. A stale ticket never changes the
    /// dedicated cache.
    pub fn preload_fetch(&mut self, ticket: u64, path: &str) -> (r: bool)
        requires
            old(self).wf(),
        ensures
            final(self).wf(),
            final(self).preload_view().generation == old(self).preload_view().generation,
            final(self).fs_view().entry_names == old(self).fs_view().entry_names,
            final(self).fs_view().entry_data == old(self).fs_view().entry_data,
            final(self).fs_view().decodable == old(self).fs_view().decodable,
            final(self).search_view() == old(self).search_view(),
            old(self).preload_view().generation != ticket ==> !r && final(self).preload_view().cache
                == old(self).preload_view().cache,
            !r ==> final(self).preload_view().cache == old(self).preload_view().cache,
            r ==> old(self).preload_view().generation == ticket && old(
                self,
            ).fs_view().entry_data.contains_key(path@) && valid_utf8(
                old(self).fs_view().entry_data[path@],
            ) && final(self).preload_view().cache == (if old(
                self,
            ).preload_view().cache.contains_key(path@) {
                old(self).preload_view().cache
            } else {
                old(self).preload_view().cache.insert(
                    path@,
                    decode_utf8(old(self).fs_view().entry_data[path@]),
                )
            }),
            old(self).preload_view().generation == ticket && old(self).fs_view().loaded && old(
                self,
            ).fs_view().entry_data.contains_key(path@) && old(self).fs_view().decodable.contains(
                path@,
            ) && valid_utf8(old(self).fs_view().entry_data[path@]) ==> r,
    {
        let content = match self.fs.read_file_from_memory(path) {
            Ok(c) => c,
            Err(_) => {
                return false;
            },
        };
        if self.preload.current_generation() != ticket {
            return false;
        }
        self.preload.preload_commit(ticket, path, content)
    }

    /// The PR index of the current archive, sorted descending by number.
    /// Builds the search index from the same rows if it is not built yet.
    pub fn get_pr_files(&mut self) -> (r: Result<Vec<PrFile>, ArchiveError>)
        requires
            old(self).wf(),
        ensures
            final(self).wf(),
            final(self).fs_view().entry_names == old(self).fs_view().entry_names,
            final(self).fs_view().entry_data == old(self).fs_view().entry_data,
            final(self).fs_view().decodable == old(self).fs_view().decodable,
            final(self).preload_view().generation == old(self).preload_view().generation,
            match r {
                Ok(files) => final(self).search_view() is Some && spec_pr_index(
                    index_text_of(old(self).fs_view()),
                ) is Some && files.deep_view() == sort_files_desc(
                    pr_files_of(spec_pr_index(index_text_of(old(self).fs_view())).unwrap()),
                ) && sorted_desc(files.deep_view()),
                Err(_) => true,
            },
            index_readable(old(self).fs_view()) && spec_pr_index(
                index_text_of(old(self).fs_view()),
            ) is Some ==> r is Ok,
    {
        let content = match self.fs.get_index_content() {
            Ok(c) => c,
            Err(e) => {
                return Err(e);
            },
        };
        let entries = match self.fs.parse_json(content.as_str()) {
            Ok(v) => v,
            Err(e) => {
                return Err(e);
            },
        };
        if !self.search.is_initialized() {
            match self.search.rebuild_index(&entries) {
                Ok(_) => {},
                Err(e) => {
                    return Err(e);
                },
            }
        }
        let files = index_entries_to_pr_files(entries);
        let ghost fv = files.deep_view();
        let sorted = sort_pr_files_desc(files);
        proof {
            lemma_sort_files_desc_sorted(fv);
        }
        Ok(sorted)
    }

    /// The parsed rows of the current archive's index document, exactly as
    /// `spec_pr_index` reads its text; success is owed whenever the index
    /// document is present, decompressible, valid UTF-8 and well-formed.
    pub fn index_entries(&mut self) -> (r: Result<Vec<crate::index::PrIndexEntry>, ArchiveError>)
        requires
            old(self).wf(),
        ensures
            final(self).wf(),
            final(self).fs_view().entry_names == old(self).fs_view().entry_names,
            final(self).fs_view().entry_data == old(self).fs_view().entry_data,
            final(self).fs_view().decodable == old(self).fs_view().decodable,
            final(self).preload_view() == old(self).preload_view(),
            final(self).search_view() == old(self).search_view(),
            r matches Ok(v) ==> spec_pr_index(index_text_of(old(self).fs_view())) == Some(
                v.deep_view(),
            ),
            index_readable(old(self).fs_view()) && spec_pr_index(
                index_text_of(old(self).fs_view()),
            ) is Some ==> r is Ok,
    {
        let content = match self.fs.get_index_content() {
            Ok(c) => c,
            Err(e) => {
                return Err(e);
            },
        };
        self.fs.parse_json(content.as_str())
    }

    /// Resolves a search query against the PR index: supersedes any running
    /// preload task, builds the search index from the archive if need be,
    /// and returns the matches in rank order, as UI records.
    pub fn search_prs(&mut self, query: &str) -> (r: Result<Vec<PrFile>, ArchiveError>)
        requires
            old(self).wf(),
            old(self).preload_view().generation < u64::MAX,
        ensures
            final(self).wf(),
            final(self).preload_view().generation == old(self).preload_view().generation + 1,
            final(self).preload_view().cache == old(self).preload_view().cache,
            final(self).fs_view().entry_names == old(self).fs_view().entry_names,
            final(self).fs_view().entry_data == old(self).fs_view().entry_data,
            final(self).fs_view().decodable == old(self).fs_view().decodable,
            match r {
                Ok(v) => final(self).search_view() is Some && v.deep_view() == pr_files_of(
                    spec_search(final(self).search_view().unwrap(), query@),
                ),
                Err(_) => true,
            },
            old(self).search_view() is Some ==> r is Ok && final(self).search_view() == old(
                self,
            ).search_view(),
            old(self).search_view() is None && r is Ok ==> final(self).search_view() == Some(
                spec_pr_index(index_text_of(old(self).fs_view())).unwrap(),
            ),
            old(self).search_view() is None && index_readable(old(self).fs_view())
                && spec_pr_index(index_text_of(old(self).fs_view())) is Some ==> r is Ok,
    {
        self.preload.bump_generation();
        if !self.search.is_initialized() {
            let content = match self.fs.get_index_content() {
                Ok(c) => c,
                Err(e) => {
                    return Err(e);
                },
            };
            let entries = match self.fs.parse_json(content.as_str()) {
                Ok(v) => v,
                Err(e) => {
                    return Err(e);
                },
            };
            match self.search.rebuild_index(&entries) {
                Ok(_) => {},
                Err(e) => {
                    return Err(e);
                },
            }
        }
        let results = match self.search.search(query) {
            Ok(v) => v,
            Err(e) => {
                return Err(e);
            },
        };
        Ok(index_entries_to_pr_files(results))
    }

    /// Whether the search index is built.
    pub fn search_initialized(&self) -> (r: bool)
        ensures
            r == (self.search_view() is Some),
    {
        self.search.is_initialized()
    }

    /// Configures the git repository; `Ok` carries a short
    /// acknowledgement text.
    pub fn set_git_repo(&mut self, file_path: &str) -> (r: Result<String, String>)
        requires
            old(self).wf(),
        ensures
            final(self).wf(),
            final(self).fs_view() == old(self).fs_view(),
            final(self).preload_view() == old(self).preload_view(),
            final(self).search_view() == old(self).search_view(),
            r is Ok ==> final(self).has_repo(),
            r is Err ==> final(self).has_repo() == old(self).has_repo(),
    {
        match repo_open(file_path) {
            Ok(r) => {
                self.repo = Some(r);
                Ok(String::from_str("OK"))
            },
            Err(e) => Err(git_error_message(&e)),
        }
    }

    /// The configured repository's working-tree path, empty while none is
    /// set: the handle's `.git` location with the `/.git` tail cut off.
    pub fn get_git_repo(&self) -> (r: String)
        ensures
            !self.has_repo() ==> r@.len() == 0,
    {
        match &self.repo {
            Some(repo) => {
                let p = repo_path_string(repo);
                strip_git_dir(p.as_str())
            },
            None => String::new(),
        }
    }

    /// Metadata of the commit `revision` resolves to.
    pub fn get_git_commit(&self, revision: &str) -> (r: Result<CommitMetadata, SessionGitError>)
        ensures
            !self.has_repo() <==> r == Err::<CommitMetadata, SessionGitError>(
                SessionGitError::NoRepository,
            ),
            r matches Ok(m) ==> crate::git_raw::timestamp_in_range(m.author_time as int)
                && crate::git_raw::timestamp_in_range(m.commit_time as int),
            r matches Err(e) ==> e == SessionGitError::NoRepository || e == SessionGitError::Commit(
                CommitError::RevisionNotFound,
            ) || e == SessionGitError::Commit(CommitError::InvalidUtf8) || e
                == SessionGitError::Commit(CommitError::TimeConversion),
    {
        match &self.repo {
            Some(repo) => {
                match get_commit_metadata(repo, revision) {
                    Ok(m) => Ok(m),
                    Err(e) => Err(SessionGitError::Commit(e)),
                }
            },
            None => Err(SessionGitError::NoRepository),
        }
    }

    /// The lines of `file_path` at `revision` in `[start_line, end_line]`.
    pub fn get_git_file_lines_at_revision(
        &self,
        file_path: &str,
        revision: &str,
        start_line: usize,
        end_line: usize,
    ) -> (r: Result<Vec<String>, SessionGitError>)
        ensures
            !self.has_repo() <==> r == Err::<Vec<String>, SessionGitError>(
                SessionGitError::NoRepository,
            ),
            self.has_repo() && (start_line < 1 || start_line > end_line) ==> r == Err::<
                Vec<String>,
                SessionGitError,
            >(SessionGitError::File(GitFileError::InvalidRange)),
            r matches Ok(v) ==> 1 <= start_line <= end_line && 1 <= v@.len() && v@.len()
                <= end_line - start_line + 1,
    {
        match &self.repo {
            Some(repo) => {
                match get_file_lines_at_revision(repo, file_path, revision, start_line, end_line) {
                    Ok(v) => Ok(v),
                    Err(e) => Err(SessionGitError::File(e)),
                }
            },
            None => Err(SessionGitError::NoRepository),
        }
    }

    /// The windowed diff of `file_path` between two revisions, rendered as
    /// one unified-diff string.
    pub fn git_get_file_diff_between_revisions(
        &self,
        file_path: &str,
        from_revision: &str,
        to_revision: &str,
        start_line: usize,
        end_line: usize,
    ) -> (r: Result<String, SessionGitError>)
        ensures
            !self.has_repo() <==> r == Err::<String, SessionGitError>(
                SessionGitError::NoRepository,
            ),
            self.has_repo() && (start_line < 1 || start_line > end_line) ==> r == Err::<
                String,
                SessionGitError,
            >(SessionGitError::File(GitFileError::InvalidRange)),
            r is Ok ==> 1 <= start_line <= end_line,
    {
        match &self.repo {
            Some(repo) => {
                match get_file_diff_as_strings(
                    repo,
                    file_path,
                    from_revision,
                    to_revision,
                    start_line,
                    end_line,
                ) {
                    Ok(s) => Ok(s),
                    Err(e) => Err(SessionGitError::File(e)),
                }
            },
            None => Err(SessionGitError::NoRepository),
        }
    }

    /// The whole-tree diff between two revisions.
    pub fn git_get_tree_diff_between_revisions(
        &self,
        from_revision: &str,
        to_revision: &str,
    ) -> (r: Result<TreeDiff, SessionGitError>)
        ensures
            !self.has_repo() <==> r == Err::<TreeDiff, SessionGitError>(
                SessionGitError::NoRepository,
            ),
            r matches Ok(t) ==> crate::git_diff::well_formed_tree_diff(t@),
    {
        match &self.repo {
            Some(repo) => {
                match get_tree_diff_between_revisions(repo, from_revision, to_revision) {
                    Ok(t) => Ok(t),
                    Err(e) => Err(SessionGitError::Diff(e)),
                }
            },
            None => Err(SessionGitError::NoRepository),
        }
    }

    /// The whole-tree diff between two revisions, path-filtered.
    pub fn git_get_filtered_tree_diff(
        &self,
        from_revision: &str,
        to_revision: &str,
        file_pattern: &str,
    ) -> (r: Result<TreeDiff, SessionGitError>)
        ensures
            !self.has_repo() <==> r == Err::<TreeDiff, SessionGitError>(
                SessionGitError::NoRepository,
            ),
            r matches Ok(t) ==> crate::git_diff::well_formed_tree_diff(t@),
    {
        match &self.repo {
            Some(repo) => {
                match get_filtered_tree_diff(repo, from_revision, to_revision, file_pattern) {
                    Ok(t) => Ok(t),
                    Err(e) => Err(SessionGitError::Diff(e)),
                }
            },
            None => Err(SessionGitError::NoRepository),
        }
    }

    /// Plans the materialization of one PR archive entry into the
    /// extraction workspace; the caller writes the bytes and reports
    /// whether an earlier output file still exists.
    pub fn extract_file(&mut self, file_path: &str, output_present: bool) -> (r: Result<
        crate::filesystem::ExtractOutcome,
        ArchiveError,
    >)
        requires
            old(self).wf(),
        ensures
            final(self).wf(),
            final(self).fs_view().entry_names == old(self).fs_view().entry_names,
            final(self).fs_view().entry_data == old(self).fs_view().entry_data,
            final(self).fs_view().decodable == old(self).fs_view().decodable,
            final(self).preload_view() == old(self).preload_view(),
            final(self).search_view() == old(self).search_view(),
            old(self).fs_view().loaded && old(self).fs_view().extracted.contains(file_path@)
                && output_present ==> (r matches Ok(
                crate::filesystem::ExtractOutcome::AlreadyExtracted,
            )),
            old(self).fs_view().loaded && old(self).fs_view().entry_data.contains_key(file_path@)
                && old(self).fs_view().decodable.contains(file_path@) ==> r is Ok,
            match r {
                Ok(crate::filesystem::ExtractOutcome::Extracted(d)) => old(self).fs_view().entry_data.contains_key(file_path@) && d@ == old(self).fs_view().entry_data[file_path@],
                Ok(crate::filesystem::ExtractOutcome::AlreadyExtracted) => output_present
                    && final(self).fs_view().decoder_reads == old(self).fs_view().decoder_reads,
                Err(_) => true,
            },
    {
        self.fs.extract_file(file_path, output_present)
    }

    /// Reads one entry of the image archive as raw bytes.
    pub fn read_image_bytes(&mut self, path: &str) -> (r: Result<Vec<u8>, ArchiveError>)
        requires
            old(self).wf(),
        ensures
            final(self).wf(),
            final(self).fs_view() == old(self).fs_view(),
            final(self).preload_view() == old(self).preload_view(),
            final(self).search_view() == old(self).search_view(),
            old(self).images_view().loaded && old(self).images_view().entry_data.contains_key(
                path@,
            ) && old(self).images_view().decodable.contains(path@) ==> r is Ok,
            match r {
                Ok(d) => old(self).images_view().entry_data.contains_key(path@) && d@ == old(self).images_view().entry_data[path@],
                Err(e) => (if !old(self).images_view().loaded {
                    e == ArchiveError::StateError
                } else if !old(self).images_view().entry_data.contains_key(path@) {
                    e == ArchiveError::NotFound
                } else {
                    e == ArchiveError::Corrupt
                }),
            },
    {
        self.images_fs.read_binary_file_from_memory(path)
    }

    /// Reads one entry of the image archive as text.
    pub fn read_image_text(&mut self, path: &str) -> (r: Result<String, ArchiveError>)
        requires
            old(self).wf(),
        ensures
            final(self).wf(),
            final(self).fs_view() == old(self).fs_view(),
            final(self).preload_view() == old(self).preload_view(),
            final(self).search_view() == old(self).search_view(),
            old(self).images_view().loaded && old(self).images_view().entry_data.contains_key(
                path@,
            ) && old(self).images_view().decodable.contains(path@) && valid_utf8(
                old(self).images_view().entry_data[path@],
            ) ==> r is Ok,
            match r {
                Ok(s) => old(self).images_view().entry_data.contains_key(path@) && s@
                    == decode_utf8(old(self).images_view().entry_data[path@]),
                Err(e) => (if !old(self).images_view().loaded {
                    e == ArchiveError::StateError
                } else if !old(self).images_view().entry_data.contains_key(path@) {
                    e == ArchiveError::NotFound
                } else {
                    e == ArchiveError::Corrupt
                }),
            },
    {
        self.images_fs.read_file_from_memory(path)
    }
}

// ----- small verified helpers of the UI layer -----

/// The greeting of the hello round trip.
pub fn greet(name: &str) -> (r: String)
    ensures
        r@ == "Hello, "@ + name@ + "! You've been greeted from Rust!"@,
{
    let mut s = String::from_str("Hello, ");
    s.append(name);
    s.append("! You've been greeted from Rust!");
    s
}

/// The MIME type an image path is served under, by its extension.
pub open spec fn spec_mime_of(p: Seq<char>) -> Seq<char> {
    if seq_ends_with(p, ".png"@) {
        "image/png"@
    } else if seq_ends_with(p, ".jpg"@) || seq_ends_with(p, ".jpeg"@) {
        "image/jpeg"@
    } else if seq_ends_with(p, ".gif"@) {
        "image/gif"@
    } else if seq_ends_with(p, ".svg"@) {
        "image/svg+xml"@
    } else {
        "application/octet-stream"@
    }
}

/// The MIME type an image path is served under.
pub fn mime_type_for(path: &str) -> (r: &'static str)
    ensures
        r@ == spec_mime_of(path@),
{
    let cs = chars_vec(path);
    if chars_end_with(cs.as_slice(), chars_vec(".png").as_slice()) {
        "image/png"
    } else if chars_end_with(cs.as_slice(), chars_vec(".jpg").as_slice()) || chars_end_with(
        cs.as_slice(),
        chars_vec(".jpeg").as_slice(),
    ) {
        "image/jpeg"
    } else if chars_end_with(cs.as_slice(), chars_vec(".gif").as_slice()) {
        "image/gif"
    } else if chars_end_with(cs.as_slice(), chars_vec(".svg").as_slice()) {
        "image/svg+xml"
    } else {
        "application/octet-stream"
    }
}

/// Index of the first occurrence of `p` in `s` at or after `i`, or `-1` if
/// none.
pub open spec fn find_sub_from(s: Seq<char>, p: Seq<char>, i: int) -> int
    decreases s.len() - i,
{
    if p.len() == 0 || i < 0 || i + p.len() > s.len() {
        -1
    } else if s.subrange(i, i + p.len()) == p {
        i
    } else {
        find_sub_from(s, p, i + 1)
    }
}

/// A repository path with its `/.git` tail (and anything after) cut off at
/// the first occurrence; a path without one is kept whole.
pub open spec fn spec_strip_git(s: Seq<char>) -> Seq<char> {
    let f = find_sub_from(s, "/.git"@, 0);
    if f >= 0 {
        s.take(f)
    } else {
        s
    }
}

proof fn lemma_find_sub_found(s: Seq<char>, p: Seq<char>, i: int, j: int)
    requires
        1 <= p.len(),
        0 <= i <= j,
        j + p.len() <= s.len(),
        forall|k: int| i <= k < j ==> #[trigger] s.subrange(k, k + p.len()) != p,
        s.subrange(j, j + p.len()) == p,
    ensures
        find_sub_from(s, p, i) == j,
    decreases j - i,
{
    if i < j {
        lemma_find_sub_found(s, p, i + 1, j);
    }
}

proof fn lemma_find_sub_absent(s: Seq<char>, p: Seq<char>, i: int)
    requires
        1 <= p.len(),
        0 <= i,
        forall|k: int| i <= k && k + p.len() <= s.len() ==> #[trigger] s.subrange(
            k,
            k + p.len(),
        ) != p,
    ensures
        find_sub_from(s, p, i) == -1,
    decreases s.len() - i,
{
    if i + p.len() <= s.len() {
        lemma_find_sub_absent(s, p, i + 1);
    }
}

/// Cuts a repository path at the first `/.git`.
pub fn strip_git_dir(path: &str) -> (r: String)
    ensures
        r@ == spec_strip_git(path@),
{
    let cs = chars_vec(path);
    let pat = chars_vec("/.git");
    let n = cs.len();
    let m = pat.len();
    proof {
        reveal_strlit("/.git");
    }
    if m > n {
        proof {
            assert(find_sub_from(path@, "/.git"@, 0) == -1);
        }
        return String::from_str(path);
    }
    let mut i: usize = 0;
    while i <= n - m
        invariant
            n == cs@.len(),
            m == pat@.len(),
            cs@ == path@,
            pat@ == "/.git"@,
            1 <= m <= n,
            i <= n - m + 1,
            forall|k: int| 0 <= k < i ==> #[trigger] path@.subrange(k, k + pat@.len()) != pat@,
        decreases n + 1 - i,
    {
        if chars_match_at(cs.as_slice(), pat.as_slice(), i) {
            proof {
                lemma_find_sub_found(path@, "/.git"@, 0, i as int);
            }
            let head = subvec_chars(cs.as_slice(), 0, i);
            let r = string_from_chars(head.as_slice());
            proof {
                assert(r@ =~= spec_strip_git(path@));
            }
            return r;
        }
        i = i + 1;
    }
    proof {
        lemma_find_sub_absent(path@, "/.git"@, 0);
    }
    String::from_str(path)
}

} // verus!
