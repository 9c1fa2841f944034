//! PR index records: the rows of the archive's index document and the shape
//! in which they are handed to the UI layer.

use vstd::prelude::*;
use vstd::string::*;

verus! {

/// One row of the archive's index document: a reviewable change unit.
pub struct PrIndexEntry {
    pub id: i32,
    pub title: String,
    pub created_by: String,
    pub creation_date: String,
    pub status: String,
    pub source_branch: String,
    pub target_branch: String,
    pub filename: String,
}

/// Mathematical image of a `PrIndexEntry`.
pub ghost struct PrEntryView {
    pub id: int,
    pub title: Seq<char>,
    pub created_by: Seq<char>,
    pub creation_date: Seq<char>,
    pub status: Seq<char>,
    pub source_branch: Seq<char>,
    pub target_branch: Seq<char>,
    pub filename: Seq<char>,
}

impl View for PrIndexEntry {
    type V = PrEntryView;

    open spec fn view(&self) -> PrEntryView {
        PrEntryView {
            id: self.id as int,
            title: self.title@,
            created_by: self.created_by@,
            creation_date: self.creation_date@,
            status: self.status@,
            source_branch: self.source_branch@,
            target_branch: self.target_branch@,
            filename: self.filename@,
        }
    }
}

impl DeepView for PrIndexEntry {
    type V = PrEntryView;

    open spec fn deep_view(&self) -> PrEntryView {
        self.view()
    }
}

impl PrIndexEntry {
    /// An equal copy of the record.
    pub fn duplicate(&self) -> (r: Self)
        ensures
            r@ == self@,
    {
        PrIndexEntry {
            id: self.id,
            title: self.title.clone(),
            created_by: self.created_by.clone(),
            creation_date: self.creation_date.clone(),
            status: self.status.clone(),
            source_branch: self.source_branch.clone(),
            target_branch: self.target_branch.clone(),
            filename: self.filename.clone(),
        }
    }
}

/// One PR as handed to the UI layer: the index row together with the
/// archive-relative path of its content file.
pub struct PrFile {
    pub archive_path: String,
    pub pr_number: i32,
    pub title: String,
    pub author: String,
    pub status: String,
    pub creation_date: String,
    pub source_branch: String,
    pub target_branch: String,
}

/// Mathematical image of a `PrFile`.
pub ghost struct PrFileView {
    pub archive_path: Seq<char>,
    pub pr_number: int,
    pub title: Seq<char>,
    pub author: Seq<char>,
    pub status: Seq<char>,
    pub creation_date: Seq<char>,
    pub source_branch: Seq<char>,
    pub target_branch: Seq<char>,
}

impl View for PrFile {
    type V = PrFileView;

    open spec fn view(&self) -> PrFileView {
        PrFileView {
            archive_path: self.archive_path@,
            pr_number: self.pr_number as int,
            title: self.title@,
            author: self.author@,
            status: self.status@,
            creation_date: self.creation_date@,
            source_branch: self.source_branch@,
            target_branch: self.target_branch@,
        }
    }
}

impl DeepView for PrFile {
    type V = PrFileView;

    open spec fn deep_view(&self) -> PrFileView {
        self.view()
    }
}

impl PrFile {
    /// An equal copy of the record.
    pub fn duplicate(&self) -> (r: Self)
        ensures
            r@ == self@,
    {
        PrFile {
            archive_path: self.archive_path.clone(),
            pr_number: self.pr_number,
            title: self.title.clone(),
            author: self.author.clone(),
            status: self.status.clone(),
            creation_date: self.creation_date.clone(),
            source_branch: self.source_branch.clone(),
            target_branch: self.target_branch.clone(),
        }
    }
}

/// The archive-relative content path of an index row: `prs/<filename>`.
pub open spec fn pr_path_of(filename: Seq<char>) -> Seq<char> {
    "prs/"@ + filename
}

/// The UI-layer image of one index row.
pub open spec fn pr_file_of(e: PrEntryView) -> PrFileView {
    PrFileView {
        archive_path: pr_path_of(e.filename),
        pr_number: e.id,
        title: e.title,
        author: e.created_by,
        status: e.status,
        creation_date: e.creation_date,
        source_branch: e.source_branch,
        target_branch: e.target_branch,
    }
}

/// The UI-layer images of a whole row sequence, in order.
pub open spec fn pr_files_of(entries: Seq<PrEntryView>) -> Seq<PrFileView> {
    entries.map_values(|e: PrEntryView| pr_file_of(e))
}

/// Turns index rows into the UI-layer records, one for one and in order,
/// pointing each at its `prs/<filename>` content path.
pub fn index_entries_to_pr_files(entries: Vec<PrIndexEntry>) -> (files: Vec<PrFile>)
    ensures
        files.deep_view() == pr_files_of(entries.deep_view()),
{
    let mut files: Vec<PrFile> = Vec::new();
    let n = entries.len();
    let mut i: usize = 0;
    while i < n
        invariant
            n == entries@.len(),
            i <= n,
            files.deep_view() =~= entries.deep_view().take(i as int).map_values(
                |e: PrEntryView| pr_file_of(e),
            ),
        decreases n - i,
    {
        let ghost prev = files.deep_view();
        let e = &entries[i];
        let pr_path = String::from_str("prs/").concat(e.filename.as_str());
        let file = PrFile {
            archive_path: pr_path,
            pr_number: e.id,
            title: e.title.clone(),
            author: e.created_by.clone(),
            status: e.status.clone(),
            creation_date: e.creation_date.clone(),
            source_branch: e.source_branch.clone(),
            target_branch: e.target_branch.clone(),
        };
        proof {
            assert(file@ == pr_file_of(entries.deep_view()[i as int]));
        }
        files.push(file);
        i = i + 1;
        proof {
            let f = |e: PrEntryView| pr_file_of(e);
            assert(files.deep_view() =~= prev.push(pr_file_of(entries.deep_view()[i - 1])));
            assert(entries.deep_view().take(i as int).map_values(f)
                =~= entries.deep_view().take(i - 1).map_values(f).push(
                pr_file_of(entries.deep_view()[i - 1])));
        }
    }
    proof {
        assert(entries.deep_view().take(n as int) =~= entries.deep_view());
    }
    files
}

} // verus!
