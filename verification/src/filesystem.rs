//! Archive store: a caching virtual filesystem over one immutable compressed
//! container, zip or gzip-compressed tar.
//!
//! The store holds the container in memory, an order-stable list of its entry
//! names, a text cache keyed by exact entry name, and the bookkeeping of the
//! extraction workspace. Swapping archives is atomic: a failed swap leaves
//! the previous state untouched, and a successful one clears every piece of
//! derived state before committing the new handle.
//!
//! Container decoding is the zip / flate2+tar crates' work, reached through
//! trusted wrappers; everything around it — cache discipline, entry lookup,
//! UTF-8 decoding guarantees, index-document location, swap atomicity — is
//! verified.

use vstd::prelude::*;
use vstd::string::*;
use vstd::hash_map::StringHashMap;
use vstd::utf8::{valid_utf8, decode_utf8};
use crate::errors::ArchiveError;
use crate::index::PrIndexEntry;
use crate::json::parse_pr_index;
use crate::text::{
    chars_vec, chars_start_with, chars_end_with, copy_bytes, clone_string_vec,
    string_from_utf8, seq_starts_with, seq_ends_with,
};

verus! {

// ----- trusted view of an in-memory zip container -----

#[verifier::external_type_specification]
#[verifier::external_body]
#[verifier::reject_recursive_types(R)]
pub struct ExZipArchive<R>(zip::ZipArchive<R>);

#[verifier::external_type_specification]
#[verifier::external_body]
#[verifier::reject_recursive_types(T)]
pub struct ExCursor<T>(std::io::Cursor<T>);

/// The entry names of an opened zip, in central-directory order.
pub uninterp spec fn zip_name_list(a: zip::ZipArchive<std::io::Cursor<Vec<u8>>>) -> Seq<Seq<char>>;

/// The decompressed contents of an opened zip, keyed by entry name.
pub uninterp spec fn zip_contents(a: zip::ZipArchive<std::io::Cursor<Vec<u8>>>) -> Map<
    Seq<char>,
    Seq<u8>,
>;

/// Whether one entry of an opened zip decompresses without error: a fixed
/// property of the archive value and the name.
pub uninterp spec fn zip_entry_ok(
    a: zip::ZipArchive<std::io::Cursor<Vec<u8>>>,
    name: Seq<char>,
) -> bool;

/// Whether `zip::ZipArchive::new` accepts these bytes: the parse reads the
/// in-memory bytes alone.
pub uninterp spec fn zip_parse_ok(bytes: Seq<u8>) -> bool;

/// The entry names the central directory of these bytes parses to.
pub uninterp spec fn zip_parsed_names(bytes: Seq<u8>) -> Seq<Seq<char>>;

/// The entry contents the central directory of these bytes parses to.
pub uninterp spec fn zip_parsed_contents(bytes: Seq<u8>) -> Map<Seq<char>, Seq<u8>>;

/// Whether the gzip-compressed tar in these bytes decodes without error: the
/// decode reads the in-memory bytes alone.
pub uninterp spec fn targz_parse_ok(bytes: Seq<u8>) -> bool;

/// The `(name, content)` entry pairs these bytes decode to, in archive
/// order.
pub uninterp spec fn targz_parsed(bytes: Seq<u8>) -> Seq<(Seq<char>, Seq<u8>)>;

/// Relies on `zip::ZipArchive::new`: parses the central directory of a zip
/// held in memory, a deterministic read of the bytes alone. The directory
/// keys entries by raw name; the decoded name list and the decoded-name
/// contents map cover exactly the same names (a raw name that does not
/// decode losslessly may collide with another in its decoded form, so the
/// decoded list can repeat a name).
#[verifier::external_body]
fn zip_open(bytes: Vec<u8>) -> (r: Result<zip::ZipArchive<std::io::Cursor<Vec<u8>>>, ArchiveError>)
    ensures
        match r {
            Ok(a) => zip_parse_ok(bytes@) && zip_name_list(a) == zip_parsed_names(bytes@)
                && zip_contents(a) == zip_parsed_contents(bytes@) && zip_name_list(a).to_set()
                == zip_contents(a).dom(),
            Err(e) => e == ArchiveError::Corrupt && !zip_parse_ok(bytes@),
        },
{
    match zip::ZipArchive::new(std::io::Cursor::new(bytes)) {
        Ok(a) => Ok(a),
        Err(_) => Err(ArchiveError::Corrupt),
    }
}

/// Relies on `zip::ZipArchive::file_names`: the entry names in central-
/// directory order.
#[verifier::external_body]
fn zip_names(a: &zip::ZipArchive<std::io::Cursor<Vec<u8>>>) -> (r: Vec<String>)
    ensures
        r.deep_view() == zip_name_list(*a),
{
    a.file_names().map(String::from).collect()
}

/// Relies on `zip::ZipArchive::by_name` and `std::io::Read::read_to_end`:
/// decompresses one entry, deterministically from the archive's in-memory
/// bytes. Reading moves the underlying cursor but leaves the archive's
/// directory, contents and per-entry decodability as they were; it succeeds
/// exactly on a directory-listed name whose entry decompresses.
#[verifier::external_body]
fn zip_read(a: &mut zip::ZipArchive<std::io::Cursor<Vec<u8>>>, name: &str) -> (r: Result<
    Vec<u8>,
    ArchiveError,
>)
    ensures
        zip_name_list(*final(a)) == zip_name_list(*old(a)),
        zip_contents(*final(a)) == zip_contents(*old(a)),
        forall|n: Seq<char>| #[trigger] zip_entry_ok(*final(a), n) == zip_entry_ok(*old(a), n),
        match r {
            Ok(d) => zip_contents(*old(a)).contains_key(name@)
                && d@ == zip_contents(*old(a)).index(name@) && zip_entry_ok(*old(a), name@),
            Err(e) => e == ArchiveError::Corrupt && !(zip_contents(*old(a)).contains_key(name@)
                && zip_entry_ok(*old(a), name@)),
        },
{
    match a.by_name(name) {
        Ok(mut f) => {
            let mut data: Vec<u8> = Vec::new();
            match std::io::Read::read_to_end(&mut f, &mut data) {
                Ok(_) => Ok(data),
                Err(_) => Err(ArchiveError::Corrupt),
            }
        },
        Err(_) => Err(ArchiveError::Corrupt),
    }
}

/// Relies on `flate2::read::GzDecoder` and `tar::Archive::entries`:
/// decompresses a gzip-compressed tar held in memory and hands out each
/// entry's path and bytes, in archive order — a deterministic read of the
/// bytes alone, succeeding exactly when the whole container decodes.
#[verifier::external_body]
fn targz_entries(bytes: &Vec<u8>) -> (r: Result<Vec<(String, Vec<u8>)>, ArchiveError>)
    ensures
        match r {
            Ok(v) => targz_parse_ok(bytes@) && v@.len() == targz_parsed(bytes@).len()
                && forall|i: int|
                    0 <= i < v@.len() ==> (#[trigger] v@[i]).0@ == targz_parsed(bytes@)[i].0
                        && v@[i].1@ == targz_parsed(bytes@)[i].1,
            Err(e) => e == ArchiveError::Corrupt && !targz_parse_ok(bytes@),
        },
{
    let gz = flate2::read::GzDecoder::new(std::io::Cursor::new(bytes.as_slice()));
    let mut ar = tar::Archive::new(gz);
    let mut out: Vec<(String, Vec<u8>)> = Vec::new();
    let entries = ar.entries().map_err(|_| ArchiveError::Corrupt)?;
    for entry in entries {
        let mut entry = entry.map_err(|_| ArchiveError::Corrupt)?;
        let name = entry.path().map_err(|_| ArchiveError::Corrupt)?.to_string_lossy().to_string();
        let mut data: Vec<u8> = Vec::new();
        std::io::Read::read_to_end(&mut entry, &mut data).map_err(|_| ArchiveError::Corrupt)?;
        out.push((name, data));
    }
    Ok(out)
}

// ----- names and paths -----

/// An acceptable archive path: the `.zip` or `.tar.gz` extension.
pub open spec fn valid_archive_path(p: Seq<char>) -> bool {
    seq_ends_with(p, ".zip"@) || seq_ends_with(p, ".tar.gz"@)
}

/// The names of decoded tar entries, in order.
pub open spec fn targz_names(pairs: Seq<(Seq<char>, Seq<u8>)>) -> Seq<Seq<char>> {
    pairs.map_values(|p: (Seq<char>, Seq<u8>)| p.0)
}

/// The contents of decoded tar entries keyed by name; a repeated name keeps
/// its last content.
pub open spec fn targz_map(pairs: Seq<(Seq<char>, Seq<u8>)>) -> Map<Seq<char>, Seq<u8>>
    decreases pairs.len(),
{
    if pairs.len() == 0 {
        Map::empty()
    } else {
        targz_map(pairs.drop_last()).insert(pairs.last().0, pairs.last().1)
    }
}

/// Whether the archive bytes parse, under the container format the path
/// names.
pub open spec fn archive_parse_ok(path: Seq<char>, bytes: Seq<u8>) -> bool {
    if seq_ends_with(path, ".zip"@) {
        zip_parse_ok(bytes)
    } else {
        targz_parse_ok(bytes)
    }
}

/// The entry names the archive bytes parse to, under the container format
/// the path names.
pub open spec fn archive_parsed_names(path: Seq<char>, bytes: Seq<u8>) -> Seq<Seq<char>> {
    if seq_ends_with(path, ".zip"@) {
        zip_parsed_names(bytes)
    } else {
        targz_names(targz_parsed(bytes))
    }
}

/// The entry contents the archive bytes parse to, under the container
/// format the path names.
pub open spec fn archive_parsed_contents(path: Seq<char>, bytes: Seq<u8>) -> Map<Seq<char>, Seq<u8>> {
    if seq_ends_with(path, ".zip"@) {
        zip_parsed_contents(bytes)
    } else {
        targz_map(targz_parsed(bytes))
    }
}

/// An index-document name: `pr_index_*.json`.
pub open spec fn is_index_name(n: Seq<char>) -> bool {
    seq_starts_with(n, "pr_index_"@) && seq_ends_with(n, ".json"@)
}

/// Whether `name` is an index-document name.
pub fn is_index_name_exec(name: &String) -> (r: bool)
    ensures
        r == is_index_name(name@),
{
    let cs = chars_vec(name.as_str());
    let pre = chars_vec("pr_index_");
    let suf = chars_vec(".json");
    let a = chars_start_with(cs.as_slice(), pre.as_slice());
    let b = chars_end_with(cs.as_slice(), suf.as_slice());
    a && b
}

/// Position of the first index-document name at or after `i`, or the length
/// if none.
pub open spec fn index_pos_from(names: Seq<Seq<char>>, i: int) -> int
    decreases names.len() - i,
{
    if i >= names.len() {
        names.len() as int
    } else if is_index_name(names[i]) {
        i
    } else {
        index_pos_from(names, i + 1)
    }
}

/// Position of the first index-document name, or the length if none.
pub open spec fn index_pos(names: Seq<Seq<char>>) -> int {
    index_pos_from(names, 0)
}

/// The names hold an index document.
pub open spec fn has_index_doc(names: Seq<Seq<char>>) -> bool {
    index_pos(names) < names.len()
}

/// The name of the first index document among a store's entries.
pub open spec fn index_name_of(v: FileSystemView) -> Seq<char> {
    v.entry_names[index_pos(v.entry_names)]
}

/// The decoded text of a store's index document.
pub open spec fn index_text_of(v: FileSystemView) -> Seq<char> {
    decode_utf8(v.entry_data[index_name_of(v)])
}

/// The index document can be served as text: an archive is set, an index
/// document is present, and its entry decompresses to valid UTF-8.
pub open spec fn index_readable(v: FileSystemView) -> bool {
    v.loaded && has_index_doc(v.entry_names) && v.decodable.contains(index_name_of(v))
        && valid_utf8(v.entry_data[index_name_of(v)])
}

proof fn lemma_index_pos_bounds(names: Seq<Seq<char>>, i: int)
    requires
        0 <= i <= names.len(),
    ensures
        i <= index_pos_from(names, i) <= names.len(),
    decreases names.len() - i,
{
    if i < names.len() && !is_index_name(names[i]) {
        lemma_index_pos_bounds(names, i + 1);
    }
}

proof fn lemma_index_pos_is(names: Seq<Seq<char>>, i: int, j: int)
    requires
        0 <= i <= j <= names.len(),
        forall|k: int| i <= k < j ==> !is_index_name(names[k]),
        j < names.len() ==> is_index_name(names[j]),
    ensures
        index_pos_from(names, i) == j,
    decreases j - i,
{
    if i < j {
        lemma_index_pos_is(names, i + 1, j);
    }
}

/// Position of the first index-document name of `names`, if any.
fn find_index_name(names: &Vec<String>) -> (r: Option<usize>)
    ensures
        match r {
            Some(i) => i == index_pos(names.deep_view()) && i < names.deep_view().len()
                && is_index_name(names.deep_view()[i as int]),
            None => !has_index_doc(names.deep_view()),
        },
{
    let n = names.len();
    let mut i: usize = 0;
    while i < n
        invariant
            n == names@.len(),
            i <= n,
            forall|k: int| 0 <= k < i ==> !is_index_name(names.deep_view()[k]),
        decreases n - i,
    {
        if is_index_name_exec(&names[i]) {
            proof {
                lemma_index_pos_is(names.deep_view(), 0, i as int);
            }
            return Some(i);
        }
        i = i + 1;
    }
    proof {
        lemma_index_pos_is(names.deep_view(), 0, n as int);
    }
    None
}

/// Position of `path` among the names, if present.
fn find_name(names: &Vec<String>, path: &str) -> (r: Option<usize>)
    ensures
        match r {
            Some(i) => i < names.deep_view().len() && names.deep_view()[i as int] == path@,
            None => !names.deep_view().contains(path@),
        },
{
    let needle = String::from_str(path);
    let n = names.len();
    let mut i: usize = 0;
    while i < n
        invariant
            n == names@.len(),
            needle@ == path@,
            i <= n,
            forall|k: int| 0 <= k < i ==> names.deep_view()[k] != path@,
        decreases n - i,
    {
        if names[i].eq(&needle) {
            return Some(i);
        }
        i = i + 1;
    }
    proof {
        if names.deep_view().contains(path@) {
            let k = choose|k: int|
                0 <= k < names.deep_view().len() && names.deep_view()[k] == path@;
            assert(names.deep_view()[k] != path@);
        }
    }
    None
}

// ----- the store -----

/// The mathematical state of an archive store.
pub ghost struct FileSystemView {
    /// Path of the configured archive; empty while none is set.
    pub archive_path: Seq<char>,
    /// Whether an archive is configured.
    pub loaded: bool,
    /// The order-stable entry name list of the container.
    pub entry_names: Seq<Seq<char>>,
    /// The container's contents, keyed by entry name.
    pub entry_data: Map<Seq<char>, Seq<u8>>,
    /// The entry names whose contents the container can decompress.
    pub decodable: Set<Seq<char>>,
    /// The text cache: decoded content keyed by entry name.
    pub cache: Map<Seq<char>, Seq<char>>,
    /// Entries recorded as materialized into the extraction workspace.
    pub extracted: Seq<Seq<char>>,
    /// How often the serialized container decoder has been entered.
    pub decoder_reads: int,
}

/// The decoder-read counter after one more decoder entry.
pub open spec fn bump_reads(c: int) -> int {
    if c < u64::MAX {
        c + 1
    } else {
        c
    }
}

/// Caching virtual filesystem over one immutable compressed archive.
pub struct FileSystem {
    archive_path: String,
    zip: Option<zip::ZipArchive<std::io::Cursor<Vec<u8>>>>,
    tar_map: Option<StringHashMap<Vec<u8>>>,
    names: Vec<String>,
    file_cache: StringHashMap<String>,
    extracted: Vec<String>,
    decoder_reads: u64,
}

/// Byte contents keyed by name, from a map of byte vectors.
pub open spec fn deep_data(m: Map<Seq<char>, Vec<u8>>) -> Map<Seq<char>, Seq<u8>> {
    Map::new(|k: Seq<char>| m.contains_key(k), |k: Seq<char>| m[k]@)
}

/// Text keyed by name, from a map of strings.
pub open spec fn deep_cache(m: Map<Seq<char>, String>) -> Map<Seq<char>, Seq<char>> {
    Map::new(|k: Seq<char>| m.contains_key(k), |k: Seq<char>| m[k]@)
}

impl View for FileSystem {
    type V = FileSystemView;

    closed spec fn view(&self) -> FileSystemView {
        FileSystemView {
            archive_path: self.archive_path@,
            loaded: self.zip is Some || self.tar_map is Some,
            entry_names: self.names.deep_view(),
            entry_data: if self.zip is Some {
                zip_contents(self.zip.unwrap())
            } else if self.tar_map is Some {
                deep_data(self.tar_map.unwrap()@)
            } else {
                Map::empty()
            },
            decodable: if self.zip is Some {
                Set::new(|n: Seq<char>| zip_entry_ok(self.zip.unwrap(), n))
            } else if self.tar_map is Some {
                Set::new(|n: Seq<char>| self.tar_map.unwrap()@.contains_key(n))
            } else {
                Set::empty()
            },
            cache: deep_cache(self.file_cache@),
            extracted: self.extracted.deep_view(),
            decoder_reads: self.decoder_reads as int,
        }
    }
}

impl FileSystem {
    /// Internal consistency: the name list matches the container's contents,
    /// and every cache entry is the decoded text of the entry it names.
    pub closed spec fn wf(&self) -> bool {
        &&& !(self.zip is Some && self.tar_map is Some)
        &&& (self@.loaded <==> self@.archive_path.len() > 0)
        &&& (self.zip is Some ==> self.names.deep_view() == zip_name_list(self.zip.unwrap()))
        &&& self@.entry_names.to_set() == self@.entry_data.dom()
        &&& (!self@.loaded ==> self@.entry_names.len() == 0 && self@.cache.dom().is_empty()
            && self@.extracted.len() == 0)
        &&& forall|k: Seq<char>|
            #[trigger] self@.cache.contains_key(k) ==> self@.entry_data.contains_key(k)
                && valid_utf8(self@.entry_data[k]) && self@.cache[k] == decode_utf8(
                self@.entry_data[k],
            )
    }

    /// A fresh store with no archive configured.
    pub fn new() -> (r: Self)
        ensures
            r.wf(),
            !r@.loaded,
            r@.archive_path.len() == 0,
            r@.cache.dom().is_empty(),
            r@.extracted.len() == 0,
            r@.decoder_reads == 0,
    {
        let r = FileSystem {
            archive_path: String::new(),
            zip: None,
            tar_map: None,
            names: Vec::new(),
            file_cache: StringHashMap::new(),
            extracted: Vec::new(),
            decoder_reads: 0,
        };
        proof {
            assert(r@.entry_names.to_set() =~= r@.entry_data.dom());
        }
        r
    }

    /// How often the serialized container decoder has been entered; a cache
    /// hit leaves it unchanged.
    pub fn decoder_read_count(&self) -> (r: u64)
        ensures
            r == self@.decoder_reads,
    {
        self.decoder_reads
    }

    /// The path of the configured archive, empty while none is set.
    pub fn get_archive_path(&self) -> (r: String)
        ensures
            r@ == self@.archive_path,
    {
        self.archive_path.clone()
    }

    /// `Ok` exactly when an archive is configured.
    pub fn ensure_archive_loaded(&self) -> (r: Result<(), ArchiveError>)
        ensures
            match r {
                Ok(_) => self@.loaded,
                Err(e) => !self@.loaded && e == ArchiveError::StateError,
            },
    {
        if self.zip.is_some() || self.tar_map.is_some() {
            Ok(())
        } else {
            Err(ArchiveError::StateError)
        }
    }

    /// Configures a new archive from its path and bytes.
    ///
    /// Succeeds exactly when the path ends `.zip` or `.tar.gz`
    /// (`InvalidInput` otherwise), the container parses (`Corrupt`
    /// otherwise) and its entries hold an index document (`NotFound`
    /// otherwise); the committed names and contents are exactly what the
    /// bytes parse to. Only on success are the cache, the extraction
    /// bookkeeping and the old handle discarded and the new handle
    /// committed; on any failure the previous state is left exactly as it
    /// was.
    pub fn set_archive(&mut self, path: &str, bytes: Vec<u8>) -> (r: Result<(), ArchiveError>)
        requires
            old(self).wf(),
        ensures
            final(self).wf(),
            match r {
                Ok(_) => valid_archive_path(path@) && archive_parse_ok(path@, bytes@)
                    && final(self)@.loaded && final(self)@.archive_path == path@
                    && final(self)@.entry_names == archive_parsed_names(path@, bytes@)
                    && final(self)@.entry_data == archive_parsed_contents(path@, bytes@)
                    && final(self)@.cache.dom().is_empty() && final(self)@.extracted.len() == 0
                    && has_index_doc(final(self)@.entry_names) && final(self)@.decoder_reads == old(
                    self,
                )@.decoder_reads,
                Err(e) => final(self)@ == old(self)@ && (if !valid_archive_path(path@) {
                    e == ArchiveError::InvalidInput
                } else if !archive_parse_ok(path@, bytes@) {
                    e == ArchiveError::Corrupt
                } else {
                    e == ArchiveError::NotFound && !has_index_doc(
                        archive_parsed_names(path@, bytes@),
                    )
                }),
            },
    {
        let path_chars = chars_vec(path);
        let zip_suffix = chars_vec(".zip");
        let tar_suffix = chars_vec(".tar.gz");
        let is_zip = chars_end_with(path_chars.as_slice(), zip_suffix.as_slice());
        let is_tar = chars_end_with(path_chars.as_slice(), tar_suffix.as_slice());
        if !is_zip && !is_tar {
            return Err(ArchiveError::InvalidInput);
        }
        if is_zip {
            let archive = match zip_open(bytes) {
                Ok(a) => a,
                Err(e) => {
                    return Err(e);
                },
            };
            let names = zip_names(&archive);
            match find_index_name(&names) {
                Some(_) => {},
                None => {
                    return Err(ArchiveError::NotFound);
                },
            }
            self.archive_path = String::from_str(path);
            self.zip = Some(archive);
            self.tar_map = None;
            self.names = names;
            self.file_cache = StringHashMap::new();
            self.extracted = Vec::new();
            proof {
                reveal_strlit(".zip");
                assert(path@.len() > 0);
                assert(self@.entry_names.to_set() =~= self@.entry_data.dom());
            }
            Ok(())
        } else {
            let ghost parsed = targz_parsed(bytes@);
            let mut entries = match targz_entries(&bytes) {
                Ok(v) => v,
                Err(e) => {
                    return Err(e);
                },
            };
            let mut names: Vec<String> = Vec::new();
            let mut data: StringHashMap<Vec<u8>> = StringHashMap::new();
            let ghost mut k: int = 0;
            proof {
                assert(names.deep_view().to_set() =~= data@.dom());
                assert(names.deep_view() =~= targz_names(parsed).take(0));
                assert(deep_data(data@) =~= targz_map(parsed.take(0)));
            }
            while entries.len() > 0
                invariant
                    0 <= k,
                    k + entries@.len() == parsed.len(),
                    forall|i: int|
                        0 <= i < entries@.len() ==> (#[trigger] entries@[i]).0@ == parsed[k + i].0
                            && entries@[i].1@ == parsed[k + i].1,
                    names.deep_view() == targz_names(parsed).take(k),
                    deep_data(data@) == targz_map(parsed.take(k)),
                    names.deep_view().to_set() == data@.dom(),
                decreases entries.len(),
            {
                let ghost prev_entries = entries@;
                let pair = entries.remove(0);
                let ghost prev_names = names.deep_view();
                let ghost prev_dom = data@.dom();
                let ghost prev_data = deep_data(data@);
                names.push(pair.0.clone());
                data.insert(pair.0, pair.1);
                proof {
                    assert(pair == prev_entries[0]);
                    assert(pair.0@ == parsed[k].0 && pair.1@ == parsed[k].1);
                    assert(names.deep_view() =~= prev_names.push(pair.0@));
                    crate::text::lemma_push_to_set(prev_names, pair.0@);
                    assert(data@.dom() =~= prev_dom.insert(pair.0@));
                    assert(names.deep_view().to_set() =~= prev_names.to_set().insert(pair.0@));
                    assert(targz_names(parsed).take(k + 1) =~= targz_names(parsed).take(k).push(
                        parsed[k].0,
                    ));
                    assert(parsed.take(k + 1).drop_last() =~= parsed.take(k));
                    assert(parsed.take(k + 1).last() == parsed[k]);
                    assert(deep_data(data@) =~= prev_data.insert(pair.0@, pair.1@));
                    assert(entries@ =~= prev_entries.subrange(1, prev_entries.len() as int));
                    assert forall|i: int|
                        0 <= i < entries@.len() implies (#[trigger] entries@[i]).0@ == parsed[k + 1
                        + i].0 && entries@[i].1@ == parsed[k + 1 + i].1 by {
                        assert(entries@[i] == prev_entries[i + 1]);
                    }
                    k = k + 1;
                }
            }
            proof {
                assert(parsed.take(k) =~= parsed);
                assert(names.deep_view() =~= targz_names(parsed));
            }
            match find_index_name(&names) {
                Some(_) => {},
                None => {
                    return Err(ArchiveError::NotFound);
                },
            }
            self.archive_path = String::from_str(path);
            self.zip = None;
            self.tar_map = Some(data);
            self.names = names;
            self.file_cache = StringHashMap::new();
            self.extracted = Vec::new();
            proof {
                reveal_strlit(".tar.gz");
                assert(path@.len() > 0);
                assert(self@.entry_data.dom() =~= self.tar_map.unwrap()@.dom());
                assert(self@.entry_names.to_set() =~= self@.entry_data.dom());
            }
            Ok(())
        }
    }

    /// The full ordered entry-name list of the configured archive.
    pub fn list_files(&self) -> (r: Result<Vec<String>, ArchiveError>)
        requires
            self.wf(),
        ensures
            match r {
                Ok(v) => self@.loaded && v.deep_view() == self@.entry_names,
                Err(e) => !self@.loaded && e == ArchiveError::StateError,
            },
    {
        match self.ensure_archive_loaded() {
            Ok(_) => {},
            Err(e) => {
                return Err(e);
            },
        }
        Ok(clone_string_vec(&self.names))
    }

    /// The name of the unique `pr_index_*.json` entry.
    pub fn get_index_file(&self) -> (r: Result<String, ArchiveError>)
        requires
            self.wf(),
        ensures
            match r {
                Ok(s) => self@.loaded && has_index_doc(self@.entry_names) && s@
                    == self@.entry_names[index_pos(self@.entry_names)],
                Err(e) => (if !self@.loaded {
                    e == ArchiveError::StateError
                } else {
                    e == ArchiveError::NotFound && !has_index_doc(self@.entry_names)
                }),
            },
    {
        match self.ensure_archive_loaded() {
            Ok(_) => {},
            Err(e) => {
                return Err(e);
            },
        }
        match find_index_name(&self.names) {
            Some(i) => Ok(self.names[i].clone()),
            None => Err(ArchiveError::NotFound),
        }
    }

    /// Reads one entry as text, cache-first.
    ///
    /// A cache hit returns at once, without touching the container decoder.
    /// On a miss the entry is located by exact name (`NotFound` if absent),
    /// decompressed, decoded as UTF-8 (`Corrupt` if invalid), cached under
    /// the same name, and returned. Success is owed whenever the entry is
    /// present, decompressible and valid UTF-8.
    pub fn read_file_from_memory(&mut self, path: &str) -> (r: Result<String, ArchiveError>)
        requires
            old(self).wf(),
        ensures
            final(self).wf(),
            final(self)@.archive_path == old(self)@.archive_path,
            final(self)@.loaded == old(self)@.loaded,
            final(self)@.entry_names == old(self)@.entry_names,
            final(self)@.entry_data == old(self)@.entry_data,
            final(self)@.decodable == old(self)@.decodable,
            final(self)@.extracted == old(self)@.extracted,
            old(self)@.loaded && old(self)@.entry_data.contains_key(path@) && old(
                self,
            )@.decodable.contains(path@) && valid_utf8(old(self)@.entry_data[path@]) ==> r is Ok,
            match r {
                Ok(s) => old(self)@.loaded && old(self)@.entry_data.contains_key(path@)
                    && valid_utf8(old(self)@.entry_data[path@]) && s@ == decode_utf8(
                    old(self)@.entry_data[path@],
                ) && final(self)@.cache == old(self)@.cache.insert(path@, s@),
                Err(e) => final(self)@.cache == old(self)@.cache && (if !old(self)@.loaded {
                    e == ArchiveError::StateError
                } else if !old(self)@.entry_data.contains_key(path@) {
                    e == ArchiveError::NotFound
                } else {
                    e == ArchiveError::Corrupt
                }),
            },
            old(self)@.cache.contains_key(path@) ==> r is Ok && final(self)@.decoder_reads == old(
                self,
            )@.decoder_reads,
            !old(self)@.cache.contains_key(path@) && r is Ok ==> final(self)@.decoder_reads == bump_reads(
                old(self)@.decoder_reads,
            ),
    {
        match self.file_cache.get(path) {
            Some(content) => {
                let s = content.clone();
                proof {
                    assert(old(self)@.cache.contains_key(path@));
                    assert(old(self)@.loaded) by {
                        if !old(self)@.loaded {
                            assert(old(self)@.cache.dom().contains(path@));
                        }
                    }
                    assert(s@ == old(self)@.cache[path@]);
                    assert(old(self)@.cache.insert(path@, s@) =~= old(self)@.cache);
                }
                return Ok(s);
            },
            None => {},
        }
        match self.ensure_archive_loaded() {
            Ok(_) => {},
            Err(e) => {
                return Err(e);
            },
        }
        match find_name(&self.names, path) {
            Some(i) => {
                proof {
                    assert(old(self)@.entry_names.contains(path@)) by {
                        assert(old(self)@.entry_names[i as int] == path@);
                    }
                    assert(old(self)@.entry_names.to_set().contains(path@));
                    assert(old(self)@.entry_data.contains_key(path@));
                }
            },
            None => {
                proof {
                    assert(!old(self)@.entry_data.contains_key(path@)) by {
                        if old(self)@.entry_data.contains_key(path@) {
                            assert(old(self)@.entry_names.to_set().contains(path@));
                        }
                    }
                }
                return Err(ArchiveError::NotFound);
            },
        }
        if self.decoder_reads < u64::MAX {
            self.decoder_reads = self.decoder_reads + 1;
        }
        let fetched: Result<Vec<u8>, ArchiveError> = match self.zip.take() {
            Some(mut archive) => {
                let res = zip_read(&mut archive, path);
                self.zip = Some(archive);
                res
            },
            None => {
                match &self.tar_map {
                    Some(m) => {
                        match m.get(path) {
                            Some(d) => Ok(copy_bytes(d.as_slice())),
                            None => Err(ArchiveError::Corrupt),
                        }
                    },
                    None => Err(ArchiveError::Corrupt),
                }
            },
        };
        proof {
            assert(self@.entry_names == old(self)@.entry_names);
            assert(self@.entry_data == old(self)@.entry_data);
            assert(self@.cache == old(self)@.cache);
            assert(self@.loaded == old(self)@.loaded);
        }
        let bytes = match fetched {
            Ok(d) => d,
            Err(e) => {
                return Err(e);
            },
        };
        let text = match string_from_utf8(bytes) {
            Some(s) => s,
            None => {
                return Err(ArchiveError::Corrupt);
            },
        };
        let key = String::from_str(path);
        self.file_cache.insert(key, text.clone());
        proof {
            assert(self@.cache =~= old(self)@.cache.insert(path@, text@));
        }
        Ok(text)
    }

    /// Reads one entry as text; the cache-first read path.
    pub fn read_file(&mut self, path: &str) -> (r: Result<String, ArchiveError>)
        requires
            old(self).wf(),
        ensures
            final(self).wf(),
            final(self)@.archive_path == old(self)@.archive_path,
            final(self)@.loaded == old(self)@.loaded,
            final(self)@.entry_names == old(self)@.entry_names,
            final(self)@.entry_data == old(self)@.entry_data,
            final(self)@.decodable == old(self)@.decodable,
            final(self)@.extracted == old(self)@.extracted,
            old(self)@.loaded && old(self)@.entry_data.contains_key(path@) && old(
                self,
            )@.decodable.contains(path@) && valid_utf8(old(self)@.entry_data[path@]) ==> r is Ok,
            match r {
                Ok(s) => old(self)@.loaded && old(self)@.entry_data.contains_key(path@)
                    && valid_utf8(old(self)@.entry_data[path@]) && s@ == decode_utf8(
                    old(self)@.entry_data[path@],
                ) && final(self)@.cache == old(self)@.cache.insert(path@, s@),
                Err(e) => final(self)@.cache == old(self)@.cache && (if !old(self)@.loaded {
                    e == ArchiveError::StateError
                } else if !old(self)@.entry_data.contains_key(path@) {
                    e == ArchiveError::NotFound
                } else {
                    e == ArchiveError::Corrupt
                }),
            },
            old(self)@.cache.contains_key(path@) ==> r is Ok && final(self)@.decoder_reads == old(
                self,
            )@.decoder_reads,
    {
        self.read_file_from_memory(path)
    }

    /// Reads one entry as raw bytes, uncached. Success is owed whenever the
    /// entry is present and decompressible.
    pub fn read_binary_file_from_memory(&mut self, path: &str) -> (r: Result<Vec<u8>, ArchiveError>)
        requires
            old(self).wf(),
        ensures
            final(self).wf(),
            final(self)@.archive_path == old(self)@.archive_path,
            final(self)@.loaded == old(self)@.loaded,
            final(self)@.entry_names == old(self)@.entry_names,
            final(self)@.entry_data == old(self)@.entry_data,
            final(self)@.decodable == old(self)@.decodable,
            final(self)@.extracted == old(self)@.extracted,
            final(self)@.cache == old(self)@.cache,
            old(self)@.loaded && old(self)@.entry_data.contains_key(path@) && old(
                self,
            )@.decodable.contains(path@) ==> r is Ok,
            match r {
                Ok(d) => old(self)@.loaded && old(self)@.entry_data.contains_key(path@) && d@
                    == old(self)@.entry_data[path@],
                Err(e) => (if !old(self)@.loaded {
                    e == ArchiveError::StateError
                } else if !old(self)@.entry_data.contains_key(path@) {
                    e == ArchiveError::NotFound
                } else {
                    e == ArchiveError::Corrupt
                }),
            },
    {
        match self.ensure_archive_loaded() {
            Ok(_) => {},
            Err(e) => {
                return Err(e);
            },
        }
        match find_name(&self.names, path) {
            Some(i) => {
                proof {
                    assert(old(self)@.entry_names.contains(path@)) by {
                        assert(old(self)@.entry_names[i as int] == path@);
                    }
                    assert(old(self)@.entry_names.to_set().contains(path@));
                    assert(old(self)@.entry_data.contains_key(path@));
                }
            },
            None => {
                proof {
                    assert(!old(self)@.entry_data.contains_key(path@)) by {
                        if old(self)@.entry_data.contains_key(path@) {
                            assert(old(self)@.entry_names.to_set().contains(path@));
                        }
                    }
                }
                return Err(ArchiveError::NotFound);
            },
        }
        if self.decoder_reads < u64::MAX {
            self.decoder_reads = self.decoder_reads + 1;
        }
        let fetched: Result<Vec<u8>, ArchiveError> = match self.zip.take() {
            Some(mut archive) => {
                let res = zip_read(&mut archive, path);
                self.zip = Some(archive);
                res
            },
            None => {
                match &self.tar_map {
                    Some(m) => {
                        match m.get(path) {
                            Some(d) => Ok(copy_bytes(d.as_slice())),
                            None => Err(ArchiveError::Corrupt),
                        }
                    },
                    None => Err(ArchiveError::Corrupt),
                }
            },
        };
        proof {
            assert(self@.entry_names == old(self)@.entry_names);
            assert(self@.entry_data == old(self)@.entry_data);
            assert(self@.cache == old(self)@.cache);
            assert(self@.loaded == old(self)@.loaded);
        }
        match fetched {
            Ok(d) => Ok(d),
            Err(e) => Err(e),
        }
    }

    /// The text of the index document, cache-first. Success is owed whenever
    /// an index document is present, decompressible and valid UTF-8.
    pub fn get_index_content(&mut self) -> (r: Result<String, ArchiveError>)
        requires
            old(self).wf(),
        ensures
            final(self).wf(),
            final(self)@.archive_path == old(self)@.archive_path,
            final(self)@.loaded == old(self)@.loaded,
            final(self)@.entry_names == old(self)@.entry_names,
            final(self)@.entry_data == old(self)@.entry_data,
            final(self)@.decodable == old(self)@.decodable,
            final(self)@.extracted == old(self)@.extracted,
            old(self)@.loaded && has_index_doc(old(self)@.entry_names) && old(
                self,
            )@.decodable.contains(old(self)@.entry_names[index_pos(old(self)@.entry_names)])
                && valid_utf8(
                old(self)@.entry_data[old(self)@.entry_names[index_pos(old(self)@.entry_names)]],
            ) ==> r is Ok,
            match r {
                Ok(s) => old(self)@.loaded && has_index_doc(old(self)@.entry_names) && s@
                    == decode_utf8(
                    old(self)@.entry_data[old(self)@.entry_names[index_pos(
                        old(self)@.entry_names,
                    )]],
                ),
                Err(e) => final(self)@.cache == old(self)@.cache && (if !old(self)@.loaded {
                    e == ArchiveError::StateError
                } else if !has_index_doc(old(self)@.entry_names) {
                    e == ArchiveError::NotFound
                } else {
                    e == ArchiveError::Corrupt
                }),
            },
    {
        let index_name = match self.get_index_file() {
            Ok(s) => s,
            Err(e) => {
                return Err(e);
            },
        };
        proof {
            let names = old(self)@.entry_names;
            lemma_index_pos_bounds(names, 0);
            assert(names.contains(index_name@)) by {
                assert(names[index_pos(names)] == index_name@);
            }
            assert(names.to_set().contains(index_name@));
            assert(old(self)@.entry_data.contains_key(index_name@));
        }
        self.read_file_from_memory(index_name.as_str())
    }

    /// Parses index-document text into its rows, exactly as
    /// `spec_pr_index` reads it; any shape mismatch is `Corrupt`.
    pub fn parse_json(&self, content: &str) -> (r: Result<Vec<PrIndexEntry>, ArchiveError>)
        ensures
            match r {
                Ok(rows) => crate::json::spec_pr_index(content@) == Some(rows.deep_view()),
                Err(e) => e == ArchiveError::Corrupt && crate::json::spec_pr_index(
                    content@,
                ) is None,
            },
    {
        parse_pr_index(content)
    }

    /// Plans the materialization of one entry into the extraction workspace.
    ///
    /// Idempotent: if the entry is recorded as extracted and the caller
    /// reports its output file still present (`output_present`), the reuse
    /// answer is owed and the decoder is not entered again. Otherwise the
    /// entry is located (`NotFound` if absent), decoded, recorded, and its
    /// bytes handed back for the caller to write; success is owed whenever
    /// the entry is present and decompressible.
    pub fn extract_file(&mut self, file_path: &str, output_present: bool) -> (r: Result<
        ExtractOutcome,
        ArchiveError,
    >)
        requires
            old(self).wf(),
        ensures
            final(self).wf(),
            final(self)@.archive_path == old(self)@.archive_path,
            final(self)@.loaded == old(self)@.loaded,
            final(self)@.entry_names == old(self)@.entry_names,
            final(self)@.entry_data == old(self)@.entry_data,
            final(self)@.decodable == old(self)@.decodable,
            final(self)@.cache == old(self)@.cache,
            old(self)@.loaded && old(self)@.extracted.contains(file_path@) && output_present ==> (
            r matches Ok(ExtractOutcome::AlreadyExtracted)),
            r matches Ok(ExtractOutcome::AlreadyExtracted) ==> final(self)@.decoder_reads == old(
                self,
            )@.decoder_reads,
            old(self)@.loaded && old(self)@.entry_data.contains_key(file_path@) && old(
                self,
            )@.decodable.contains(file_path@) ==> r is Ok,
            match r {
                Ok(ExtractOutcome::AlreadyExtracted) => old(self)@.loaded && old(
                    self,
                )@.extracted.contains(file_path@) && output_present && final(self)@.extracted
                    == old(self)@.extracted,
                Ok(ExtractOutcome::Extracted(d)) => old(self)@.loaded && old(
                    self,
                )@.entry_data.contains_key(file_path@) && d@ == old(self)@.entry_data[file_path@]
                    && final(self)@.extracted == old(self)@.extracted.push(file_path@),
                Err(e) => final(self)@.extracted == old(self)@.extracted && (if !old(
                    self,
                )@.loaded {
                    e == ArchiveError::StateError
                } else if !old(self)@.entry_data.contains_key(file_path@) {
                    e == ArchiveError::NotFound
                } else {
                    e == ArchiveError::Corrupt
                }),
            },
    {
        match self.ensure_archive_loaded() {
            Ok(_) => {},
            Err(e) => {
                return Err(e);
            },
        }
        match find_name(&self.extracted, file_path) {
            Some(i) => {
                if output_present {
                    proof {
                        assert(old(self)@.extracted.contains(file_path@)) by {
                            assert(old(self)@.extracted[i as int] == file_path@);
                        }
                    }
                    return Ok(ExtractOutcome::AlreadyExtracted);
                }
            },
            None => {},
        }
        match find_name(&self.names, file_path) {
            Some(i) => {
                proof {
                    assert(old(self)@.entry_names.contains(file_path@)) by {
                        assert(old(self)@.entry_names[i as int] == file_path@);
                    }
                    assert(old(self)@.entry_names.to_set().contains(file_path@));
                    assert(old(self)@.entry_data.contains_key(file_path@));
                }
            },
            None => {
                proof {
                    assert(!old(self)@.entry_data.contains_key(file_path@)) by {
                        if old(self)@.entry_data.contains_key(file_path@) {
                            assert(old(self)@.entry_names.to_set().contains(file_path@));
                        }
                    }
                }
                return Err(ArchiveError::NotFound);
            },
        }
        if self.decoder_reads < u64::MAX {
            self.decoder_reads = self.decoder_reads + 1;
        }
        let fetched: Result<Vec<u8>, ArchiveError> = match self.zip.take() {
            Some(mut archive) => {
                let res = zip_read(&mut archive, file_path);
                self.zip = Some(archive);
                res
            },
            None => {
                match &self.tar_map {
                    Some(m) => {
                        match m.get(file_path) {
                            Some(d) => Ok(copy_bytes(d.as_slice())),
                            None => Err(ArchiveError::Corrupt),
                        }
                    },
                    None => Err(ArchiveError::Corrupt),
                }
            },
        };
        proof {
            assert(self@.entry_names == old(self)@.entry_names);
            assert(self@.entry_data == old(self)@.entry_data);
            assert(self@.cache == old(self)@.cache);
            assert(self@.loaded == old(self)@.loaded);
        }
        let bytes = match fetched {
            Ok(d) => d,
            Err(e) => {
                return Err(e);
            },
        };
        let ghost prev_extracted = self@.extracted;
        self.extracted.push(String::from_str(file_path));
        proof {
            assert(self@.extracted =~= prev_extracted.push(file_path@));
        }
        Ok(ExtractOutcome::Extracted(bytes))
    }
}

/// What `extract_file` decided: reuse the already-materialized output, or
/// write these freshly decoded bytes.
#[derive(Debug)]
pub enum ExtractOutcome {
    AlreadyExtracted,
    Extracted(Vec<u8>),
}

} // verus!
