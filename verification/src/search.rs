//! Search index over PR metadata.
//!
//! `search` resolves a query in two phases, first match wins. The numeric
//! phase — the one served here — compares the trimmed query against the
//! decimal string of every entry id: entries whose id-string starts with the
//! query rank before entries that merely contain it, each group ascending by
//! id. A blank query yields no matches. The free-text phase (a ranked, float-
//! scored lookup over title and author) is layered on top by the embedding
//! application when the numeric phase yields nothing; the tokenizer and the
//! field extractors it feeds are defined and verified here.

use vstd::prelude::*;
use vstd::string::*;
use crate::errors::ArchiveError;
use crate::index::{PrIndexEntry, PrEntryView};
use crate::text::{
    chars_vec, trim_chars, subvec_chars, string_from_chars, lowercase, char_is_sep,
    chars_start_with, chars_contain, u64_to_chars,
    spec_trim, spec_tokens, tokens_from, lemma_next_sep_is,
    seq_starts_with, seq_contains_sub, decimal_digits, is_sep, lower_of,
};

verus! {

// ----- tokenization and field extraction -----

/// Splits on whitespace and the characters `-`, `_`, `/`, lower-cases each
/// token, and drops empty tokens.
pub fn tokenizer(s: &str) -> (r: Vec<String>)
    ensures
        r.deep_view() == spec_tokens(s@),
{
    let cs = chars_vec(s);
    let n = cs.len();
    let mut out: Vec<String> = Vec::new();
    let mut i: usize = 0;
    proof {
        assert(out.deep_view() + tokens_from(s@, 0) =~= tokens_from(s@, 0));
    }
    while i < n
        invariant
            n == cs@.len(),
            cs@ == s@,
            i <= n,
            out.deep_view() + tokens_from(s@, i as int) == spec_tokens(s@),
        decreases n - i,
    {
        if char_is_sep(cs[i]) {
            i = i + 1;
        } else {
            let mut j: usize = i;
            while j < n && !char_is_sep(cs[j])
                invariant
                    n == cs@.len(),
                    cs@ == s@,
                    i <= j <= n,
                    forall|k: int| i <= k < j ==> !is_sep(s@[k]),
                decreases n - j,
            {
                j = j + 1;
            }
            proof {
                lemma_next_sep_is(s@, i as int, j as int);
            }
            let tok = string_from_chars(subvec_chars(cs.as_slice(), i, j).as_slice());
            let low = lowercase(tok.as_str());
            let ghost prev = out.deep_view();
            out.push(low);
            proof {
                assert(out.deep_view() =~= prev.push(lower_of(s@.subrange(i as int, j as int))));
                assert(prev.push(lower_of(s@.subrange(i as int, j as int)))
                    + tokens_from(s@, j as int) =~= prev + tokens_from(s@, i as int));
            }
            i = j;
        }
    }
    proof {
        assert(out.deep_view() + tokens_from(s@, i as int) =~= out.deep_view());
    }
    out
}

/// The text of the title field, for the free-text index.
pub fn title_extract(pr: &PrIndexEntry) -> (r: Vec<&str>)
    ensures
        r.deep_view() =~= seq![pr@.title],
{
    let mut v: Vec<&str> = Vec::new();
    v.push(pr.title.as_str());
    v
}

/// The text of the author field, for the free-text index.
pub fn author_extract(pr: &PrIndexEntry) -> (r: Vec<&str>)
    ensures
        r.deep_view() =~= seq![pr@.created_by],
{
    let mut v: Vec<&str> = Vec::new();
    v.push(pr.created_by.as_str());
    v
}

// ----- id strings -----

/// The decimal string of an entry id, a sign character first if negative.
pub open spec fn id_digits(id: int) -> Seq<char> {
    if id >= 0 {
        decimal_digits(id)
    } else {
        seq!['-'] + decimal_digits(-id)
    }
}

/// The decimal characters of `id`.
pub fn id_to_chars(id: i32) -> (v: Vec<char>)
    ensures
        v@ == id_digits(id as int),
{
    if id >= 0 {
        let v = u64_to_chars(id as u64);
        v
    } else {
        let mut v: Vec<char> = Vec::new();
        v.push('-');
        let mut digits = u64_to_chars((-(id as i64)) as u64);
        v.append(&mut digits);
        proof {
            assert(v@ =~= id_digits(id as int));
        }
        v
    }
}

// ----- the ranking of the numeric phase -----

/// The id-string of `e` starts with `q`.
pub open spec fn id_prefix_match(e: PrEntryView, q: Seq<char>) -> bool {
    seq_starts_with(id_digits(e.id), q)
}

/// The id-string of `e` contains `q` without starting with it.
pub open spec fn id_contains_match(e: PrEntryView, q: Seq<char>) -> bool {
    !id_prefix_match(e, q) && seq_contains_sub(id_digits(e.id), q)
}

/// The prefix-rank group, in archive order.
pub open spec fn prefix_filter(entries: Seq<PrEntryView>, q: Seq<char>) -> Seq<PrEntryView> {
    entries.filter(|e: PrEntryView| id_prefix_match(e, q))
}

/// The contains-rank group, in archive order.
pub open spec fn contains_filter(entries: Seq<PrEntryView>, q: Seq<char>) -> Seq<PrEntryView> {
    entries.filter(|e: PrEntryView| id_contains_match(e, q))
}

/// Stable insertion of `e` behind the entries of equal or smaller id.
pub open spec fn insert_by_id(s: Seq<PrEntryView>, e: PrEntryView) -> Seq<PrEntryView>
    decreases s.len(),
{
    if s.len() == 0 {
        seq![e]
    } else if s.last().id <= e.id {
        s.push(e)
    } else {
        insert_by_id(s.drop_last(), e).push(s.last())
    }
}

/// Stable sort of entries ascending by id.
pub open spec fn sort_by_id(s: Seq<PrEntryView>) -> Seq<PrEntryView>
    decreases s.len(),
{
    if s.len() == 0 {
        s
    } else {
        insert_by_id(sort_by_id(s.drop_last()), s.last())
    }
}

/// The numeric phase on an already-trimmed, non-empty query: prefix-rank
/// entries ascending by id, then contains-rank entries ascending by id.
pub open spec fn numeric_matches(entries: Seq<PrEntryView>, q: Seq<char>) -> Seq<PrEntryView> {
    sort_by_id(prefix_filter(entries, q)) + sort_by_id(contains_filter(entries, q))
}

/// What `search` returns: the query is trimmed; a blank query yields no
/// matches; otherwise the numeric phase decides.
pub open spec fn spec_search(entries: Seq<PrEntryView>, raw: Seq<char>) -> Seq<PrEntryView> {
    let q = spec_trim(raw);
    if q.len() == 0 {
        Seq::empty()
    } else {
        numeric_matches(entries, q)
    }
}

/// Entries stand in ascending id order.
pub open spec fn sorted_by_ids(s: Seq<PrEntryView>) -> bool {
    forall|i: int, j: int| 0 <= i <= j < s.len() ==> s[i].id <= s[j].id
}

/// Insertion keeps the length.
proof fn lemma_insert_by_id_len(s: Seq<PrEntryView>, e: PrEntryView)
    ensures
        insert_by_id(s, e).len() == s.len() + 1,
    decreases s.len(),
{
    if s.len() > 0 && s.last().id > e.id {
        lemma_insert_by_id_len(s.drop_last(), e);
    }
}

/// Insertion adds exactly the one element to the set of entries.
proof fn lemma_insert_by_id_set(s: Seq<PrEntryView>, e: PrEntryView)
    ensures
        insert_by_id(s, e).to_set() == s.to_set().insert(e),
    decreases s.len(),
{
    if s.len() == 0 {
        crate::text::lemma_push_to_set(s, e);
        assert(insert_by_id(s, e) =~= s.push(e));
    } else if s.last().id <= e.id {
        crate::text::lemma_push_to_set(s, e);
    } else {
        lemma_insert_by_id_set(s.drop_last(), e);
        crate::text::lemma_push_to_set(insert_by_id(s.drop_last(), e), s.last());
        crate::text::lemma_push_to_set(s.drop_last(), s.last());
        assert(s.drop_last().push(s.last()) =~= s);
        assert(insert_by_id(s, e).to_set() =~= s.to_set().insert(e));
    }
}

/// Insertion into a sorted sequence stays sorted.
proof fn lemma_insert_by_id_sorted(s: Seq<PrEntryView>, e: PrEntryView)
    requires
        sorted_by_ids(s),
    ensures
        sorted_by_ids(insert_by_id(s, e)),
    decreases s.len(),
{
    if s.len() == 0 {
    } else if s.last().id <= e.id {
    } else {
        assert(sorted_by_ids(s.drop_last())) by {
            assert(forall|i: int, j: int|
                0 <= i <= j < s.drop_last().len() ==> s.drop_last()[i].id <= s.drop_last()[j].id);
        }
        lemma_insert_by_id_sorted(s.drop_last(), e);
        lemma_insert_by_id_set(s.drop_last(), e);
        lemma_insert_by_id_len(s.drop_last(), e);
        let inner = insert_by_id(s.drop_last(), e);
        let r = inner.push(s.last());
        assert forall|i: int, j: int| 0 <= i <= j < r.len() implies r[i].id <= r[j].id by {
            if j < inner.len() {
                assert(inner[i].id <= inner[j].id);
            } else if i < inner.len() {
                assert(inner.to_set().contains(inner[i]));
                if s.drop_last().to_set().contains(inner[i]) {
                    let k = choose|k: int|
                        0 <= k < s.drop_last().len() && s.drop_last()[k] == inner[i];
                    assert(s[k].id <= s.last().id);
                } else {
                    assert(inner[i] == e);
                }
            }
        }
    }
}

/// A stable id-sort keeps the length.
proof fn lemma_sort_by_id_len(s: Seq<PrEntryView>)
    ensures
        sort_by_id(s).len() == s.len(),
    decreases s.len(),
{
    if s.len() > 0 {
        lemma_sort_by_id_len(s.drop_last());
        lemma_insert_by_id_len(sort_by_id(s.drop_last()), s.last());
    }
}

/// A stable id-sort keeps exactly the entries.
proof fn lemma_sort_by_id_set(s: Seq<PrEntryView>)
    ensures
        sort_by_id(s).to_set() == s.to_set(),
    decreases s.len(),
{
    if s.len() > 0 {
        lemma_sort_by_id_set(s.drop_last());
        lemma_insert_by_id_set(sort_by_id(s.drop_last()), s.last());
        crate::text::lemma_push_to_set(s.drop_last(), s.last());
        assert(s.drop_last().push(s.last()) =~= s);
        assert(sort_by_id(s).to_set() =~= s.to_set());
    }
}

/// A stable id-sort is sorted.
proof fn lemma_sort_by_id_sorted(s: Seq<PrEntryView>)
    ensures
        sorted_by_ids(sort_by_id(s)),
    decreases s.len(),
{
    if s.len() > 0 {
        lemma_sort_by_id_sorted(s.drop_last());
        lemma_insert_by_id_sorted(sort_by_id(s.drop_last()), s.last());
    }
}

/// For a query that is exactly the id-string of some entry, with all entry
/// ids nonnegative, the search result is nonempty and its first entry
/// carries exactly the queried id; prefix-rank entries never stand after
/// contains-rank entries, the result being the prefix group ascending by
/// id followed by the contains group ascending by id.
pub proof fn lemma_exact_id_query_first(entries: Seq<PrEntryView>, raw: Seq<char>, w: int)
    requires
        0 <= w < entries.len(),
        forall|i: int| 0 <= i < entries.len() ==> #[trigger] entries[i].id >= 0,
        spec_trim(raw) == id_digits(entries[w].id),
    ensures
        spec_search(entries, raw).len() > 0,
        spec_search(entries, raw)[0].id == entries[w].id,
{
    broadcast use vstd::seq_lib::group_filter_ensures;

    let q = spec_trim(raw);
    let a = entries[w].id;
    crate::text::lemma_decimal_digits_len_pos(a);
    assert(q.len() >= 1);
    let pred = |e: PrEntryView| id_prefix_match(e, q);
    let pf = prefix_filter(entries, q);
    assert(id_prefix_match(entries[w], q)) by {
        assert(id_digits(a).take(q.len() as int) =~= q);
    }
    assert(pf.contains(entries[w])) by {
        entries.lemma_filter_contains(pred, w);
    }
    let sorted_pf = sort_by_id(pf);
    lemma_sort_by_id_len(pf);
    lemma_sort_by_id_set(pf);
    lemma_sort_by_id_sorted(pf);
    assert(pf.len() > 0) by {
        let k = choose|k: int| 0 <= k < pf.len() && pf[k] == entries[w];
    }
    assert(sorted_pf.len() > 0);
    let first = sorted_pf[0];
    assert(sorted_pf.to_set().contains(first));
    assert(pf.to_set().contains(first));
    let fidx = choose|k: int| 0 <= k < pf.len() && pf[k] == first;
    assert(id_prefix_match(first, q)) by {
        entries.lemma_filter_pred(pred, fidx);
    }
    assert(first.id >= 0) by {
        entries.lemma_filter_contains_rev(pred, first);
        let oi = choose|k: int| 0 <= k < entries.len() && entries[k] == first;
        assert(entries[oi].id >= 0);
    }
    assert(first.id <= a) by {
        assert(sorted_pf.to_set().contains(entries[w]));
        let m = choose|k: int| 0 <= k < sorted_pf.len() && sorted_pf[k] == entries[w];
        assert(sorted_pf[0].id <= sorted_pf[m].id);
    }
    assert(a <= first.id) by {
        assert(seq_starts_with(id_digits(first.id), q));
        crate::text::lemma_prefix_digits_le(a, first.id);
    }
    assert(spec_search(entries, raw)[0] == first);
}

proof fn lemma_insert_by_id_at(s: Seq<PrEntryView>, e: PrEntryView, p: int)
    requires
        0 <= p <= s.len(),
        forall|j: int| p <= j < s.len() ==> s[j].id > e.id,
        p > 0 ==> s[p - 1].id <= e.id,
    ensures
        insert_by_id(s, e) == s.take(p) + seq![e] + s.skip(p),
    decreases s.len(),
{
    if s.len() == 0 {
        assert(insert_by_id(s, e) =~= s.take(p) + seq![e] + s.skip(p));
    } else if s.last().id <= e.id {
        assert(p == s.len());
        assert(s.take(p) =~= s);
        assert(insert_by_id(s, e) =~= s.take(p) + seq![e] + s.skip(p));
    } else {
        assert(p < s.len());
        lemma_insert_by_id_at(s.drop_last(), e, p);
        assert(insert_by_id(s, e) =~= s.take(p) + seq![e] + s.skip(p));
    }
}

/// Inserts `e` into a vector sorted ascending by id, behind equal ids.
fn insert_entry_by_id(v: &mut Vec<PrIndexEntry>, e: PrIndexEntry)
    ensures
        final(v).deep_view() == insert_by_id(old(v).deep_view(), e@),
{
    let mut pos: usize = v.len();
    while pos > 0 && v[pos - 1].id > e.id
        invariant
            pos <= v@.len(),
            forall|j: int| pos <= j < v@.len() ==> v.deep_view()[j].id > e@.id,
        decreases pos,
    {
        pos = pos - 1;
    }
    proof {
        lemma_insert_by_id_at(v.deep_view(), e@, pos as int);
    }
    v.insert(pos, e);
    proof {
        assert(final(v).deep_view() =~= old(v).deep_view().take(pos as int) + seq![e@]
            + old(v).deep_view().skip(pos as int));
    }
}

/// Sorts entries ascending by id, stably.
fn sort_entries_by_id(v: &Vec<PrIndexEntry>) -> (r: Vec<PrIndexEntry>)
    ensures
        r.deep_view() == sort_by_id(v.deep_view()),
{
    let mut out: Vec<PrIndexEntry> = Vec::new();
    let n = v.len();
    let mut i: usize = 0;
    while i < n
        invariant
            n == v@.len(),
            i <= n,
            out.deep_view() == sort_by_id(v.deep_view().take(i as int)),
        decreases n - i,
    {
        insert_entry_by_id(&mut out, v[i].duplicate());
        i = i + 1;
        proof {
            assert(v.deep_view().take(i as int).drop_last() =~= v.deep_view().take(i - 1));
            assert(v.deep_view().take(i as int).last() == v.deep_view()[i - 1]);
        }
    }
    proof {
        assert(v.deep_view().take(n as int) =~= v.deep_view());
    }
    out
}

// ----- the index -----

/// Rank-queryable index over the current set of PR index entries: absent
/// until first built, then an internally consistent snapshot, replaced whole
/// on every rebuild.
pub struct SearchIndex {
    entries: Option<Vec<PrIndexEntry>>,
}

impl View for SearchIndex {
    type V = Option<Seq<PrEntryView>>;

    closed spec fn view(&self) -> Option<Seq<PrEntryView>> {
        match self.entries {
            Some(ref es) => Some(es.deep_view()),
            None => None,
        }
    }
}

impl SearchIndex {
    /// A fresh, uninitialized index.
    pub fn new() -> (r: Self)
        ensures
            r@ is None,
    {
        SearchIndex { entries: None }
    }

    /// Discards any prior index and rebuilds from the given entries; the last
    /// call wins. Always succeeds on well-formed entries.
    pub fn rebuild_index(&mut self, entries: &Vec<PrIndexEntry>) -> (r: Result<(), ArchiveError>)
        ensures
            r is Ok,
            final(self)@ == Some(entries.deep_view()),
    {
        let mut copy: Vec<PrIndexEntry> = Vec::new();
        let n = entries.len();
        let mut i: usize = 0;
        while i < n
            invariant
                n == entries@.len(),
                i <= n,
                copy.deep_view() =~= entries.deep_view().take(i as int),
            decreases n - i,
        {
            copy.push(entries[i].duplicate());
            i = i + 1;
            proof {
                assert(entries.deep_view().take(i as int)
                    =~= entries.deep_view().take(i - 1).push(entries.deep_view()[i - 1]));
            }
        }
        proof {
            assert(entries.deep_view().take(n as int) =~= entries.deep_view());
        }
        self.entries = Some(copy);
        Ok(())
    }

    /// True once `rebuild_index` has completed at least once.
    pub fn is_initialized(&self) -> (r: bool)
        ensures
            r == (self@ is Some),
    {
        match &self.entries {
            Some(_) => true,
            None => false,
        }
    }

    /// The numeric phase of query resolution, `spec_search` exactly: a pure
    /// function of the index snapshot and the query, so identical queries
    /// against one snapshot always return the same ordered result.
    pub fn search(&self, query: &str) -> (r: Result<Vec<PrIndexEntry>, ArchiveError>)
        ensures
            match r {
                Ok(v) => self@ is Some && v.deep_view() == spec_search(self@.unwrap(), query@),
                Err(e) => self@ is None && e == ArchiveError::StateError,
            },
    {
        let entries = match &self.entries {
            Some(es) => es,
            None => {
                return Err(ArchiveError::StateError);
            },
        };
        let q_chars = chars_vec(query);
        let q = trim_chars(q_chars.as_slice());
        if q.len() == 0 {
            let empty: Vec<PrIndexEntry> = Vec::new();
            proof {
                assert(empty.deep_view() =~= spec_search(entries.deep_view(), query@));
            }
            return Ok(empty);
        }
        let ghost qv = q@;
        let mut prefix_group: Vec<PrIndexEntry> = Vec::new();
        let mut contains_group: Vec<PrIndexEntry> = Vec::new();
        let n = entries.len();
        let mut i: usize = 0;
        proof {
            reveal(Seq::filter);
            assert(prefix_group.deep_view() =~= prefix_filter(entries.deep_view().take(0), qv));
            assert(contains_group.deep_view() =~= contains_filter(entries.deep_view().take(0), qv));
        }
        while i < n
            invariant
                n == entries@.len(),
                i <= n,
                qv == q@,
                prefix_group.deep_view() == prefix_filter(entries.deep_view().take(i as int), qv),
                contains_group.deep_view() == contains_filter(
                    entries.deep_view().take(i as int),
                    qv,
                ),
            decreases n - i,
        {
            let ghost prev_p = prefix_group.deep_view();
            let ghost prev_c = contains_group.deep_view();
            let digits = id_to_chars(entries[i].id);
            if chars_start_with(digits.as_slice(), q.as_slice()) {
                prefix_group.push(entries[i].duplicate());
            } else if chars_contain(digits.as_slice(), q.as_slice()) {
                contains_group.push(entries[i].duplicate());
            }
            i = i + 1;
            proof {
                reveal(Seq::filter);
                let evs = entries.deep_view();
                assert(evs.take(i as int).drop_last() =~= evs.take(i - 1));
                assert(evs.take(i as int).last() == evs[i - 1]);
                if id_prefix_match(evs[i - 1], qv) {
                    assert(prefix_group.deep_view() =~= prev_p.push(evs[i - 1]));
                } else if id_contains_match(evs[i - 1], qv) {
                    assert(contains_group.deep_view() =~= prev_c.push(evs[i - 1]));
                }
            }
        }
        proof {
            assert(entries.deep_view().take(n as int) =~= entries.deep_view());
        }
        let mut result = sort_entries_by_id(&prefix_group);
        let mut sorted_contains = sort_entries_by_id(&contains_group);
        let ghost before = result.deep_view();
        result.append(&mut sorted_contains);
        proof {
            assert(result.deep_view() =~= before + sort_by_id(contains_filter(
                entries.deep_view(),
                qv,
            )));
            assert(result.deep_view() == spec_search(entries.deep_view(), query@));
        }
        Ok(result)
    }
}

} // verus!
