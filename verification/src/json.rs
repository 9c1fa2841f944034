//! Decoding of the archive's JSON documents.
//!
//! Parsing itself is `serde_json`'s work, reached through trusted wrappers
//! around its `Value` accessors. A parsed `Value` is opaque here, but each
//! accessor's result is named as a function of the value (and the parse as a
//! function of the text), so the walk from a document to typed index rows —
//! field presence, types, the id range — is verified against an exact
//! specification of the whole decode.

use vstd::prelude::*;
use vstd::string::*;
use crate::errors::ArchiveError;
use crate::index::{PrIndexEntry, PrEntryView};

verus! {

#[verifier::external_type_specification]
#[verifier::external_body]
pub struct ExJsonValue(serde_json::Value);

/// Whether `serde_json::from_str` accepts the text: a function of the text
/// alone.
pub uninterp spec fn json_parse_ok(s: Seq<char>) -> bool;

/// The document value the text parses to.
pub uninterp spec fn json_doc_of(s: Seq<char>) -> serde_json::Value;

/// The element list of a value, where it is an array.
pub uninterp spec fn json_arr(v: serde_json::Value) -> Option<Seq<serde_json::Value>>;

/// The member of a value under a key, where the value is an object holding
/// the key.
pub uninterp spec fn json_member(v: serde_json::Value, key: Seq<char>) -> Option<serde_json::Value>;

/// The text of a value, where it is a string.
pub uninterp spec fn json_str(v: serde_json::Value) -> Option<Seq<char>>;

/// The reading of a value as a signed 64-bit integer, where it is one.
pub uninterp spec fn json_int(v: serde_json::Value) -> Option<int>;

/// Relies on `serde_json::from_str::<Value>`: parses one JSON document,
/// deterministically from the text; `None` exactly where the text is not
/// well-formed JSON.
#[verifier::external_body]
fn json_parse(s: &str) -> (r: Option<serde_json::Value>)
    ensures
        r is Some <==> json_parse_ok(s@),
        r matches Some(v) ==> v == json_doc_of(s@),
{
    serde_json::from_str(s).ok()
}

/// Relies on `serde_json::Value::as_array`: the element list where the value
/// is an array, `None` otherwise; a function of the value.
#[verifier::external_body]
fn json_as_array(v: &serde_json::Value) -> (r: Option<&Vec<serde_json::Value>>)
    ensures
        r is Some <==> json_arr(*v) is Some,
        r matches Some(a) ==> a@ == json_arr(*v).unwrap(),
{
    v.as_array()
}

/// Relies on `serde_json::Value::get` with a string index: object member
/// lookup, `None` where the value is no object or the member is absent; a
/// function of the value and the key.
#[verifier::external_body]
fn json_get<'a>(v: &'a serde_json::Value, key: &str) -> (r: Option<&'a serde_json::Value>)
    ensures
        r is Some <==> json_member(*v, key@) is Some,
        r matches Some(m) ==> *m == json_member(*v, key@).unwrap(),
{
    v.get(key)
}

/// Relies on `serde_json::Value::as_str`: the text where the value is a
/// string, `None` otherwise; a function of the value.
#[verifier::external_body]
fn json_as_str(v: &serde_json::Value) -> (r: Option<&str>)
    ensures
        r is Some <==> json_str(*v) is Some,
        r matches Some(s) ==> s@ == json_str(*v).unwrap(),
{
    v.as_str()
}

/// Relies on `serde_json::Value::as_i64`: the number where the value is an
/// integer representable as `i64`, `None` otherwise; a function of the
/// value.
#[verifier::external_body]
fn json_as_i64(v: &serde_json::Value) -> (r: Option<i64>)
    ensures
        r is Some <==> json_int(*v) is Some,
        r matches Some(n) ==> n as int == json_int(*v).unwrap(),
{
    v.as_i64()
}

// ----- the decode, specified -----

/// The text of one required string member of an object value.
pub open spec fn spec_string_field(v: serde_json::Value, key: Seq<char>) -> Option<Seq<char>> {
    match json_member(v, key) {
        Some(f) => json_str(f),
        None => None,
    }
}

/// The id member of a row, where it is present, integral and in range.
pub open spec fn spec_row_id(v: serde_json::Value) -> Option<int> {
    match json_member(v, "id"@) {
        Some(f) => match json_int(f) {
            Some(n) => if i32::MIN <= n <= i32::MAX {
                Some(n)
            } else {
                None
            },
            None => None,
        },
        None => None,
    }
}

/// One index row read from its JSON object: every field present and of the
/// right type, the id in range.
pub open spec fn spec_row(v: serde_json::Value) -> Option<PrEntryView> {
    match (
        spec_row_id(v),
        spec_string_field(v, "title"@),
        spec_string_field(v, "created_by"@),
        spec_string_field(v, "creation_date"@),
        spec_string_field(v, "status"@),
        spec_string_field(v, "source_branch"@),
        spec_string_field(v, "target_branch"@),
        spec_string_field(v, "filename"@),
    ) {
        (
            Some(id),
            Some(title),
            Some(created_by),
            Some(creation_date),
            Some(status),
            Some(source_branch),
            Some(target_branch),
            Some(filename),
        ) => Some(
            PrEntryView {
                id,
                title,
                created_by,
                creation_date,
                status,
                source_branch,
                target_branch,
                filename,
            },
        ),
        _ => None,
    }
}

/// The rows read from `elems[i..]`, or `None` as soon as one row is
/// malformed.
pub open spec fn spec_rows_from(elems: Seq<serde_json::Value>, i: int) -> Option<Seq<PrEntryView>>
    decreases elems.len() - i,
{
    if i < 0 || i >= elems.len() {
        Some(Seq::empty())
    } else {
        match spec_row(elems[i]) {
            Some(row) => match spec_rows_from(elems, i + 1) {
                Some(rest) => Some(seq![row] + rest),
                None => None,
            },
            None => None,
        }
    }
}

/// What the index document text decodes to: its rows, or `None` where the
/// text is not JSON, not an array, or holds a malformed row.
pub open spec fn spec_pr_index(s: Seq<char>) -> Option<Seq<PrEntryView>> {
    if !json_parse_ok(s) {
        None
    } else {
        match json_arr(json_doc_of(s)) {
            Some(elems) => spec_rows_from(elems, 0),
            None => None,
        }
    }
}

// ----- the decode, executed -----

/// One required string member of an object value.
fn string_field(v: &serde_json::Value, key: &str) -> (r: Option<String>)
    ensures
        match r {
            Some(s) => spec_string_field(*v, key@) == Some(s@),
            None => spec_string_field(*v, key@) is None,
        },
{
    match json_get(v, key) {
        Some(f) => match json_as_str(f) {
            Some(s) => Some(String::from_str(s)),
            None => None,
        },
        None => None,
    }
}

/// One index row from its JSON object.
fn entry_from_value(v: &serde_json::Value) -> (r: Option<PrIndexEntry>)
    ensures
        match r {
            Some(e) => spec_row(*v) == Some(e@),
            None => spec_row(*v) is None,
        },
{
    let id64 = match json_get(v, "id") {
        Some(f) => match json_as_i64(f) {
            Some(n) => n,
            None => {
                return None;
            },
        },
        None => {
            return None;
        },
    };
    if id64 > i32::MAX as i64 || id64 < i32::MIN as i64 {
        return None;
    }
    let title = match string_field(v, "title") {
        Some(s) => s,
        None => {
            return None;
        },
    };
    let created_by = match string_field(v, "created_by") {
        Some(s) => s,
        None => {
            return None;
        },
    };
    let creation_date = match string_field(v, "creation_date") {
        Some(s) => s,
        None => {
            return None;
        },
    };
    let status = match string_field(v, "status") {
        Some(s) => s,
        None => {
            return None;
        },
    };
    let source_branch = match string_field(v, "source_branch") {
        Some(s) => s,
        None => {
            return None;
        },
    };
    let target_branch = match string_field(v, "target_branch") {
        Some(s) => s,
        None => {
            return None;
        },
    };
    let filename = match string_field(v, "filename") {
        Some(s) => s,
        None => {
            return None;
        },
    };
    Some(PrIndexEntry {
        id: id64 as i32,
        title,
        created_by,
        creation_date,
        status,
        source_branch,
        target_branch,
        filename,
    })
}

/// Joins an already-read prefix with the still-to-read tail.
spec fn rows_concat(prefix: Seq<PrEntryView>, tail: Option<Seq<PrEntryView>>) -> Option<
    Seq<PrEntryView>,
> {
    match tail {
        Some(t) => Some(prefix + t),
        None => None,
    }
}

/// Parses the index document: a JSON array of row objects, decoded exactly
/// as `spec_pr_index` reads it. Any shape mismatch — not JSON, not an array,
/// a row missing a field or holding one of the wrong type — is `Corrupt`.
pub fn parse_pr_index(content: &str) -> (r: Result<Vec<PrIndexEntry>, ArchiveError>)
    ensures
        match r {
            Ok(rows) => spec_pr_index(content@) == Some(rows.deep_view()),
            Err(e) => e == ArchiveError::Corrupt && spec_pr_index(content@) is None,
        },
{
    let doc = match json_parse(content) {
        Some(v) => v,
        None => {
            return Err(ArchiveError::Corrupt);
        },
    };
    let rows = match json_as_array(&doc) {
        Some(a) => a,
        None => {
            return Err(ArchiveError::Corrupt);
        },
    };
    let ghost elems = json_arr(json_doc_of(content@)).unwrap();
    let mut out: Vec<PrIndexEntry> = Vec::new();
    let n = rows.len();
    let mut i: usize = 0;
    proof {
        assert(rows@ == elems);
        if spec_rows_from(elems, 0) is Some {
            let t = spec_rows_from(elems, 0).unwrap();
            assert(out.deep_view() + t =~= t);
        }
    }
    while i < n
        invariant
            n == rows@.len(),
            i <= n,
            rows@ == elems,
            json_parse_ok(content@),
            json_arr(json_doc_of(content@)) == Some(elems),
            rows_concat(out.deep_view(), spec_rows_from(elems, i as int)) == spec_rows_from(
                elems,
                0,
            ),
        decreases n - i,
    {
        let ghost prev = out.deep_view();
        match entry_from_value(&rows[i]) {
            Some(e) => {
                proof {
                    assert(spec_row(elems[i as int]) == Some(e@));
                }
                out.push(e);
            },
            None => {
                proof {
                    assert(spec_rows_from(elems, i as int) is None);
                }
                return Err(ArchiveError::Corrupt);
            },
        }
        i = i + 1;
        proof {
            assert(out.deep_view() =~= prev.push(out.deep_view().last()));
            if spec_rows_from(elems, i as int) is Some {
                let rest = spec_rows_from(elems, i as int).unwrap();
                assert(prev.push(out.deep_view().last()) + rest =~= prev + (seq![
                    out.deep_view().last(),
                ] + rest));
            }
        }
    }
    proof {
        assert(spec_rows_from(elems, n as int) == Some(Seq::<PrEntryView>::empty()));
        assert(out.deep_view() + Seq::<PrEntryView>::empty() =~= out.deep_view());
    }
    Ok(out)
}

/// Looks one image path up in a flat JSON object of string members, under
/// the key `https://<path>`.
pub fn image_path_lookup(doc: &serde_json::Value, path: &str) -> (r: Option<String>)
    ensures
        match r {
            Some(s) => spec_string_field(*doc, "https://"@ + path@) == Some(s@),
            None => spec_string_field(*doc, "https://"@ + path@) is None,
        },
{
    let key = String::from_str("https://").concat(path);
    match json_get(doc, key.as_str()) {
        Some(v) => match json_as_str(v) {
            Some(s) => Some(String::from_str(s)),
            None => None,
        },
        None => None,
    }
}

/// Parses a JSON document for member lookups; `None` exactly where the text
/// is not well-formed JSON.
pub fn parse_json_document(content: &str) -> (r: Option<serde_json::Value>)
    ensures
        r is Some <==> json_parse_ok(content@),
        r matches Some(v) ==> v == json_doc_of(content@),
{
    json_parse(content)
}

} // verus!
