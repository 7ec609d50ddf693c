//! Reading the platform's JSON response bodies into the library's types.
//!
//! The JSON itself is handled by `serde_json` behind trusted declarations;
//! everything around those calls — which fields are read, what a missing or
//! ill-typed field falls back to — is the library's own, verified code. A
//! missing or unparseable `viewer_count` counts as zero and is never fatal;
//! a body that is not JSON at all is a page failure.

use vstd::prelude::*;
use crate::aggregate::StreamsPage;
use crate::report::CatalogRecord;

verus! {

#[verifier::external_type_specification]
#[verifier::external_body]
pub struct ExJsonValue(serde_json::Value);

/// Whether a text is a JSON document that decoding accepts. Decoding
/// succeeds or fails on the text alone, so this is a function of the text;
/// what the decoded tree holds is not stated, only that there is one.
pub uninterp spec fn json_ok(s: Seq<char>) -> bool;

/// Relies on serde_json::from_str: decodes a JSON text into a tree of
/// values, or fails when the text is not valid JSON; which of the two
/// happens depends on the text alone.
#[verifier::external_body]
fn json_parse(body: &str) -> (v: Option<serde_json::Value>)
    ensures
        v is Some <==> json_ok(body@),
{
    serde_json::from_str::<serde_json::Value>(body).ok()
}

/// Relies on serde_json::Value::get: looks a key up in a JSON object,
/// `None` when the value is no object or the key is absent.
#[verifier::external_body]
fn json_get<'a>(v: &'a serde_json::Value, key: &str) -> (r: Option<&'a serde_json::Value>) {
    v.get(key)
}

/// Relies on serde_json::Value::as_array: the elements of a JSON array,
/// `None` when the value is no array.
#[verifier::external_body]
fn json_as_array<'a>(v: &'a serde_json::Value) -> (r: Option<&'a Vec<serde_json::Value>>) {
    v.as_array()
}

/// Relies on serde_json::Value::as_u64: the value of a JSON number that is
/// a non-negative integer fitting in `u64`, `None` otherwise.
#[verifier::external_body]
fn json_as_u64(v: &serde_json::Value) -> (r: Option<u64>) {
    v.as_u64()
}

/// Relies on serde_json::Value::as_str: the contents of a JSON string,
/// `None` when the value is no string.
#[verifier::external_body]
fn json_as_string(v: &serde_json::Value) -> (r: Option<String>) {
    v.as_str().map(|s| s.to_owned())
}

/// Read one page of the live-broadcast listing: the `viewer_count` of each
/// record under `data` (zero when absent or not a non-negative integer —
/// never fatal), and the cursor under `pagination.cursor` when the service
/// supplied one. `None` exactly when the body is not JSON: that page counts
/// as a fetch failure.
pub fn parse_streams_page(body: &str) -> (page: Option<StreamsPage>)
    ensures
        page is Some <==> json_ok(body@),
{
    let root = match json_parse(body) {
        Some(v) => v,
        None => {
            return None;
        },
    };
    let mut counts: Vec<u64> = Vec::new();
    match json_get(&root, "data") {
        Some(data) => {
            match json_as_array(data) {
                Some(records) => {
                    let mut i: usize = 0;
                    while i < records.len()
                        decreases records@.len() - i,
                    {
                        let count = match json_get(&records[i], "viewer_count") {
                            Some(c) => {
                                match json_as_u64(c) {
                                    Some(n) => n,
                                    None => 0,
                                }
                            },
                            None => 0,
                        };
                        counts.push(count);
                        i = i + 1;
                    }
                },
                None => {},
            }
        },
        None => {},
    }
    let cursor = match json_get(&root, "pagination") {
        Some(p) => {
            match json_get(p, "cursor") {
                Some(c) => json_as_string(c),
                None => None,
            }
        },
        None => None,
    };
    Some(StreamsPage { counts, cursor })
}

/// Read a catalog lookup response for the named game: the `id` and
/// `igdb_id` of the first entry under `data`. `None` when the body is not
/// JSON, the entry list is empty, or either identifier is missing: that
/// game is not found, and only that game is dropped.
pub fn parse_catalog_record(name: &String, body: &str) -> (record: Option<CatalogRecord>)
    ensures
        record matches Some(r) ==> r.name == *name,
        record is Some ==> json_ok(body@),
{
    let root = match json_parse(body) {
        Some(v) => v,
        None => {
            return None;
        },
    };
    let data = match json_get(&root, "data") {
        Some(d) => d,
        None => {
            return None;
        },
    };
    let records = match json_as_array(data) {
        Some(r) => r,
        None => {
            return None;
        },
    };
    if records.len() == 0 {
        return None;
    }
    let first = &records[0];
    let catalog_id = match json_get(first, "id") {
        Some(v) => {
            match json_as_string(v) {
                Some(s) => s,
                None => {
                    return None;
                },
            }
        },
        None => {
            return None;
        },
    };
    let external_catalog_id = match json_get(first, "igdb_id") {
        Some(v) => {
            match json_as_string(v) {
                Some(s) => s,
                None => {
                    return None;
                },
            }
        },
        None => {
            return None;
        },
    };
    Some(CatalogRecord { name: name.clone(), catalog_id, external_catalog_id })
}

/// Read the bearer token out of a credential-exchange response: the string
/// under `access_token`, `None` when the body is not JSON or carries no
/// such string.
pub fn extract_access_token(body: &str) -> (token: Option<String>)
    ensures
        token is Some ==> json_ok(body@),
{
    let root = match json_parse(body) {
        Some(v) => v,
        None => {
            return None;
        },
    };
    match json_get(&root, "access_token") {
        Some(v) => json_as_string(v),
        None => None,
    }
}

/// Read the owned-library response: the `name` of each entry under
/// `response.games`, skipping entries without one. `None` exactly when the
/// body is not JSON; an absent or ill-typed game list yields an empty
/// library.
pub fn extract_library_names(body: &str) -> (library: Option<Vec<String>>)
    ensures
        library is Some <==> json_ok(body@),
{
    let root = match json_parse(body) {
        Some(v) => v,
        None => {
            return None;
        },
    };
    let mut names: Vec<String> = Vec::new();
    match json_get(&root, "response") {
        Some(response) => {
            match json_get(response, "games") {
                Some(games) => {
                    match json_as_array(games) {
                        Some(entries) => {
                            let mut i: usize = 0;
                            while i < entries.len()
                                decreases entries@.len() - i,
                            {
                                match json_get(&entries[i], "name") {
                                    Some(v) => {
                                        match json_as_string(v) {
                                            Some(s) => names.push(s),
                                            None => {},
                                        }
                                    },
                                    None => {},
                                }
                                i = i + 1;
                            }
                        },
                        None => {},
                    }
                },
                None => {},
            }
        },
        None => {},
    }
    Some(names)
}

} // verus!
