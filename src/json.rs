//! The JSON documents of the package feed, read with serde_json.
//!
//! Each reader parses a document and hands back the plain values that the
//! feed's logic looks at; what they hold is named by a spec function of the
//! document's bytes.

use vstd::prelude::*;
use zed_extension_api::serde_json;
use crate::nuget::ServiceResource;
use crate::text::opt_view;

verus! {

#[verifier::external_type_specification]
#[verifier::external_body]
pub struct ExJsonError(serde_json::Error);

/// What the JSON document `body` holds in the array member `list`: for each
/// element, its string members `first` and `second`. `None` where `body` is no
/// JSON document; `Some(None)` where it has no array member `list`.
pub uninterp spec fn string_pairs_of(body: Seq<u8>, list: Seq<char>, first: Seq<char>, second: Seq<char>) -> Option<Option<Seq<(Option<Seq<char>>, Option<Seq<char>>)>>>;

/// What the JSON document `body` holds in the array member `list`: for each
/// element, its text where it is a string. `None` where `body` is no JSON
/// document; `Some(None)` where it has no array member `list`.
pub uninterp spec fn strings_of_array(body: Seq<u8>, list: Seq<char>) -> Option<Option<Seq<Option<Seq<char>>>>>;

/// The declared type and address of each resource.
pub open spec fn resource_pairs(v: Seq<ServiceResource>) -> Seq<(Option<Seq<char>>, Option<Seq<char>>)> {
    v.map_values(|r: ServiceResource| (opt_view(r.resource_type), opt_view(r.id)))
}

pub open spec fn opt_views(v: Seq<Option<String>>) -> Seq<Option<Seq<char>>> {
    v.map_values(|s: Option<String>| opt_view(s))
}

/// Relies on `serde_json::from_slice`, `Value::get` with a string key,
/// `Value::as_array` and `Value::as_str`: parses `body` and reads, for each
/// element of the array member `list`, the string members `first` and `second`.
/// The result depends on the arguments alone.
#[verifier::external_body]
pub(crate) fn read_string_pairs(body: &[u8], list: &str, first: &str, second: &str) -> (r: Result<Option<Vec<ServiceResource>>, serde_json::Error>)
    ensures
        r is Err <==> string_pairs_of(body@, list@, first@, second@) is None,
        r matches Ok(None) ==> string_pairs_of(body@, list@, first@, second@) == Some(
            None::<Seq<(Option<Seq<char>>, Option<Seq<char>>)>>,
        ),
        r matches Ok(Some(v)) ==> string_pairs_of(body@, list@, first@, second@) == Some(
            Some(resource_pairs(v@)),
        ),
{
    let doc: serde_json::Value = serde_json::from_slice(body)?;
    Ok(doc.get(list).and_then(serde_json::Value::as_array).map(|a| {
        a.iter().map(|e| ServiceResource {
            resource_type: e.get(first).and_then(serde_json::Value::as_str).map(String::from),
            id: e.get(second).and_then(serde_json::Value::as_str).map(String::from),
        }).collect()
    }))
}

/// Relies on `serde_json::from_slice`, `Value::get` with a string key,
/// `Value::as_array` and `Value::as_str`: parses `body` and reads each element of
/// the array member `list` as a string where it is one. The result depends on
/// the arguments alone.
#[verifier::external_body]
pub(crate) fn read_string_array(body: &[u8], list: &str) -> (r: Result<Option<Vec<Option<String>>>, serde_json::Error>)
    ensures
        r is Err <==> strings_of_array(body@, list@) is None,
        r matches Ok(None) ==> strings_of_array(body@, list@) == Some(None::<Seq<Option<Seq<char>>>>),
        r matches Ok(Some(v)) ==> strings_of_array(body@, list@) == Some(Some(opt_views(v@))),
{
    let doc: serde_json::Value = serde_json::from_slice(body)?;
    Ok(doc.get(list).and_then(serde_json::Value::as_array).map(|a| {
        a.iter().map(|e| e.as_str().map(String::from)).collect()
    }))
}

/// Relies on serde_json's `Display` for its error: a description of why and
/// where parsing failed.
#[verifier::external_body]
pub(crate) fn error_text(e: &serde_json::Error) -> (r: String) {
    e.to_string()
}

} // verus!
