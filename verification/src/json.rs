//! Trusted boundary to the JSON parser. The backend's replies arrive as
//! JSON text; what a reply holds is serde_json's to decide, and is a
//! function of the text alone, so each reading below is given a name by
//! an uninterpreted spec function, and one trusted call performs it with
//! a contract that ties its return to that name. Everything the library
//! concludes from the plain values handed back is verified against the
//! names.

use vstd::prelude::*;

verus! {

/// The text of the reply envelope's `result` field: present exactly when
/// the text parses as JSON holding a string under `result`.
pub uninterp spec fn envelope_result_of(s: Seq<char>) -> Option<Seq<char>>;

/// Relies on serde_json::from_str and Value::get and Value::as_str: read
/// the envelope's `result` text. The error side distinguishes text that
/// is not JSON, carrying the parser's message, from a missing or
/// non-string field, carrying none.
#[verifier::external_body]
pub(crate) fn read_envelope_result(raw: &str) -> (r: Result<String, Option<String>>)
    ensures
        r is Ok <==> envelope_result_of(raw@) is Some,
        r matches Ok(t) ==> envelope_result_of(raw@) == Some(t@),
{
    match serde_json::from_str::<serde_json::Value>(raw) {
        Err(e) => Err(Some(format!("{e}"))),
        Ok(v) => match v.get("result").and_then(|x| x.as_str()) {
            Some(s) => Ok(s.to_string()),
            None => Err(None),
        },
    }
}

/// The entries of the envelope's `usage` object, each key beside its
/// value when that value is an unsigned integer; empty when the text is
/// not JSON or holds no usage object. serde_json keeps object entries in
/// key order, so the run is a function of the text.
pub uninterp spec fn usage_entries_of(s: Seq<char>) -> Seq<(Seq<char>, Option<u64>)>;

/// Relies on serde_json::from_str, Value::get, Value::as_object and
/// Value::as_u64: hand the usage entries out as plain pairs.
#[verifier::external_body]
pub(crate) fn read_usage_entries(raw: &str) -> (r: Vec<(String, Option<u64>)>)
    ensures
        r@.map_values(|p: (String, Option<u64>)| (p.0@, p.1)) == usage_entries_of(raw@),
{
    serde_json::from_str::<serde_json::Value>(raw)
        .ok()
        .and_then(|v| {
            let usage = v.get("usage")?.as_object()?;
            Some(usage.iter().map(|(k, x)| (k.clone(), x.as_u64())).collect())
        })
        .unwrap_or_default()
}

/// The reply's content blocks as pairs of block type and block text: a
/// block without a type reads as the empty type, one without a text as
/// none. Empty when the text is not JSON or holds no content array.
pub uninterp spec fn api_blocks_of(s: Seq<char>) -> Seq<(Seq<char>, Option<Seq<char>>)>;

/// Relies on serde_json::from_str, Value::get, Value::as_array and
/// Value::as_str: hand the content blocks out as plain pairs.
#[verifier::external_body]
pub(crate) fn read_api_blocks(raw: &str) -> (r: Vec<(String, Option<String>)>)
    ensures
        r@.map_values(
            |p: (String, Option<String>)|
                (
                    p.0@,
                    match p.1 {
                        Some(t) => Some(t@),
                        None => None,
                    },
                ),
        ) == api_blocks_of(raw@),
{
    serde_json::from_str::<serde_json::Value>(raw)
        .ok()
        .and_then(|v| {
            let blocks = v.get("content")?.as_array()?;
            Some(blocks.iter().map(|b| (
                b.get("type").and_then(|t| t.as_str()).unwrap_or("").to_string(),
                b.get("text").and_then(|t| t.as_str()).map(|s| s.to_string()),
            )).collect())
        })
        .unwrap_or_default()
}

/// The usage counts of the reply: the `input_tokens` and `output_tokens`
/// fields of the usage object, each when present and an unsigned
/// integer.
pub uninterp spec fn api_usage_of(s: Seq<char>) -> (Option<u64>, Option<u64>);

/// Relies on serde_json::from_str, Value::get and Value::as_u64: read
/// the two usage counts.
#[verifier::external_body]
pub(crate) fn read_api_usage(raw: &str) -> (r: (Option<u64>, Option<u64>))
    ensures
        r == api_usage_of(raw@),
{
    let v = serde_json::from_str::<serde_json::Value>(raw).ok();
    let usage = v.as_ref().and_then(|v| v.get("usage"));
    (
        usage.and_then(|u| u.get("input_tokens")).and_then(|t| t.as_u64()),
        usage.and_then(|u| u.get("output_tokens")).and_then(|t| t.as_u64()),
    )
}

} // verus!
