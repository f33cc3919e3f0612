//! Trusted bindings for text decoding: UTF-8, query strings, and the
//! GraphQL operation name carried in a JSON request body.

use vstd::prelude::*;

verus! {

/// The UTF-8 decoding of `bytes`, or `None` when `bytes` is not UTF-8.
pub uninterp spec fn utf8_decode(bytes: Seq<u8>) -> Option<Seq<char>>;

/// Relies on std's `String::from_utf8`: it succeeds exactly on UTF-8 input
/// and the decoded text is a function of the bytes alone.
#[verifier::external_body]
pub(crate) fn utf8_string(bytes: &Vec<u8>) -> (r: Option<String>)
    ensures
        match r {
            Some(s) => utf8_decode(bytes@) == Some(s@),
            None => utf8_decode(bytes@) is None,
        },
{
    String::from_utf8(bytes.clone()).ok()
}

/// The `application/x-www-form-urlencoded` reading of `query` as an ordered
/// sequence of percent-decoded (name, value) pairs.
pub uninterp spec fn parsed_query(query: Seq<char>) -> Seq<(Seq<char>, Seq<char>)>;

/// Relies on `form_urlencoded::parse`: the decoded pair sequence is a
/// function of the query text alone.
#[verifier::external_body]
pub(crate) fn parse_query_pairs(query: &str) -> (r: Vec<(String, String)>)
    ensures
        r@.len() == parsed_query(query@).len(),
        forall|i: int|
            0 <= i < r@.len() ==> r@[i].0@ == parsed_query(query@)[i].0 && r@[i].1@
                == parsed_query(query@)[i].1,
{
    form_urlencoded::parse(query.as_bytes()).into_owned().collect()
}

/// The top-level `operationName` string of `text` read as JSON; `None` when
/// `text` is not JSON or the field is absent or not a string.
pub uninterp spec fn operation_name_of(text: Seq<char>) -> Option<Seq<char>>;

/// Relies on `json::parse` and `json::JsonValue::as_str`: whether `text`
/// parses and what its `operationName` string is are functions of the text
/// alone.
#[verifier::external_body]
pub(crate) fn json_operation_name(text: &str) -> (r: Option<String>)
    ensures
        match r {
            Some(s) => operation_name_of(text@) == Some(s@),
            None => operation_name_of(text@) is None,
        },
{
    match json::parse(text) {
        Ok(body) => body["operationName"].as_str().map(|s| s.to_string()),
        Err(_) => None,
    }
}

} // verus!
