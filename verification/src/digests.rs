//! Trusted bindings the archive converter relies on: the MD5 digest that
//! names generated files, JSON pretty-printing, and URL path extraction.

use vstd::prelude::*;

verus! {

/// The lower-case hexadecimal MD5 digest of the UTF-8 bytes of `text`.
pub uninterp spec fn md5_hex_of(text: Seq<char>) -> Seq<char>;

/// Relies on `md5::compute` and the digest's `LowerHex` form: a function of
/// the input alone, 16 bytes printed as 32 hex digits.
#[verifier::external_body]
pub(crate) fn md5_hex(text: &str) -> (r: String)
    ensures
        r@ == md5_hex_of(text@),
        r@.len() == 32,
{
    format!("{:x}", md5::compute(text))
}

/// The pretty-printed form of `text` read as JSON, or `None` when `text` is
/// not JSON.
pub uninterp spec fn pretty_json_of(text: Seq<char>) -> Option<Seq<char>>;

/// Relies on `serde_json::from_str` and `serde_json::to_string_pretty`:
/// whether the text parses, and its pretty form, are functions of the text
/// alone.
#[verifier::external_body]
pub(crate) fn pretty_json(text: &str) -> (r: Option<String>)
    ensures
        match r {
            Some(p) => pretty_json_of(text@) == Some(p@),
            None => pretty_json_of(text@) is None,
        },
{
    match serde_json::from_str::<serde_json::Value>(text) {
        Ok(v) => serde_json::to_string_pretty(&v).ok(),
        Err(_) => None,
    }
}

/// The path component of `url`, or `None` when it does not parse as an
/// absolute URL.
pub uninterp spec fn url_path_of(url: Seq<char>) -> Option<Seq<char>>;

/// Relies on `url::Url::parse` and `Url::path`: both are functions of the
/// URL text alone.
#[verifier::external_body]
pub(crate) fn url_path(url: &str) -> (r: Option<String>)
    ensures
        match r {
            Some(p) => url_path_of(url@) == Some(p@),
            None => url_path_of(url@) is None,
        },
{
    match url::Url::parse(url) {
        Ok(u) => Some(u.path().to_string()),
        Err(_) => None,
    }
}

} // verus!
