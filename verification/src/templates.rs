//! Trusted bindings to the handlebars template registry: body templates are
//! registered under their response id at compile time and rendered per
//! request.

use vstd::prelude::*;

verus! {

#[verifier::external_type_specification]
#[verifier::external_body]
pub struct ExHandlebars<'a>(handlebars::Handlebars<'a>);

/// The template sources registered in `hb`, keyed by template id.
pub uninterp spec fn template_map(hb: handlebars::Handlebars<'static>) -> Map<
    Seq<char>,
    Seq<char>,
>;

/// Whether handlebars accepts `source` as a template; a function of the
/// source text alone.
pub uninterp spec fn template_ok(source: Seq<char>) -> bool;

/// Relies on `handlebars::Handlebars::register_template_string`: it parses
/// the source first and only then stores it under the id, replacing any
/// prior entry; on a parse failure the registry is unchanged.
#[verifier::external_body]
pub(crate) fn register_template(
    hb: &mut handlebars::Handlebars<'static>,
    id: &str,
    source: &str,
) -> (r: Result<(), String>)
    ensures
        r is Ok <==> template_ok(source@),
        r is Ok ==> template_map(*final(hb)) == template_map(*old(hb)).insert(id@, source@),
        r is Err ==> template_map(*final(hb)) == template_map(*old(hb)),
{
    match hb.register_template_string(id, source) {
        Ok(()) => Ok(()),
        Err(e) => Err(e.to_string()),
    }
}

/// Relies on `handlebars::Handlebars::render`, with the variables
/// `payload_id` and `request_body` in scope. Helpers may draw on process
/// state (a counter, fresh UUIDs), so nothing is assumed of the rendered
/// text beyond that a string or an error message comes back.
#[verifier::external_body]
pub(crate) fn render_template(
    hb: &handlebars::Handlebars<'static>,
    id: &str,
    payload_id: &str,
    request_body: Option<&String>,
) -> Result<String, String> {
    let body_value = match request_body {
        None => serde_json::Value::Null,
        Some(s) => serde_json::Value::from(s.as_str()),
    };
    let mut values = serde_json::Map::new();
    values.insert("payload_id".to_string(), serde_json::Value::from(payload_id));
    values.insert("request_body".to_string(), body_value);
    match hb.render(id, &serde_json::Value::Object(values)) {
        Ok(s) => Ok(s),
        Err(e) => Err(e.to_string()),
    }
}

} // verus!
