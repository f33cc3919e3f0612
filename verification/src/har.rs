//! The HTTP Archive converter: turns captured request/response pairs into
//! declarative matcher configs, grouping entries by matcher and
//! externalizing response bodies into deterministically named asset files.
//! All file writing is the caller's; this module computes the plan.

use vstd::prelude::*;
use vstd::string::*;

use crate::config::{
    body_file_of, ResponseData, StaticHttpConfig, StaticMatchesConfig, StaticResponseBodyConfig,
    StaticResponseConfig,
};
use crate::digests::{md5_hex, md5_hex_of, pretty_json, pretty_json_of, url_path, url_path_of};
use crate::errors::HttpPluginError;
use crate::strutil::{
    contains_sub, has_substring, last_index_of, pairs_view, replace_slashes, rfind_char,
    slashes_doubled, str_eq, strings_view, trim_char, trimmed,
};

verus! {

/// A (name, value) pair as archives carry them.
pub struct NameValueEntry {
    /// The entry's name.
    pub name: String,
    /// The entry's value.
    pub value: String,
}

/// The views of a sequence of name/value entries.
pub open spec fn nv_views(s: Seq<NameValueEntry>) -> Seq<(Seq<char>, Seq<char>)> {
    s.map_values(|e: NameValueEntry| (e.name@, e.value@))
}

/// One captured request.
pub struct RequestEntry {
    /// The request method.
    pub method: String,
    /// The full request URL.
    pub url: String,
    /// The request headers.
    pub headers: Vec<NameValueEntry>,
    /// The request cookies.
    pub cookies: Vec<NameValueEntry>,
    /// The decoded query parameters.
    pub query_string: Vec<NameValueEntry>,
}

/// One captured response body.
pub struct Content {
    /// The response MIME type.
    pub mime_type: String,
    /// The body text, when captured.
    pub text: Option<String>,
}

/// One captured response.
pub struct ResponseEntry {
    /// The response status.
    pub status: i32,
    /// The response status text.
    pub status_text: String,
    /// The response headers.
    pub headers: Vec<NameValueEntry>,
    /// The response cookies.
    pub cookies: Vec<NameValueEntry>,
    /// The response body.
    pub content: Content,
}

/// One archive entry: a request and its response.
pub struct RequestWrapper {
    /// When the request started.
    pub started_date_time: String,
    /// The captured request.
    pub request: RequestEntry,
    /// The captured response.
    pub response: ResponseEntry,
}

/// The archive's log.
pub struct LogEntry {
    /// The captured entries in order.
    pub entries: Vec<RequestWrapper>,
}

/// A parsed HTTP Archive.
pub struct HarFile {
    /// The archive's log.
    pub log: LogEntry,
}

/// A header name the converter keeps on converted responses.
pub open spec fn kept_header(name: Seq<char>) -> bool {
    name == "Content-Type"@ || name == "Access-Control-Allow-Origin"@
}

/// The captured headers restricted to the kept names, in order.
pub open spec fn filtered_headers(hs: Seq<(Seq<char>, Seq<char>)>) -> Seq<(Seq<char>, Seq<char>)>
    decreases hs.len(),
{
    if hs.len() == 0 {
        Seq::empty()
    } else {
        filtered_headers(hs.drop_last()) + (if kept_header(hs.last().0) {
            seq![hs.last()]
        } else {
            Seq::empty()
        })
    }
}

/// The path the captured URL carries; meaningful only when the URL parses.
pub open spec fn har_path_of(req: RequestEntry) -> Seq<char> {
    match url_path_of(req.url@) {
        Some(p) => p,
        None => Seq::empty(),
    }
}

/// The matcher one captured request converts to: its URL path as a literal
/// regex, its query parameters as literal pairs, its method, and nothing
/// else.
pub open spec fn entry_matcher_model(req: RequestEntry) -> crate::config::MatchConfigModel {
    crate::config::MatchConfigModel {
        path: har_path_of(req),
        query: nv_views(req.query_string@),
        headers: Seq::empty(),
        methods: seq![req.method@],
        graphql: None,
    }
}

/// Converts one captured request into a match rule. Fails exactly when the
/// URL does not parse.
pub fn convert_request(request: &RequestEntry) -> (r: Result<
    StaticMatchesConfig,
    HttpPluginError,
>)
    ensures
        r is Ok <==> url_path_of(request.url@) is Some,
        r matches Ok(m) ==> m.model() == entry_matcher_model(*request),
{
    let mut query_params: Vec<(String, String)> = Vec::new();
    let mut i: usize = 0;
    while i < request.query_string.len()
        invariant
            i <= request.query_string@.len(),
            query_params@.len() == i,
            forall|j: int|
                0 <= j < i ==> (#[trigger] query_params@[j]).0@ == request.query_string@[j].name@
                    && query_params@[j].1@ == request.query_string@[j].value@,
        decreases request.query_string@.len() - i,
    {
        let q = &request.query_string[i];
        query_params.push((q.name.clone(), q.value.clone()));
        i = i + 1;
    }
    let path = match url_path(request.url.as_str()) {
        None => {
            return Err(HttpPluginError::UrlParseError(request.url.clone()));
        },
        Some(p) => p,
    };
    let mut methods: Vec<String> = Vec::new();
    methods.push(request.method.clone());
    let m = StaticMatchesConfig {
        headers: Vec::new(),
        query: query_params,
        path,
        methods,
        graphql: None,
    };
    proof {
        assert(m.model().query =~= entry_matcher_model(*request).query);
        assert(m.model().methods =~= entry_matcher_model(*request).methods);
        assert(m.model().headers =~= entry_matcher_model(*request).headers);
    }
    Ok(m)
}

/// Converts one captured response into a response-template stub: status
/// carried over, weight 1, headers filtered to the kept names, the body
/// kind chosen by the MIME type; the body text itself is handed back
/// separately.
pub fn convert_response(response: &ResponseEntry) -> (r: (
    StaticResponseConfig<()>,
    Option<String>,
))
    ensures
        r.0.id@.len() == 36,
        r.0.weight == 1,
        r.0.status == response.status as u16,
        r.0.delay == 0,
        pairs_view(r.0.headers@) == filtered_headers(nv_views(response.headers@)),
        match response.content.text {
            None => r.0.body is None && r.1 is None,
            Some(t) => {
                &&& r.1 matches Some(b) && b@ == t@
                &&& response.content.mime_type@ == "application/json"@ ==> r.0.body == Some(
                    StaticResponseBodyConfig::<()>::Json(()),
                )
                &&& response.content.mime_type@ != "application/json"@ ==> r.0.body == Some(
                    StaticResponseBodyConfig::<()>::Raw(()),
                )
            },
        },
{
    let mut header_map: Vec<(String, String)> = Vec::new();
    let mut i: usize = 0;
    while i < response.headers.len()
        invariant
            i <= response.headers@.len(),
            pairs_view(header_map@) == filtered_headers(
                nv_views(response.headers@).take(i as int),
            ),
        decreases response.headers@.len() - i,
    {
        let ghost prev = nv_views(response.headers@).take(i as int);
        let ghost next = nv_views(response.headers@).take(i as int + 1);
        let header = &response.headers[i];
        if str_eq(header.name.as_str(), "Content-Type") || str_eq(
            header.name.as_str(),
            "Access-Control-Allow-Origin",
        ) {
            header_map.push((header.name.clone(), header.value.clone()));
        }
        proof {
            assert(next.drop_last() =~= prev);
            assert(next.last() == (response.headers@[i as int].name@,
            response.headers@[i as int].value@));
            assert(pairs_view(header_map@) =~= filtered_headers(next));
        }
        i = i + 1;
    }
    proof {
        assert(nv_views(response.headers@).take(response.headers@.len() as int) =~= nv_views(
            response.headers@,
        ));
    }
    let body_text: Option<String> = match &response.content.text {
        None => None,
        Some(t) => Some(t.clone()),
    };
    let is_json = str_eq(response.content.mime_type.as_str(), "application/json");
    let body: Option<StaticResponseBodyConfig<()>> = match &body_text {
        None => None,
        Some(_) => {
            if is_json {
                Some(StaticResponseBodyConfig::Json(()))
            } else {
                Some(StaticResponseBodyConfig::Raw(()))
            }
        },
    };
    let status: u16 = #[verifier::truncate] (response.status as u16);
    (
        StaticResponseConfig {
            status,
            weight: 1,
            headers: header_map,
            id: crate::entropy::unique_id(),
            body,
            delay: 0,
        },
        body_text,
    )
}

/// An entry converted but not yet externalized: its matcher, its response
/// stub, and the body text still inline.
pub struct EntryWrapperWithBody {
    /// The match rule the entry converts to.
    pub matcher: StaticMatchesConfig,
    /// The response-template stub.
    pub response_config: StaticResponseConfig<()>,
    /// The captured body text, if any.
    pub body: Option<String>,
}

/// An entry with its body externalized into an asset file reference.
pub struct EntryWrapper {
    /// The match rule the entry converts to.
    pub matcher: StaticMatchesConfig,
    /// The response template, its body now a file reference.
    pub response_config: StaticResponseConfig<ResponseData>,
}

/// The path used for file naming: the root path becomes `/root.html`.
pub open spec fn mapped_path(p: Seq<char>) -> Seq<char> {
    if p == "/"@ {
        "/root.html"@
    } else {
        p
    }
}

/// The file-name stem a path sanitizes to: slashes doubled to underscores,
/// then outer underscores trimmed.
pub open spec fn sanitized_path(p: Seq<char>) -> Seq<char> {
    trimmed(slashes_doubled(mapped_path(p)), '_')
}

/// The last `Content-Type` value among the kept headers, if any.
pub open spec fn content_type_of(hs: Seq<(Seq<char>, Seq<char>)>) -> Option<Seq<char>>
    decreases hs.len(),
{
    if hs.len() == 0 {
        None
    } else if hs.last().0 == "Content-Type"@ {
        Some(hs.last().1)
    } else {
        content_type_of(hs.drop_last())
    }
}

/// The asset file name an externalized body gets:
/// `<method>_<stem>_<digest-prefix><extension>`, where the extension is the
/// sanitized path's own, or `.json` for a JSON content type, or nothing.
pub open spec fn asset_filename(
    method: Seq<char>,
    path: Seq<char>,
    ct: Option<Seq<char>>,
    unique: Seq<char>,
) -> Seq<char> {
    let s = sanitized_path(path);
    match last_index_of(s, '.') {
        Some(i) => method + "_"@ + s.take(i) + "_"@ + unique.take(6) + seq!['.'] + s.skip(i + 1),
        None => method + "_"@ + s + "_"@ + unique.take(6) + (match ct {
            Some(c) => if has_substring(c, "application/json"@) {
                ".json"@
            } else {
                Seq::empty()
            },
            None => Seq::empty(),
        }),
    }
}

/// The last `Content-Type` value among the kept headers, if any.
fn content_type_value<'a>(headers: &'a Vec<(String, String)>) -> (r: Option<&'a String>)
    ensures
        match r {
            Some(v) => content_type_of(pairs_view(headers@)) == Some(v@),
            None => content_type_of(pairs_view(headers@)) is None,
        },
{
    let mut ct_index: Option<usize> = None;
    let mut i: usize = 0;
    while i < headers.len()
        invariant
            i <= headers@.len(),
            match ct_index {
                Some(k) => k < i && content_type_of(pairs_view(headers@).take(i as int)) == Some(
                    headers@[k as int].1@,
                ),
                None => content_type_of(pairs_view(headers@).take(i as int)) is None,
            },
        decreases headers@.len() - i,
    {
        let ghost prev = pairs_view(headers@).take(i as int);
        let ghost next = pairs_view(headers@).take(i as int + 1);
        let pair = &headers[i];
        if str_eq(pair.0.as_str(), "Content-Type") {
            ct_index = Some(i);
        }
        proof {
            assert(next.drop_last() =~= prev);
            assert(next.last() == (headers@[i as int].0@, headers@[i as int].1@));
        }
        i = i + 1;
    }
    proof {
        assert(pairs_view(headers@).take(headers@.len() as int) =~= pairs_view(headers@));
    }
    match ct_index {
        Some(k) => Some(&headers[k].1),
        None => None,
    }
}

fn name_with_ext(method: &str, stem: &str, dot: usize, u6: &str) -> (r: String)
    requires
        dot < stem@.len(),
    ensures
        r@ == method@ + "_"@ + stem@.take(dot as int) + "_"@ + u6@ + seq!['.'] + stem@.skip(
            dot as int + 1,
        ),
{
    let slen = stem.unicode_len();
    let left = stem.substring_char(0, dot);
    let right = stem.substring_char(dot + 1, slen);
    let mut out = String::new();
    out.append(method);
    out.append("_");
    out.append(left);
    out.append("_");
    out.append(u6);
    out.append(".");
    out.append(right);
    proof {
        reveal_strlit("_");
        reveal_strlit(".");
        assert("_"@ =~= seq!['_']);
        assert("."@ =~= seq!['.']);
        assert(left@ =~= stem@.take(dot as int));
        assert(right@ =~= stem@.skip(dot as int + 1));
        assert(out@ =~= method@ + "_"@ + stem@.take(dot as int) + "_"@ + u6@ + seq!['.']
            + stem@.skip(dot as int + 1));
    }
    out
}

fn name_no_ext(method: &str, stem: &str, u6: &str, json_ext: bool) -> (r: String)
    ensures
        r@ == method@ + "_"@ + stem@ + "_"@ + u6@ + (if json_ext {
            ".json"@
        } else {
            Seq::<char>::empty()
        }),
{
    let mut out = String::new();
    out.append(method);
    out.append("_");
    out.append(stem);
    out.append("_");
    out.append(u6);
    if json_ext {
        out.append(".json");
    }
    proof {
        reveal_strlit("_");
        assert("_"@ =~= seq!['_']);
        if json_ext {
            assert(out@ =~= method@ + "_"@ + stem@ + "_"@ + u6@ + ".json"@);
        } else {
            assert(out@ =~= method@ + "_"@ + stem@ + "_"@ + u6@ + Seq::<char>::empty());
        }
    }
    out
}

/// Derives the asset file name for an entry's body from its matcher, its
/// kept headers, and the body's digest.
#[verifier::rlimit(100)]
pub fn matcher_to_filename(wrapper: &EntryWrapperWithBody, unique: String) -> (r: String)
    requires
        wrapper.matcher.methods@.len() >= 1,
        unique@.len() >= 6,
    ensures
        r@ == asset_filename(
            wrapper.matcher.methods@[0]@,
            wrapper.matcher.path@,
            content_type_of(pairs_view(wrapper.response_config.headers@)),
            unique@,
        ),
{
    let ghost s = sanitized_path(wrapper.matcher.path@);

    let path_src: &str = if str_eq(wrapper.matcher.path.as_str(), "/") {
        "/root.html"
    } else {
        wrapper.matcher.path.as_str()
    };
    proof {
        assert(path_src@ == mapped_path(wrapper.matcher.path@));
    }
    let doubled = replace_slashes(path_src);
    let stem_full = trim_char(doubled.as_str(), '_');
    proof {
        assert(stem_full@ == s);
    }
    let u6 = String::from_str(unique.as_str().substring_char(0, 6));
    proof {
        assert(u6@ =~= unique@.take(6));
    }

    let method = &wrapper.matcher.methods[0];
    match rfind_char(stem_full.as_str(), '.') {
        Some(dot) => {
            proof {
                assert(last_index_of(s, '.') == Some(dot as int)) by {
                    let w = choose|w: int|
                        0 <= w < s.len() && s[w] == '.' && forall|j: int|
                            w < j < s.len() ==> s[j] != '.';
                    if w < dot as int {
                        assert(s[dot as int] == '.');
                    }
                    if w > dot as int {
                        assert(s[w] == '.');
                    }
                }
            }
            name_with_ext(method.as_str(), stem_full.as_str(), dot, u6.as_str())
        },
        None => {
            proof {
                assert(last_index_of(s, '.') is None) by {
                    if exists|i: int| 0 <= i < s.len() && s[i] == '.' {
                        let i = choose|i: int| 0 <= i < s.len() && s[i] == '.';
                        assert(s[i] != '.');
                    }
                }
            }
            let ext_json: bool = match content_type_value(&wrapper.response_config.headers) {
                None => false,
                Some(v) => contains_sub(v.as_str(), "application/json"),
            };
            proof {
                reveal_strlit(".json");
            }
            name_no_ext(method.as_str(), stem_full.as_str(), u6.as_str(), ext_json)
        },
    }
}

/// Compares two string lists by their views.
fn strings_vec_eq(a: &Vec<String>, b: &Vec<String>) -> (r: bool)
    ensures
        r == (strings_view(a@) == strings_view(b@)),
{
    if a.len() != b.len() {
        proof {
            assert(strings_view(a@).len() != strings_view(b@).len());
        }
        return false;
    }
    let mut i: usize = 0;
    while i < a.len()
        invariant
            a@.len() == b@.len(),
            i <= a@.len(),
            forall|j: int| 0 <= j < i ==> #[trigger] strings_view(a@)[j] == strings_view(b@)[j],
        decreases a@.len() - i,
    {
        if !str_eq(a[i].as_str(), b[i].as_str()) {
            proof {
                assert(strings_view(a@)[i as int] != strings_view(b@)[i as int]);
            }
            return false;
        }
        proof {
            assert(strings_view(a@)[i as int] == strings_view(b@)[i as int]);
        }
        i = i + 1;
    }
    proof {
        assert(strings_view(a@) =~= strings_view(b@));
    }
    true
}

/// Compares two pair lists by their views.
fn pair_vec_eq(a: &Vec<(String, String)>, b: &Vec<(String, String)>) -> (r: bool)
    ensures
        r == (pairs_view(a@) == pairs_view(b@)),
{
    if a.len() != b.len() {
        proof {
            assert(pairs_view(a@).len() != pairs_view(b@).len());
        }
        return false;
    }
    let mut i: usize = 0;
    while i < a.len()
        invariant
            a@.len() == b@.len(),
            i <= a@.len(),
            forall|j: int| 0 <= j < i ==> #[trigger] pairs_view(a@)[j] == pairs_view(b@)[j],
        decreases a@.len() - i,
    {
        let pa = &a[i];
        let pb = &b[i];
        if !(str_eq(pa.0.as_str(), pb.0.as_str()) && str_eq(pa.1.as_str(), pb.1.as_str())) {
            proof {
                assert(pairs_view(a@)[i as int] == (a@[i as int].0@, a@[i as int].1@));
                assert(pairs_view(b@)[i as int] == (b@[i as int].0@, b@[i as int].1@));
                assert(pairs_view(a@)[i as int] != pairs_view(b@)[i as int]);
            }
            return false;
        }
        proof {
            assert(pairs_view(a@)[i as int] == (a@[i as int].0@, a@[i as int].1@));
            assert(pairs_view(b@)[i as int] == (b@[i as int].0@, b@[i as int].1@));
        }
        i = i + 1;
    }
    proof {
        assert(pairs_view(a@) =~= pairs_view(b@));
    }
    true
}

/// Compares two match rules by their models: the grouping key equality of
/// the converter.
fn match_config_eq(a: &StaticMatchesConfig, b: &StaticMatchesConfig) -> (r: bool)
    ensures
        r == (a.model() == b.model()),
{
    if !str_eq(a.path.as_str(), b.path.as_str()) {
        return false;
    }
    if !pair_vec_eq(&a.query, &b.query) {
        return false;
    }
    if !pair_vec_eq(&a.headers, &b.headers) {
        return false;
    }
    if !strings_vec_eq(&a.methods, &b.methods) {
        return false;
    }
    let gql_eq: bool = match (&a.graphql, &b.graphql) {
        (None, None) => true,
        (Some(ga), Some(gb)) => str_eq(ga.operation_name.as_str(), gb.operation_name.as_str()),
        _ => false,
    };
    if !gql_eq {
        return false;
    }
    true
}

/// The model of a response template in a converted group: everything but
/// the minted id.
pub struct StubModel {
    /// The rotation weight.
    pub weight: u16,
    /// The HTTP status.
    pub status: u16,
    /// The kept header views.
    pub headers: Seq<(Seq<char>, Seq<char>)>,
    /// The asset file the body points at, if any.
    pub body: Option<Seq<char>>,
    /// The delay in milliseconds.
    pub delay: u64,
}

/// The stub model of a converted response template.
pub open spec fn stub_view(c: StaticResponseConfig<ResponseData>) -> StubModel {
    StubModel {
        weight: c.weight,
        status: c.status,
        headers: pairs_view(c.headers@),
        body: body_file_of(c.body),
        delay: c.delay,
    }
}

/// The captured body text of an entry, if any.
pub open spec fn entry_text(e: RequestWrapper) -> Option<Seq<char>> {
    match e.response.content.text {
        None => None,
        Some(t) => Some(t@),
    }
}

/// The content type among an entry's kept headers, if any.
pub open spec fn entry_ct(e: RequestWrapper) -> Option<Seq<char>> {
    content_type_of(filtered_headers(nv_views(e.response.headers@)))
}

/// The asset file name an entry's body externalizes to.
pub open spec fn entry_asset_name(e: RequestWrapper) -> Seq<char> {
    asset_filename(
        e.request.method@,
        har_path_of(e.request),
        entry_ct(e),
        md5_hex_of(
            match entry_text(e) {
                Some(t) => t,
                None => Seq::empty(),
            },
        ),
    )
}

/// What an asset file holds: the body pretty-printed when it is JSON, else
/// verbatim.
pub open spec fn asset_contents(t: Seq<char>) -> Seq<char> {
    match pretty_json_of(t) {
        Some(p) => p,
        None => t,
    }
}

/// The response-template stub one entry converts to.
pub open spec fn entry_stub(e: RequestWrapper) -> StubModel {
    StubModel {
        weight: 1,
        status: e.response.status as u16,
        headers: filtered_headers(nv_views(e.response.headers@)),
        body: match entry_text(e) {
            None => None,
            Some(_) => Some(entry_asset_name(e)),
        },
        delay: 0,
    }
}

/// Externalizes an entry's body: computes the asset file from the body's
/// digest, and replaces the inline body with a file reference to it. The
/// asset file (name, contents) is handed back for the caller to create.
pub fn write_body(wrapper: EntryWrapperWithBody) -> (r: (EntryWrapper, Option<(String, String)>))
    requires
        wrapper.matcher.methods@.len() >= 1,
    ensures
        r.0.matcher == wrapper.matcher,
        r.0.response_config.id == wrapper.response_config.id,
        r.0.response_config.weight == wrapper.response_config.weight,
        r.0.response_config.status == wrapper.response_config.status,
        r.0.response_config.headers == wrapper.response_config.headers,
        r.0.response_config.delay == wrapper.response_config.delay,
        match wrapper.body {
            None => r.0.response_config.body is None && r.1 is None,
            Some(t) => {
                let name = asset_filename(
                    wrapper.matcher.methods@[0]@,
                    wrapper.matcher.path@,
                    content_type_of(pairs_view(wrapper.response_config.headers@)),
                    md5_hex_of(t@),
                );
                &&& body_file_of(r.0.response_config.body) == Some(name)
                &&& r.1 matches Some(a) && a.0@ == name && a.1@ == asset_contents(t@)
            },
        },
{
    let outcome: (Option<StaticResponseBodyConfig<ResponseData>>, Option<(String, String)>) =
        match &wrapper.body {
        None => (None, None),
        Some(text) => {
            let unique = md5_hex(text.as_str());
            let filename = matcher_to_filename(&wrapper, unique);
            let contents: String = match pretty_json(text.as_str()) {
                Some(p) => p,
                None => text.clone(),
            };
            let file_copy = filename.clone();
            (
                Some(StaticResponseBodyConfig::Raw(ResponseData::File(filename))),
                Some((file_copy, contents)),
            )
        },
    };
    let (body, asset) = outcome;
    let EntryWrapperWithBody { matcher, response_config, body: _ } = wrapper;
    let response_config = StaticResponseConfig {
        id: response_config.id,
        weight: response_config.weight,
        status: response_config.status,
        headers: response_config.headers,
        body,
        delay: response_config.delay,
    };
    (EntryWrapper { matcher, response_config }, asset)
}

/// Converts one archive entry: its request into a match rule, its response
/// into a template stub with the body still inline.
pub fn convert_entry(wrapper: &RequestWrapper) -> (r: Result<EntryWrapperWithBody, HttpPluginError>)
    ensures
        r is Ok <==> url_path_of(wrapper.request.url@) is Some,
        r matches Ok(w) ==> {
            &&& w.matcher.model() == entry_matcher_model(wrapper.request)
            &&& w.response_config.id@.len() == 36
            &&& w.response_config.weight == 1
            &&& w.response_config.status == wrapper.response.status as u16
            &&& w.response_config.delay == 0
            &&& pairs_view(w.response_config.headers@) == filtered_headers(
                nv_views(wrapper.response.headers@),
            )
            &&& match wrapper.response.content.text {
                None => w.body is None,
                Some(t) => w.body matches Some(b) && b@ == t@,
            }
        },
{
    let request_matcher = match convert_request(&wrapper.request) {
        Ok(m) => m,
        Err(e) => {
            return Err(e);
        },
    };
    let (response_config, body) = convert_response(&wrapper.response);
    Ok(EntryWrapperWithBody { matcher: request_matcher, response_config, body })
}

/// The asset files the converter creates, one per entry with a body, in
/// entry order: a function of the archive alone.
pub open spec fn asset_list(entries: Seq<RequestWrapper>) -> Seq<(Seq<char>, Seq<char>)>
    decreases entries.len(),
{
    if entries.len() == 0 {
        Seq::empty()
    } else {
        asset_list(entries.drop_last()) + (match entry_text(entries.last()) {
            None => Seq::empty(),
            Some(t) => seq![(entry_asset_name(entries.last()), asset_contents(t))],
        })
    }
}

/// The distinct matcher keys of the archive, in first-occurrence order: a
/// function of the archive alone.
pub open spec fn keys_of(entries: Seq<RequestWrapper>) -> Seq<crate::config::MatchConfigModel>
    decreases entries.len(),
{
    if entries.len() == 0 {
        Seq::empty()
    } else {
        let prior = keys_of(entries.drop_last());
        prior + (if prior.contains(entry_matcher_model(entries.last().request)) {
            Seq::empty()
        } else {
            seq![entry_matcher_model(entries.last().request)]
        })
    }
}

/// The response stubs grouped under one key, in entry order.
pub open spec fn stubs_for_key(
    entries: Seq<RequestWrapper>,
    key: crate::config::MatchConfigModel,
) -> Seq<StubModel>
    decreases entries.len(),
{
    if entries.len() == 0 {
        Seq::empty()
    } else {
        stubs_for_key(entries.drop_last(), key) + (if entry_matcher_model(entries.last().request)
            == key {
            seq![entry_stub(entries.last())]
        } else {
            Seq::empty()
        })
    }
}

/// The keys of an archive are pairwise distinct.
pub proof fn lemma_keys_distinct(entries: Seq<RequestWrapper>)
    ensures
        forall|g1: int, g2: int|
            0 <= g1 < g2 < keys_of(entries).len() ==> keys_of(entries)[g1] != keys_of(entries)[g2],
    decreases entries.len(),
{
    if entries.len() == 0 {
    } else {
        let prior = keys_of(entries.drop_last());
        lemma_keys_distinct(entries.drop_last());
        let key = entry_matcher_model(entries.last().request);
        if !prior.contains(key) {
            assert forall|g1: int, g2: int|
                0 <= g1 < g2 < keys_of(entries).len() implies keys_of(entries)[g1] != keys_of(
                entries,
            )[g2] by {
                if g2 == prior.len() {
                    assert(keys_of(entries)[g2] == key);
                    assert(keys_of(entries)[g1] == prior[g1]);
                    if prior[g1] == key {
                        assert(prior.contains(key));
                    }
                }
            }
        }
    }
}

/// A key no entry carries groups no stubs.
pub proof fn lemma_uncovered_key_has_no_stubs(
    entries: Seq<RequestWrapper>,
    key: crate::config::MatchConfigModel,
)
    requires
        !keys_of(entries).contains(key),
    ensures
        stubs_for_key(entries, key) == Seq::<StubModel>::empty(),
    decreases entries.len(),
{
    if entries.len() == 0 {
        assert(stubs_for_key(entries, key) =~= Seq::<StubModel>::empty());
    } else {
        let prior = keys_of(entries.drop_last());
        let last_key = entry_matcher_model(entries.last().request);
        assert(!prior.contains(key)) by {
            if prior.contains(key) {
                let g = choose|g: int| 0 <= g < prior.len() && prior[g] == key;
                assert(keys_of(entries)[g] == key);
                assert(keys_of(entries).contains(key));
            }
        }
        lemma_uncovered_key_has_no_stubs(entries.drop_last(), key);
        assert(last_key != key) by {
            if last_key == key {
                if prior.contains(last_key) {
                    assert(prior.contains(key));
                } else {
                    assert(keys_of(entries)[prior.len() as int] == key);
                    assert(keys_of(entries).contains(key));
                }
            }
        }
        assert(stubs_for_key(entries, key) =~= Seq::<StubModel>::empty());
    }
}

/// The converter's output: the asset files to create and the grouped
/// configs to serialize, one per distinct matcher.
pub struct ConversionPlan {
    /// Asset (file name, contents) pairs, one per entry with a body.
    pub assets: Vec<(String, String)>,
    /// One config per distinct matcher, in first-occurrence order.
    pub groups: Vec<StaticHttpConfig<ResponseData>>,
}

/// How a finished plan relates to the archive it came from: the assets are
/// exactly the archive's asset list, and the groups carry one match rule
/// and the grouped stubs per distinct key, in first-occurrence order. Only
/// the minted ids are not functions of the archive.
pub open spec fn plan_from(plan: ConversionPlan, entries: Seq<RequestWrapper>) -> bool {
    &&& plan.assets@.len() == asset_list(entries).len()
    &&& forall|k: int|
        0 <= k < plan.assets@.len() ==> ((#[trigger] plan.assets@[k]).0@, plan.assets@[k].1@)
            == asset_list(entries)[k]
    &&& plan.groups@.len() == keys_of(entries).len()
    &&& forall|g: int|
        0 <= g < plan.groups@.len() ==> {
            let grp = #[trigger] plan.groups@[g];
            &&& grp.id@.len() == 36
            &&& grp.matches@.len() == 1
            &&& grp.matches@[0].model() == keys_of(entries)[g]
            &&& grp.responses@.map_values(|c: StaticResponseConfig<ResponseData>| stub_view(c))
                == stubs_for_key(entries, keys_of(entries)[g])
            &&& forall|j: int|
                0 <= j < grp.responses@.len() ==> (#[trigger] grp.responses@[j]).id@.len() == 36
        }
}

/// Converting the same archive twice plans the same asset files, the same
/// keys in the same order, and the same stubs under each key; only the
/// minted ids may differ.
pub proof fn lemma_convert_deterministic(
    p1: ConversionPlan,
    p2: ConversionPlan,
    entries: Seq<RequestWrapper>,
)
    requires
        plan_from(p1, entries),
        plan_from(p2, entries),
    ensures
        p1.assets@.len() == p2.assets@.len(),
        forall|k: int|
            0 <= k < p1.assets@.len() ==> ((#[trigger] p1.assets@[k]).0@, p1.assets@[k].1@) == (
            (#[trigger] p2.assets@[k]).0@, p2.assets@[k].1@),
        p1.groups@.len() == p2.groups@.len(),
        forall|g: int|
            0 <= g < p1.groups@.len() ==> (#[trigger] p1.groups@[g]).matches@[0].model() == (
            #[trigger] p2.groups@[g]).matches@[0].model(),
        forall|g: int|
            0 <= g < p1.groups@.len() ==> (#[trigger] p1.groups@[g]).responses@.map_values(
                |c: StaticResponseConfig<ResponseData>| stub_view(c),
            ) == (#[trigger] p2.groups@[g]).responses@.map_values(
                |c: StaticResponseConfig<ResponseData>| stub_view(c),
            ),
{
}

/// The name of the YAML file one group serializes to:
/// `<method>_<stem>_<digest-prefix>.yaml`, the digest taken over the
/// serialized document itself.
pub open spec fn config_filename_spec(
    method: Seq<char>,
    path: Seq<char>,
    digest: Seq<char>,
) -> Seq<char> {
    method + "_"@ + sanitized_path(path) + "_"@ + digest.take(6) + ".yaml"@
}

/// Derives the config file name for one serialized group from its matcher
/// and the document text.
pub fn config_filename(matcher: &StaticMatchesConfig, yaml: &str) -> (r: String)
    requires
        matcher.methods@.len() >= 1,
    ensures
        r@ == config_filename_spec(matcher.methods@[0]@, matcher.path@, md5_hex_of(yaml@)),
{
    let ghost s = sanitized_path(matcher.path@);
    let unique = md5_hex(yaml);
    let path_src: &str = if str_eq(matcher.path.as_str(), "/") {
        "/root.html"
    } else {
        matcher.path.as_str()
    };
    proof {
        assert(path_src@ == mapped_path(matcher.path@));
    }
    let doubled = replace_slashes(path_src);
    let stem = trim_char(doubled.as_str(), '_');
    proof {
        assert(stem@ == s);
    }
    let u6 = String::from_str(unique.as_str().substring_char(0, 6));
    proof {
        assert(u6@ =~= md5_hex_of(yaml@).take(6));
    }
    let mut out = String::new();
    out.append(matcher.methods[0].as_str());
    out.append("_");
    out.append(stem.as_str());
    out.append("_");
    out.append(u6.as_str());
    out.append(".yaml");
    proof {
        reveal_strlit("_");
        assert("_"@ =~= seq!['_']);
        assert(out@ =~= config_filename_spec(
            matcher.methods@[0]@,
            matcher.path@,
            md5_hex_of(yaml@),
        ));
    }
    out
}

/// Entries with the same matcher land in exactly one output config: group
/// keys are pairwise distinct, and each group holds one response template
/// per source entry carrying its key.
pub proof fn lemma_one_group_per_matcher(plan: ConversionPlan, entries: Seq<RequestWrapper>)
    requires
        plan_from(plan, entries),
    ensures
        forall|g1: int, g2: int|
            0 <= g1 < g2 < plan.groups@.len() ==> (#[trigger] plan.groups@[g1]).matches@[0].model()
                != (#[trigger] plan.groups@[g2]).matches@[0].model(),
        forall|g: int|
            0 <= g < plan.groups@.len() ==> (#[trigger] plan.groups@[g]).responses@.len()
                == stubs_for_key(entries, keys_of(entries)[g]).len(),
{
    lemma_keys_distinct(entries);
    assert forall|g: int| 0 <= g < plan.groups@.len() implies (
    #[trigger] plan.groups@[g]).responses@.len() == stubs_for_key(
        entries,
        keys_of(entries)[g],
    ).len() by {
        assert(plan.groups@[g].responses@.map_values(
            |c: StaticResponseConfig<ResponseData>| stub_view(c),
        ).len() == plan.groups@[g].responses@.len());
    }
}

/// The converter, remembering where its archive lives.
pub struct HarConvertor {
    /// The archive file's path.
    pub path: String,
}

impl HarConvertor {
    /// Remembers the archive path.
    pub fn new(path: &str) -> (r: HarConvertor)
        ensures
            r.path@ == path@,
    {
        HarConvertor { path: String::from_str(path) }
    }

    /// Plans the conversion of a parsed archive: converts each entry,
    /// externalizes its body into an asset file, and groups the response
    /// templates by matcher in first-occurrence order. Fails exactly when
    /// some entry's URL does not parse.
    pub fn convert(&self, har: &HarFile) -> (r: Result<ConversionPlan, HttpPluginError>)
        ensures
            r is Ok <==> forall|i: int|
                0 <= i < har.log.entries@.len() ==> url_path_of(
                    (#[trigger] har.log.entries@[i]).request.url@,
                ) is Some,
            r matches Ok(plan) ==> plan_from(plan, har.log.entries@),
    {
        let entries = &har.log.entries;
        let ghost eseq = har.log.entries@;
        let mut assets: Vec<(String, String)> = Vec::new();
        let mut grouped: Vec<(StaticMatchesConfig, Vec<StaticResponseConfig<ResponseData>>)> =
            Vec::new();
        let mut i: usize = 0;
        while i < entries.len()
            invariant
                eseq == entries@,
                eseq == har.log.entries@,
                i <= eseq.len(),
                forall|j: int|
                    0 <= j < i ==> url_path_of((#[trigger] eseq[j]).request.url@) is Some,
                assets@.len() == asset_list(eseq.take(i as int)).len(),
                forall|k: int|
                    0 <= k < assets@.len() ==> ((#[trigger] assets@[k]).0@, assets@[k].1@)
                        == asset_list(eseq.take(i as int))[k],
                grouped@.len() == keys_of(eseq.take(i as int)).len(),
                forall|g: int|
                    0 <= g < grouped@.len() ==> (#[trigger] grouped@[g]).0.model() == keys_of(
                        eseq.take(i as int),
                    )[g],
                forall|g: int|
                    0 <= g < grouped@.len() ==> (#[trigger] grouped@[g]).1@.map_values(
                        |c: StaticResponseConfig<ResponseData>| stub_view(c),
                    ) == stubs_for_key(eseq.take(i as int), keys_of(eseq.take(i as int))[g]),
                forall|g: int, j: int|
                    0 <= g < grouped@.len() && 0 <= j < (#[trigger] grouped@[g]).1@.len() ==> (
                    #[trigger] grouped@[g].1@[j]).id@.len() == 36,
            decreases eseq.len() - i,
        {
            let ghost prefix = eseq.take(i as int);
            let ghost next = eseq.take(i as int + 1);
            let ghost entry = eseq[i as int];
            proof {
                assert(next.drop_last() =~= prefix);
                assert(next.last() == entry);
                lemma_keys_distinct(next);
            }
            let converted = match convert_entry(&entries[i]) {
                Ok(c) => c,
                Err(e) => {
                    proof {
                        assert(url_path_of(
                            (#[trigger] har.log.entries@[i as int]).request.url@,
                        ) is None);
                    }
                    return Err(e);
                },
            };
            proof {
                assert(converted.matcher.model().methods == seq![entry.request.method@]);
                assert(strings_view(converted.matcher.methods@).len() == 1);
                assert(converted.matcher.methods@.len() >= 1);
                assert(converted.matcher.methods@[0]@ == strings_view(
                    converted.matcher.methods@,
                )[0]);
            }
            let (wrapper, asset) = write_body(converted);
            let ghost key = entry_matcher_model(entry.request);
            proof {
                assert(wrapper.matcher.model() == key);
                assert(stub_view(wrapper.response_config) == entry_stub(entry)) by {
                    assert(pairs_view(wrapper.response_config.headers@) == filtered_headers(
                        nv_views(entry.response.headers@),
                    ));
                    match entry.response.content.text {
                        None => {},
                        Some(t) => {
                            assert(wrapper.matcher.model().path == har_path_of(entry.request));
                            assert(body_file_of(wrapper.response_config.body) == Some(
                                entry_asset_name(entry),
                            ));
                        },
                    }
                }
            }
            match asset {
                None => {
                    proof {
                        assert(asset_list(next) =~= asset_list(prefix));
                    }
                },
                Some(a) => {
                    assets.push(a);
                    proof {
                        assert(asset_list(next) =~= asset_list(prefix) + seq![
                            (entry_asset_name(entry), asset_contents(entry_text(entry)->Some_0)),
                        ]);
                    }
                },
            }
            let mut found: Option<usize> = None;
            let mut g: usize = 0;
            while g < grouped.len()
                invariant
                    g <= grouped@.len(),
                    key == entry_matcher_model(entry.request),
                    wrapper.matcher.model() == key,
                    forall|h: int|
                        0 <= h < grouped@.len() ==> (#[trigger] grouped@[h]).0.model() == keys_of(
                            prefix,
                        )[h],
                    grouped@.len() == keys_of(prefix).len(),
                    match found {
                        Some(fg) => fg < grouped@.len() && grouped@[fg as int].0.model() == key,
                        None => forall|h: int|
                            0 <= h < g ==> (#[trigger] grouped@[h]).0.model() != key,
                    },
                decreases grouped@.len() - g,
            {
                if match_config_eq(&grouped[g].0, &wrapper.matcher) {
                    found = Some(g);
                    proof {
                        assert(grouped@[g as int].0.model() == key);
                    }
                }
                g = g + 1;
            }
            let ghost keys_prev = keys_of(prefix);
            let ghost keys_next = keys_of(next);
            match found {
                Some(fg) => {
                    proof {
                        assert(keys_prev.contains(key)) by {
                            assert(keys_prev[fg as int] == key);
                        }
                        assert(keys_next =~= keys_prev);
                    }
                    let slot = &mut grouped[fg];
                    slot.1.push(wrapper.response_config);
                    proof {
                        lemma_keys_distinct(prefix);
                        assert forall|h: int| 0 <= h < grouped@.len() implies (
                        #[trigger] grouped@[h]).1@.map_values(
                            |c: StaticResponseConfig<ResponseData>| stub_view(c),
                        ) == stubs_for_key(next, keys_next[h]) by {
                            if h == fg as int {
                                assert(stubs_for_key(next, key) =~= stubs_for_key(prefix, key)
                                    + seq![entry_stub(entry)]);
                                assert(grouped@[h].1@.map_values(
                                    |c: StaticResponseConfig<ResponseData>| stub_view(c),
                                ) =~= stubs_for_key(prefix, key) + seq![entry_stub(entry)]);
                            } else {
                                assert(keys_next[h] != key);
                                assert(stubs_for_key(next, keys_next[h]) =~= stubs_for_key(
                                    prefix,
                                    keys_next[h],
                                ));
                            }
                        }
                    }
                },
                None => {
                    proof {
                        assert(!keys_prev.contains(key)) by {
                            if keys_prev.contains(key) {
                                let h = choose|h: int|
                                    0 <= h < keys_prev.len() && keys_prev[h] == key;
                                assert(grouped@[h].0.model() == key);
                            }
                        }
                        assert(keys_next =~= keys_prev + seq![key]);
                        lemma_uncovered_key_has_no_stubs(prefix, key);
                    }
                    let mut group_responses: Vec<StaticResponseConfig<ResponseData>> = Vec::new();
                    group_responses.push(wrapper.response_config);
                    grouped.push((wrapper.matcher, group_responses));
                    proof {
                        assert forall|h: int| 0 <= h < grouped@.len() implies (
                        #[trigger] grouped@[h]).1@.map_values(
                            |c: StaticResponseConfig<ResponseData>| stub_view(c),
                        ) == stubs_for_key(next, keys_next[h]) by {
                            if h == grouped@.len() - 1 {
                                assert(stubs_for_key(next, key) =~= Seq::<StubModel>::empty()
                                    + seq![entry_stub(entry)]);
                                assert(grouped@[h].1@.map_values(
                                    |c: StaticResponseConfig<ResponseData>| stub_view(c),
                                ) =~= stubs_for_key(next, key));
                            } else {
                                assert(keys_next[h] == keys_prev[h]);
                                assert(keys_next[h] != key) by {
                                    if keys_prev[h] == key {
                                        assert(keys_prev.contains(key));
                                    }
                                }
                                assert(stubs_for_key(next, keys_next[h]) =~= stubs_for_key(
                                    prefix,
                                    keys_next[h],
                                ));
                            }
                        }
                    }
                },
            }
            i = i + 1;
        }
        proof {
            assert(eseq.take(eseq.len() as int) =~= eseq);
        }

        let mut rev: Vec<(StaticMatchesConfig, Vec<StaticResponseConfig<ResponseData>>)> =
            Vec::new();
        let ghost final_grouped = grouped@;
        while grouped.len() > 0
            invariant
                grouped@.len() + rev@.len() == final_grouped.len(),
                grouped@ == final_grouped.take(grouped@.len() as int),
                forall|j: int|
                    0 <= j < rev@.len() ==> rev@[j] == final_grouped[final_grouped.len() - 1 - j],
            decreases grouped@.len(),
        {
            let item = grouped.pop().unwrap();
            rev.push(item);
        }
        let mut groups: Vec<StaticHttpConfig<ResponseData>> = Vec::new();
        while rev.len() > 0
            invariant
                rev@.len() + groups@.len() == final_grouped.len(),
                forall|j: int|
                    0 <= j < rev@.len() ==> rev@[j] == final_grouped[final_grouped.len() - 1 - j],
                forall|g: int|
                    0 <= g < groups@.len() ==> {
                        let grp = #[trigger] groups@[g];
                        &&& grp.id@.len() == 36
                        &&& grp.matches@.len() == 1
                        &&& grp.matches@[0] == final_grouped[g].0
                        &&& grp.responses@ == final_grouped[g].1@
                    },
            decreases rev@.len(),
        {
            let (matcher, responses) = rev.pop().unwrap();
            let mut matches: Vec<StaticMatchesConfig> = Vec::new();
            matches.push(matcher);
            groups.push(
                StaticHttpConfig { id: crate::entropy::unique_id(), matches, responses },
            );
        }
        Ok(ConversionPlan { assets, groups })
    }
}

} // verus!
