//! Compiled request matchers and their evaluation: method, path regex,
//! query parameters, headers, and GraphQL operation name.

use vstd::prelude::*;
use vstd::string::*;

use crate::config::{GraphqlStaticMatchConfig, StaticMatchesConfig};
use crate::errors::HttpPluginError;
use crate::regexes::{regex_match, regex_ok, CompiledRegex};
use crate::strutil::{pairs_view, seq_eq_ci, str_eq, str_eq_ci, strings_view};
use crate::textcodec::{operation_name_of, parsed_query, utf8_decode};
use crate::textcodec::{json_operation_name, parse_query_pairs, utf8_string};

verus! {

/// A plain-value HTTP request as the matching engine sees it: the path and
/// query are already split off the URI, and a zero-length body has been
/// normalized to `None`.
pub struct HttpRequest {
    /// The request method, e.g. `GET`.
    pub method: String,
    /// The URI's path component, without the query string.
    pub path: String,
    /// The URI's query string, without the leading `?`.
    pub query: Option<String>,
    /// Header (name, value) pairs; one entry per value for repeated names.
    pub headers: Vec<(String, String)>,
    /// The request body; `None` when absent or empty.
    pub body: Option<Vec<u8>>,
}

/// The mathematical shape of a request: every string reduced to its
/// character sequence, the body to its bytes.
pub struct RequestModel {
    /// The request method.
    pub method: Seq<char>,
    /// The URI's path component.
    pub path: Seq<char>,
    /// The query string, if any.
    pub query: Option<Seq<char>>,
    /// Header (name, value) views in order.
    pub headers: Seq<(Seq<char>, Seq<char>)>,
    /// The body bytes; `None` when absent or empty.
    pub body: Option<Seq<u8>>,
}

impl HttpRequest {
    /// The model of this request.
    pub open spec fn model(self) -> RequestModel {
        RequestModel {
            method: self.method@,
            path: self.path@,
            query: match self.query {
                None => None,
                Some(q) => Some(q@),
            },
            headers: pairs_view(self.headers@),
            body: match self.body {
                None => None,
                Some(b) => Some(b@),
            },
        }
    }
}

/// A character the HTTP method token set allows.
pub open spec fn is_method_char(c: char) -> bool {
    let u = c as u32;
    ||| u == 33
    ||| u == 42
    ||| u == 43
    ||| u == 45
    ||| u == 46
    ||| (48 <= u && u <= 57)
    ||| (65 <= u && u <= 90)
    ||| (94 <= u && u <= 96)
    ||| (97 <= u && u <= 122)
    ||| u == 124
    ||| u == 126
}

/// A character the HTTP header-name token set allows.
pub open spec fn is_header_name_char(c: char) -> bool {
    let u = c as u32;
    ||| (33 <= u && u <= 39)
    ||| u == 42
    ||| u == 43
    ||| u == 45
    ||| u == 46
    ||| (48 <= u && u <= 57)
    ||| (65 <= u && u <= 90)
    ||| (94 <= u && u <= 96)
    ||| (97 <= u && u <= 122)
    ||| u == 124
    ||| u == 126
}

/// A non-empty string of method token characters.
pub open spec fn valid_method_token(s: Seq<char>) -> bool {
    s.len() >= 1 && forall|i: int| 0 <= i < s.len() ==> is_method_char(#[trigger] s[i])
}

/// A non-empty string of header-name token characters.
pub open spec fn valid_header_name(s: Seq<char>) -> bool {
    s.len() >= 1 && forall|i: int| 0 <= i < s.len() ==> is_header_name_char(#[trigger] s[i])
}

fn method_char(c: char) -> (r: bool)
    ensures
        r == is_method_char(c),
{
    let u = c as u32;
    u == 33 || u == 42 || u == 43 || u == 45 || u == 46 || (48 <= u && u <= 57) || (65 <= u && u
        <= 90) || (94 <= u && u <= 96) || (97 <= u && u <= 122) || u == 124 || u == 126
}

fn header_name_char(c: char) -> (r: bool)
    ensures
        r == is_header_name_char(c),
{
    let u = c as u32;
    (33 <= u && u <= 39) || u == 42 || u == 43 || u == 45 || u == 46 || (48 <= u && u <= 57) || (65
        <= u && u <= 90) || (94 <= u && u <= 96) || (97 <= u && u <= 122) || u == 124 || u == 126
}

/// Checks `s` against the HTTP method token set.
pub fn is_valid_method(s: &str) -> (r: bool)
    ensures
        r == valid_method_token(s@),
{
    let len = s.unicode_len();
    if len == 0 {
        return false;
    }
    let mut i: usize = 0;
    while i < len
        invariant
            len == s@.len(),
            i <= len,
            forall|j: int| 0 <= j < i ==> is_method_char(#[trigger] s@[j]),
        decreases len - i,
    {
        if !method_char(s.get_char(i)) {
            return false;
        }
        i = i + 1;
    }
    true
}

/// Checks `s` against the HTTP header-name token set.
pub fn is_valid_header_name(s: &str) -> (r: bool)
    ensures
        r == valid_header_name(s@),
{
    let len = s.unicode_len();
    if len == 0 {
        return false;
    }
    let mut i: usize = 0;
    while i < len
        invariant
            len == s@.len(),
            i <= len,
            forall|j: int| 0 <= j < i ==> is_header_name_char(#[trigger] s@[j]),
        decreases len - i,
    {
        if !header_name_char(s.get_char(i)) {
            return false;
        }
        i = i + 1;
    }
    true
}

/// `pattern` anchored to the whole text: `^pattern$`.
pub open spec fn anchored(pattern: Seq<char>) -> Seq<char> {
    seq!['^'] + pattern + seq!['$']
}

/// Builds `^pattern$`.
pub fn anchor_pattern(pattern: &str) -> (r: String)
    ensures
        r@ == anchored(pattern@),
{
    let mut out = String::from_str("^");
    out.append(pattern);
    out.append("$");
    proof {
        reveal_strlit("^");
        reveal_strlit("$");
        assert("^"@ =~= seq!['^']);
        assert("$"@ =~= seq!['$']);
        assert(out@ =~= anchored(pattern@));
    }
    out
}

/// A compiled constraint on one named query parameter.
pub struct QueryMatcher {
    /// The query parameter name, matched exactly.
    pub name: String,
    /// The regex every value under that name must match.
    pub value: CompiledRegex,
}

impl QueryMatcher {
    /// Compiles a query matcher; fails exactly when the regex is invalid.
    pub fn new(name: &str, value: &str) -> (r: Result<QueryMatcher, HttpPluginError>)
        ensures
            r is Ok <==> regex_ok(value@),
            r matches Ok(q) ==> q.name@ == name@ && q.value.pattern() == value@,
    {
        match CompiledRegex::compile(value) {
            Ok(re) => Ok(QueryMatcher { name: String::from_str(name), value: re }),
            Err(e) => Err(HttpPluginError::RegexError(e)),
        }
    }
}

/// A compiled constraint on one request header.
pub struct HeaderMatcher {
    /// The header name, matched case-insensitively.
    pub name: String,
    /// The regex some value under that name must match.
    pub value: CompiledRegex,
}

impl HeaderMatcher {
    /// Compiles a header matcher; fails exactly when the name is not a
    /// header-name token or the regex is invalid.
    pub fn new(name: &str, value: &str) -> (r: Result<HeaderMatcher, HttpPluginError>)
        ensures
            r is Ok <==> valid_header_name(name@) && regex_ok(value@),
            r matches Ok(h) ==> h.name@ == name@ && h.value.pattern() == value@,
    {
        if !is_valid_header_name(name) {
            return Err(HttpPluginError::InvalidHeaderName(String::from_str(name)));
        }
        match CompiledRegex::compile(value) {
            Ok(re) => Ok(HeaderMatcher { name: String::from_str(name), value: re }),
            Err(e) => Err(HttpPluginError::RegexError(e)),
        }
    }
}

/// One compiled match rule: a request matches when every present constraint
/// holds of it.
pub struct RequestMatcher {
    /// Allowed methods; empty means any.
    pub methods: Vec<String>,
    /// Anchored path regex; `None` means any path.
    pub path: Option<CompiledRegex>,
    /// Per-name query constraints; empty means no constraint.
    pub query_params: Vec<QueryMatcher>,
    /// Per-name header constraints.
    pub headers: Vec<HeaderMatcher>,
    /// Optional constraint on the GraphQL operation name in the body.
    pub graphql_operations: Option<CompiledRegex>,
}

/// The mathematical shape of a compiled matcher: every regex reduced to its
/// pattern, every string to its character sequence.
pub struct MatcherModel {
    /// Views of the allowed methods.
    pub methods: Seq<Seq<char>>,
    /// The anchored path pattern, if any.
    pub path: Option<Seq<char>>,
    /// (name, pattern) for each query constraint.
    pub query: Seq<(Seq<char>, Seq<char>)>,
    /// (name, pattern) for each header constraint.
    pub headers: Seq<(Seq<char>, Seq<char>)>,
    /// The operation-name pattern, if any.
    pub graphql: Option<Seq<char>>,
}

impl RequestMatcher {
    /// The model of this compiled matcher.
    pub open spec fn model(self) -> MatcherModel {
        MatcherModel {
            methods: self.methods@.map_values(|s: String| s@),
            path: match self.path {
                None => None,
                Some(re) => Some(re.pattern()),
            },
            query: self.query_params@.map_values(|q: QueryMatcher| (q.name@, q.value.pattern())),
            headers: self.headers@.map_values(|h: HeaderMatcher| (h.name@, h.value.pattern())),
            graphql: match self.graphql_operations {
                None => None,
                Some(re) => Some(re.pattern()),
            },
        }
    }
}

/// The model a matcher compiled from the given declarative pieces must have:
/// an empty path means no path constraint, any other path is anchored.
pub open spec fn compiled_model(
    methods: Seq<Seq<char>>,
    path: Seq<char>,
    query: Seq<(Seq<char>, Seq<char>)>,
    headers: Seq<(Seq<char>, Seq<char>)>,
    graphql: Option<Seq<char>>,
) -> MatcherModel {
    MatcherModel {
        methods,
        path: if path.len() == 0 {
            None
        } else {
            Some(anchored(path))
        },
        query,
        headers,
        graphql,
    }
}

/// When compilation of the declarative pieces succeeds: every regex valid,
/// every method a method token, every header name a header-name token.
pub open spec fn compile_ok(
    methods: Seq<Seq<char>>,
    path: Seq<char>,
    query: Seq<(Seq<char>, Seq<char>)>,
    headers: Seq<(Seq<char>, Seq<char>)>,
    graphql: Option<Seq<char>>,
) -> bool {
    &&& path.len() == 0 || regex_ok(anchored(path))
    &&& forall|i: int| 0 <= i < methods.len() ==> valid_method_token(#[trigger] methods[i])
    &&& forall|i: int|
        0 <= i < headers.len() ==> valid_header_name((#[trigger] headers[i]).0) && regex_ok(
            headers[i].1,
        )
    &&& forall|i: int| 0 <= i < query.len() ==> regex_ok((#[trigger] query[i]).1)
    &&& match graphql {
        None => true,
        Some(op) => regex_ok(op),
    }
}

/// The view of an optional graphql operation-name pattern.
pub open spec fn graphql_view(g: Option<String>) -> Option<Seq<char>> {
    match g {
        None => None,
        Some(s) => Some(s@),
    }
}

impl RequestMatcher {
    /// Compiles a match rule from its declarative pieces. Succeeds exactly
    /// when every piece compiles, and the result's model is then determined
    /// by the input.
    pub fn new(
        methods: &Vec<String>,
        path: &String,
        query_params: &Vec<(String, String)>,
        headers: &Vec<(String, String)>,
        graphql_operations: &Option<String>,
    ) -> (r: Result<RequestMatcher, HttpPluginError>)
        ensures
            r is Ok <==> compile_ok(
                strings_view(methods@),
                path@,
                pairs_view(query_params@),
                pairs_view(headers@),
                graphql_view(*graphql_operations),
            ),
            r matches Ok(m) ==> m.model() == compiled_model(
                strings_view(methods@),
                path@,
                pairs_view(query_params@),
                pairs_view(headers@),
                graphql_view(*graphql_operations),
            ),
    {
        let matched_path: Option<CompiledRegex> = if path.as_str().unicode_len() == 0 {
            None
        } else {
            let anchored_src = anchor_pattern(path.as_str());
            match CompiledRegex::compile(anchored_src.as_str()) {
                Ok(re) => Some(re),
                Err(e) => {
                    return Err(HttpPluginError::RegexError(e));
                },
            }
        };

        let mut matched_headers: Vec<HeaderMatcher> = Vec::new();
        let mut i: usize = 0;
        while i < headers.len()
            invariant
                i <= headers.len(),
                matched_headers@.len() == i,
                forall|j: int|
                    0 <= j < i ==> valid_header_name((#[trigger] headers@[j]).0@) && regex_ok(
                        headers@[j].1@,
                    ),
                forall|j: int|
                    0 <= j < i ==> (#[trigger] matched_headers@[j]).name@ == headers@[j].0@
                        && matched_headers@[j].value.pattern() == headers@[j].1@,
            decreases headers.len() - i,
        {
            let pair = &headers[i];
            match HeaderMatcher::new(pair.0.as_str(), pair.1.as_str()) {
                Ok(h) => matched_headers.push(h),
                Err(e) => {
                    proof {
                        assert(pairs_view(headers@)[i as int] == (
                            headers@[i as int].0@,
                            headers@[i as int].1@,
                        ));
                    }
                    return Err(e);
                },
            }
            i = i + 1;
        }

        let mut matched_query: Vec<QueryMatcher> = Vec::new();
        let mut i: usize = 0;
        while i < query_params.len()
            invariant
                i <= query_params.len(),
                matched_query@.len() == i,
                forall|j: int| 0 <= j < i ==> regex_ok((#[trigger] query_params@[j]).1@),
                forall|j: int|
                    0 <= j < i ==> (#[trigger] matched_query@[j]).name@ == query_params@[j].0@
                        && matched_query@[j].value.pattern() == query_params@[j].1@,
            decreases query_params.len() - i,
        {
            let pair = &query_params[i];
            match QueryMatcher::new(pair.0.as_str(), pair.1.as_str()) {
                Ok(q) => matched_query.push(q),
                Err(e) => {
                    proof {
                        assert(pairs_view(query_params@)[i as int] == (
                            query_params@[i as int].0@,
                            query_params@[i as int].1@,
                        ));
                    }
                    return Err(e);
                },
            }
            i = i + 1;
        }

        let mut parsed_methods: Vec<String> = Vec::new();
        let mut i: usize = 0;
        while i < methods.len()
            invariant
                i <= methods.len(),
                parsed_methods@.len() == i,
                forall|j: int| 0 <= j < i ==> valid_method_token((#[trigger] methods@[j])@),
                forall|j: int| 0 <= j < i ==> (#[trigger] parsed_methods@[j])@ == methods@[j]@,
            decreases methods.len() - i,
        {
            let m = &methods[i];
            if !is_valid_method(m.as_str()) {
                proof {
                    assert(strings_view(methods@)[i as int] == methods@[i as int]@);
                }
                return Err(HttpPluginError::InvalidMethod(m.clone()));
            }
            parsed_methods.push(m.clone());
            i = i + 1;
        }

        let matched_graphql: Option<CompiledRegex> = match graphql_operations {
            None => None,
            Some(operation) => match CompiledRegex::compile(operation.as_str()) {
                Ok(re) => Some(re),
                Err(e) => {
                    return Err(HttpPluginError::RegexError(e));
                },
            },
        };

        let result = RequestMatcher {
            path: matched_path,
            query_params: matched_query,
            headers: matched_headers,
            methods: parsed_methods,
            graphql_operations: matched_graphql,
        };
        proof {
            let expect = compiled_model(
                strings_view(methods@),
                path@,
                pairs_view(query_params@),
                pairs_view(headers@),
                graphql_view(*graphql_operations),
            );
            assert(result.model().methods =~= expect.methods);
            assert(result.model().query =~= expect.query);
            assert(result.model().headers =~= expect.headers);
        }
        Ok(result)
    }

    /// Compiles the declarative form of one match rule.
    pub fn from_matches_config(config: &StaticMatchesConfig) -> (r: Result<
        RequestMatcher,
        HttpPluginError,
    >)
        ensures
            r is Ok <==> config_compile_ok(*config),
            r matches Ok(m) ==> m.model() == config_compiled_model(*config),
    {
        let gql_operations: Option<String> = match &config.graphql {
            None => None,
            Some(g) => Some(g.operation_name.clone()),
        };
        RequestMatcher::new(
            &config.methods,
            &config.path,
            &config.query,
            &config.headers,
            &gql_operations,
        )
    }
}

/// The operation-name pattern a declarative graphql constraint asks for.
pub open spec fn config_graphql_view(g: Option<GraphqlStaticMatchConfig>) -> Option<Seq<char>> {
    match g {
        None => None,
        Some(c) => Some(c.operation_name@),
    }
}

/// When one declarative match rule compiles.
pub open spec fn config_compile_ok(c: StaticMatchesConfig) -> bool {
    compile_ok(
        strings_view(c.methods@),
        c.path@,
        pairs_view(c.query@),
        pairs_view(c.headers@),
        config_graphql_view(c.graphql),
    )
}

/// The model of the matcher compiled from one declarative match rule: a
/// function of the rule's views alone, so compilation is deterministic.
pub open spec fn config_compiled_model(c: StaticMatchesConfig) -> MatcherModel {
    compiled_model(
        strings_view(c.methods@),
        c.path@,
        pairs_view(c.query@),
        pairs_view(c.headers@),
        config_graphql_view(c.graphql),
    )
}

/// The method constraint: an empty method list admits every method,
/// otherwise the request's method must be listed.
pub open spec fn matches_method_spec(m: RequestMatcher, req: RequestModel) -> bool {
    m.methods@.len() == 0 || exists|i: int|
        0 <= i < m.methods@.len() && (#[trigger] m.methods@[i])@ == req.method
}

/// The path constraint: no compiled path admits every path, otherwise the
/// anchored regex must match the request path.
pub open spec fn matches_path_spec(m: RequestMatcher, req: RequestModel) -> bool {
    match m.path {
        None => true,
        Some(re) => regex_match(re.pattern(), req.path),
    }
}

/// One query constraint against the decoded query pairs: the name must
/// occur, and every value under it must match the regex.
pub open spec fn qm_pred(qm: QueryMatcher, pairs: Seq<(Seq<char>, Seq<char>)>) -> bool {
    &&& exists|j: int| 0 <= j < pairs.len() && (#[trigger] pairs[j]).0 == qm.name@
    &&& forall|j: int|
        0 <= j < pairs.len() && (#[trigger] pairs[j]).0 == qm.name@ ==> regex_match(
            qm.value.pattern(),
            pairs[j].1,
        )
}

/// The query constraint: no query matchers admit every request; otherwise
/// the request must carry a query and every matcher must hold of it.
pub open spec fn matches_query_spec(m: RequestMatcher, req: RequestModel) -> bool {
    m.query_params@.len() == 0 || match req.query {
        None => false,
        Some(q) => forall|k: int|
            0 <= k < m.query_params@.len() ==> qm_pred(
                #[trigger] m.query_params@[k],
                parsed_query(q),
            ),
    }
}

/// One header constraint against the request headers: some value under a
/// case-insensitively equal name must match the regex.
pub open spec fn hm_pred(hm: HeaderMatcher, headers: Seq<(Seq<char>, Seq<char>)>) -> bool {
    exists|i: int|
        0 <= i < headers.len() && seq_eq_ci((#[trigger] headers[i]).0, hm.name@) && regex_match(
            hm.value.pattern(),
            headers[i].1,
        )
}

/// The header constraint: every header matcher must hold of the request.
pub open spec fn matches_headers_spec(m: RequestMatcher, req: RequestModel) -> bool {
    forall|k: int| 0 <= k < m.headers@.len() ==> hm_pred(#[trigger] m.headers@[k], req.headers)
}

/// The view of an optional byte vector.
pub open spec fn option_bytes_view(b: Option<Vec<u8>>) -> Option<Seq<u8>> {
    match b {
        None => None,
        Some(v) => Some(v@),
    }
}

/// The GraphQL constraint: without one every request passes; with one the
/// body must be present, be JSON, and carry a matching operation name.
pub open spec fn graphql_body_pred(g: Option<CompiledRegex>, body: Option<Seq<u8>>) -> bool {
    match g {
        None => true,
        Some(re) => match body {
            None => false,
            Some(b) => match utf8_decode(b) {
                None => false,
                Some(text) => match operation_name_of(text) {
                    None => false,
                    Some(name) => regex_match(re.pattern(), name),
                },
            },
        },
    }
}

/// The whole rule: a request matches when every constraint holds.
pub open spec fn rule_matches(m: RequestMatcher, req: RequestModel) -> bool {
    &&& matches_method_spec(m, req)
    &&& matches_path_spec(m, req)
    &&& matches_query_spec(m, req)
    &&& matches_headers_spec(m, req)
    &&& graphql_body_pred(m.graphql_operations, req.body)
}

fn query_matcher_holds(
    qm: &QueryMatcher,
    pairs: &Vec<(String, String)>,
    Ghost(dpairs): Ghost<Seq<(Seq<char>, Seq<char>)>>,
) -> (r: bool)
    requires
        pairs@.len() == dpairs.len(),
        forall|i: int|
            0 <= i < pairs@.len() ==> (#[trigger] pairs@[i]).0@ == dpairs[i].0 && pairs@[i].1@
                == dpairs[i].1,
    ensures
        r == qm_pred(*qm, dpairs),
{
    let mut found = false;
    let mut p: usize = 0;
    while p < pairs.len()
        invariant
            p <= pairs@.len(),
            pairs@.len() == dpairs.len(),
            forall|i: int|
                0 <= i < pairs@.len() ==> (#[trigger] pairs@[i]).0@ == dpairs[i].0 && pairs@[i].1@
                    == dpairs[i].1,
            found == exists|j: int| 0 <= j < p && (#[trigger] dpairs[j]).0 == qm.name@,
            forall|j: int|
                0 <= j < p && (#[trigger] dpairs[j]).0 == qm.name@ ==> regex_match(
                    qm.value.pattern(),
                    dpairs[j].1,
                ),
        decreases pairs@.len() - p,
    {
        let pair = &pairs[p];
        if str_eq(pair.0.as_str(), qm.name.as_str()) {
            if !qm.value.is_match(pair.1.as_str()) {
                proof {
                    assert((#[trigger] dpairs[p as int]).0 == qm.name@);
                    assert(!regex_match(qm.value.pattern(), dpairs[p as int].1));
                }
                return false;
            }
            found = true;
            proof {
                assert((#[trigger] dpairs[p as int]).0 == qm.name@);
            }
        }
        p = p + 1;
    }
    found
}

fn header_matcher_holds(hm: &HeaderMatcher, headers: &Vec<(String, String)>) -> (r: bool)
    ensures
        r == hm_pred(*hm, pairs_view(headers@)),
{
    let mut p: usize = 0;
    while p < headers.len()
        invariant
            p <= headers@.len(),
            forall|i: int|
                0 <= i < p ==> !(seq_eq_ci((#[trigger] headers@[i]).0@, hm.name@) && regex_match(
                    hm.value.pattern(),
                    headers@[i].1@,
                )),
            forall|i: int|
                0 <= i < headers@.len() ==> (#[trigger] pairs_view(headers@)[i]) == (
                headers@[i].0@,
                headers@[i].1@,
                ),
        decreases headers@.len() - p,
    {
        let pair = &headers[p];
        if str_eq_ci(pair.0.as_str(), hm.name.as_str()) && hm.value.is_match(pair.1.as_str()) {
            proof {
                assert(seq_eq_ci((pairs_view(headers@)[p as int]).0, hm.name@));
            }
            return true;
        }
        p = p + 1;
    }
    false
}

impl RequestMatcher {
    fn matches_method(&self, req: &HttpRequest) -> (r: bool)
        ensures
            r == matches_method_spec(*self, req.model()),
    {
        if self.methods.len() == 0 {
            return true;
        }
        let mut i: usize = 0;
        while i < self.methods.len()
            invariant
                i <= self.methods@.len(),
                forall|j: int| 0 <= j < i ==> (#[trigger] self.methods@[j])@ != req.method@,
            decreases self.methods@.len() - i,
        {
            if str_eq(self.methods[i].as_str(), req.method.as_str()) {
                return true;
            }
            i = i + 1;
        }
        false
    }

    fn matches_path(&self, req: &HttpRequest) -> (r: bool)
        ensures
            r == matches_path_spec(*self, req.model()),
    {
        match &self.path {
            None => true,
            Some(re) => re.is_match(req.path.as_str()),
        }
    }

    fn matches_query(&self, req: &HttpRequest) -> (r: bool)
        ensures
            r == matches_query_spec(*self, req.model()),
    {
        if self.query_params.len() == 0 {
            return true;
        }
        let query = match &req.query {
            None => {
                return false;
            },
            Some(q) => q,
        };
        let pairs = parse_query_pairs(query.as_str());
        let ghost dpairs = parsed_query(query@);
        let mut k: usize = 0;
        while k < self.query_params.len()
            invariant
                k <= self.query_params@.len(),
                self.query_params@.len() != 0,
                req.query == Some(*query),
                dpairs == parsed_query(query@),
                pairs@.len() == dpairs.len(),
                forall|i: int|
                    0 <= i < pairs@.len() ==> (#[trigger] pairs@[i]).0@ == dpairs[i].0
                        && pairs@[i].1@ == dpairs[i].1,
                forall|j: int| 0 <= j < k ==> qm_pred(#[trigger] self.query_params@[j], dpairs),
            decreases self.query_params@.len() - k,
        {
            let qm = &self.query_params[k];
            if !query_matcher_holds(qm, &pairs, Ghost(dpairs)) {
                proof {
                    assert(!qm_pred(self.query_params@[k as int], dpairs));
                }
                return false;
            }
            k = k + 1;
        }
        true
    }

    fn matches_headers(&self, req: &HttpRequest) -> (r: bool)
        ensures
            r == matches_headers_spec(*self, req.model()),
    {
        let mut k: usize = 0;
        while k < self.headers.len()
            invariant
                k <= self.headers@.len(),
                forall|j: int|
                    0 <= j < k ==> hm_pred(#[trigger] self.headers@[j], pairs_view(req.headers@)),
            decreases self.headers@.len() - k,
        {
            let hm = &self.headers[k];
            if !header_matcher_holds(hm, &req.headers) {
                proof {
                    assert(!hm_pred(self.headers@[k as int], pairs_view(req.headers@)));
                }
                return false;
            }
            k = k + 1;
        }
        true
    }

    fn match_graphql_operation(&self, body: &Option<Vec<u8>>) -> (r: bool)
        ensures
            r == graphql_body_pred(self.graphql_operations, option_bytes_view(*body)),
    {
        let matcher = match &self.graphql_operations {
            None => {
                return true;
            },
            Some(m) => m,
        };
        let bytes = match body {
            None => {
                return false;
            },
            Some(b) => b,
        };
        let text = match utf8_string(bytes) {
            None => {
                return false;
            },
            Some(t) => t,
        };
        match json_operation_name(text.as_str()) {
            None => false,
            Some(name) => matcher.is_match(name.as_str()),
        }
    }

    /// Evaluates the whole rule against a request, constraint by constraint
    /// with short-circuiting.
    pub fn request_matches(&self, req: &HttpRequest) -> (r: bool)
        ensures
            r == rule_matches(*self, req.model()),
    {
        if !self.matches_method(req) {
            return false;
        }
        if !self.matches_path(req) {
            return false;
        }
        if !self.matches_query(req) {
            return false;
        }
        if !self.matches_headers(req) {
            return false;
        }
        if !self.match_graphql_operation(&req.body) {
            return false;
        }
        true
    }
}

/// A rule with an empty method list accepts every request method.
pub proof fn lemma_empty_methods_match_any_method(m: RequestMatcher, req: RequestModel)
    requires
        m.methods@.len() == 0,
    ensures
        matches_method_spec(m, req),
{
}

/// A rule with no compiled path accepts every request path.
pub proof fn lemma_absent_path_matches_any_path(m: RequestMatcher, req: RequestModel)
    requires
        m.path is None,
    ensures
        matches_path_spec(m, req),
{
}

/// Two matchers compiled from the same declarative pieces have the same
/// model: compilation is deterministic.
pub proof fn lemma_compile_deterministic(m1: RequestMatcher, m2: RequestMatcher, c: StaticMatchesConfig)
    requires
        m1.model() == config_compiled_model(c),
        m2.model() == config_compiled_model(c),
    ensures
        m1.model() == m2.model(),
{
}

} // verus!
