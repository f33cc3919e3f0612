//! The declarative configuration model: the root config, response configs
//! with their match rules, and resolution of file-sourced body payloads into
//! in-memory strings.

use vstd::prelude::*;
use vstd::string::*;

use crate::errors::ConfigError;
use crate::strutil;

verus! {

/// GraphQL body matcher: the operation name the request must carry.
pub struct GraphqlStaticMatchConfig {
    /// Regex for the GraphQL operation name to respond to.
    pub operation_name: String,
}

/// One way a request can be matched. Every field is optional; a rule with
/// nothing constraining matches every request.
pub struct StaticMatchesConfig {
    /// Regex matched against the request path; empty means any path.
    pub path: String,
    /// (name, regex) pairs matched against the query parameters.
    pub query: Vec<(String, String)>,
    /// (header name, regex) pairs matched against the request headers.
    pub headers: Vec<(String, String)>,
    /// Methods the request may use; empty means any method.
    pub methods: Vec<String>,
    /// Optional GraphQL operation-name constraint on the request body.
    pub graphql: Option<GraphqlStaticMatchConfig>,
}

/// A response body payload, tagged by how its bytes are to be served.
pub enum StaticResponseBodyConfig<T> {
    /// Served verbatim.
    Raw(T),
    /// Served verbatim, with `Content-Type: application/json` injected.
    Json(T),
    /// No body.
    Empty,
}

/// One possible response for a matched request.
pub struct StaticResponseConfig<T> {
    /// Stable identifier; a fresh UUID is minted when the source omits it.
    pub id: String,
    /// Share of the rotation this response occupies.
    pub weight: u16,
    /// HTTP status code.
    pub status: u16,
    /// Static header (name, value) pairs.
    pub headers: Vec<(String, String)>,
    /// Optional body payload.
    pub body: Option<StaticResponseBodyConfig<T>>,
    /// Milliseconds to wait before the response is written.
    pub delay: u64,
}

/// A static-HTTP response configuration: match rules and their responses.
pub struct StaticHttpConfig<T> {
    /// Stable identifier; a fresh UUID is minted when the source omits it.
    pub id: String,
    /// The ways the request can be matched.
    pub matches: Vec<StaticMatchesConfig>,
    /// The possible responses.
    pub responses: Vec<StaticResponseConfig<T>>,
}

/// A body payload as it stands on disk: inline data, or the path of a
/// sibling file to read.
pub enum ResponseData {
    /// Inline payload.
    Data(String),
    /// Path of a file, relative to the owning config file's directory.
    File(String),
}

/// A response config file entry, tagged by backend kind. Only the static
/// HTTP variant is servable.
pub enum ResponseConfig<T> {
    /// The static HTTP backend.
    StaticHttp(StaticHttpConfig<T>),
}

/// The root configuration: where to find response config files.
pub struct ServerRootConfig {
    /// Container of response config locations.
    pub responses: ResponsesConfig,
}

/// Glob patterns naming response config files, relative to the root config's
/// directory.
pub struct ResponsesConfig {
    /// Glob of paths to load responses from.
    pub paths: Vec<String>,
}

/// The default rotation weight of a response that names none.
pub fn default_weight() -> (r: u16)
    ensures
        r == 1,
{
    1
}

/// The payload a body resolves to: its inline data, or the supplied contents
/// of the file it names.
pub open spec fn resolved_data(data: ResponseData, contents: Option<Seq<char>>) -> Option<
    Seq<char>,
> {
    match data {
        ResponseData::Data(d) => Some(d@),
        ResponseData::File(_) => contents,
    }
}

impl ResponseData {
    /// The file this payload asks to have read, if any.
    pub open spec fn spec_file_ref(&self) -> Option<Seq<char>> {
        match self {
            ResponseData::Data(_) => None,
            ResponseData::File(p) => Some(p@),
        }
    }

    /// The file this payload asks to have read, if any.
    pub fn file_ref(&self) -> (r: Option<&String>)
        ensures
            match r {
                Some(p) => self.spec_file_ref() == Some(p@),
                None => self.spec_file_ref() is None,
            },
    {
        match self {
            ResponseData::Data(_) => None,
            ResponseData::File(p) => Some(p),
        }
    }

    /// Resolves this payload to its in-memory string: inline data passes
    /// through verbatim, a file reference takes the supplied contents.
    pub fn make_static(&self, contents: Option<&String>) -> (r: Result<String, ConfigError>)
        ensures
            match r {
                Ok(s) => resolved_data(*self, option_view(contents)) == Some(s@),
                Err(_) => self is File && contents is None,
            },
    {
        match self {
            ResponseData::Data(d) => Ok(d.clone()),
            ResponseData::File(p) => match contents {
                Some(c) => Ok(c.clone()),
                None => Err(ConfigError::MissingBodyFile(p.clone())),
            },
        }
    }
}

/// The view of an optional borrowed string.
pub open spec fn option_view(o: Option<&String>) -> Option<Seq<char>> {
    match o {
        Some(s) => Some(s@),
        None => None,
    }
}

/// The mathematical shape of one declarative match rule.
pub struct MatchConfigModel {
    /// The path regex source.
    pub path: Seq<char>,
    /// (name, regex) views of the query constraints.
    pub query: Seq<(Seq<char>, Seq<char>)>,
    /// (name, regex) views of the header constraints.
    pub headers: Seq<(Seq<char>, Seq<char>)>,
    /// Views of the allowed methods.
    pub methods: Seq<Seq<char>>,
    /// The graphql operation-name regex, if any.
    pub graphql: Option<Seq<char>>,
}

impl StaticMatchesConfig {
    /// The model of this match rule.
    pub open spec fn model(self) -> MatchConfigModel {
        MatchConfigModel {
            path: self.path@,
            query: crate::strutil::pairs_view(self.query@),
            headers: crate::strutil::pairs_view(self.headers@),
            methods: crate::strutil::strings_view(self.methods@),
            graphql: match self.graphql {
                None => None,
                Some(g) => Some(g.operation_name@),
            },
        }
    }

    /// Copies this match rule; the copy has the same model.
    pub fn duplicate(&self) -> (r: StaticMatchesConfig)
        ensures
            r.model() == self.model(),
    {
        let graphql: Option<GraphqlStaticMatchConfig> = match &self.graphql {
            None => None,
            Some(g) => Some(GraphqlStaticMatchConfig { operation_name: g.operation_name.clone() }),
        };
        let r = StaticMatchesConfig {
            path: self.path.clone(),
            query: crate::strutil::copy_pairs(&self.query),
            headers: crate::strutil::copy_pairs(&self.headers),
            methods: copy_strings(&self.methods),
            graphql,
        };
        proof {
            assert(r.model().methods =~= self.model().methods);
        }
        r
    }
}

/// Copies a list of strings.
pub fn copy_strings(src: &Vec<String>) -> (r: Vec<String>)
    ensures
        r@ == src@,
{
    let mut out: Vec<String> = Vec::new();
    let mut i: usize = 0;
    while i < src.len()
        invariant
            i <= src@.len(),
            out@.len() == i,
            forall|j: int| 0 <= j < i ==> out@[j] == src@[j],
        decreases src@.len() - i,
    {
        out.push(src[i].clone());
        i = i + 1;
    }
    proof {
        assert(out@ =~= src@);
    }
    out
}

/// The view of a resolved body payload.
pub enum BodyView {
    /// A raw payload and its text.
    Raw(Seq<char>),
    /// A JSON payload and its text.
    Json(Seq<char>),
    /// No payload.
    Empty,
}

/// The view of a resolved (in-memory) body config.
pub open spec fn body_view(b: Option<StaticResponseBodyConfig<String>>) -> Option<BodyView> {
    match b {
        None => None,
        Some(StaticResponseBodyConfig::Raw(d)) => Some(BodyView::Raw(d@)),
        Some(StaticResponseBodyConfig::Json(d)) => Some(BodyView::Json(d@)),
        Some(StaticResponseBodyConfig::Empty) => Some(BodyView::Empty),
    }
}

/// The file an on-disk body config asks to have read, if any.
pub open spec fn body_file_of(b: Option<StaticResponseBodyConfig<ResponseData>>) -> Option<
    Seq<char>,
> {
    match b {
        Some(StaticResponseBodyConfig::Raw(ResponseData::File(p))) => Some(p@),
        Some(StaticResponseBodyConfig::Json(ResponseData::File(p))) => Some(p@),
        _ => None,
    }
}

/// The payload text an on-disk data reference resolves to, given the
/// contents of the file it may name.
pub open spec fn data_text(d: ResponseData, contents: Option<Seq<char>>) -> Seq<char> {
    match d {
        ResponseData::Data(s) => s@,
        ResponseData::File(_) => match contents {
            Some(c) => c,
            None => Seq::empty(),
        },
    }
}

/// The view an on-disk body config resolves to, given the contents of the
/// file it may name.
pub open spec fn resolved_body_view(
    b: Option<StaticResponseBodyConfig<ResponseData>>,
    contents: Option<Seq<char>>,
) -> Option<BodyView> {
    match b {
        None => None,
        Some(StaticResponseBodyConfig::Raw(d)) => Some(BodyView::Raw(data_text(d, contents))),
        Some(StaticResponseBodyConfig::Json(d)) => Some(BodyView::Json(data_text(d, contents))),
        Some(StaticResponseBodyConfig::Empty) => Some(BodyView::Empty),
    }
}

impl StaticResponseConfig<ResponseData> {
    /// The file this response's body asks to have read, if any.
    pub fn body_file(&self) -> (r: Option<&String>)
        ensures
            match r {
                Some(p) => body_file_of(self.body) == Some(p@),
                None => body_file_of(self.body) is None,
            },
    {
        match &self.body {
            Some(StaticResponseBodyConfig::Raw(d)) => d.file_ref(),
            Some(StaticResponseBodyConfig::Json(d)) => d.file_ref(),
            _ => None,
        }
    }

    /// Resolves this response's body into an in-memory string: inline data
    /// passes through verbatim, a file reference takes the supplied
    /// contents. Fails exactly when the body names a file and no contents
    /// were supplied.
    pub fn make_static(&self, contents: Option<&String>) -> (r: Result<
        StaticResponseConfig<String>,
        ConfigError,
    >)
        ensures
            r is Ok <==> !(body_file_of(self.body) is Some && contents is None),
            r matches Ok(out) ==> {
                &&& out.id@ == self.id@
                &&& out.weight == self.weight
                &&& out.status == self.status
                &&& crate::strutil::pairs_view(out.headers@) == crate::strutil::pairs_view(
                    self.headers@,
                )
                &&& out.delay == self.delay
                &&& body_view(out.body) == resolved_body_view(self.body, option_view(contents))
            },
    {
        let body: Option<StaticResponseBodyConfig<String>> = match &self.body {
            None => None,
            Some(StaticResponseBodyConfig::Empty) => Some(StaticResponseBodyConfig::Empty),
            Some(StaticResponseBodyConfig::Raw(d)) => match d.make_static(contents) {
                Ok(text) => Some(StaticResponseBodyConfig::Raw(text)),
                Err(e) => {
                    return Err(e);
                },
            },
            Some(StaticResponseBodyConfig::Json(d)) => match d.make_static(contents) {
                Ok(text) => Some(StaticResponseBodyConfig::Json(text)),
                Err(e) => {
                    return Err(e);
                },
            },
        };
        Ok(
            StaticResponseConfig {
                id: self.id.clone(),
                weight: self.weight,
                status: self.status,
                headers: crate::strutil::copy_pairs(&self.headers),
                body,
                delay: self.delay,
            },
        )
    }
}

/// Whether every file-sourced body in `responses` has contents supplied at
/// its position.
pub open spec fn contents_cover(
    responses: Seq<StaticResponseConfig<ResponseData>>,
    contents: Seq<Option<String>>,
) -> bool {
    &&& contents.len() == responses.len()
    &&& forall|j: int|
        0 <= j < responses.len() && body_file_of((#[trigger] responses[j]).body) is Some
            ==> contents[j] is Some
}

impl StaticHttpConfig<ResponseData> {
    /// Resolves every response body, the contents supplied one per
    /// response in order. Fails exactly when the contents do not cover the
    /// file-sourced bodies.
    pub fn make_static(&self, contents: &Vec<Option<String>>) -> (r: Result<
        StaticHttpConfig<String>,
        ConfigError,
    >)
        ensures
            r is Ok <==> contents_cover(self.responses@, contents@),
            r matches Ok(out) ==> {
                &&& out.id@ == self.id@
                &&& out.matches@.len() == self.matches@.len()
                &&& forall|j: int|
                    0 <= j < self.matches@.len() ==> (#[trigger] out.matches@[j]).model()
                        == self.matches@[j].model()
                &&& out.responses@.len() == self.responses@.len()
                &&& forall|j: int|
                    0 <= j < self.responses@.len() ==> {
                        let src = #[trigger] self.responses@[j];
                        let dst = out.responses@[j];
                        &&& dst.id@ == src.id@
                        &&& dst.weight == src.weight
                        &&& dst.status == src.status
                        &&& crate::strutil::pairs_view(dst.headers@) == crate::strutil::pairs_view(
                            src.headers@,
                        )
                        &&& dst.delay == src.delay
                        &&& body_view(dst.body) == resolved_body_view(
                            src.body,
                            option_some_view(contents@[j]),
                        )
                    }
            },
    {
        if contents.len() != self.responses.len() {
            return Err(ConfigError::MissingBodyFile(String::new()));
        }
        let mut responses: Vec<StaticResponseConfig<String>> = Vec::new();
        let mut i: usize = 0;
        while i < self.responses.len()
            invariant
                i <= self.responses@.len(),
                contents@.len() == self.responses@.len(),
                responses@.len() == i,
                forall|j: int|
                    0 <= j < i && body_file_of((#[trigger] self.responses@[j]).body) is Some
                        ==> contents@[j] is Some,
                forall|j: int|
                    0 <= j < i ==> {
                        let src = #[trigger] self.responses@[j];
                        let dst = responses@[j];
                        &&& dst.id@ == src.id@
                        &&& dst.weight == src.weight
                        &&& dst.status == src.status
                        &&& crate::strutil::pairs_view(dst.headers@) == crate::strutil::pairs_view(
                            src.headers@,
                        )
                        &&& dst.delay == src.delay
                        &&& body_view(dst.body) == resolved_body_view(
                            src.body,
                            option_some_view(contents@[j]),
                        )
                    },
            decreases self.responses@.len() - i,
        {
            let content: Option<&String> = match &contents[i] {
                None => None,
                Some(c) => Some(c),
            };
            match self.responses[i].make_static(content) {
                Ok(resolved) => responses.push(resolved),
                Err(e) => {
                    return Err(e);
                },
            }
            i = i + 1;
        }
        let mut matches: Vec<StaticMatchesConfig> = Vec::new();
        let mut i: usize = 0;
        while i < self.matches.len()
            invariant
                i <= self.matches@.len(),
                matches@.len() == i,
                forall|j: int|
                    0 <= j < i ==> (#[trigger] matches@[j]).model() == self.matches@[j].model(),
            decreases self.matches@.len() - i,
        {
            matches.push(self.matches[i].duplicate());
            i = i + 1;
        }
        Ok(StaticHttpConfig { id: self.id.clone(), matches, responses })
    }
}

/// The view of an optional owned string.
pub open spec fn option_some_view(o: Option<String>) -> Option<Seq<char>> {
    match o {
        Some(s) => Some(s@),
        None => None,
    }
}

impl ResponseConfig<ResponseData> {
    /// Resolves the config's bodies; see `StaticHttpConfig::make_static`.
    pub fn make_static(&self, contents: &Vec<Option<String>>) -> (r: Result<
        ResponseConfig<String>,
        ConfigError,
    >)
        ensures
            ({
                let ResponseConfig::StaticHttp(h) = *self;
                r is Ok <==> contents_cover(h.responses@, contents@)
            }),
            r matches Ok(out) ==> ({
                let ResponseConfig::StaticHttp(h) = *self;
                let ResponseConfig::StaticHttp(o) = out;
                &&& o.id@ == h.id@
                &&& o.matches@.len() == h.matches@.len()
                &&& forall|j: int|
                    0 <= j < h.matches@.len() ==> (#[trigger] o.matches@[j]).model()
                        == h.matches@[j].model()
                &&& o.responses@.len() == h.responses@.len()
            }),
    {
        match self {
            ResponseConfig::StaticHttp(plugin) => match plugin.make_static(contents) {
                Ok(resolved) => Ok(ResponseConfig::StaticHttp(resolved)),
                Err(e) => Err(e),
            },
        }
    }
}

/// A fully-resolved user configuration: the root document and every
/// response config with its bodies inlined.
pub struct ParsedUserConfig {
    /// The root configuration.
    pub root: ServerRootConfig,
    /// The resolved response configs, in discovery order.
    pub responses: Vec<ResponseConfig<String>>,
}

/// The characters of `path` before its last `/`, or nothing when it has
/// none.
pub open spec fn parent_dir(path: Seq<char>) -> Seq<char> {
    if exists|i: int| 0 <= i < path.len() && path[i] == '/' {
        path.take(
            choose|i: int|
                0 <= i < path.len() && path[i] == '/' && forall|j: int|
                    i < j < path.len() ==> path[j] != '/',
        )
    } else {
        Seq::empty()
    }
}

/// Where the configuration tree is rooted: the root config file and the
/// directory its relative paths resolve against.
pub struct ConfigContainer {
    /// The root config file path.
    pub root_config_file: String,
    /// The root config file's directory.
    pub base_config_dir: String,
}

impl ConfigContainer {
    /// Remembers the root config file and its directory.
    pub fn new(root_config_file: &str) -> (r: ConfigContainer)
        ensures
            r.root_config_file@ == root_config_file@,
            r.base_config_dir@ == parent_dir(root_config_file@),
    {
        let base: String = match crate::strutil::rfind_char(root_config_file, '/') {
            Some(i) => {
                let s = String::from_str(root_config_file.substring_char(0, i));
                proof {
                    let p = root_config_file@;
                    let w = choose|w: int|
                        0 <= w < p.len() && p[w] == '/' && forall|j: int|
                            w < j < p.len() ==> p[j] != '/';
                    assert(w == i as int) by {
                        if w < i as int {
                            assert(p[i as int] == '/');
                        }
                        if w > i as int {
                            assert(p[w] == '/');
                        }
                    }
                }
                s
            },
            None => String::new(),
        };
        ConfigContainer {
            root_config_file: String::from_str(root_config_file),
            base_config_dir: base,
        }
    }

    /// The glob pattern one root-config path entry expands under this
    /// container's directory.
    pub fn glob_pattern(&self, config_path: &str) -> (r: String)
        ensures
            r@ == self.base_config_dir@ + "/"@ + config_path@,
    {
        let mut out = self.base_config_dir.clone();
        out.append("/");
        out.append(config_path);
        out
    }
}

} // verus!
