//! The serving pipeline: payloads with their matchers and rotations, the
//! static plugin, the backend wrapper that normalizes bodies, and the
//! service that walks backends first-match-first.

use vstd::prelude::*;
use vstd::string::*;

use crate::config::StaticHttpConfig;
use crate::errors::{HttpBackendErr, HttpPluginError};
use crate::matcher::{
    config_compile_ok, config_compiled_model, rule_matches, HttpRequest, RequestMatcher,
    RequestModel,
};
use crate::rotation::{
    compiled_response_model, resp_compile_ok, total_weight, ResponseModel, StaticResponse,
    StaticResponseContainer,
};
use crate::strutil::{copy_bytes, copy_pairs, pairs_view};
use crate::templates::render_template;
use crate::textcodec::utf8_string;

verus! {

/// A response ready to hand to the HTTP layer: status, headers, the
/// rendered body, and how long to wait before writing it.
pub struct HttpResponseParts {
    /// HTTP status code.
    pub status: u16,
    /// Response header (name, value) pairs in order.
    pub headers: Vec<(String, String)>,
    /// The rendered body text.
    pub body: String,
    /// Milliseconds to wait before the response is written.
    pub delay: u64,
}

/// The body served when template rendering fails, carrying the renderer's
/// message.
pub open spec fn render_failure_body(msg: Seq<char>) -> Seq<char> {
    "encountered an error rendering the response. Error "@ + msg
}

/// Turns a rendering outcome into the served body: the rendered text, or
/// the failure message.
pub fn body_from_render(render: Result<String, String>) -> (r: String)
    ensures
        match render {
            Ok(s) => r@ == s@,
            Err(m) => r@ == render_failure_body(m@),
        },
{
    match render {
        Ok(s) => s,
        Err(m) => {
            let mut b = String::from_str("encountered an error rendering the response. Error ");
            b.append(m.as_str());
            b
        },
    }
}

impl StaticResponse {
    /// Materializes this response for one request: renders the body
    /// template with the payload id and the request body, falling back to
    /// an error body when rendering fails. Status, headers and delay come
    /// from the compiled response; the body is whatever the renderer
    /// produced.
    pub fn make_response(
        &self,
        payload_id: &str,
        request_body: &Option<Vec<u8>>,
        hb: &handlebars::Handlebars<'static>,
    ) -> (r: HttpResponseParts)
        ensures
            r.status == self.status,
            pairs_view(r.headers@) == pairs_view(self.headers@),
            r.delay == self.delay,
    {
        let body_string: Option<String> = match request_body {
            None => None,
            Some(bytes) => Some(
                match utf8_string(bytes) {
                    Some(s) => s,
                    None => String::new(),
                },
            ),
        };
        let rendered = render_template(
            hb,
            self.handlebar_template_id.as_str(),
            payload_id,
            body_string.as_ref(),
        );
        let body = body_from_render(rendered);
        HttpResponseParts {
            status: self.status,
            headers: copy_pairs(&self.headers),
            body,
            delay: self.delay,
        }
    }
}

/// One payload: the unit of first-match dispatch, with its match rules and
/// its response rotation.
pub struct PayloadBackendConfig {
    /// The payload's stable identifier.
    pub id: String,
    /// The compiled match rules; the payload matches when any rule does.
    pub matchers: Vec<RequestMatcher>,
    /// The weighted rotation of compiled responses.
    pub responses: StaticResponseContainer,
}

/// A request matches a payload when any of its rules matches.
pub open spec fn payload_matches(p: PayloadBackendConfig, rm: RequestModel) -> bool {
    exists|i: int| 0 <= i < p.matchers@.len() && rule_matches(#[trigger] p.matchers@[i], rm)
}

impl PayloadBackendConfig {
    /// Well-formedness: the rotation is servable.
    pub open spec fn wf(self) -> bool {
        self.responses.wf()
    }

    /// When a whole payload config compiles.
    pub open spec fn config_ok(cfg: StaticHttpConfig<String>) -> bool {
        &&& forall|j: int|
            0 <= j < cfg.matches@.len() ==> config_compile_ok(#[trigger] cfg.matches@[j])
        &&& forall|j: int|
            0 <= j < cfg.responses@.len() ==> resp_compile_ok(#[trigger] cfg.responses@[j])
        &&& total_weight(cfg.responses@) > 0
    }

    /// How a compiled payload relates to its config: same id, each matcher
    /// compiled from its rule, each response compiled from its config, and
    /// the slot vector carrying each response's index `weight` times.
    pub open spec fn from_config(self, cfg: StaticHttpConfig<String>) -> bool {
        &&& self.id@ == cfg.id@
        &&& self.matchers@.len() == cfg.matches@.len()
        &&& forall|j: int|
            0 <= j < cfg.matches@.len() ==> (#[trigger] self.matchers@[j]).model()
                == config_compiled_model(cfg.matches@[j])
        &&& self.responses.pointer == 0
        &&& self.responses.responses@.len() == cfg.responses@.len()
        &&& forall|j: int|
            0 <= j < cfg.responses@.len() ==> (#[trigger] self.responses.responses@[j]).model()
                == compiled_response_model(cfg.id@, cfg.responses@[j])
        &&& self.responses.slots@.len() == total_weight(cfg.responses@)
        &&& forall|idx: int|
            0 <= idx < cfg.responses@.len() ==> self.responses.slots@.to_multiset().count(
                idx as usize,
            ) == cfg.responses@[idx].weight
    }

    /// Compiles one payload config: the response rotation first, then each
    /// match rule. Fails exactly when a piece fails or the rotation is
    /// empty.
    pub fn from_http_config(
        config: &StaticHttpConfig<String>,
        hb: &mut handlebars::Handlebars<'static>,
    ) -> (r: Result<PayloadBackendConfig, HttpPluginError>)
        ensures
            r is Ok <==> Self::config_ok(*config),
            r matches Ok(p) ==> p.wf() && p.from_config(*config),
    {
        let responses = match StaticResponseContainer::try_from(
            config.id.as_str(),
            &config.responses,
            hb,
        ) {
            Ok(c) => c,
            Err(e) => {
                return Err(e);
            },
        };
        let mut matchers: Vec<RequestMatcher> = Vec::new();
        let mut i: usize = 0;
        while i < config.matches.len()
            invariant
                i <= config.matches@.len(),
                matchers@.len() == i,
                forall|j: int| 0 <= j < i ==> config_compile_ok(#[trigger] config.matches@[j]),
                forall|j: int|
                    0 <= j < i ==> (#[trigger] matchers@[j]).model() == config_compiled_model(
                        config.matches@[j],
                    ),
            decreases config.matches@.len() - i,
        {
            match RequestMatcher::from_matches_config(&config.matches[i]) {
                Ok(m) => matchers.push(m),
                Err(e) => {
                    return Err(e);
                },
            }
            i = i + 1;
        }
        Ok(PayloadBackendConfig { id: config.id.clone(), matchers, responses })
    }

    /// Whether any of this payload's rules matches the request.
    pub fn matches(&self, req: &HttpRequest) -> (r: bool)
        ensures
            r == payload_matches(*self, req.model()),
    {
        let mut i: usize = 0;
        while i < self.matchers.len()
            invariant
                i <= self.matchers@.len(),
                forall|j: int| 0 <= j < i ==> !rule_matches(#[trigger] self.matchers@[j], req.model()),
            decreases self.matchers@.len() - i,
        {
            if self.matchers[i].request_matches(req) {
                return true;
            }
            i = i + 1;
        }
        false
    }
}

/// The compiled configuration of the static plugin: its payloads in
/// insertion order.
pub struct PluginBackendConfig {
    /// The payloads, walked first-match-first.
    pub payloads: Vec<PayloadBackendConfig>,
}

impl PluginBackendConfig {
    /// Well-formedness of every payload.
    pub open spec fn wf(self) -> bool {
        forall|j: int| 0 <= j < self.payloads@.len() ==> (#[trigger] self.payloads@[j]).wf()
    }

    /// Compiles every payload config in order.
    pub fn try_from(
        configs: &Vec<StaticHttpConfig<String>>,
        hb: &mut handlebars::Handlebars<'static>,
    ) -> (r: Result<PluginBackendConfig, HttpPluginError>)
        ensures
            r is Ok <==> forall|j: int|
                0 <= j < configs@.len() ==> PayloadBackendConfig::config_ok(
                    #[trigger] configs@[j],
                ),
            r matches Ok(c) ==> {
                &&& c.wf()
                &&& c.payloads@.len() == configs@.len()
                &&& forall|j: int|
                    0 <= j < configs@.len() ==> (#[trigger] c.payloads@[j]).from_config(
                        configs@[j],
                    )
            },
    {
        let mut payloads: Vec<PayloadBackendConfig> = Vec::new();
        let mut i: usize = 0;
        while i < configs.len()
            invariant
                i <= configs@.len(),
                payloads@.len() == i,
                forall|j: int|
                    0 <= j < i ==> PayloadBackendConfig::config_ok(#[trigger] configs@[j]),
                forall|j: int| 0 <= j < i ==> (#[trigger] payloads@[j]).wf(),
                forall|j: int|
                    0 <= j < i ==> (#[trigger] payloads@[j]).from_config(configs@[j]),
            decreases configs@.len() - i,
        {
            match PayloadBackendConfig::from_http_config(&configs[i], hb) {
                Ok(p) => payloads.push(p),
                Err(e) => {
                    return Err(e);
                },
            }
            i = i + 1;
        }
        Ok(PluginBackendConfig { payloads })
    }
}

/// Payload `i` is the first match for the request.
pub open spec fn is_first_match(
    payloads: Seq<PayloadBackendConfig>,
    rm: RequestModel,
    i: int,
) -> bool {
    &&& 0 <= i < payloads.len()
    &&& payload_matches(payloads[i], rm)
    &&& forall|j: int| 0 <= j < i ==> !payload_matches(#[trigger] payloads[j], rm)
}

/// The response the payload's rotation currently points at.
pub open spec fn selected_response(p: PayloadBackendConfig) -> ResponseModel {
    p.responses.responses@[p.responses.slots@[p.responses.pointer as int] as int].model()
}

/// The payload after one selection: everything unchanged but the cursor,
/// which advanced by one modulo the slot count.
pub open spec fn advanced(p_old: PayloadBackendConfig, p_new: PayloadBackendConfig) -> bool {
    &&& p_new.id == p_old.id
    &&& p_new.matchers == p_old.matchers
    &&& p_new.responses.responses == p_old.responses.responses
    &&& p_new.responses.slots == p_old.responses.slots
    &&& p_new.responses.pointer as int == (p_old.responses.pointer + 1) % (
    p_old.responses.slots@.len() as int)
}

/// The parts served for a request whose first matching payload was `i`:
/// drawn from the response the rotation pointed at, with that rotation
/// advanced and every other payload untouched.
pub open spec fn served_parts(
    parts: HttpResponseParts,
    old_payloads: Seq<PayloadBackendConfig>,
    new_payloads: Seq<PayloadBackendConfig>,
    rm: RequestModel,
) -> bool {
    exists|i: int|
        {
            &&& #[trigger] is_first_match(old_payloads, rm, i)
            &&& parts.status == selected_response(old_payloads[i]).status
            &&& pairs_view(parts.headers@) == selected_response(old_payloads[i]).headers
            &&& parts.delay == selected_response(old_payloads[i]).delay
            &&& new_payloads.len() == old_payloads.len()
            &&& advanced(old_payloads[i], new_payloads[i])
            &&& forall|j: int|
                0 <= j < old_payloads.len() && j != i ==> new_payloads[j] == #[trigger] old_payloads[j]
        }
}

/// The static plugin: serves a request from the first matching payload's
/// rotation, or reports no match.
pub struct HttpStaticPlugin {
    /// The compiled plugin configuration.
    pub config: PluginBackendConfig,
}

impl HttpStaticPlugin {
    /// Well-formedness of the underlying payloads.
    pub open spec fn wf(self) -> bool {
        self.config.wf()
    }

    /// Walks the payloads in insertion order; the first whose rules match
    /// serves the request from its rotation, which advances by one. No
    /// match leaves the plugin untouched and yields `None`.
    pub fn respond_to_request(
        &mut self,
        req: &HttpRequest,
        hb: &handlebars::Handlebars<'static>,
    ) -> (r: Option<HttpResponseParts>)
        requires
            old(self).wf(),
        ensures
            final(self).wf(),
            r is None <==> !exists|i: int|
                0 <= i < old(self).config.payloads@.len() && payload_matches(
                    #[trigger] old(self).config.payloads@[i],
                    req.model(),
                ),
            r is None ==> *final(self) == *old(self),
            r matches Some(parts) ==> served_parts(
                parts,
                old(self).config.payloads@,
                final(self).config.payloads@,
                req.model(),
            ),
    {
        let n = self.config.payloads.len();
        let mut i: usize = 0;
        while i < n
            invariant
                n == self.config.payloads@.len(),
                i <= n,
                *self == *old(self),
                old(self).wf(),
                forall|j: int|
                    0 <= j < i ==> !payload_matches(
                        #[trigger] self.config.payloads@[j],
                        req.model(),
                    ),
            decreases n - i,
        {
            if self.config.payloads[i].matches(req) {
                let ghost old_payloads = self.config.payloads@;
                let payload = &mut self.config.payloads[i];
                let idx = payload.responses.get_response();
                let resp = &payload.responses.responses[idx];
                let parts = resp.make_response(payload.id.as_str(), &req.body, hb);
                proof {
                    assert(is_first_match(old_payloads, req.model(), i as int));
                    assert(advanced(old_payloads[i as int], self.config.payloads@[i as int]));
                }
                return Some(parts);
            }
            i = i + 1;
        }
        None
    }
}

/// The model of a raw request once the service has normalized it: a
/// zero-length body counts as no body.
pub open spec fn request_model(
    method: Seq<char>,
    path: Seq<char>,
    query: Option<Seq<char>>,
    headers: Seq<(Seq<char>, Seq<char>)>,
    body: Seq<u8>,
) -> RequestModel {
    RequestModel {
        method,
        path,
        query,
        headers,
        body: if body.len() == 0 {
            None
        } else {
            Some(body)
        },
    }
}

/// The view of an optional owned string.
pub open spec fn query_view(q: Option<String>) -> Option<Seq<char>> {
    match q {
        None => None,
        Some(s) => Some(s@),
    }
}

/// One backend of the service; it normalizes the request body and hands
/// the request to its plugin.
pub struct HttpBackend {
    /// The plugin this backend serves from.
    pub http_plugin: HttpStaticPlugin,
}

/// Whether any payload of the backend's plugin matches.
pub open spec fn backend_matches(b: HttpBackend, rm: RequestModel) -> bool {
    exists|i: int|
        0 <= i < b.http_plugin.config.payloads@.len() && payload_matches(
            #[trigger] b.http_plugin.config.payloads@[i],
            rm,
        )
}

impl HttpBackend {
    /// Well-formedness of the underlying plugin.
    pub open spec fn wf(self) -> bool {
        self.http_plugin.wf()
    }

    /// Wraps a plugin as a backend.
    pub fn new(plugin: HttpStaticPlugin) -> (r: HttpBackend)
        ensures
            r.http_plugin == plugin,
    {
        HttpBackend { http_plugin: plugin }
    }

    /// Handles one request: collapses an empty body to none, then asks the
    /// plugin for a response. Never fails; the error type stands for the
    /// body-assembly failures handled before this point.
    pub fn handle_request(
        &mut self,
        method: &String,
        path: &String,
        query: &Option<String>,
        headers: &Vec<(String, String)>,
        body: &Vec<u8>,
        hb: &handlebars::Handlebars<'static>,
    ) -> (r: Result<Option<HttpResponseParts>, HttpBackendErr>)
        requires
            old(self).wf(),
        ensures
            final(self).wf(),
            r is Ok,
            ({
                let rm = request_model(
                    method@,
                    path@,
                    query_view(*query),
                    pairs_view(headers@),
                    body@,
                );
                match r {
                    Ok(None) => *final(self) == *old(self) && !backend_matches(*old(self), rm),
                    Ok(Some(parts)) => served_parts(
                        parts,
                        old(self).http_plugin.config.payloads@,
                        final(self).http_plugin.config.payloads@,
                        rm,
                    ),
                    Err(_) => false,
                }
            }),
    {
        let normalized: Option<Vec<u8>> = if body.len() == 0 {
            None
        } else {
            Some(copy_bytes(body))
        };
        let query_copy: Option<String> = match query {
            None => None,
            Some(q) => Some(q.clone()),
        };
        let req = HttpRequest {
            method: method.clone(),
            path: path.clone(),
            query: query_copy,
            headers: copy_pairs(headers),
            body: normalized,
        };
        match self.http_plugin.respond_to_request(&req, hb) {
            Some(parts) => Ok(Some(parts)),
            None => Ok(None),
        }
    }
}

/// The service: an ordered list of backends, walked until one responds;
/// none responding yields the 404 default.
pub struct HyperService {
    /// The backends in walk order.
    pub backends: Vec<HttpBackend>,
}

/// Whether any backend of the service matches.
pub open spec fn service_matches(s: HyperService, rm: RequestModel) -> bool {
    exists|b: int| 0 <= b < s.backends@.len() && backend_matches(#[trigger] s.backends@[b], rm)
}

/// Backend `b` is the first whose plugin matches.
pub open spec fn is_first_backend(seq: Seq<HttpBackend>, rm: RequestModel, b: int) -> bool {
    &&& 0 <= b < seq.len()
    &&& backend_matches(seq[b], rm)
    &&& forall|j: int| 0 <= j < b ==> !backend_matches(#[trigger] seq[j], rm)
}

impl HyperService {
    /// Well-formedness of every backend.
    pub open spec fn wf(self) -> bool {
        forall|j: int| 0 <= j < self.backends@.len() ==> (#[trigger] self.backends@[j]).wf()
    }

    /// Wraps each plugin as a backend, in order.
    pub fn new(plugins: Vec<HttpStaticPlugin>) -> (r: HyperService)
        ensures
            r.backends@.len() == plugins@.len(),
            forall|j: int|
                0 <= j < plugins@.len() ==> (#[trigger] r.backends@[j]).http_plugin
                    == plugins@[j],
    {
        let ghost orig = plugins@;
        let mut plugins = plugins;
        let mut rev: Vec<HttpStaticPlugin> = Vec::new();
        while plugins.len() > 0
            invariant
                plugins@.len() + rev@.len() == orig.len(),
                plugins@ == orig.take(plugins@.len() as int),
                forall|j: int|
                    0 <= j < rev@.len() ==> rev@[j] == orig[orig.len() - 1 - j],
            decreases plugins@.len(),
        {
            let p = plugins.pop().unwrap();
            rev.push(p);
        }
        let mut backends: Vec<HttpBackend> = Vec::new();
        while rev.len() > 0
            invariant
                rev@.len() + backends@.len() == orig.len(),
                forall|j: int|
                    0 <= j < rev@.len() ==> rev@[j] == orig[orig.len() - 1 - j],
                forall|j: int|
                    0 <= j < backends@.len() ==> (#[trigger] backends@[j]).http_plugin == orig[j],
            decreases rev@.len(),
        {
            let p = rev.pop().unwrap();
            backends.push(HttpBackend::new(p));
        }
        HyperService { backends }
    }

    /// Serves one request: walks the backends in order; the first that
    /// responds wins, and with no response the service answers 404 with an
    /// empty body.
    pub fn process_plugins(
        &mut self,
        method: &String,
        path: &String,
        query: &Option<String>,
        headers: &Vec<(String, String)>,
        body: &Vec<u8>,
        hb: &handlebars::Handlebars<'static>,
    ) -> (r: HttpResponseParts)
        requires
            old(self).wf(),
        ensures
            final(self).wf(),
            ({
                let rm = request_model(
                    method@,
                    path@,
                    query_view(*query),
                    pairs_view(headers@),
                    body@,
                );
                &&& !service_matches(*old(self), rm) ==> final(self).backends@
                    == old(self).backends@ && r.status == 404 && r.headers@.len() == 0
                    && r.body@.len() == 0 && r.delay == 0
                &&& service_matches(*old(self), rm) ==> exists|b: int|
                    {
                        &&& #[trigger] is_first_backend(old(self).backends@, rm, b)
                        &&& final(self).backends@.len() == old(self).backends@.len()
                        &&& served_parts(
                            r,
                            old(self).backends@[b].http_plugin.config.payloads@,
                            final(self).backends@[b].http_plugin.config.payloads@,
                            rm,
                        )
                        &&& forall|j: int|
                            0 <= j < old(self).backends@.len() && j != b
                                ==> final(self).backends@[j] == #[trigger] old(self).backends@[j]
                    }
            }),
    {
        let ghost rm = request_model(method@, path@, query_view(*query), pairs_view(headers@), body@);
        let n = self.backends.len();
        let mut b: usize = 0;
        while b < n
            invariant
                n == self.backends@.len(),
                b <= n,
                old(self).wf(),
                self.backends@ == old(self).backends@,
                rm == request_model(
                    method@,
                    path@,
                    query_view(*query),
                    pairs_view(headers@),
                    body@,
                ),
                forall|j: int| 0 <= j < b ==> !backend_matches(#[trigger] self.backends@[j], rm),
            decreases n - b,
        {
            let ghost old_backends = self.backends@;
            let backend = &mut self.backends[b];
            let outcome = backend.handle_request(method, path, query, headers, body, hb);
            match outcome {
                Ok(Some(parts)) => {
                    proof {
                        assert(backend_matches(old_backends[b as int], rm));
                        assert(is_first_backend(old_backends, rm, b as int));
                    }
                    return parts;
                },
                Ok(None) => {
                    proof {
                        assert(self.backends@ =~= old_backends);
                    }
                },
                Err(_) => {},
            }
            b = b + 1;
        }
        HttpResponseParts { status: 404, headers: Vec::new(), body: String::new(), delay: 0 }
    }
}

/// Accumulates static-HTTP configs and builds the plugin from them.
pub struct HttpStaticPluginBuilder {
    /// The configs loaded so far, in order.
    pub configs: Vec<StaticHttpConfig<String>>,
}

impl HttpStaticPluginBuilder {
    /// An empty builder.
    pub fn new() -> (r: HttpStaticPluginBuilder)
        ensures
            r.configs@.len() == 0,
    {
        HttpStaticPluginBuilder { configs: Vec::new() }
    }

    /// Appends one config.
    pub fn load_config(&mut self, config: StaticHttpConfig<String>)
        ensures
            final(self).configs@ == old(self).configs@.push(config),
    {
        self.configs.push(config);
    }

    /// Compiles the loaded configs into the static plugin.
    pub fn build(self, hb: &mut handlebars::Handlebars<'static>) -> (r: Result<
        HttpStaticPlugin,
        HttpPluginError,
    >)
        ensures
            r is Ok <==> forall|j: int|
                0 <= j < self.configs@.len() ==> PayloadBackendConfig::config_ok(
                    #[trigger] self.configs@[j],
                ),
            r matches Ok(p) ==> {
                &&& p.wf()
                &&& p.config.payloads@.len() == self.configs@.len()
                &&& forall|j: int|
                    0 <= j < self.configs@.len() ==> (#[trigger] p.config.payloads@[j]).from_config(
                        self.configs@[j],
                    )
            },
    {
        match PluginBackendConfig::try_from(&self.configs, hb) {
            Ok(plugin_config) => Ok(HttpStaticPlugin { config: plugin_config }),
            Err(e) => Err(e),
        }
    }
}

/// Decides one reload tick: a successfully rebuilt service replaces the
/// live one, a failed rebuild keeps it.
pub fn apply_reload(current: HyperService, loaded: Result<HyperService, HttpPluginError>) -> (r:
    HyperService)
    ensures
        match loaded {
            Ok(next) => r == next,
            Err(_) => r == current,
        },
{
    match loaded {
        Ok(next) => next,
        Err(_) => current,
    }
}

/// Two payloads compiled from the same config agree on everything but the
/// randomized slot order: same id, same matcher models, same response
/// models, and slot vectors that are permutations of one another.
pub proof fn lemma_reload_deterministic(
    p1: PayloadBackendConfig,
    p2: PayloadBackendConfig,
    cfg: StaticHttpConfig<String>,
)
    requires
        p1.wf(),
        p2.wf(),
        p1.from_config(cfg),
        p2.from_config(cfg),
    ensures
        p1.id@ == p2.id@,
        p1.matchers@.len() == p2.matchers@.len(),
        forall|j: int|
            0 <= j < p1.matchers@.len() ==> (#[trigger] p1.matchers@[j]).model()
                == p2.matchers@[j].model(),
        p1.responses.responses@.len() == p2.responses.responses@.len(),
        forall|j: int|
            0 <= j < p1.responses.responses@.len() ==> (#[trigger] p1.responses.responses@[j]).model()
                == p2.responses.responses@[j].model(),
        p1.responses.slots@.to_multiset() == p2.responses.slots@.to_multiset(),
{
    broadcast use vstd::seq_lib::group_to_multiset_ensures;

    let m1 = p1.responses.slots@.to_multiset();
    let m2 = p2.responses.slots@.to_multiset();
    assert forall|v: usize| m1.count(v) == m2.count(v) by {
        if (v as int) < cfg.responses@.len() {
            let idx: int = v as int;
            assert(m1.count(idx as usize) == cfg.responses@[idx].weight);
            assert(m2.count(idx as usize) == cfg.responses@[idx].weight);
            assert(idx as usize == v);
        } else {
            assert(m1.count(v) == 0) by {
                if m1.count(v) > 0 {
                    assert(p1.responses.slots@.contains(v));
                    let k = choose|k: int|
                        0 <= k < p1.responses.slots@.len() && p1.responses.slots@[k] == v;
                    assert((p1.responses.slots@[k] as int) < p1.responses.responses@.len());
                }
            }
            assert(m2.count(v) == 0) by {
                if m2.count(v) > 0 {
                    assert(p2.responses.slots@.contains(v));
                    let k = choose|k: int|
                        0 <= k < p2.responses.slots@.len() && p2.responses.slots@[k] == v;
                    assert((p2.responses.slots@[k] as int) < p2.responses.responses@.len());
                }
            }
        }
    }
    assert(m1 =~= m2);
}

} // verus!
