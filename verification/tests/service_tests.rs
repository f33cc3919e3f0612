use dev_null::backend::{HttpStaticPluginBuilder, HyperService};
use dev_null::config::{
    StaticHttpConfig, StaticMatchesConfig, StaticResponseBodyConfig, StaticResponseConfig,
};
use dev_null::plugin_defs::{LuaPluginDef, PluginSource, StaticPluginDef, WasmPluginDef};

fn wildcard_rule() -> StaticMatchesConfig {
    StaticMatchesConfig {
        path: String::new(),
        query: Vec::new(),
        headers: Vec::new(),
        methods: Vec::new(),
        graphql: None,
    }
}

fn http_config(
    id: &str,
    rule: StaticMatchesConfig,
    responses: Vec<StaticResponseConfig<String>>,
) -> StaticHttpConfig<String> {
    StaticHttpConfig {
        id: id.to_string(),
        matches: vec![rule],
        responses,
    }
}

fn raw_response(id: &str, status: u16, body: &str) -> StaticResponseConfig<String> {
    StaticResponseConfig {
        id: id.to_string(),
        weight: 1,
        status,
        headers: Vec::new(),
        body: Some(StaticResponseBodyConfig::Raw(body.to_string())),
        delay: 0,
    }
}

fn service_for(configs: Vec<StaticHttpConfig<String>>, hb: &mut handlebars::Handlebars<'static>) -> HyperService {
    let mut builder = HttpStaticPluginBuilder::new();
    for c in configs {
        builder.load_config(c);
    }
    let plugin = builder.build(hb).unwrap();
    HyperService::new(vec![plugin])
}

#[test]
fn empty_matcher_matches_all() {
    let mut hb = handlebars::Handlebars::new();
    let mut service = service_for(
        vec![http_config("p1", wildcard_rule(), vec![raw_response("r1", 200, "ok")])],
        &mut hb,
    );
    let parts = service.process_plugins(
        &"GET".to_string(),
        &"/anything".to_string(),
        &None,
        &Vec::new(),
        &Vec::new(),
        &hb,
    );
    assert_eq!(parts.status, 200);
    assert_eq!(parts.body, "ok");
    assert!(parts
        .headers
        .iter()
        .any(|(n, v)| n == "x-dev-null-response-id" && v == "r1"));
}

#[test]
fn method_filter_yields_404_on_mismatch() {
    let mut hb = handlebars::Handlebars::new();
    let rule = StaticMatchesConfig {
        methods: vec!["GET".to_string()],
        ..wildcard_rule()
    };
    let mut service = service_for(
        vec![http_config("p1", rule, vec![raw_response("r1", 200, "g")])],
        &mut hb,
    );
    let ok = service.process_plugins(
        &"GET".to_string(),
        &"/".to_string(),
        &None,
        &Vec::new(),
        &Vec::new(),
        &hb,
    );
    assert_eq!(ok.status, 200);
    assert_eq!(ok.body, "g");
    let miss = service.process_plugins(
        &"PUT".to_string(),
        &"/".to_string(),
        &None,
        &Vec::new(),
        &Vec::new(),
        &hb,
    );
    assert_eq!(miss.status, 404);
    assert!(miss.body.is_empty());
    assert!(miss.headers.is_empty());
}

#[test]
fn first_matching_payload_wins() {
    let mut hb = handlebars::Handlebars::new();
    let mut service = service_for(
        vec![
            http_config("p1", wildcard_rule(), vec![raw_response("r1", 201, "first")]),
            http_config("p2", wildcard_rule(), vec![raw_response("r2", 202, "second")]),
        ],
        &mut hb,
    );
    let parts = service.process_plugins(
        &"GET".to_string(),
        &"/".to_string(),
        &None,
        &Vec::new(),
        &Vec::new(),
        &hb,
    );
    assert_eq!(parts.status, 201);
    assert_eq!(parts.body, "first");
}

#[test]
fn empty_body_is_normalized_away() {
    let mut hb = handlebars::Handlebars::new();
    let rule = StaticMatchesConfig {
        graphql: Some(dev_null::config::GraphqlStaticMatchConfig {
            operation_name: "^Op$".to_string(),
        }),
        ..wildcard_rule()
    };
    let mut service = service_for(
        vec![http_config("p1", rule, vec![raw_response("r1", 200, "yes")])],
        &mut hb,
    );
    // empty body counts as no body: the graphql constraint fails
    let miss = service.process_plugins(
        &"POST".to_string(),
        &"/".to_string(),
        &None,
        &Vec::new(),
        &Vec::new(),
        &hb,
    );
    assert_eq!(miss.status, 404);
    let hit = service.process_plugins(
        &"POST".to_string(),
        &"/".to_string(),
        &None,
        &Vec::new(),
        &br#"{"operationName":"Op"}"#.to_vec(),
        &hb,
    );
    assert_eq!(hit.status, 200);
}

#[test]
fn delay_is_carried_through() {
    let mut hb = handlebars::Handlebars::new();
    let mut resp = raw_response("r1", 200, "ok");
    resp.delay = 250;
    let mut service = service_for(vec![http_config("p1", wildcard_rule(), vec![resp])], &mut hb);
    let parts = service.process_plugins(
        &"GET".to_string(),
        &"/".to_string(),
        &None,
        &Vec::new(),
        &Vec::new(),
        &hb,
    );
    assert_eq!(parts.delay, 250);
}

#[test]
fn template_variables_render() {
    let mut hb = handlebars::Handlebars::new();
    hb.register_escape_fn(handlebars::no_escape);
    let mut service = service_for(
        vec![http_config(
            "payload-7",
            wildcard_rule(),
            vec![raw_response("r1", 200, "id={{payload_id}} body={{request_body}}")],
        )],
        &mut hb,
    );
    let parts = service.process_plugins(
        &"POST".to_string(),
        &"/".to_string(),
        &None,
        &Vec::new(),
        &b"hello".to_vec(),
        &hb,
    );
    assert_eq!(parts.body, "id=payload-7 body=hello");
}

#[test]
fn render_failure_produces_error_body() {
    // an unregistered template id cannot render; the response still goes out
    let mut hb = handlebars::Handlebars::new();
    let resp = dev_null::rotation::StaticResponse {
        status: 200,
        headers: Vec::new(),
        handlebar_template_id: "never-registered".to_string(),
        delay: 0,
    };
    let parts = resp.make_response("p", &None, &hb);
    assert_eq!(parts.status, 200);
    assert!(parts
        .body
        .starts_with("encountered an error rendering the response. Error "));
}

#[test]
fn reload_keeps_current_service_on_failure() {
    let mut hb = handlebars::Handlebars::new();
    let current = service_for(
        vec![http_config("p1", wildcard_rule(), vec![raw_response("r1", 200, "ok")])],
        &mut hb,
    );
    let kept = dev_null::backend::apply_reload(
        current,
        Err(dev_null::errors::HttpPluginError::NoResponsesProvided),
    );
    assert_eq!(kept.backends.len(), 1);
    let next = service_for(vec![], &mut hb);
    let swapped = dev_null::backend::apply_reload(kept, Ok(next));
    assert_eq!(swapped.backends.len(), 1);
}

#[test]
fn unsupported_plugin_sources_fail_at_load() {
    assert!(PluginSource::Static(StaticPluginDef {}).require_static().is_ok());
    assert!(PluginSource::WasmPlugin(WasmPluginDef { path: "a.wasm".to_string() })
        .require_static()
        .is_err());
    assert!(PluginSource::LuaPlugin(LuaPluginDef { path: "a.lua".to_string() })
        .require_static()
        .is_err());
}

#[test]
fn two_loads_of_one_config_compile_identically() {
    let mut hb = handlebars::Handlebars::new();
    let make = || {
        let rule = StaticMatchesConfig {
            path: "/api/.*".to_string(),
            methods: vec!["GET".to_string()],
            ..wildcard_rule()
        };
        http_config("p1", rule, vec![raw_response("r1", 203, "same")])
    };
    let mut first = service_for(vec![make()], &mut hb);
    let mut second = service_for(vec![make()], &mut hb);
    for (method, path, status) in [
        ("GET", "/api/users", 203u16),
        ("PUT", "/api/users", 404),
        ("GET", "/other", 404),
    ] {
        let a = first.process_plugins(
            &method.to_string(),
            &path.to_string(),
            &None,
            &Vec::new(),
            &Vec::new(),
            &hb,
        );
        let b = second.process_plugins(
            &method.to_string(),
            &path.to_string(),
            &None,
            &Vec::new(),
            &Vec::new(),
            &hb,
        );
        assert_eq!(a.status, status);
        assert_eq!(b.status, status);
        assert_eq!(a.headers, b.headers);
        assert_eq!(a.body, b.body);
    }
}
