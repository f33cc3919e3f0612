use dev_null::config::{ResponseData, StaticMatchesConfig, StaticResponseBodyConfig,
    StaticResponseConfig};
use dev_null::errors::HttpPluginError;
use dev_null::har::{
    config_filename, matcher_to_filename, Content, EntryWrapperWithBody, HarConvertor, HarFile,
    LogEntry, NameValueEntry, RequestEntry, RequestWrapper, ResponseEntry,
};

fn entry(method: &str, url: &str, status: i32, mime: &str, text: Option<&str>) -> RequestWrapper {
    RequestWrapper {
        started_date_time: "2023-01-01T00:00:00Z".to_string(),
        request: RequestEntry {
            method: method.to_string(),
            url: url.to_string(),
            headers: Vec::new(),
            cookies: Vec::new(),
            query_string: Vec::new(),
        },
        response: ResponseEntry {
            status,
            status_text: "OK".to_string(),
            headers: vec![NameValueEntry {
                name: "Content-Type".to_string(),
                value: mime.to_string(),
            }],
            cookies: Vec::new(),
            content: Content {
                mime_type: mime.to_string(),
                text: text.map(|t| t.to_string()),
            },
        },
    }
}

fn har(entries: Vec<RequestWrapper>) -> HarFile {
    HarFile {
        log: LogEntry { entries },
    }
}

#[test]
fn filename_uses_sanitized_path_and_digest_prefix() {
    let wrapper = EntryWrapperWithBody {
        matcher: StaticMatchesConfig {
            path: "/api/users".to_string(),
            query: Vec::new(),
            headers: Vec::new(),
            methods: vec!["GET".to_string()],
            graphql: None,
        },
        response_config: StaticResponseConfig {
            id: "r".to_string(),
            weight: 1,
            status: 200,
            headers: vec![("Content-Type".to_string(), "application/json".to_string())],
            body: None,
            delay: 0,
        },
        body: Some("x".to_string()),
    };
    let name = matcher_to_filename(&wrapper, "abcdef012345".to_string());
    assert_eq!(name, "GET_api__users_abcdef.json");
}

#[test]
fn filename_keeps_path_extension() {
    let wrapper = EntryWrapperWithBody {
        matcher: StaticMatchesConfig {
            path: "/data/file.html".to_string(),
            query: Vec::new(),
            headers: Vec::new(),
            methods: vec!["GET".to_string()],
            graphql: None,
        },
        response_config: StaticResponseConfig {
            id: "r".to_string(),
            weight: 1,
            status: 200,
            headers: Vec::new(),
            body: None,
            delay: 0,
        },
        body: Some("x".to_string()),
    };
    let name = matcher_to_filename(&wrapper, "0123456789".to_string());
    assert_eq!(name, "GET_data__file_012345.html");
}

#[test]
fn root_path_maps_to_root_html() {
    let wrapper = EntryWrapperWithBody {
        matcher: StaticMatchesConfig {
            path: "/".to_string(),
            query: Vec::new(),
            headers: Vec::new(),
            methods: vec!["GET".to_string()],
            graphql: None,
        },
        response_config: StaticResponseConfig {
            id: "r".to_string(),
            weight: 1,
            status: 200,
            headers: Vec::new(),
            body: None,
            delay: 0,
        },
        body: Some("x".to_string()),
    };
    let name = matcher_to_filename(&wrapper, "feedbeef00".to_string());
    assert_eq!(name, "GET_root_feedbe.html");
}

#[test]
fn same_matcher_groups_into_one_config() {
    let convertor = HarConvertor::new("capture.har");
    let body = r#"[{"a":1}]"#;
    let plan = convertor
        .convert(&har(vec![
            entry("GET", "https://x.test/api/users", 200, "application/json", Some(body)),
            entry("GET", "https://x.test/api/users", 200, "application/json", Some(body)),
        ]))
        .unwrap();

    assert_eq!(plan.groups.len(), 1);
    let group = &plan.groups[0];
    assert_eq!(group.matches.len(), 1);
    assert_eq!(group.matches[0].path, "/api/users");
    assert_eq!(group.matches[0].methods, vec!["GET".to_string()]);
    // one response template per source entry in the group
    assert_eq!(group.responses.len(), 2);

    // identical bodies digest to the same asset file name
    assert_eq!(plan.assets.len(), 2);
    assert_eq!(plan.assets[0].0, plan.assets[1].0);
    assert!(plan.assets[0].0.ends_with(".json"));
    // the externalized body points at that asset
    match &group.responses[0].body {
        Some(StaticResponseBodyConfig::Raw(ResponseData::File(f))) => {
            assert_eq!(f, &plan.assets[0].0)
        }
        other => panic!("unexpected body {:?}", other.is_some()),
    }
}

#[test]
fn distinct_matchers_get_distinct_groups() {
    let convertor = HarConvertor::new("capture.har");
    let plan = convertor
        .convert(&har(vec![
            entry("GET", "https://x.test/a", 200, "text/plain", Some("one")),
            entry("POST", "https://x.test/a", 201, "text/plain", Some("two")),
            entry("GET", "https://x.test/a", 202, "text/plain", None),
        ]))
        .unwrap();
    // GET /a and POST /a differ by method; the third entry joins the first group
    assert_eq!(plan.groups.len(), 2);
    assert_eq!(plan.groups[0].responses.len(), 2);
    assert_eq!(plan.groups[1].responses.len(), 1);
    assert_eq!(plan.groups[0].responses[0].status, 200);
    assert_eq!(plan.groups[0].responses[1].status, 202);
    assert_eq!(plan.groups[1].responses[0].status, 201);
    // the entry without a body creates no asset and no body reference
    assert_eq!(plan.assets.len(), 2);
    assert!(plan.groups[0].responses[1].body.is_none());
}

#[test]
fn json_bodies_are_pretty_printed() {
    let convertor = HarConvertor::new("c.har");
    let plan = convertor
        .convert(&har(vec![entry(
            "GET",
            "https://x.test/api",
            200,
            "application/json",
            Some(r#"{"a":1}"#),
        )]))
        .unwrap();
    assert_eq!(plan.assets.len(), 1);
    assert_eq!(plan.assets[0].1, "{\n  \"a\": 1\n}");
}

#[test]
fn non_json_bodies_pass_verbatim() {
    let convertor = HarConvertor::new("c.har");
    let plan = convertor
        .convert(&har(vec![entry(
            "GET",
            "https://x.test/api",
            200,
            "text/plain",
            Some("plain text, not json"),
        )]))
        .unwrap();
    assert_eq!(plan.assets[0].1, "plain text, not json");
}

#[test]
fn conversion_is_deterministic_except_ids() {
    let entries = || {
        har(vec![
            entry("GET", "https://x.test/api/users", 200, "application/json", Some(r#"[1,2]"#)),
            entry("PUT", "https://x.test/api/users/3", 204, "text/plain", None),
            entry("GET", "https://x.test/api/users", 500, "text/plain", Some("boom")),
        ])
    };
    let convertor = HarConvertor::new("c.har");
    let p1 = convertor.convert(&entries()).unwrap();
    let p2 = convertor.convert(&entries()).unwrap();

    // asset files are byte-identical across runs
    assert_eq!(p1.assets, p2.assets);
    // groups agree on everything but the minted ids
    assert_eq!(p1.groups.len(), p2.groups.len());
    for (g1, g2) in p1.groups.iter().zip(p2.groups.iter()) {
        assert_eq!(g1.matches[0].path, g2.matches[0].path);
        assert_eq!(g1.matches[0].methods, g2.matches[0].methods);
        assert_eq!(g1.responses.len(), g2.responses.len());
        for (r1, r2) in g1.responses.iter().zip(g2.responses.iter()) {
            assert_eq!(r1.status, r2.status);
            assert_eq!(r1.weight, r2.weight);
            assert_eq!(r1.headers, r2.headers);
        }
    }
    // the ids are the only variability: fresh UUIDs each run
    assert_ne!(p1.groups[0].id, p2.groups[0].id);
}

#[test]
fn query_parameters_become_literal_matchers() {
    let mut e = entry("GET", "https://x.test/search?q=abc", 200, "text/plain", None);
    e.request.query_string = vec![NameValueEntry {
        name: "q".to_string(),
        value: "abc".to_string(),
    }];
    let convertor = HarConvertor::new("c.har");
    let plan = convertor.convert(&har(vec![e])).unwrap();
    assert_eq!(
        plan.groups[0].matches[0].query,
        vec![("q".to_string(), "abc".to_string())]
    );
}

#[test]
fn bad_url_fails_conversion() {
    let convertor = HarConvertor::new("c.har");
    let r = convertor.convert(&har(vec![entry("GET", "not a url", 200, "text/plain", None)]));
    assert!(matches!(r, Err(HttpPluginError::UrlParseError(_))));
}

#[test]
fn config_filename_digests_the_document() {
    let matcher = StaticMatchesConfig {
        path: "/api/users".to_string(),
        query: Vec::new(),
        headers: Vec::new(),
        methods: vec!["GET".to_string()],
        graphql: None,
    };
    // md5("yamltext") begins with 894582
    assert_eq!(config_filename(&matcher, "yamltext"), "GET_api__users_894582.yaml");
}

#[test]
fn asset_digest_is_md5_of_the_raw_body() {
    // md5("hello") = 5d41402abc4b2a76b9719d911017c592
    let convertor = HarConvertor::new("c.har");
    let plan = convertor
        .convert(&har(vec![entry(
            "GET",
            "https://x.test/greeting",
            200,
            "text/plain",
            Some("hello"),
        )]))
        .unwrap();
    assert_eq!(plan.assets[0].0, "GET_greeting_5d4140");
}
