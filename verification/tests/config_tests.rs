use dev_null::config::{
    ConfigContainer, ResponseConfig, ResponseData, StaticHttpConfig, StaticMatchesConfig,
    StaticResponseBodyConfig, StaticResponseConfig,
};
use dev_null::errors::{ConfigError, HttpBackendErr, HttpPluginError, HttpStaticError};
use dev_null::strutil::{contains_sub, replace_slashes, str_eq, str_eq_ci, trim_char};

fn raw_file_response(id: &str, file: &str) -> StaticResponseConfig<ResponseData> {
    StaticResponseConfig {
        id: id.to_string(),
        weight: 1,
        status: 200,
        headers: Vec::new(),
        body: Some(StaticResponseBodyConfig::Raw(ResponseData::File(
            file.to_string(),
        ))),
        delay: 0,
    }
}

fn inline_response(id: &str, data: &str) -> StaticResponseConfig<ResponseData> {
    StaticResponseConfig {
        id: id.to_string(),
        weight: 1,
        status: 200,
        headers: Vec::new(),
        body: Some(StaticResponseBodyConfig::Raw(ResponseData::Data(
            data.to_string(),
        ))),
        delay: 0,
    }
}

#[test]
fn inline_data_passes_through() {
    let data = ResponseData::Data("hello".to_string());
    assert_eq!(data.make_static(None).unwrap(), "hello");
    assert_eq!(data.file_ref(), None);
}

#[test]
fn file_data_takes_supplied_contents() {
    let data = ResponseData::File("body.json".to_string());
    assert_eq!(data.file_ref().unwrap(), "body.json");
    assert_eq!(
        data.make_static(Some(&"from disk".to_string())).unwrap(),
        "from disk"
    );
    assert!(matches!(
        data.make_static(None),
        Err(ConfigError::MissingBodyFile(_))
    ));
}

#[test]
fn config_resolution_inlines_bodies() {
    let cfg = StaticHttpConfig {
        id: "c1".to_string(),
        matches: vec![StaticMatchesConfig {
            path: "/x".to_string(),
            query: Vec::new(),
            headers: Vec::new(),
            methods: Vec::new(),
            graphql: None,
        }],
        responses: vec![
            raw_file_response("r1", "a.json"),
            inline_response("r2", "inline"),
        ],
    };
    let contents = vec![Some("file contents".to_string()), None];
    let resolved = cfg.make_static(&contents).unwrap();
    assert_eq!(resolved.id, "c1");
    assert_eq!(resolved.matches.len(), 1);
    assert_eq!(resolved.matches[0].path, "/x");
    match &resolved.responses[0].body {
        Some(StaticResponseBodyConfig::Raw(text)) => assert_eq!(text, "file contents"),
        _ => panic!("expected raw body"),
    }
    match &resolved.responses[1].body {
        Some(StaticResponseBodyConfig::Raw(text)) => assert_eq!(text, "inline"),
        _ => panic!("expected raw body"),
    }
}

#[test]
fn missing_file_contents_fail_resolution() {
    let cfg = StaticHttpConfig {
        id: "c1".to_string(),
        matches: Vec::new(),
        responses: vec![raw_file_response("r1", "a.json")],
    };
    let r = cfg.make_static(&vec![None]);
    assert!(matches!(r, Err(ConfigError::MissingBodyFile(_))));
    let wrong_len = cfg.make_static(&Vec::new());
    assert!(wrong_len.is_err());
}

#[test]
fn response_config_resolution_matches_variant() {
    let cfg = ResponseConfig::StaticHttp(StaticHttpConfig {
        id: "c1".to_string(),
        matches: Vec::new(),
        responses: vec![inline_response("r", "x")],
    });
    let resolved = cfg.make_static(&vec![None]).unwrap();
    let ResponseConfig::StaticHttp(h) = resolved;
    assert_eq!(h.id, "c1");
}

#[test]
fn config_container_derives_base_dir() {
    let c = ConfigContainer::new("configs/root.yaml");
    assert_eq!(c.root_config_file, "configs/root.yaml");
    assert_eq!(c.base_config_dir, "configs");
    assert_eq!(c.glob_pattern("responses/*.yaml"), "configs/responses/*.yaml");

    let bare = ConfigContainer::new("root.yaml");
    assert_eq!(bare.base_config_dir, "");
    assert_eq!(bare.glob_pattern("r/*.yaml"), "/r/*.yaml");
}

#[test]
fn error_messages_are_available() {
    let e = HttpPluginError::NoResponsesProvided;
    assert_eq!(e.message(), "No response configured for match");
    let b = HttpBackendErr::UnableToReadBody("closed".to_string());
    assert!(matches!(b, HttpBackendErr::UnableToReadBody(_)));
    let s = HttpStaticError::NoResponsesProvided;
    assert!(matches!(s, HttpStaticError::NoResponsesProvided));
    let c = ConfigError::PluginMissingConfigFile("lua".to_string());
    assert!(matches!(c, ConfigError::PluginMissingConfigFile(_)));
}

#[test]
fn string_utilities_behave() {
    assert!(str_eq("abc", "abc"));
    assert!(!str_eq("abc", "abd"));
    assert!(str_eq_ci("Content-Type", "content-type"));
    assert!(!str_eq_ci("a", "b"));
    assert!(contains_sub("application/json; charset=utf8", "application/json"));
    assert!(!contains_sub("text/plain", "application/json"));
    assert_eq!(replace_slashes("/a/b"), "__a__b");
    assert_eq!(trim_char("__a__b__", '_'), "a__b");
    assert_eq!(trim_char("____", '_'), "");
}
