use dev_null::config::{StaticResponseBodyConfig, StaticResponseConfig};
use dev_null::errors::HttpPluginError;
use dev_null::rotation::{add_header, insert_header, StaticResponse, StaticResponseContainer};

fn resp_cfg(id: &str, weight: u16, status: u16) -> StaticResponseConfig<String> {
    StaticResponseConfig {
        id: id.to_string(),
        weight,
        status,
        headers: Vec::new(),
        body: Some(StaticResponseBodyConfig::Raw("body".to_string())),
        delay: 0,
    }
}

#[test]
fn weighted_rotation_has_exact_totals() {
    let mut hb = handlebars::Handlebars::new();
    let configs = vec![resp_cfg("a", 1, 201), resp_cfg("b", 3, 202)];
    let mut container = StaticResponseContainer::try_from("p", &configs, &mut hb).unwrap();

    assert_eq!(container.slots.len(), 4);
    let mut count_a = 0;
    let mut count_b = 0;
    for _ in 0..400 {
        let idx = container.get_response();
        match container.responses[idx].status {
            201 => count_a += 1,
            202 => count_b += 1,
            other => panic!("unexpected status {}", other),
        }
    }
    assert_eq!(count_a, 100);
    assert_eq!(count_b, 300);
}

#[test]
fn slot_vector_counts_follow_weights() {
    let mut hb = handlebars::Handlebars::new();
    let configs = vec![resp_cfg("a", 2, 200), resp_cfg("b", 5, 201)];
    let container = StaticResponseContainer::try_from("p", &configs, &mut hb).unwrap();
    assert_eq!(container.slots.len(), 7);
    assert_eq!(container.slots.iter().filter(|&&s| s == 0).count(), 2);
    assert_eq!(container.slots.iter().filter(|&&s| s == 1).count(), 5);
    assert_eq!(container.pointer, 0);
}

#[test]
fn zero_total_weight_is_rejected() {
    let mut hb = handlebars::Handlebars::new();
    let empty: Vec<StaticResponseConfig<String>> = Vec::new();
    assert!(matches!(
        StaticResponseContainer::try_from("p", &empty, &mut hb),
        Err(HttpPluginError::NoResponsesProvided)
    ));
    let zero = vec![resp_cfg("a", 0, 200)];
    assert!(matches!(
        StaticResponseContainer::try_from("p", &zero, &mut hb),
        Err(HttpPluginError::NoResponsesProvided)
    ));
}

#[test]
fn invalid_status_is_rejected() {
    let mut hb = handlebars::Handlebars::new();
    for bad in [0u16, 99, 600, 1000] {
        let r = StaticResponse::try_from("p", &resp_cfg("a", 1, bad), &mut hb);
        assert!(matches!(r, Err(HttpPluginError::InvalidStatusCode(_))));
    }
    for good in [100u16, 200, 404, 599] {
        assert!(StaticResponse::try_from("p", &resp_cfg("a", 1, good), &mut hb).is_ok());
    }
}

#[test]
fn bad_template_is_rejected() {
    let mut hb = handlebars::Handlebars::new();
    let mut cfg = resp_cfg("a", 1, 200);
    cfg.body = Some(StaticResponseBodyConfig::Raw("{{#if}}".to_string()));
    let r = StaticResponse::try_from("p", &cfg, &mut hb);
    assert!(matches!(r, Err(HttpPluginError::TemplateError(_))));
}

#[test]
fn bad_config_header_is_rejected() {
    let mut hb = handlebars::Handlebars::new();
    let mut cfg = resp_cfg("a", 1, 200);
    cfg.headers = vec![("bad name".to_string(), "v".to_string())];
    assert!(matches!(
        StaticResponse::try_from("p", &cfg, &mut hb),
        Err(HttpPluginError::InvalidHeaderName(_))
    ));
    let mut cfg = resp_cfg("a", 1, 200);
    cfg.headers = vec![("x-ok".to_string(), "bad\u{1}value".to_string())];
    assert!(matches!(
        StaticResponse::try_from("p", &cfg, &mut hb),
        Err(HttpPluginError::InvalidHeaderValue(_))
    ));
}

#[test]
fn compiled_response_carries_diagnostic_headers() {
    let mut hb = handlebars::Handlebars::new();
    let resp = StaticResponse::try_from("pay-1", &resp_cfg("resp-1", 1, 200), &mut hb).unwrap();
    assert!(resp
        .headers
        .iter()
        .any(|(n, v)| n == "x-dev-null-response-id" && v == "resp-1"));
    assert!(resp
        .headers
        .iter()
        .any(|(n, v)| n == "x-dev-null-payload-id" && v == "pay-1"));
}

#[test]
fn json_body_injects_content_type() {
    let mut hb = handlebars::Handlebars::new();
    let mut cfg = resp_cfg("a", 1, 200);
    cfg.body = Some(StaticResponseBodyConfig::Json("{}".to_string()));
    let resp = StaticResponse::try_from("p", &cfg, &mut hb).unwrap();
    assert!(resp
        .headers
        .iter()
        .any(|(n, v)| n == "content-type" && v == "application/json"));
}

#[test]
fn add_header_falls_back_on_invalid_value() {
    let mut headers: Vec<(String, String)> = Vec::new();
    add_header(&mut headers, "response-id", "ok-value");
    assert_eq!(
        headers,
        vec![("x-dev-null-response-id".to_string(), "ok-value".to_string())]
    );
    add_header(&mut headers, "response-id", "bad\u{7f}value");
    assert_eq!(
        headers,
        vec![(
            "x-dev-null-response-id".to_string(),
            "response-id invalid header".to_string()
        )]
    );
}

#[test]
fn insert_header_replaces_case_insensitively() {
    let mut headers = vec![
        ("Content-Type".to_string(), "text/plain".to_string()),
        ("x-other".to_string(), "1".to_string()),
    ];
    insert_header(
        &mut headers,
        "content-type".to_string(),
        "application/json".to_string(),
    );
    assert_eq!(
        headers,
        vec![
            ("x-other".to_string(), "1".to_string()),
            ("content-type".to_string(), "application/json".to_string()),
        ]
    );
}

#[test]
fn default_weight_is_one() {
    assert_eq!(dev_null::config::default_weight(), 1);
}

#[test]
fn unique_ids_are_fresh_uuids() {
    let a = dev_null::entropy::unique_id();
    let b = dev_null::entropy::unique_id();
    assert_eq!(a.len(), 36);
    assert_eq!(b.len(), 36);
    assert_ne!(a, b);
}
