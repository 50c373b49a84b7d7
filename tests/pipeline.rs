use miragend::config::{
    bind, connect_timeout_secs, force_init, obfuscation_ignore_len, obfuscation_ignore_nodes,
    obfuscation_ignore_title, obfuscation_meta_tags, patch_remove_meta_tags, patch_remove_nodes,
    special_page_style, strategy, upstream_base_url, upstream_domain, ConfigError, EnvValues,
};
use miragend::json::JsonValue;
use miragend::pipeline::{
    after_send, append_headers, build_from_request, classify, handle, is_known_strategy,
    handle_page, is_patch_strategy, json_reply, load, map_error, page_outcome, upstream_url, ContentType, FetchStep, Header,
    Loaded, Outcome, PageError, RequestError, Response, SendOutcome, Strategy,
};
use miragend::special::{build_body, build_resp, special_content_type, Style};

fn env(upstream: Option<&str>) -> EnvValues {
    EnvValues {
        bind: None,
        upstream_base_url: upstream.map(|s| s.to_string()),
        strategy: None,
        patch_target: None,
        patch_content_file: None,
        patch_remove_nodes: None,
        patch_remove_meta_tags: None,
        obfuscation_meta_tags: None,
        obfuscation_ignore_nodes: None,
        obfuscation_ignore_title: None,
        obfuscation_ignore_after_node: None,
        obfuscation_ignore_len: None,
        connect_timeout_secs: None,
        special_page_style: None,
        inject_online_script: None,
        mapping_csv: "source_start,source_end,target_start,target_end,comment\n61,7a,71,71,lower\n".to_string(),
    }
}

fn header(name: &str, value: &str) -> Header {
    (name.to_string(), value.as_bytes().to_vec())
}

#[test]
fn fetch_timeout_and_unsupported_type() {
    assert!(after_send(&SendOutcome::Failed(RequestError::Timeout)) == FetchStep::Stop(504));
    assert!(after_send(&SendOutcome::Failed(RequestError::Transport)) == FetchStep::Stop(502));
    let xml = SendOutcome::Received(Some(Some("application/xml".to_string())));
    assert!(after_send(&xml) == FetchStep::Stop(502));
    assert!(after_send(&SendOutcome::Received(Some(None))) == FetchStep::Stop(502));
    assert!(after_send(&SendOutcome::Received(None)) == FetchStep::ReadBody(ContentType::Html));
    let json = SendOutcome::Received(Some(Some("application/json; charset=utf-8".to_string())));
    assert!(after_send(&json) == FetchStep::ReadBody(ContentType::Json));
    assert!(classify(&Some(Some("text/html; charset=utf-8".to_string()))) == Some(ContentType::Html));
    assert!(classify(&Some(Some("text/plain".to_string()))).is_none());
    assert_eq!(map_error(RequestError::Timeout), 504);
    assert_eq!(map_error(RequestError::Transport), 502);
}

#[test]
fn fetch_body_read_failure() {
    assert!(matches!(load(FetchStep::ReadBody(ContentType::Html), 200, vec![], None), Loaded::Special(502)));
    assert!(matches!(load(FetchStep::Stop(504), 200, vec![], Some("x".to_string())), Loaded::Special(504)));
    let xml = after_send(&SendOutcome::Received(Some(Some("application/xml".to_string()))));
    assert!(matches!(load(xml, 200, vec![], None), Loaded::Special(502)));
    match load(FetchStep::ReadBody(ContentType::Json), 201, vec![header("a", "b")], Some("{}".to_string())) {
        Loaded::Forward(r) => {
            assert_eq!(r.status, 201);
            assert_eq!(r.headers.len(), 1);
            assert!(r.content_type == ContentType::Json);
            assert_eq!(r.body, "{}");
        }
        Loaded::Special(_) => panic!("forward expected"),
    }
}

#[test]
fn serialize_failure_gives_500() {
    match page_outcome(200, &vec![], Err(PageError::Serialize), Style::Plain) {
        Outcome::Special(sr) => {
            assert_eq!(sr.status, 500);
            assert_eq!(sr.body, "500 Internal Server Error");
        }
        _ => panic!("special expected"),
    }
    match page_outcome(203, &vec![header("etag", "x"), header("x-a", "1")], Ok("<p>".to_string()), Style::Plain) {
        Outcome::Reply { status, headers, body } => {
            assert_eq!(status, 203);
            assert_eq!(headers, vec![header("x-a", "1")]);
            assert_eq!(body, "<p>");
        }
        _ => panic!("reply expected"),
    }
}

#[test]
fn outbound_request_for_path() {
    let settings = force_init(env(Some("http://origin.example"))).ok().unwrap();
    assert_eq!(upstream_domain(&settings), "origin.example");
    let url = upstream_url(upstream_base_url(&settings), "/foo");
    assert_eq!(url, "http://origin.example/foo");
    let inbound = vec![header("host", "proxy.local"), header("accept", "*/*"), header("user-agent", "t")];
    let out = build_from_request(&inbound, upstream_domain(&settings));
    assert_eq!(out, vec![header("host", "origin.example"), header("accept", "*/*"), header("user-agent", "t")]);
}

#[test]
fn response_headers_filtered() {
    let hs = vec![
        header("connection", "keep-alive"),
        header("content-type", "text/html"),
        header("content-length", "10"),
        header("content-encoding", "gzip"),
        header("etag", "\"e\""),
        header("last-modified", "x"),
        header("transfer-encoding", "chunked"),
        header("set-cookie", "a=1"),
    ];
    assert_eq!(append_headers(&hs), vec![header("content-type", "text/html"), header("set-cookie", "a=1")]);
}

#[test]
fn settings_defaults_and_errors() {
    assert!(matches!(force_init(env(None)), Err(ConfigError::MissingUpstreamBaseUrl)));
    assert!(matches!(force_init(env(Some("not a url"))), Err(ConfigError::InvalidUpstreamBaseUrl)));
    assert!(matches!(force_init(env(Some("http://127.0.0.1:8000"))), Err(ConfigError::InvalidUpstreamBaseUrl)));
    let s = force_init(env(Some("https://origin.example/base"))).ok().unwrap();
    assert_eq!(bind(&s), "0.0.0.0:8080");
    assert_eq!(strategy(&s), "obfuscation");
    assert_eq!(obfuscation_meta_tags(&s), &vec!["description".to_string(), "keywords".to_string(), "og:title".to_string(), "og:description".to_string()]);
    assert!(patch_remove_nodes(&s).is_empty());
    assert_eq!(patch_remove_meta_tags(&s), &vec![String::new()]);
    assert_eq!(obfuscation_ignore_nodes(&s), &vec![String::new()]);
    assert!(!obfuscation_ignore_title(&s));
    assert_eq!(obfuscation_ignore_len(&s), 0);
    assert_eq!(connect_timeout_secs(&s), 60);
    assert!(special_page_style(&s) == Style::Plain);
    assert_eq!(s.obfuscator_config.mappers.len(), 1);
}

#[test]
fn settings_from_values() {
    let mut e = env(Some("http://origin.example"));
    e.patch_remove_nodes = Some("a,b".to_string());
    e.obfuscation_meta_tags = Some("description".to_string());
    e.obfuscation_ignore_title = Some("true".to_string());
    e.obfuscation_ignore_len = Some("12".to_string());
    e.connect_timeout_secs = Some("x".to_string());
    e.special_page_style = Some("nginx".to_string());
    e.strategy = Some("patch".to_string());
    let s = force_init(e).ok().unwrap();
    assert_eq!(patch_remove_nodes(&s), &vec!["a".to_string(), "b".to_string()]);
    assert_eq!(obfuscation_meta_tags(&s), &vec!["description".to_string()]);
    assert!(obfuscation_ignore_title(&s));
    assert_eq!(obfuscation_ignore_len(&s), 12);
    assert_eq!(connect_timeout_secs(&s), 60);
    assert!(special_page_style(&s) == Style::Nginx);
    assert!(is_patch_strategy(strategy(&s)));
    let mut e = env(Some("http://origin.example"));
    e.obfuscation_ignore_title = Some("yes".to_string());
    e.connect_timeout_secs = Some("+15".to_string());
    let s = force_init(e).ok().unwrap();
    assert!(!obfuscation_ignore_title(&s));
    assert_eq!(connect_timeout_secs(&s), 15);
}

#[test]
fn strategy_names() {
    assert!(is_patch_strategy("patch"));
    assert!(!is_patch_strategy("obfus"));
    assert!(is_known_strategy("obfus"));
    assert!(is_known_strategy("obfuscation"));
    assert!(!is_known_strategy("other"));
}

#[test]
fn special_pages() {
    assert_eq!(build_body(504, Style::Plain), "504 Gateway Timeout");
    assert_eq!(build_body(502, Style::Plain), "502 Bad Gateway");
    assert_eq!(build_body(599, Style::Plain), "599");
    let padding = "<!-- a padding to disable MSIE and Chrome friendly error page -->\n".repeat(6);
    let page = |h: &str| format!("<html>\n<head><title>{h}</title></head>\n<body>\n<center><h1>{h}</h1></center>\n<hr><center>nginx</center>\n</body>\n</html>\n{padding}");
    assert_eq!(build_body(504, Style::Nginx), page("504 Gateway Time-out"));
    assert_eq!(build_body(500, Style::Nginx), page("500 Internal Server Error"));
    assert_eq!(build_body(502, Style::Nginx), page("502 Bad Gateway"));
    assert_eq!(build_body(404, Style::Nginx), page("404"));
    assert_eq!(special_content_type(Style::Nginx).as_deref(), Some("text/html; charset=utf-8"));
    assert!(special_content_type(Style::Plain).is_none());
    let r = build_resp(503, Style::Plain);
    assert_eq!(r.status, 503);
    assert!(r.content_type.is_none());
    assert_eq!(r.body, "503 Service Unavailable");
}

fn forward(content_type: ContentType, body: &str) -> Loaded {
    Loaded::Forward(Response {
        status: 200,
        headers: vec![header("content-length", "3"), header("x-k", "v")],
        content_type,
        body: body.to_string(),
    })
}

#[test]
fn dispatch_outcomes() {
    let settings = force_init(env(Some("http://origin.example"))).ok().unwrap();
    match handle(Loaded::Special(504), None, &Strategy::Obfuscation, &settings) {
        Outcome::Special(sr) => assert_eq!(sr.body, "504 Gateway Timeout"),
        _ => panic!("special expected"),
    }
    let obj = JsonValue::Object(vec![("k".to_string(), JsonValue::String("ab".to_string()))]);
    let patch = Strategy::Patch { content: "<p>x</p>".to_string() };
    match handle(forward(ContentType::Json, "{\"k\":\"ab\"}"), Some(obj), &patch, &settings) {
        Outcome::Reply { status, headers, body } => {
            assert_eq!(status, 200);
            assert_eq!(headers, vec![header("x-k", "v")]);
            assert_eq!(body, "{\"k\":\"ab\"}");
        }
        _ => panic!("reply expected"),
    }
    let obj = JsonValue::Object(vec![("k".to_string(), JsonValue::String("ab".to_string()))]);
    match handle(forward(ContentType::Json, "{\"k\":\"ab\"}"), Some(obj), &Strategy::Obfuscation, &settings) {
        Outcome::SerializeJson { value: JsonValue::Object(es), .. } => {
            assert!(matches!(&es[0].1, JsonValue::String(s) if s == "qq"));
        }
        _ => panic!("json expected"),
    }
    let arr = JsonValue::Array(vec![JsonValue::String("zz".to_string()), JsonValue::Number("1".to_string())]);
    match handle(forward(ContentType::Json, "[\"zz\",1]"), Some(arr), &Strategy::Obfuscation, &settings) {
        Outcome::SerializeJson { value: JsonValue::Array(xs), headers, .. } => {
            assert_eq!(headers, vec![header("x-k", "v")]);
            assert!(matches!(&xs[0], JsonValue::String(s) if s == "qq"));
            assert!(matches!(&xs[1], JsonValue::Number(n) if n == "1"));
        }
        _ => panic!("json expected"),
    }
    let scalar = JsonValue::Bool(true);
    match handle(forward(ContentType::Json, "true"), Some(scalar), &patch, &settings) {
        Outcome::Reply { body, .. } => assert_eq!(body, "true"),
        _ => panic!("reply expected"),
    }
    match handle(forward(ContentType::Json, "{oops"), None, &Strategy::Obfuscation, &settings) {
        Outcome::Special(sr) => assert_eq!(sr.status, 500),
        _ => panic!("special expected"),
    }
    match handle(forward(ContentType::Html, "<p>ab</p>"), None, &Strategy::Obfuscation, &settings) {
        Outcome::Reply { body, .. } => assert_eq!(body, "<html><head></head><body><p>qq</p></body></html>"),
        _ => panic!("reply expected"),
    }
    match handle(forward(ContentType::Html, "<div id=\"t\">ab</div>"), None, &patch, &settings) {
        Outcome::Reply { body, .. } => {
            assert_eq!(body, "<html><head></head><body><div id=\"t\">ab</div></body></html>")
        }
        _ => panic!("reply expected"),
    }
}

#[test]
fn json_serialization_failure_gives_500() {
    match json_reply(200, vec![header("x", "y")], None, Style::Nginx) {
        Outcome::Special(sr) => {
            assert_eq!(sr.status, 500);
            assert_eq!(sr.content_type.as_deref(), Some("text/html; charset=utf-8"));
        }
        _ => panic!("special expected"),
    }
    match json_reply(201, vec![header("x", "y")], Some("{}".to_string()), Style::Nginx) {
        Outcome::Reply { status, headers, body } => {
            assert_eq!(status, 201);
            assert_eq!(headers, vec![header("x", "y")]);
            assert_eq!(body, "{}");
        }
        _ => panic!("reply expected"),
    }
}

#[test]
fn page_patch_scenarios() {
    let mut e = env(Some("http://origin.example"));
    e.patch_target = Some("X".to_string());
    let s = force_init(e).ok().unwrap();
    let patch = Strategy::Patch { content: "<p>Y</p>".to_string() };
    assert_eq!(
        handle_page("<div id=\"X\"></div>", &patch, &s).ok().unwrap(),
        "<html><head></head><body><div id=\"X\"><p>Y</p></div></body></html>"
    );
    let mut e = env(Some("http://origin.example"));
    e.patch_target = Some("missing-id".to_string());
    e.patch_remove_nodes = Some("D".to_string());
    let s = force_init(e).ok().unwrap();
    assert_eq!(
        handle_page("<div id=\"X\"></div><div id=\"D\"><b>z</b></div>", &patch, &s).ok().unwrap(),
        "<html><head></head><body><div id=\"X\"></div><div id=\"D\"></div></body></html>"
    );
}

#[test]
fn page_script_injection() {
    let mut e = env(Some("http://origin.example"));
    e.inject_online_script = Some("/s.js".to_string());
    let s = force_init(e).ok().unwrap();
    assert_eq!(
        handle_page("<title>T</title><p>1</p>", &Strategy::Obfuscation, &s).ok().unwrap(),
        "<html><head><title>T</title><script src=\"/s.js\"></script>\n</head><body><p>1</p></body></html>"
    );
}

#[test]
fn deeply_nested_page_parses() {
    let html = "<div>".repeat(2000) + "ab" + &"</div>".repeat(2000);
    let s = force_init(env(Some("http://origin.example"))).ok().unwrap();
    let out = handle_page(&html, &Strategy::Obfuscation, &s).ok().unwrap();
    assert!(out.contains("qq"));
}
