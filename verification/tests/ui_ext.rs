use magazine_core::json::Json;
use magazine_core::ui_ext::broker::{
    is_request_id, parse_browser_request, validate_bounded_text, ReadOperation, BROKER_CHANNEL,
    MAX_BROWSER_MESSAGE_BYTES,
};
use magazine_core::ui_ext::manifest::{parse_manifest, valid_name, ExtensionManifest};
use magazine_core::ui_ext::parse_options;
use magazine_core::ui_ext::path::{asset_content_type, percent_decode_once, validate_relative_path};
use magazine_core::ui_ext::registry::{
    check_entry_type, check_manifest_size, ExtensionRegistry, MAX_EXTENSIONS,
};
use magazine_core::ui_ext::provider::{
    check_frame_len, validate_hello, validate_result, ProviderChannel, ProviderReadError,
    ValidatedResult, MAX_FRAME_BYTES, WIRE_SCHEMA,
};
use magazine_core::framing::canonical_json;
use magazine_core::ui_ext::read::{read_answer, read_step, ReadStep};
use magazine_core::ui_ext::routes::{check_request, shell_route, ShellRoute};
use magazine_core::ui_ext::shell::{
    entry_src, extension_card, html_escape, render_shell, script_json, shell_csp, shell_page,
};
use magazine_core::web::{is_loopback_authority, parse_query};

fn strings(values: &[&str]) -> Vec<String> {
    values.iter().map(|value| (*value).to_string()).collect()
}

fn from_serde(value: &serde_json::Value) -> Json {
    match value {
        serde_json::Value::Null => Json::Null,
        serde_json::Value::Bool(b) => Json::Bool(*b),
        serde_json::Value::Number(n) => {
            if let Some(u) = n.as_u64() {
                Json::PosInt(u)
            } else if let Some(i) = n.as_i64() {
                Json::NegInt(i)
            } else {
                Json::Float(n.to_string())
            }
        }
        serde_json::Value::String(s) => Json::String(s.clone()),
        serde_json::Value::Array(items) => Json::Array(items.iter().map(from_serde).collect()),
        serde_json::Value::Object(map) => {
            Json::Object(map.iter().map(|(k, v)| (k.clone(), from_serde(v))).collect())
        }
    }
}

fn parse(text: &str) -> Json {
    from_serde(&serde_json::from_str::<serde_json::Value>(text).unwrap())
}

fn broker_text(op: &str, payload: &str) -> String {
    format!(
        r#"{{"channel":"{BROKER_CHANNEL}","type":"read","request_id":"req-1","op":"{op}","payload":{payload}}}"#
    )
}

fn broker(text: &str) -> Result<magazine_core::ui_ext::broker::BrowserReadRequest, String> {
    let value = serde_json::from_str::<serde_json::Value>(text).unwrap();
    let encoded = serde_json::to_vec(&value).unwrap().len();
    parse_browser_request(from_serde(&value), encoded)
}

#[test]
fn options_require_provider_and_reject_management_or_bind_flags() {
    assert!(parse_options(&[]).is_err());
    let base = [
        "--db",
        "core.db",
        "--trusted-extensions-dir",
        "extensions.d",
        "--provider-socket",
        "/run/user/1000/provider.sock",
    ];
    assert!(parse_options(&strings(&base)).is_ok());
    for flag in [
        "--host",
        "--bind",
        "--manage",
        "--token",
        "--route",
        "--write",
        "--init",
        "--discover",
        "--cancel",
    ] {
        let mut args = strings(&base);
        args.push(flag.to_string());
        args.push("value".to_string());
        assert!(parse_options(&args).is_err(), "{flag} was accepted");
    }
    let relative = strings(&[
        "--db",
        "core.db",
        "--trusted-extensions-dir",
        "extensions.d",
        "--provider-socket",
        "provider.sock",
    ]);
    assert!(parse_options(&relative).is_err());
}

#[test]
fn options_default_the_shell_port() {
    let args = parse_options(&strings(&[
        "--db",
        "core.db",
        "--trusted-extensions-dir",
        "extensions.d",
        "--provider-socket",
        "/tmp/p.sock",
    ]))
    .unwrap();
    assert_eq!(args.shell_port, 8766);
    assert_eq!(args.provider_socket, "/tmp/p.sock");
}

#[test]
fn host_guard_accepts_only_exact_ipv4_loopback_authority() {
    assert!(is_loopback_authority("127.0.0.1:8766", 8766));
    assert!(!is_loopback_authority("localhost:8766", 8766));
    assert!(!is_loopback_authority("127.0.0.2:8766", 8766));
    assert!(!is_loopback_authority("127.0.0.1:8767", 8766));
}

#[test]
fn query_parser_rejects_duplicates_and_unknown_fields() {
    assert!(parse_query("request_id=a&request_id=b").is_err());
    assert!(parse_query("request_id=a&sql=x").is_err());
    assert_eq!(
        parse_query("request_id=req%2Done&op=graph.detail&payload=%7B%7D")
            .unwrap()
            .get("request_id"),
        Some("req-one")
    );
    assert_eq!(
        parse_query("request_id=req&op=graph.detail&payload=%7B%22work_key%22%3A%22%E6%97%A5%E6%9C%AC%E8%AA%9E%22%7D")
            .unwrap()
            .get("payload"),
        Some(r#"{"work_key":"日本語"}"#)
    );
}

#[test]
fn path_validation_rejects_plain_encoded_and_double_encoded_escape() {
    for path in [
        "../index.html",
        "%2e%2e/index.html",
        "%2E%2E/index.html",
        "%252e%252e/index.html",
        "/index.html",
        "nested/../../index.html",
        "nested\\index.html",
        "index.html%00",
        "index.html%2f..%2fsecret.html",
        "index.html/",
    ] {
        assert!(validate_relative_path(path).is_err(), "accepted {path:?}");
    }
    assert_eq!(validate_relative_path("nested/index.mjs").unwrap(), "nested/index.mjs");
}

#[test]
fn mjs_has_a_javascript_media_type() {
    assert_eq!(asset_content_type("index.mjs"), Some("text/javascript; charset=utf-8"));
}

#[test]
fn percent_decode_once_keeps_a_second_layer() {
    assert_eq!(percent_decode_once("a%2Fb").unwrap(), "a/b");
    assert_eq!(percent_decode_once("%252e").unwrap(), "%2e");
    assert!(percent_decode_once("%zz").is_err());
    assert_eq!(asset_content_type("x.unknown"), None);
}

#[test]
fn manifest_shape_is_exact_and_name_is_bounded() {
    let manifest = parse_manifest(&parse(
        r#"{"name":"alpha-1","title":"Alpha","entry":"index.mjs","description":"synthetic"}"#,
    ))
    .unwrap();
    assert_eq!(manifest.name, "alpha-1");
    assert_eq!(manifest.description.as_deref(), Some("synthetic"));
    for name in ["", "Alpha", "1alpha", "alpha_1", "aaaaaaaaaaaaaaaaaaaaaaaaaaaaaaaaa"] {
        let raw = format!(r#"{{"name":"{name}","title":"A","entry":"index.html"}}"#);
        assert!(parse_manifest(&parse(&raw)).is_err(), "accepted name {name:?}");
    }
    assert!(parse_manifest(&parse(
        r#"{"name":"alpha","title":"A","entry":"index.html","command":"run"}"#,
    ))
    .is_err());
    assert!(valid_name("a-0"));
    assert!(!valid_name("-a"));
}

#[test]
fn manifest_rejects_path_escape_and_non_string_description() {
    assert!(parse_manifest(&parse(r#"{"name":"alpha","title":"A","entry":"%2e%2e/index.html"}"#))
        .is_err());
    assert!(parse_manifest(&parse(
        r#"{"name":"alpha","title":"A","entry":"index.html","description":null}"#,
    ))
    .is_err());
}

#[test]
fn broker_accepts_only_the_two_bounded_operations() {
    assert_eq!(
        broker(&broker_text("gallery.list", r#"{"limit":200,"offset":0}"#)).unwrap().op,
        ReadOperation::GalleryList
    );
    assert_eq!(
        broker(&broker_text("graph.detail", r#"{"work_key":"opaque-key"}"#)).unwrap().op,
        ReadOperation::GraphDetail
    );
    for (op, payload) in [
        ("gallery.list", r#"{"limit":0,"offset":0}"#),
        ("gallery.list", r#"{"limit":201,"offset":0}"#),
        ("gallery.list", r#"{"limit":1,"offset":-1}"#),
        ("gallery.list", r#"{"limit":1,"offset":1,"sql":"x"}"#),
        ("graph.detail", r#"{"work_key":"   "}"#),
        ("graph.detail", r#"{"work_key":"x","sql":"x"}"#),
        ("other", "{}"),
    ] {
        assert!(broker(&broker_text(op, payload)).is_err(), "accepted {op} {payload}");
    }
}

#[test]
fn broker_rejects_large_or_control_text() {
    let large = broker_text("graph.detail", &format!(r#"{{"work_key":"{}"}}"#, "a".repeat(4097)));
    assert!(broker(&large).is_err());
    assert!(validate_bounded_text("a\n", 4096, "work_key").is_err());
    let bad_request_id = format!(
        r#"{{"channel":"{BROKER_CHANNEL}","type":"read","request_id":"not allowed","op":"gallery.list","payload":{{"limit":1,"offset":0}}}}"#
    );
    assert!(broker(&bad_request_id).is_err());
    let oversized = broker_text("graph.detail", &format!(r#"{{"work_key":"{}"}}"#, "a".repeat(4096)));
    let value = serde_json::from_str::<serde_json::Value>(&oversized).unwrap();
    assert!(serde_json::to_vec(&value).unwrap().len() <= MAX_BROWSER_MESSAGE_BYTES);
    assert!(broker(&oversized).is_ok());
}

#[test]
fn broker_refuses_a_message_over_the_size_limit() {
    let text = broker_text("gallery.list", r#"{"limit":1,"offset":0}"#);
    assert!(parse_browser_request(parse(&text), MAX_BROWSER_MESSAGE_BYTES).is_ok());
    assert!(parse_browser_request(parse(&text), MAX_BROWSER_MESSAGE_BYTES + 1).is_err());
    assert!(is_request_id("req-1"));
    assert!(!is_request_id("not allowed"));
}

#[test]
fn frame_length_is_bounded() {
    assert!(check_frame_len(0).is_err());
    assert!(check_frame_len(1).is_ok());
    assert!(check_frame_len(MAX_FRAME_BYTES).is_ok());
    assert!(check_frame_len(MAX_FRAME_BYTES + 1).is_err());
}

#[test]
fn hello_and_result_are_generation_and_operation_bound() {
    let hello = parse(&format!(
        r#"{{"schema":"{WIRE_SCHEMA}","type":"hello","generation":"generation-1","operations":["gallery.list","graph.detail"]}}"#
    ));
    assert_eq!(validate_hello(&hello).unwrap(), "generation-1");
    let result_text = format!(
        r#"{{"schema":"{WIRE_SCHEMA}","type":"read-result","request_id":"request-1","generation":"generation-1","ok":true,"payload":{{"opaque":true}}}}"#
    );
    match validate_result(parse(&result_text), "request-1", "generation-1").unwrap() {
        ValidatedResult::Success(Json::Object(fields)) => {
            assert_eq!(fields.len(), 1);
            assert_eq!(fields[0].0, "opaque");
            assert!(matches!(fields[0].1, Json::Bool(true)));
        }
        other => panic!("unexpected {other:?}"),
    }
    let mismatched = result_text.replace("\"generation\":\"generation-1\"", "\"generation\":\"generation-2\"");
    assert!(validate_result(parse(&mismatched), "request-1", "generation-1").is_err());

    let rejected = format!(
        r#"{{"schema":"{WIRE_SCHEMA}","type":"read-result","request_id":"request-1","generation":"generation-1","ok":false,"error":{{"code":"not_found"}}}}"#
    );
    match validate_result(parse(&rejected), "request-1", "generation-1").unwrap() {
        ValidatedResult::Rejected(code) => assert_eq!(code, "not_found"),
        other => panic!("unexpected {other:?}"),
    }
}

#[test]
fn provider_channel_fails_closed() {
    let hello = parse(&format!(
        r#"{{"schema":"{WIRE_SCHEMA}","type":"hello","generation":"g1","operations":["gallery.list","graph.detail"]}}"#
    ));
    let mut channel = ProviderChannel::from_hello(&hello).unwrap();
    assert_eq!(channel.generation(), "g1");
    assert!(!channel.is_failed());
    let error = channel.fail("broken".to_string());
    assert_eq!(error, ProviderReadError::Channel("broken".to_string()));
    assert!(channel.is_failed());
}

#[test]
fn shell_uses_sandboxed_iframe_and_separate_asset_origin() {
    let mut registry = ExtensionRegistry::new();
    registry.register("alpha", "/root/alpha".to_string(), manifest("alpha", "index.mjs")).unwrap();
    let page = render_shell(&registry, "http://127.0.0.1:10001", "http://127.0.0.1:10002").unwrap();
    let html = String::from_utf8(page.bytes).unwrap();
    assert!(html.contains("sandbox=\"allow-scripts\""));
    assert!(!html.contains("allow-same-origin"));
    assert!(html.contains("http://127.0.0.1:10002/extensions/alpha/index.mjs"));
    assert!(page.csp.contains("connect-src 'self'"));
    assert!(html.contains(BROKER_CHANNEL));
    assert!(html.contains("MAX_CONCURRENT = 8"));
}

#[test]
fn shell_pieces_escape_and_place_each_extension() {
    let manifest = ExtensionManifest {
        name: "alpha".to_string(),
        title: "Alpha".to_string(),
        entry: "index.mjs".to_string(),
        description: None,
    };
    let card = extension_card(&manifest, "http://127.0.0.1:10002");
    assert!(card.contains("sandbox=\"allow-scripts\""));
    assert!(!card.contains("allow-same-origin"));
    assert!(card.contains("http://127.0.0.1:10002/extensions/alpha/index.mjs"));
    let csp = shell_csp("abc", "http://127.0.0.1:10002");
    assert!(csp.contains("connect-src 'self'"));
    assert!(csp.contains("script-src 'nonce-abc'"));
    assert_eq!(entry_src("o", "n", "e"), "o/extensions/n/e");
    assert_eq!(html_escape("<a href='x'>&\"</a>"), "&lt;a href=&#39;x&#39;&gt;&amp;&quot;&lt;/a&gt;");
}

#[test]
fn shell_page_lists_registrations_and_escapes_script_json() {
    let mut registry = ExtensionRegistry::new();
    let mut zeta = manifest("zeta", "index.html");
    zeta.description = Some("</script><b>".to_string());
    registry.register("zeta", "/root/zeta".to_string(), zeta).unwrap();
    registry.register("alpha", "/root/alpha".to_string(), manifest("alpha", "index.mjs")).unwrap();
    let page = shell_page(&registry, "http://127.0.0.1:1", "http://127.0.0.1:2", "n0nce");
    let html = String::from_utf8(page.bytes).unwrap();
    assert!(html.starts_with("<!doctype html><html lang=\"en\">"));
    assert!(html.contains("<meta name=\"mh-ui-ext-shell\" content=\"http://127.0.0.1:1\">"));
    assert!(html.contains("<style nonce=\"n0nce\">") && html.contains("<script nonce=\"n0nce\">"));
    assert!(html.ends_with("})();</script></body></html>"));
    let registrations = "const registrations = [{\"description\":null,\"name\":\"alpha\",\"src\":\"http://127.0.0.1:2/extensions/alpha/index.mjs\",\"title\":\"alpha title\"},{\"description\":\"\\u003c/script\\u003e\\u003cb\\u003e\",\"name\":\"zeta\",\"src\":\"http://127.0.0.1:2/extensions/zeta/index.html\",\"title\":\"zeta title\"}];";
    assert!(html.contains(registrations), "{html}");
    assert!(html.contains("const CHANNEL = \"mh-ui-read-broker.v1\";"));
    assert!(html.contains("const READ_PREFIX = \"/__mh_ui_ext/read/\";"));
    assert!(html.find("mh-ui-ext-alpha").unwrap() < html.find("mh-ui-ext-zeta").unwrap());
    assert_eq!(page.csp, shell_csp("n0nce", "http://127.0.0.1:2"));
    assert_eq!(script_json(&Json::String("a<b>&c\u{2028}".to_string())), "\"a\\u003cb\\u003e\\u0026c\\u2028\"");
}

#[test]
fn shell_routes_and_request_guard() {
    assert_eq!(shell_route("/"), ShellRoute::Page);
    assert_eq!(
        shell_route("/__mh_ui_ext/read/alpha"),
        ShellRoute::Read { name: "alpha".to_string() }
    );
    assert_eq!(shell_route("/other"), ShellRoute::NotFound);
    assert!(check_request("GET", Some("127.0.0.1:8766"), 8766).is_none());
    assert_eq!(check_request("POST", Some("127.0.0.1:8766"), 8766).unwrap().status, 405);
    assert_eq!(check_request("GET", Some("localhost:8766"), 8766).unwrap().status, 403);
    assert_eq!(check_request("GET", None, 8766).unwrap().status, 400);
}

fn manifest(name: &str, entry: &str) -> ExtensionManifest {
    ExtensionManifest {
        name: name.to_string(),
        title: format!("{name} title"),
        entry: entry.to_string(),
        description: None,
    }
}

#[test]
fn registry_binds_each_manifest_to_its_directory() {
    let mut registry = ExtensionRegistry::new();
    registry.register("alpha", "/root/alpha".to_string(), manifest("alpha", "index.html")).unwrap();
    registry.register("zeta", "/root/zeta".to_string(), manifest("zeta", "index.mjs")).unwrap();
    let names: Vec<&str> = registry.all().iter().map(|e| e.manifest.name.as_str()).collect();
    assert_eq!(names, ["alpha", "zeta"]);
    assert_eq!(registry.get("alpha").unwrap().root, "/root/alpha");
    assert!(registry.get("beta").is_none());
    assert_eq!(
        registry.register("alpha", "/root/alpha".to_string(), manifest("beta", "index.html")).unwrap_err(),
        "extension manifest name \"beta\" does not match directory \"alpha\""
    );
    assert_eq!(
        registry.register("alpha", "/root/alpha".to_string(), manifest("alpha", "index.html")).unwrap_err(),
        "duplicate extension name: alpha"
    );
    assert_eq!(registry.all().len(), 2);
}

#[test]
fn registry_lists_extensions_by_name_whatever_the_registration_order() {
    let mut registry = ExtensionRegistry::new();
    for name in ["zeta", "alpha", "mid", "beta"] {
        registry.register(name, format!("/root/{name}"), manifest(name, "index.html")).unwrap();
    }
    let names: Vec<&str> = registry.all().iter().map(|e| e.manifest.name.as_str()).collect();
    assert_eq!(names, ["alpha", "beta", "mid", "zeta"]);
    assert_eq!(registry.get("mid").unwrap().root, "/root/mid");
}

#[test]
fn registry_is_bounded_and_entries_need_a_media_type() {
    let mut registry = ExtensionRegistry::new();
    for i in 0..MAX_EXTENSIONS {
        let name = format!("x{i}");
        assert!(registry.check_capacity().is_ok());
        registry.register(&name, format!("/r/{name}"), manifest(&name, "index.html")).unwrap();
    }
    assert_eq!(
        registry.check_capacity().unwrap_err(),
        "trusted extension root exceeds the 32 extension limit"
    );
    assert!(check_manifest_size("alpha", 16384).is_ok());
    assert_eq!(check_manifest_size("alpha", 16385).unwrap_err(), "extension alpha plugin.json exceeds 16 KiB");
    assert!(check_entry_type("index.mjs").is_ok());
    assert_eq!(
        check_entry_type("index.exe").unwrap_err(),
        "extension entry has unsupported media type: index.exe"
    );
}

fn read_request() -> magazine_core::ui_ext::broker::BrowserReadRequest {
    magazine_core::ui_ext::broker::BrowserReadRequest {
        request_id: "r-1".to_string(),
        op: magazine_core::ui_ext::broker::ReadOperation::GalleryList,
        payload: Json::Object(Vec::new()),
    }
}

#[test]
fn head_probe_of_the_read_route_never_asks_the_provider() {
    match read_step(read_request(), true) {
        ReadStep::Answer(status, body) => {
            assert_eq!(status, 200);
            assert_eq!(canonical_json(&body), "{\"ok\":false,\"op\":\"gallery.list\",\"request_id\":\"r-1\"}");
        }
        ReadStep::Ask(_) => panic!("a HEAD probe must not reach the provider"),
    }
    assert!(matches!(read_step(read_request(), false), ReadStep::Ask(r) if r.request_id == "r-1"));
}

#[test]
fn read_answers_carry_generation_refusal_code_or_channel_failure() {
    let op = magazine_core::ui_ext::broker::ReadOperation::GraphDetail;
    let (status, body) = read_answer("r-2", op, Ok(("generation-1".to_string(), Json::PosInt(5))));
    assert_eq!(status, 200);
    assert_eq!(
        canonical_json(&body),
        "{\"generation\":\"generation-1\",\"ok\":true,\"op\":\"graph.detail\",\"payload\":5,\"request_id\":\"r-2\"}"
    );
    let (status, body) = read_answer(
        "r-2",
        op,
        Err(ProviderReadError::Rejected { generation: "g".to_string(), code: "not_found".to_string() }),
    );
    assert_eq!(status, 200);
    assert_eq!(
        canonical_json(&body),
        "{\"error\":{\"code\":\"not_found\"},\"generation\":\"g\",\"ok\":false,\"op\":\"graph.detail\",\"request_id\":\"r-2\"}"
    );
    let (status, body) = read_answer("r-2", op, Err(ProviderReadError::Channel("broken".to_string())));
    assert_eq!(status, 502);
    assert_eq!(canonical_json(&body), "{\"error\":\"provider read failed\"}");
    let big = Json::String("x".repeat(8 * 1024 * 1024));
    let (status, body) = read_answer("r-3", op, Ok(("g".to_string(), big)));
    assert_eq!(status, 502);
    assert_eq!(
        canonical_json(&body),
        "{\"error\":\"response exceeds 8 MiB\",\"ok\":false,\"op\":\"graph.detail\",\"request_id\":\"r-3\"}"
    );
}
