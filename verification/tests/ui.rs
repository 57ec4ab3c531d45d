use magazine_core::host::HostError;
use magazine_core::json::Json;
use magazine_core::ui::{
    active_run_status, check_cancel, check_ingest, generate_token, hex_string, is_known_path, parse_discover_request,
    parse_ui_options, records_page, require_loopback_host, requested_run_id, route, Route,
};
use magazine_core::web::{is_allowed_loopback_authority, is_allowed_origin, query_u32, query_value};

fn strings(items: &[&str]) -> Vec<String> {
    items.iter().map(|s| s.to_string()).collect()
}

fn object(fields: Vec<(&str, Json)>) -> Json {
    Json::Object(fields.into_iter().map(|(k, v)| (k.to_string(), v)).collect())
}

#[test]
fn loopback_authority_accepts_case_and_default_port_variants() {
    assert!(is_allowed_loopback_authority("LOCALHOST:8765", 8765));
    assert!(is_allowed_loopback_authority("LocalHost:8765", 8765));
    assert!(is_allowed_loopback_authority(" 127.0.0.1:8765 ", 8765));
    assert!(is_allowed_loopback_authority("127.0.0.1", 80));
    assert!(is_allowed_loopback_authority("localhost", 80));
    assert!(is_allowed_origin("HTTP://LOCALHOST:8765", 8765));
    assert!(is_allowed_origin("http://127.0.0.1", 80));
}

#[test]
fn loopback_authority_still_rejects_foreign_and_mismatched_authorities() {
    assert!(!is_allowed_loopback_authority("evil.test:8765", 8765));
    assert!(!is_allowed_loopback_authority("EVIL.TEST:8765", 8765));
    assert!(!is_allowed_loopback_authority("evil.test", 80));
    assert!(!is_allowed_loopback_authority("127.0.0.1:9999", 8765));
    assert!(!is_allowed_loopback_authority("127.0.0.1", 8765));
    assert!(!is_allowed_loopback_authority("127.0.0.1:", 8765));
    assert!(!is_allowed_loopback_authority("127.0.0.1:notaport", 8765));
    assert!(!is_allowed_loopback_authority("127.0.0.2:8765", 8765));
    assert!(!is_allowed_loopback_authority("[::1]:8765", 8765));
    assert!(!is_allowed_loopback_authority("127.0.0.1:8765@evil.test", 8765));
    assert!(!is_allowed_loopback_authority("evil.test:8765#127.0.0.1:8765", 8765));
    assert!(!is_allowed_loopback_authority("127.0.0.1.evil.test:8765", 8765));
    assert!(!is_allowed_loopback_authority("evil.test:127.0.0.1:8765", 8765));
    assert!(!is_allowed_loopback_authority("localhost.evil.test:8765", 8765));
    assert!(!is_allowed_origin("https://127.0.0.1:8765", 8765));
    assert!(!is_allowed_origin("http://evil.test:8765", 8765));
    assert!(!is_allowed_origin("127.0.0.1:8765", 8765));
}

#[test]
fn percent_decodes_query_values() {
    assert_eq!(
        query_value(Some("source_name=synthetic%2Fone+two"), "source_name").as_deref(),
        Some("synthetic/one two")
    );
    assert_eq!(query_value(Some("source_name=%zz"), "source_name"), None);
}

#[test]
fn parse_ui_options_accepts_read_only_shape_only() {
    let options = parse_ui_options(&strings(&[
        "--db",
        "core.db",
        "--plugins-dir",
        "plugins.d",
        "--port",
        "0",
    ]))
    .unwrap();
    assert_eq!(options.db_path, "core.db");
    assert_eq!(options.plugins_dir, "plugins.d");
    assert_eq!(options.port, 0);
    assert!(!options.manage);
    assert!(parse_ui_options(&strings(&["--host", "127.0.0.1"])).is_err());
    assert!(parse_ui_options(&strings(&["--bind", "127.0.0.1"])).is_err());

    let manage = parse_ui_options(&strings(&[
        "--db",
        "core.db",
        "--plugins-dir",
        "plugins.d",
        "--manage",
    ]))
    .unwrap();
    assert!(manage.manage);
    assert!(parse_ui_options(&strings(&["--manage", "--manage"])).is_err());
}

#[test]
fn ui_options_default_port_and_missing_paths() {
    let options = parse_ui_options(&strings(&["--db", "a", "--plugins-dir", "b"])).unwrap();
    assert_eq!(options.port, 8765);
    assert!(parse_ui_options(&strings(&["--db", "a"])).is_err());
    assert!(parse_ui_options(&strings(&["--db", "a", "--plugins-dir", "b", "--port", "x"])).is_err());
}

#[test]
fn query_helpers_handle_missing_and_numeric_values() {
    assert_eq!(query_value(None, "limit"), None);
    assert_eq!(query_value(Some("a=1&limit=7"), "limit").as_deref(), Some("7"));
    assert_eq!(query_u32(Some("limit=42"), "limit"), Some(42));
    assert_eq!(query_u32(Some("limit=-1"), "limit"), None);
    assert_eq!(query_u32(Some("offset=3"), "limit"), None);
}

#[test]
fn records_page_clamps_the_limit() {
    assert_eq!(records_page(None, None), (50, 0));
    assert_eq!(records_page(Some(0), Some(4)), (1, 4));
    assert_eq!(records_page(Some(100000), None), (200, 0));
    assert_eq!(records_page(Some(20), Some(3)), (20, 3));
}

#[test]
fn routes_and_host_guard() {
    assert!(is_known_path("/"));
    assert!(!is_known_path("/nope"));
    assert!(matches!(route("GET", "/nope"), Route::NotFound));
    assert!(require_loopback_host(Some("127.0.0.1:8765"), 8765).is_none());
    assert_eq!(require_loopback_host(Some("evil.test:8765"), 8765).unwrap().status, 403);
    assert_eq!(require_loopback_host(None, 8765).unwrap().status, 400);
}

#[test]
fn discover_request_requires_every_bound() {
    let good = object(vec![
        ("plugin_id", Json::String("synthetic".to_string())),
        ("max_pages", Json::PosInt(1)),
        ("per_page", Json::PosInt(2)),
        ("max_records", Json::PosInt(3)),
        ("timeout_seconds", Json::PosInt(10)),
    ]);
    let request = parse_discover_request(&good).unwrap();
    assert_eq!(request.plugin_id, "synthetic");
    assert_eq!(request.limits.max_records, Some(3));
    assert_eq!(request.timeout_seconds, 10);
    let missing = object(vec![("plugin_id", Json::String("synthetic".to_string()))]);
    assert!(parse_discover_request(&missing).is_err());
    assert!(parse_discover_request(&Json::Null).is_err());
}

#[test]
fn cancel_targets_only_the_active_run() {
    let body = object(vec![("run_id", Json::String("r1".to_string()))]);
    assert_eq!(requested_run_id(&body).as_deref(), Some("r1"));
    assert!(check_cancel(Some("r1"), Some(("r1", true))).is_ok());
    assert!(check_cancel(Some("r2"), Some(("r1", true))).is_err());
    assert!(check_cancel(Some("r1"), None).is_err());
}

#[test]
fn tokens_are_lowercase_hex() {
    assert_eq!(hex_string(&[0x00, 0xab, 0x7f]), "00ab7f");
    let token = generate_token().unwrap();
    assert_eq!(token.len(), 64);
    assert!(token.chars().all(|c| c.is_ascii_hexdigit() && !c.is_ascii_uppercase()));
}

#[test]
fn response_heads_carry_the_fixed_headers() {
    let head = magazine_core::web::response_head(
        404,
        "Not Found",
        "application/json",
        17,
        &[("Allow".to_string(), "GET, HEAD".to_string())],
    );
    assert_eq!(
        head,
        "HTTP/1.1 404 Not Found\r\nContent-Type: application/json\r\nContent-Length: 17\r\nCache-Control: no-store\r\nX-Content-Type-Options: nosniff\r\nConnection: close\r\nAllow: GET, HEAD\r\n\r\n"
    );
}

#[test]
fn run_status_and_ingest_gate() {
    assert_eq!(active_run_status(true, true), "cancelling");
    assert_eq!(active_run_status(false, true), "running");
    assert_eq!(active_run_status(false, false), "ingesting");
    assert!(check_ingest(Some("r1"), "r1", false).is_ok());
    assert!(matches!(check_ingest(Some("r1"), "r1", true), Err(HostError::Cancelled)));
    match check_ingest(Some("r2"), "r1", false) {
        Err(HostError::State(e)) => assert_eq!(e.message(), "UI run state is not active"),
        other => panic!("unexpected {other:?}"),
    }
    assert!(matches!(check_ingest(None, "r1", false), Err(HostError::State(_))));
}
