use magazine_core::host::{
    DiscoverLimits, HostError, RecordInput, RunState, StateOperation, HOST_MAX_LOG_BYTES,
    HOST_MAX_RECORDS, HOST_MAX_RECORD_BYTES,
};
use magazine_core::db::SourcePostSummary;
use magazine_core::json::Json;
use magazine_core::session::{provider_failure, state_answer_json, ProviderFailure, StateAnswer};
use magazine_core::host::StateError;
use magazine_core::session::{
    exit_after_discover, parse_discover_result, parse_fetch_request, parse_initialize_result,
    parse_state_query, require_plugin_request_id, signed_text, DiscoverSession, PluginExit, Step,
};

fn from_serde(value: &serde_json::Value) -> Json {
    match value {
        serde_json::Value::Null => Json::Null,
        serde_json::Value::Bool(b) => Json::Bool(*b),
        serde_json::Value::Number(n) => {
            if let Some(u) = n.as_u64() {
                Json::PosInt(u)
            } else if let Some(i) = n.as_i64() {
                Json::NegInt(i)
            } else {
                Json::Float(n.to_string())
            }
        }
        serde_json::Value::String(s) => Json::String(s.clone()),
        serde_json::Value::Array(items) => Json::Array(items.iter().map(from_serde).collect()),
        serde_json::Value::Object(map) => {
            Json::Object(map.iter().map(|(k, v)| (k.clone(), from_serde(v))).collect())
        }
    }
}

fn parse(text: &str) -> Json {
    from_serde(&serde_json::from_str::<serde_json::Value>(text).unwrap())
}

fn assert_protocol_error_contains<T: std::fmt::Debug>(result: Result<T, HostError>, expected: &str) {
    match result {
        Err(HostError::Protocol(message)) => assert!(
            message.contains(expected),
            "protocol error {message:?} did not contain {expected:?}"
        ),
        other => panic!("expected protocol error, got {other:?}"),
    }
}

#[test]
fn malformed_state_query_params_are_protocol_errors() {
    for (params, expected) in [
        (r#"{"op":"known_source_urls","args":{"source_name":"synthetic"}}"#, "params.id"),
        (r#"{"id":"known","op":"unknown","args":{}}"#, "unknown state_query op"),
        (r#"{"id":"known","op":"known_source_urls","args":{}}"#, "args.source_name"),
        (
            r#"{"id":"summary","op":"source_post_summary","args":{"source_name":"synthetic"}}"#,
            "args.source_url",
        ),
        (
            r#"{"id":"fingerprint","op":"content_fingerprint","args":{"source_name":"","source_url":"synthetic://post/1"}}"#,
            "args.source_name is empty",
        ),
    ] {
        assert_protocol_error_contains(parse_state_query(&parse(params)), expected);
    }
    assert_protocol_error_contains(
        require_plugin_request_id(&Json::String("h-1".to_string()), "state_query"),
        "plugin namespace p-*",
    );
}

#[test]
fn well_formed_state_query_is_typed() {
    let (id, op) = parse_state_query(&parse(
        r#"{"id":"q1","op":"source_post_summary","args":{"source_name":"s","source_url":"synthetic://post/1"}}"#,
    ))
    .unwrap();
    assert_eq!(id, "q1");
    assert_eq!(
        op,
        StateOperation::SourcePostSummary {
            source_name: "s".to_string(),
            source_url: "synthetic://post/1".to_string(),
        }
    );
    assert!(require_plugin_request_id(&Json::String("p-1".to_string()), "state_query").is_ok());
    assert!(require_plugin_request_id(&Json::PosInt(1), "state_query").is_err());
}

#[test]
fn malformed_fetch_request_params_are_protocol_errors() {
    for (params, expected) in [
        (r#"{"request":{"url":"https://example.test","method":"GET","headers":{}}}"#, "params.id"),
        (
            r#"{"id":"","request":{"url":"https://example.test","method":"GET","headers":{}}}"#,
            "params.id is empty",
        ),
        (r#"{"id":"fetch-1"}"#, "missing request"),
        (
            r#"{"id":"fetch-1","request":{"url":"https://example.test","method":"GET","headers":[]}}"#,
            "invalid fetch_request request",
        ),
    ] {
        assert_protocol_error_contains(parse_fetch_request(&parse(params)), expected);
    }
    assert_protocol_error_contains(
        require_plugin_request_id(&Json::String("h-1".to_string()), "fetch_request"),
        "plugin namespace p-*",
    );
}

#[test]
fn well_formed_fetch_request_is_read() {
    let (id, request) = parse_fetch_request(&parse(
        r#"{"id":"fetch-1","request":{"url":"https://example.test/a","method":"GET","headers":{"accept":"text/html"}}}"#,
    ))
    .unwrap();
    assert_eq!(id, "fetch-1");
    assert_eq!(request.url, "https://example.test/a");
    assert_eq!(request.method, "GET");
    assert_eq!(request.headers, vec![("accept".to_string(), "text/html".to_string())]);
}

#[test]
fn run_state_enforces_record_and_log_byte_limits() {
    let mut state = RunState::new(Some(HOST_MAX_RECORDS));
    let result = state.spool(
        "synthetic",
        vec![RecordInput { encoded_len: HOST_MAX_RECORD_BYTES + 1, record: Err("unused".to_string()) }],
    );
    assert_protocol_error_contains(result, "record spool exceeded byte limit");
    assert!(state.records().is_empty());

    let mut state = RunState::new(Some(HOST_MAX_RECORDS));
    state.push_log("info".to_string(), "x".repeat(HOST_MAX_LOG_BYTES - 4)).unwrap();
    assert_protocol_error_contains(
        state.push_log("info".to_string(), "x".to_string()),
        "log spool exceeded byte limit",
    );
    assert_eq!(state.logs().len(), 1);
}

#[test]
fn record_count_limit_is_enforced_before_reading_records() {
    let mut state = RunState::new(Some(1));
    let inputs = vec![
        RecordInput { encoded_len: 2, record: Err("bad".to_string()) },
        RecordInput { encoded_len: 2, record: Err("bad".to_string()) },
    ];
    assert_protocol_error_contains(state.spool("synthetic", inputs), "max_records");
    assert_eq!(state.spooled_records(), 0);
}

#[test]
fn host_caps_apply_to_unset_limits() {
    let limits = DiscoverLimits { max_pages: Some(2), per_page: None, max_records: None };
    let capped = limits.with_host_caps();
    assert_eq!(capped.max_pages, Some(2));
    assert_eq!(capped.max_records, Some(HOST_MAX_RECORDS));
}

#[test]
fn initialize_and_discover_results_are_read() {
    let (pv, rs, manifest) = parse_initialize_result(&parse(
        r#"{"protocol_version":1,"record_schema_version":1,"manifest":{"source_name":"synthetic","display_label":"Synthetic","allowed_domains":["example.test"],"capabilities":["discover"]}}"#,
    ))
    .unwrap();
    assert_eq!((pv, rs), (1, 1));
    assert_eq!(manifest.source_name, "synthetic");
    assert_eq!(manifest.allowed_domains, vec!["example.test".to_string()]);
    assert!(parse_initialize_result(&parse(r#"{"protocol_version":1}"#)).is_err());
    assert_eq!(parse_discover_result(&parse(r#"{"records":3}"#)).unwrap(), 3);
    assert!(parse_discover_result(&parse(r#"{"records":-1}"#)).is_err());
    assert_eq!(signed_text(-12), "-12");
    assert_eq!(signed_text(7), "7");
}

#[test]
fn session_runs_initialize_then_discover() {
    let mut session = DiscoverSession::new("run-1", DiscoverLimits::default());
    assert!(!session.is_finished());
    let init = parse(
        r#"{"jsonrpc":"2.0","id":"h-1","result":{"protocol_version":1,"record_schema_version":1,"manifest":{"source_name":"synthetic","display_label":"Synthetic","allowed_domains":[],"capabilities":[]}}}"#,
    );
    assert!(matches!(session.on_message(init), Ok(Step::SendDiscover)));
    assert_eq!(session.manifest().unwrap().source_name, "synthetic");

    let log = parse(r#"{"jsonrpc":"2.0","method":"log","params":{"level":"info","message":"hi"}}"#);
    assert!(matches!(session.on_message(log), Ok(Step::Continue)));

    let done = parse(r#"{"jsonrpc":"2.0","id":"h-2","result":{"records":0}}"#);
    assert!(matches!(session.on_message(done), Ok(Step::Finished)));
    assert!(session.is_finished());

    let late = parse(r#"{"jsonrpc":"2.0","method":"log","params":{}}"#);
    assert!(session.on_message(late).is_err());
}

#[test]
fn session_rejects_state_query_before_discover_and_mismatched_counts() {
    let mut early = DiscoverSession::new("run-1", DiscoverLimits::default());
    let query = parse(
        r#"{"jsonrpc":"2.0","id":"p-1","method":"state_query","params":{"id":"q","op":"last_seen_at","args":{"source_name":"s"}}}"#,
    );
    match early.on_message(query) {
        Err(failure) => assert!(matches!(failure.error, HostError::Protocol(_))),
        Ok(step) => panic!("accepted {step:?}"),
    }

    let mut session = DiscoverSession::new("run-1", DiscoverLimits::default());
    let init = parse(
        r#"{"jsonrpc":"2.0","id":"h-1","result":{"protocol_version":1,"record_schema_version":1,"manifest":{"source_name":"synthetic","display_label":"Synthetic","allowed_domains":[],"capabilities":[]}}}"#,
    );
    session.on_message(init).unwrap();
    let done = parse(r#"{"jsonrpc":"2.0","id":"h-2","result":{"records":2}}"#);
    session.on_message(done).unwrap();
    assert_protocol_error_contains(session.finish(PluginExit::Exited { success: true, code: Some(0), status: "exit status: 0".to_string() }, Ok(())), "did not match spooled records");
}

#[test]
fn plugin_must_exit_successfully_after_discover() {
    assert_eq!(
        exit_after_discover(PluginExit::Exited { success: true, code: Some(0), status: "ok".to_string() })
            .unwrap(),
        Some(0)
    );
    assert!(matches!(
        exit_after_discover(PluginExit::StillRunning),
        Err(HostError::PluginDidNotExit)
    ));
    assert!(matches!(
        exit_after_discover(PluginExit::Exited { success: false, code: Some(3), status: "exit 3".to_string() }),
        Err(HostError::PluginExitStatus(_))
    ));
}

#[test]
fn db_state_provider_maps_missing_values_to_json_null() {
    assert!(matches!(state_answer_json(StateAnswer::Summary(None)), Json::Null));
    assert!(matches!(state_answer_json(StateAnswer::Text(None)), Json::Null));
}

#[test]
fn state_answers_keep_found_values() {
    assert!(matches!(state_answer_json(StateAnswer::Text(Some("t".to_string()))), Json::String(s) if s == "t"));
    let summary = state_answer_json(StateAnswer::Summary(Some(SourcePostSummary {
        exists: true,
        title: Some("T".to_string()),
        last_seen_at: None,
    })));
    assert!(matches!(summary.get("exists"), Some(Json::Bool(true))));
    assert!(matches!(summary.get("title"), Some(Json::String(t)) if t == "T"));
    assert!(matches!(summary.get("last_seen_at"), Some(Json::Null)));
    match state_answer_json(StateAnswer::Urls(vec!["a".to_string(), "b".to_string()])) {
        Json::Array(items) => {
            assert_eq!(items.len(), 2);
            assert!(matches!(&items[1], Json::String(s) if s == "b"));
        }
        other => panic!("unexpected {other:?}"),
    }
}

#[test]
fn finish_requires_a_clean_exit() {
    fn finished() -> DiscoverSession {
        let mut session = DiscoverSession::new("run-1", DiscoverLimits::default());
        session.on_message(parse(
            r#"{"jsonrpc":"2.0","id":"h-1","result":{"protocol_version":1,"record_schema_version":1,"manifest":{"source_name":"synthetic","display_label":"Synthetic","allowed_domains":[],"capabilities":[]}}}"#,
        )).unwrap();
        session.on_message(parse(r#"{"jsonrpc":"2.0","id":"h-2","result":{"records":0}}"#)).unwrap();
        session
    }
    assert!(matches!(finished().finish(PluginExit::StillRunning, Ok(())), Err(HostError::PluginDidNotExit)));
    assert!(matches!(
        finished().finish(PluginExit::Exited { success: false, code: Some(2), status: "exit status: 2".to_string() }, Ok(())),
        Err(HostError::PluginExitStatus(_))
    ));
    assert!(matches!(
        finished().finish(PluginExit::Exited { success: true, code: Some(0), status: "ok".to_string() }, Err(HostError::FrameQueueFull)),
        Err(HostError::FrameQueueFull)
    ));
    let run = finished()
        .finish(PluginExit::Exited { success: true, code: Some(0), status: "ok".to_string() }, Ok(()))
        .unwrap();
    assert_eq!(run.exit_code, Some(0));
    assert_eq!(run.manifest.source_name, "synthetic");
}

#[test]
fn provider_failures_answer_the_plugin_and_end_the_run() {
    let f = provider_failure(Json::String("p-3".to_string()), ProviderFailure::State(StateError::backend("db down")));
    let reply = f.reply.unwrap();
    assert!(matches!(reply.id, Json::String(ref s) if s == "p-3"));
    assert_eq!(reply.code, -32000);
    assert_eq!(reply.message, "db down");
    assert!(matches!(f.error, HostError::State(ref e) if e.message() == "db down"));

    let f = provider_failure(Json::PosInt(7), ProviderFailure::Fetch("network error: refused".to_string()));
    assert_eq!(f.reply.unwrap().message, "network error: refused");
    assert!(matches!(f.error, HostError::Fetch(ref e) if e.message() == "network error: refused"));

    let f = provider_failure(Json::PosInt(8), ProviderFailure::DeadlineElapsed);
    assert_eq!(f.reply.unwrap().message, "fetch deadline elapsed");
    assert!(matches!(f.error, HostError::Timeout));
}
