use magazine_core::json::Json;
use magazine_core::message::{integer, notification, request, response_err, response_ok, Method};

#[test]
fn method_round_trip() {
    for m in [
        Method::Initialize,
        Method::Discover,
        Method::Cancel,
        Method::FetchRequest,
        Method::StateQuery,
        Method::Record,
        Method::Log,
    ] {
        assert_eq!(Method::parse(m.as_str()), Some(m));
    }
    assert_eq!(Method::parse("nope"), None);
}

#[test]
fn method_names_are_the_wire_names() {
    assert_eq!(Method::FetchRequest.as_str(), "fetch_request");
    assert_eq!(Method::parse("state_query"), Some(Method::StateQuery));
    assert_eq!(Method::parse("Record"), None);
}

#[test]
fn builders_shape() {
    let params = Json::Object(vec![("protocol_version".to_string(), Json::PosInt(1))]);
    let r = request("h-1", Method::Initialize, params);
    assert_eq!(r.get("jsonrpc").and_then(|v| v.as_str()), Some("2.0"));
    assert_eq!(r.get("id").and_then(|v| v.as_str()), Some("h-1"));
    assert_eq!(r.get("method").and_then(|v| v.as_str()), Some("initialize"));
    let n = notification(Method::Record, Json::Object(Vec::new()));
    assert!(n.get("id").is_none());
    assert_eq!(n.get("method").and_then(|v| v.as_str()), Some("record"));
}

#[test]
fn responses_carry_the_id_and_the_error() {
    let ok = response_ok(Json::String("p-1".to_string()), Json::Bool(true));
    assert_eq!(ok.get("id").and_then(|v| v.as_str()), Some("p-1"));
    assert!(matches!(ok.get("result"), Some(Json::Bool(true))));
    let err = response_err(Json::String("p-2".to_string()), -32601, "unknown method");
    let e = err.get("error").unwrap();
    assert_eq!(e.get("code").and_then(|v| v.as_i64()), Some(-32601));
    assert_eq!(e.get("message").and_then(|v| v.as_str()), Some("unknown method"));
    assert!(matches!(integer(-3), Json::NegInt(-3)));
    assert!(matches!(integer(3), Json::PosInt(3)));
}
