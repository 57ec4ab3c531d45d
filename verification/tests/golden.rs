use magazine_core::framing::canonical_json;
use magazine_core::golden::{frame_hex, messages};
use magazine_core::json::Json;

#[test]
fn golden_messages_are_pinned_and_named() {
    let names: Vec<&str> = messages().iter().map(|(name, _)| *name).collect();
    assert_eq!(names, ["initialize", "record", "fetch_request", "state_query"]);
}

#[test]
fn golden_initialize_frame_is_byte_exact() {
    let (_, initialize) = &messages()[0];
    assert_eq!(
        canonical_json(initialize),
        "{\"id\":\"h-1\",\"jsonrpc\":\"2.0\",\"method\":\"initialize\",\"params\":{\"host_version\":\"golden-host\",\"protocol_version\":1}}"
    );
    assert_eq!(
        frame_hex(initialize).unwrap(),
        "0000006f7b226964223a22682d31222c226a736f6e727063223a22322e30222c226d6574686f64223a22696e697469616c697a65222c22706172616d73223a7b22686f73745f76657273696f6e223a22676f6c64656e2d686f7374222c2270726f746f636f6c5f76657273696f6e223a317d7d"
    );
}

#[test]
fn golden_state_query_frame_is_byte_exact() {
    let (_, query) = &messages()[3];
    assert_eq!(
        frame_hex(query).unwrap(),
        "000000867b226964223a22702d33222c226a736f6e727063223a22322e30222c226d6574686f64223a2273746174655f7175657279222c22706172616d73223a7b2261726773223a7b22736f757263655f6e616d65223a22676f6c64656e227d2c226964223a2273746174652d31222c226f70223a226b6e6f776e5f736f757263655f75726c73227d7d"
    );
}

#[test]
fn golden_record_carries_a_null_label_and_empty_extra() {
    let (_, record) = &messages()[1];
    let text = canonical_json(record);
    assert!(text.contains("\"label\":null"));
    assert!(text.contains("\"extra\":{}"));
    assert!(text.starts_with("{\"jsonrpc\":\"2.0\",\"method\":\"record\",\"params\":{\"record\":{\"brand_normalized\""));
    match record.get("params").and_then(|p| p.get("record")).and_then(|r| r.get("performers_raw")) {
        Some(Json::Array(items)) => assert_eq!(items.len(), 2),
        other => panic!("unexpected performers_raw: {other:?}"),
    }
}
