use magazine_core::db::{
    check_openable, check_table_columns, content_changed, content_fingerprint,
    effective_release_date, fingerprint_input, fingerprint_text, fnv1a64, missing_columns, DbError,
    SchemaCheck,
};
use magazine_core::domain::{ExternalLink, SourceRecord};
use magazine_core::framing::canonical_json;
use magazine_core::json::Json;

#[test]
fn fnv1a64_matches_known_vectors() {
    assert_eq!(fnv1a64(b""), 0xcbf29ce484222325);
    assert_eq!(fnv1a64(b"a"), 0xaf63dc4c8601ec8c);
    assert_eq!(fnv1a64(b"foobar"), 0x85944171f73967e8);
}

#[test]
fn fingerprints_are_prefixed_fixed_width_hex() {
    assert_eq!(fingerprint_text(0x1f), "fnv1a64:000000000000001f");
    assert_eq!(content_fingerprint(""), "fnv1a64:cbf29ce484222325");
    let f = content_fingerprint("{\"a\":1}");
    assert_eq!(f.len(), "fnv1a64:".len() + 16);
    assert!(!content_changed(Some(&f), &f));
    assert!(content_changed(None, &f));
    assert!(content_changed(Some("fnv1a64:0000000000000000"), &f));
}

#[test]
fn release_date_is_kept_once_known() {
    assert_eq!(effective_release_date(Some("2026-01-01"), Some("2025-01-01")).as_deref(), Some("2026-01-01"));
    assert_eq!(effective_release_date(None, Some("2025-01-01")).as_deref(), Some("2025-01-01"));
    assert_eq!(effective_release_date(None, None), None);
}

#[test]
fn open_decisions_follow_the_schema_marker() {
    assert_eq!(check_openable(0, 0, true, "core.db").unwrap(), SchemaCheck::Empty);
    assert!(matches!(check_openable(0, 0, false, "core.db"), Err(DbError::NeedsMigration(p)) if p == "core.db"));
    assert!(matches!(check_openable(0, 3, true, "core.db"), Err(DbError::UnknownExistingDatabase(_))));
    assert!(matches!(check_openable(2, 5, false, "core.db"), Err(DbError::DatabaseTooNew(2))));
    assert_eq!(check_openable(1, 5, false, "core.db").unwrap(), SchemaCheck::ValidateVersion(1));
    assert!(matches!(check_openable(-1, 5, false, "core.db"), Err(DbError::UnsupportedSchemaVersion(-1))));
}

#[test]
fn missing_columns_are_listed_in_order() {
    let actual = vec!["id".to_string(), "title".to_string()];
    assert_eq!(missing_columns(&["id", "source_url", "title", "extra"], &actual), vec!["source_url".to_string(), "extra".to_string()]);
    assert!(check_table_columns("source_posts", &["id", "title"], &actual).is_ok());
    match check_table_columns("source_posts", &["id", "url"], &actual) {
        Err(DbError::IncompatibleSchema { table, missing_columns }) => {
            assert_eq!(table, "source_posts");
            assert_eq!(missing_columns, vec!["url".to_string()]);
        }
        other => panic!("unexpected {other:?}"),
    }
}

#[test]
fn db_errors_describe_themselves() {
    assert_eq!(DbError::DatabaseTooNew(2).describe(), "database schema version 2 is newer than supported version 1");
    assert_eq!(DbError::MissingTable("covers".to_string()).describe(), "incompatible core schema; missing table: covers");
}

#[test]
fn fingerprint_input_covers_the_fifteen_content_members() {
    let record = SourceRecord {
        source_name: "synthetic".to_string(),
        source_url: "synthetic://post/1".to_string(),
        title: "Example title".to_string(),
        brand_raw: "Example brand".to_string(),
        performers_raw: vec!["Alice".to_string(), "Bob".to_string()],
        cover_urls: vec!["https://example.test/cover.jpg".to_string()],
        page_urls: vec!["https://example.test/page/1".to_string()],
        external_links: vec![ExternalLink {
            url: "https://retail.example.test/item/1".to_string(),
            provider: Some("retail".to_string()),
            label: None,
            kind: Some("retail".to_string()),
            external_id: Some("X1".to_string()),
            metadata: serde_json::Map::new(),
        }],
        issue_no: Some("42".to_string()),
        release_date: None,
        post_date: None,
        brand_normalized: None,
        normalizer_id: None,
        normalizer_version: None,
        extra: serde_json::Map::new(),
    };
    let metadata = Json::Object(vec![
        ("z".to_string(), Json::PosInt(1)),
        ("a".to_string(), Json::Array(vec![Json::Bool(true)])),
    ]);
    let extra = Json::Object(vec![("k".to_string(), Json::String("v".to_string()))]);
    let value = fingerprint_input(&record, Some("2026-01-01"), extra, vec![metadata]);
    assert_eq!(
        canonical_json(&value),
        "{\"brand_normalized\":null,\"brand_raw\":\"Example brand\",\"cover_urls\":[\"https://example.test/cover.jpg\"],\"external_links\":[{\"external_id\":\"X1\",\"kind\":\"retail\",\"label\":null,\"metadata\":{\"a\":[true],\"z\":1},\"provider\":\"retail\",\"url\":\"https://retail.example.test/item/1\"}],\"extra\":{\"k\":\"v\"},\"issue_no\":\"42\",\"normalizer_id\":null,\"normalizer_version\":null,\"page_urls\":[\"https://example.test/page/1\"],\"performers_raw\":[\"Alice\",\"Bob\"],\"post_date\":null,\"release_date\":\"2026-01-01\",\"source_name\":\"synthetic\",\"source_url\":\"synthetic://post/1\",\"title\":\"Example title\"}"
    );
}
