use magazine_core::domain::{
    days_in_month, is_absolute_uri, is_leap_year, is_valid_yyyy_mm_dd, ExternalLink, SourceRecord,
    ValidationError,
};

fn record() -> SourceRecord {
    SourceRecord {
        source_name: "synthetic".to_string(),
        source_url: "synthetic://post/1".to_string(),
        title: "Example title".to_string(),
        brand_raw: "Example brand".to_string(),
        performers_raw: vec!["Alice".to_string(), "Bob".to_string()],
        cover_urls: vec!["https://example.test/cover.jpg".to_string()],
        page_urls: vec!["https://example.test/page/1".to_string()],
        external_links: vec![ExternalLink {
            url: "https://retail.example.test/item/1".to_string(),
            provider: Some("retail".to_string()),
            label: None,
            kind: Some("retail".to_string()),
            external_id: Some("X1".to_string()),
            metadata: serde_json::Map::new(),
        }],
        issue_no: Some("42".to_string()),
        release_date: Some("2026-06-25".to_string()),
        post_date: None,
        brand_normalized: Some("Example Brand".to_string()),
        normalizer_id: Some("example-normalizer".to_string()),
        normalizer_version: Some("1.0.0".to_string()),
        extra: serde_json::Map::new(),
    }
}

#[test]
fn source_record_accepts_contract_shape() {
    let record = record();
    record.validate_for_source("synthetic").unwrap();
    assert_eq!(record.issue_no.as_deref(), Some("42"));
    assert_eq!(record.page_urls[0], "https://example.test/page/1");
    assert_eq!(record.external_links[0].external_id.as_deref(), Some("X1"));
}

#[test]
fn rejects_relative_source_url() {
    let mut record = record();
    record.source_url = "/post/1".to_string();
    assert!(matches!(
        record.validate(),
        Err(ValidationError::InvalidUri { field: "source_url", .. })
    ));
}

#[test]
fn rejects_invalid_dates() {
    let mut record = record();
    record.release_date = Some("2026-02-29".to_string());
    assert!(matches!(
        record.validate(),
        Err(ValidationError::InvalidDate { field: "release_date", .. })
    ));
}

#[test]
fn rejects_relative_external_link_url() {
    let mut record = record();
    record.external_links[0].url = "relative".to_string();
    assert!(matches!(
        record.validate(),
        Err(ValidationError::InvalidUri { field: "external_links.url", .. })
    ));
}

#[test]
fn source_name_must_match_the_plugin() {
    let record = record();
    assert_eq!(
        record.validate_for_source("other"),
        Err(ValidationError::SourceNameMismatch {
            expected: "other".to_string(),
            actual: "synthetic".to_string(),
        })
    );
}

#[test]
fn missing_and_empty_fields_are_reported() {
    let mut blank_title = record();
    blank_title.title = "  ".to_string();
    assert_eq!(blank_title.validate(), Err(ValidationError::MissingField { field: "title" }));

    let mut empty_performer = record();
    empty_performer.performers_raw[1] = " ".to_string();
    assert_eq!(
        empty_performer.validate(),
        Err(ValidationError::EmptyListItem { field: "performers_raw", index: 1 })
    );
}

#[test]
fn calendar_rules() {
    assert!(is_leap_year(2024));
    assert!(!is_leap_year(1900));
    assert!(is_leap_year(2000));
    assert_eq!(days_in_month(2023, 2), 28);
    assert_eq!(days_in_month(2024, 2), 29);
    assert_eq!(days_in_month(2024, 4), 30);
    assert_eq!(days_in_month(2024, 13), 0);
    assert!(is_valid_yyyy_mm_dd("2024-02-29"));
    assert!(!is_valid_yyyy_mm_dd("2023-02-29"));
    assert!(!is_valid_yyyy_mm_dd("2024-2-01"));
    assert!(!is_valid_yyyy_mm_dd("2024-00-10"));
}

#[test]
fn absolute_uris_need_a_scheme() {
    assert!(is_absolute_uri("https://example.test/"));
    assert!(is_absolute_uri("synthetic://post/1"));
    assert!(!is_absolute_uri("/post/1"));
    assert!(!is_absolute_uri("relative"));
    assert!(!is_absolute_uri("1http://x"));
}

#[test]
fn validation_errors_describe_themselves() {
    let e = ValidationError::MissingField { field: "title" };
    assert_eq!(e.describe(), "missing required field: title");
}
