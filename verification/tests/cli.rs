use magazine_core::cli::{parse_discover_limits, parse_limit_value, usage};
use magazine_core::host::DiscoverLimits;

#[test]
fn parse_discover_limits_accepts_optional_flags() {
    let limits = parse_discover_limits(&[
        "--max-pages".to_string(),
        "2".to_string(),
        "--max-records".to_string(),
        "3".to_string(),
        "--per-page".to_string(),
        "16".to_string(),
    ])
    .unwrap();

    assert_eq!(
        limits,
        DiscoverLimits { max_pages: Some(2), per_page: Some(16), max_records: Some(3) }
    );
}

#[test]
fn parse_discover_limits_rejects_unknown_duplicate_and_invalid_values() {
    assert!(parse_discover_limits(&["--unknown".to_string(), "1".to_string()]).is_err());
    assert!(parse_discover_limits(&["--max-pages".to_string(), "--per-page".to_string()]).is_err());
    assert!(parse_discover_limits(&[
        "--max-records".to_string(),
        "1".to_string(),
        "--max-records".to_string(),
        "2".to_string(),
    ])
    .is_err());
    assert!(parse_discover_limits(&["--per-page".to_string(), "-1".to_string()]).is_err());
    assert!(parse_discover_limits(&["--max-pages".to_string(), "0".to_string()]).is_err());
    assert!(parse_discover_limits(&["--per-page".to_string(), "0".to_string()]).is_err());
    assert!(parse_discover_limits(&["--max-records".to_string(), "0".to_string()]).is_ok());
}

#[test]
fn limit_errors_name_the_flag() {
    assert_eq!(
        parse_discover_limits(&["--max-pages".to_string()]).unwrap_err(),
        "--max-pages requires a value"
    );
    assert_eq!(
        parse_limit_value("--per-page", "x").unwrap_err(),
        "--per-page must be a non-negative integer"
    );
    assert_eq!(parse_limit_value("--max-pages", "0").unwrap_err(), "--max-pages must be greater than zero");
    assert_eq!(parse_limit_value("--max-records", "+7").unwrap(), 7);
    assert_eq!(
        parse_discover_limits(&["--bogus".to_string(), "1".to_string()]).unwrap_err(),
        "unknown discover option: --bogus"
    );
    assert_eq!(
        parse_discover_limits(&[
            "--per-page".to_string(),
            "1".to_string(),
            "--per-page".to_string(),
            "1".to_string()
        ])
        .unwrap_err(),
        "--per-page specified more than once"
    );
    assert_eq!(parse_discover_limits(&[]).unwrap(), DiscoverLimits::default());
    assert!(usage().contains("--per-page N"));
}
