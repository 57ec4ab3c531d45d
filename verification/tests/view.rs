use magazine_core::view::{parse_post_ids, parse_view, ViewCommand, DEFAULT_POSTS_LIMIT, MAX_ASSET_IDS};

fn args(values: &[&str]) -> Vec<String> {
    values.iter().map(|value| (*value).to_string()).collect()
}

fn message(result: Result<ViewCommand, String>) -> String {
    result.expect_err("expected an error")
}

#[test]
fn view_requires_a_known_subcommand() {
    assert!(message(parse_view(&[])).contains("sources | posts | assets"));
    assert!(message(parse_view(&args(&["records"]))).contains("unknown view subcommand"));
}

#[test]
fn view_rejects_malformed_options_before_touching_the_database() {
    let cases: Vec<(Vec<String>, &str)> = vec![
        (args(&["posts"]), "requires <db-path>"),
        (args(&["posts", "db", "--limit"]), "requires a value"),
        (args(&["posts", "db", "--limit", "0"]), "positive integer"),
        (args(&["posts", "db", "--limit", "x"]), "positive integer"),
        (args(&["posts", "db", "--after-id", "x"]), "must be an integer"),
        (args(&["posts", "db", "--source"]), "requires a value"),
        (args(&["posts", "db", "--nope"]), "unknown view posts option"),
        (args(&["assets", "db"]), "requires --post-ids"),
        (args(&["assets", "db", "--post-ids"]), "requires a value"),
        (args(&["assets", "db", "--post-ids", ","]), "at least one id"),
        (args(&["assets", "db", "--post-ids", "1,x"]), "not an integer"),
        (args(&["assets", "db", "--nope", "1"]), "unknown view assets option"),
        (args(&["sources"]), "requires <db-path>"),
        (args(&["sources", "a", "b"]), "requires <db-path>"),
    ];
    for (argv, expected) in cases {
        let actual = message(parse_view(&argv));
        assert!(actual.contains(expected), "args {argv:?}: expected {expected:?}, got {actual:?}");
    }
}

#[test]
fn view_assets_bounds_the_id_list_and_drops_duplicates() {
    let too_many = (1..=MAX_ASSET_IDS + 1)
        .map(|id| id.to_string())
        .collect::<Vec<_>>()
        .join(",");
    let actual = message(parse_view(&args(&["assets", "db", "--post-ids", &too_many])));
    assert!(actual.contains("at most"), "{actual}");

    let duplicated = std::iter::repeat("7").take(MAX_ASSET_IDS + 5).collect::<Vec<_>>().join(",");
    let result = parse_view(&args(&["assets", "db", "--post-ids", &duplicated]));
    if let Err(actual) = &result {
        assert!(!actual.contains("at most"), "duplicates were counted against the cap: {actual}");
    }
    assert_eq!(result, Ok(ViewCommand::Assets { db_path: "db".to_string(), post_ids: vec![7] }));
}

#[test]
fn view_rejects_a_repeated_post_ids_flag() {
    let actual = message(parse_view(&args(&["assets", "db", "--post-ids", "1", "--post-ids", "2"])));
    assert!(actual.contains("more than once"), "{actual}");
}

#[test]
fn view_reads_each_subcommand() {
    assert_eq!(
        parse_view(&args(&["sources", "core.db"])),
        Ok(ViewCommand::Sources { db_path: "core.db".to_string() })
    );
    assert_eq!(
        parse_view(&args(&["posts", "core.db"])),
        Ok(ViewCommand::Posts {
            db_path: "core.db".to_string(),
            limit: DEFAULT_POSTS_LIMIT,
            after_id: None,
            source_name: None,
            include_extra: false,
        })
    );
    assert_eq!(
        parse_view(&args(&["posts", "core.db", "--limit", "5", "--after-id", "-3", "--source", "s"])),
        Ok(ViewCommand::Posts {
            db_path: "core.db".to_string(),
            limit: 5,
            after_id: Some(-3),
            source_name: Some("s".to_string()),
            include_extra: false,
        })
    );
}

#[test]
fn post_ids_keep_first_occurrence_order() {
    assert_eq!(parse_post_ids("3, 1,3,2").unwrap(), vec![3, 1, 2]);
    assert!(parse_post_ids("").is_err());
}
