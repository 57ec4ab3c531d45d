use magazine_core::host::HostError;
use magazine_core::json::Json;
use magazine_core::plugins::{definition_file_from_json, file_stem, is_definition_file, DefinitionFile, PluginCatalog};

fn file(id: Option<&str>, argv: &[&str]) -> DefinitionFile {
    DefinitionFile {
        id: id.map(|s| s.to_string()),
        source_name: None,
        argv: argv.iter().map(|s| s.to_string()).collect(),
        env: Vec::new(),
        working_dir: None,
    }
}

fn discovery_message(result: Result<(), HostError>) -> String {
    match result {
        Err(HostError::Discovery(m)) => m,
        other => panic!("expected a discovery error, got {other:?}"),
    }
}

#[test]
fn only_json_files_are_definitions() {
    assert!(is_definition_file(b"synthetic.json"));
    assert!(is_definition_file(b"a.b.json"));
    assert!(!is_definition_file(b"ignore.txt"));
    assert!(!is_definition_file(b".json"));
    assert!(!is_definition_file(b"json"));
    assert!(!is_definition_file(b"x.JSON"));
    assert_eq!(file_stem(b"synthetic.json").as_deref(), Some("synthetic"));
    assert_eq!(file_stem(b"a.b.json").as_deref(), Some("a.b"));
    assert_eq!(file_stem(b".json").as_deref(), Some(".json"));
    assert_eq!(file_stem(b"noext").as_deref(), Some("noext"));
    assert_eq!(file_stem(&[0xff, b'.', b'j']), None);
}

#[test]
fn discovers_plugins_d_json_manifests() {
    let mut catalog = PluginCatalog::new();
    catalog.add("plugins.d/synthetic.json", b"synthetic.json", "plugins.d", file(Some("synthetic"), &["python3", "plugin.py"])).unwrap();
    let plugins = catalog.into_definitions();
    assert_eq!(plugins.len(), 1);
    assert_eq!(plugins[0].id, "synthetic");
    assert_eq!(plugins[0].argv[0], "python3");
    assert_eq!(plugins[0].manifest_path, "plugins.d/synthetic.json");
}

#[test]
fn rejects_duplicate_plugin_ids() {
    let mut catalog = PluginCatalog::new();
    catalog.add("d/synthetic.json", b"synthetic.json", "d", file(Some("synthetic"), &["p"])).unwrap();
    let message = discovery_message(catalog.add("d/synthetic-copy.json", b"synthetic-copy.json", "d", file(Some("synthetic"), &["p"])));
    assert_eq!(message, "duplicate plugin id \"synthetic\": d/synthetic.json and d/synthetic-copy.json");
    assert_eq!(catalog.into_definitions().len(), 1);
}

#[test]
fn catalog_keeps_json_files_only_in_path_order() {
    let mut catalog = PluginCatalog::new();
    catalog.add("d/zeta.json", b"zeta.json", "d", file(Some("zeta"), &["p"])).unwrap();
    catalog.add("d/ignore.txt", b"ignore.txt", "d", file(Some("ignored"), &["p"])).unwrap();
    catalog.add("d/alpha.json", b"alpha.json", "d", file(Some("alpha"), &["p"])).unwrap();
    catalog.add("d/mid.json", b"mid.json", "d", file(None, &[])).unwrap_err();
    catalog.add("d/mid.json", b"mid.json", "d", file(None, &["p"])).unwrap();
    let plugins = catalog.into_definitions();
    let paths: Vec<&str> = plugins.iter().map(|p| p.manifest_path.as_str()).collect();
    assert_eq!(paths, ["d/alpha.json", "d/mid.json", "d/zeta.json"]);
    let ids: Vec<&str> = plugins.iter().map(|p| p.id.as_str()).collect();
    assert_eq!(ids, ["alpha", "mid", "zeta"]);
}

#[test]
fn ids_fall_back_to_source_name_then_stem() {
    let mut catalog = PluginCatalog::new();
    let mut named = file(None, &["p"]);
    named.source_name = Some("from-source".to_string());
    catalog.add("d/a.json", b"a.json", "d", named).unwrap();
    catalog.add("d/stem-id.json", b"stem-id.json", "d", file(None, &["p"])).unwrap();
    let ids: Vec<String> = catalog.into_definitions().into_iter().map(|p| p.id).collect();
    assert_eq!(ids, vec!["from-source".to_string(), "stem-id".to_string()]);
}

#[test]
fn empty_argv_and_blank_ids_are_refused() {
    let mut catalog = PluginCatalog::new();
    assert_eq!(discovery_message(catalog.add("d/x.json", b"x.json", "d", file(Some("x"), &[]))), "d/x.json has empty argv");
    assert_eq!(discovery_message(catalog.add("d/x.json", b"x.json", "d", file(Some("  "), &["p"]))), "d/x.json has empty id");
}

#[test]
fn relative_working_dirs_resolve_against_the_file_directory() {
    let mut catalog = PluginCatalog::new();
    let mut relative = file(Some("a"), &["p"]);
    relative.working_dir = Some("work".to_string());
    let mut absolute = file(Some("b"), &["p"]);
    absolute.working_dir = Some("/abs/work".to_string());
    catalog.add("d/a.json", b"a.json", "d", relative).unwrap();
    catalog.add("d/b.json", b"b.json", "d", absolute).unwrap();
    let plugins = catalog.into_definitions();
    assert_eq!(plugins[0].working_dir.as_deref(), Some("d/work"));
    assert_eq!(plugins[1].working_dir.as_deref(), Some("/abs/work"));
}

#[test]
fn definition_files_are_read_from_json() {
    let value = Json::Object(vec![
        ("id".to_string(), Json::String("synthetic".to_string())),
        ("argv".to_string(), Json::Array(vec![Json::String("python3".to_string())])),
        ("env".to_string(), Json::Object(vec![("A".to_string(), Json::String("1".to_string()))])),
        ("extra".to_string(), Json::Bool(true)),
    ]);
    let f = definition_file_from_json(&value).unwrap();
    assert_eq!(f.id.as_deref(), Some("synthetic"));
    assert_eq!(f.argv, vec!["python3".to_string()]);
    assert_eq!(f.env, vec![("A".to_string(), "1".to_string())]);
    assert_eq!(f.working_dir, None);
    let missing = Json::Object(vec![("id".to_string(), Json::String("x".to_string()))]);
    assert_eq!(definition_file_from_json(&missing).unwrap_err(), "missing field `argv`");
    let bad_env = Json::Object(vec![
        ("argv".to_string(), Json::Array(Vec::new())),
        ("env".to_string(), Json::Object(vec![("A".to_string(), Json::PosInt(1))])),
    ]);
    assert_eq!(definition_file_from_json(&bad_env).unwrap_err(), "invalid type for field `env`");
}

#[test]
fn working_dirs_join_with_a_single_separator() {
    let mut catalog = PluginCatalog::new();
    let mut trailing = file(Some("a"), &["p"]);
    trailing.working_dir = Some("work".to_string());
    let mut bare = file(Some("b"), &["p"]);
    bare.working_dir = Some("run/here".to_string());
    catalog.add("d/a.json", b"a.json", "d/", trailing).unwrap();
    catalog.add("b.json", b"b.json", "", bare).unwrap();
    let plugins = catalog.into_definitions();
    assert_eq!(plugins[0].manifest_path, "b.json");
    assert_eq!(plugins[0].working_dir.as_deref(), Some("run/here"));
    assert_eq!(plugins[1].working_dir.as_deref(), Some("d/work"));
}
