use magazine_core::json::{check_exact_keys, check_keys_within, field_i64, field_string, field_string_list, field_u64, take_member, Json};

fn object(fields: Vec<(&str, Json)>) -> Json {
    Json::Object(fields.into_iter().map(|(k, v)| (k.to_string(), v)).collect())
}

#[test]
fn member_lookup_and_scalars() {
    let v = object(vec![
        ("a", Json::String("x".to_string())),
        ("n", Json::PosInt(5)),
        ("m", Json::NegInt(-2)),
    ]);
    assert_eq!(v.get("a").and_then(|x| x.as_str()), Some("x"));
    assert_eq!(v.get("n").and_then(|x| x.as_u64()), Some(5));
    assert_eq!(v.get("m").and_then(|x| x.as_u64()), None);
    assert_eq!(v.get("m").and_then(|x| x.as_i64()), Some(-2));
    assert!(v.get("missing").is_none());
    assert!(v.is_object());
    assert!(!Json::Null.is_object());
    assert!(matches!(take_member(v, "n"), Some(Json::PosInt(5))));
}

#[test]
fn key_sets_are_checked() {
    let v = object(vec![("a", Json::Null), ("b", Json::Null)]);
    assert!(check_exact_keys(&v, &["a", "b"]));
    assert!(check_exact_keys(&v, &["b", "a"]));
    assert!(!check_exact_keys(&v, &["a"]));
    assert!(!check_exact_keys(&v, &["a", "b", "c"]));
    assert!(check_keys_within(&v, &["a", "b", "c"]));
    assert!(!check_keys_within(&v, &["a"]));
}

#[test]
fn typed_fields() {
    let v = object(vec![
        ("s", Json::String("x".to_string())),
        ("i", Json::NegInt(-4)),
        ("u", Json::PosInt(4)),
        ("l", Json::Array(vec![Json::String("a".to_string()), Json::String("b".to_string())])),
        ("bad", Json::Array(vec![Json::PosInt(1)])),
    ]);
    assert_eq!(field_string(&v, "s").unwrap(), "x");
    assert!(field_string(&v, "u").is_err());
    assert!(field_string(&v, "none").is_err());
    assert_eq!(field_i64(&v, "i").unwrap(), -4);
    assert_eq!(field_u64(&v, "u").unwrap(), 4);
    assert!(field_u64(&v, "i").is_err());
    assert_eq!(field_string_list(&v, "l").unwrap(), vec!["a".to_string(), "b".to_string()]);
    assert!(field_string_list(&v, "bad").is_err());
}
