use mytranslator::json::{pointer, Json};

fn s(text: &str) -> Json {
    Json::Str(text.to_string())
}

fn sample() -> Json {
    Json::Object(vec![
        ("a".to_string(), Json::Array(vec![s("x"), s("y"), Json::Bool(true)])),
        ("a".to_string(), s("shadowed")),
        ("01".to_string(), s("key")),
    ])
}

#[test]
fn member_lookup_takes_the_first_entry() {
    let v = sample();
    assert!(matches!(v.get("a"), Some(Json::Array(_))));
    assert!(v.get("b").is_none());
    assert!(s("a").get("a").is_none());
}

#[test]
fn element_lookup() {
    let v = sample();
    let a = v.get("a").unwrap();
    assert_eq!(a.at(1).and_then(Json::as_str), Some("y"));
    assert!(a.at(3).is_none());
    assert!(v.at(0).is_none());
    assert_eq!(a.at(2).and_then(Json::as_bool), Some(true));
    assert_eq!(a.as_array().map(|items| items.len()), Some(3));
}

#[test]
fn pointer_tokens_index_arrays_and_name_members() {
    let v = sample();
    assert_eq!(pointer(&v, &["a", "0"]).and_then(Json::as_str), Some("x"));
    assert_eq!(pointer(&v, &["a", "1"]).and_then(Json::as_str), Some("y"));
    assert!(pointer(&v, &["a", "01"]).is_none());
    assert!(pointer(&v, &["a", "+1"]).is_none());
    assert!(pointer(&v, &["a", ""]).is_none());
    assert!(pointer(&v, &["a", "99999999999999999999999"]).is_none());
    assert_eq!(pointer(&v, &["01"]).and_then(Json::as_str), Some("key"));
    assert!(matches!(pointer(&v, &[]), Some(Json::Object(_))));
    assert!(pointer(&v, &["a", "0", "z"]).is_none());
}
