use mytranslator::json::Json;
use mytranslator::update::{http_error, is_newer, latest_release_url, status_error, update_info};

fn release(tag: Option<&str>, page: Option<&str>) -> Json {
    let mut entries = vec![("id".to_string(), Json::Number("1".to_string()))];
    if let Some(t) = tag {
        entries.push(("tag_name".to_string(), Json::Str(t.to_string())));
    }
    if let Some(p) = page {
        entries.push(("html_url".to_string(), Json::Str(p.to_string())));
    }
    Json::Object(entries)
}

#[test]
fn compares_versions() {
    assert!(is_newer("0.2.0", "0.1.1"));
    assert!(is_newer("1.0.0", "0.9.9"));
    assert!(!is_newer("0.1.1", "0.1.1"));
    assert!(!is_newer("0.1.0", "0.1.1"));
    assert!(is_newer("0.1.1.1", "0.1.1"));
}

#[test]
fn missing_segments_count_as_zero() {
    assert!(!is_newer("1.2", "1.2.0"));
    assert!(!is_newer("1.2.0", "1.2"));
    assert!(is_newer("1.2.0.1", "1.2"));
    assert!(!is_newer("1.2", "1.2.0.1"));
}

#[test]
fn segments_compare_as_numbers() {
    assert!(is_newer("0.10.0", "0.9.0"));
    assert!(!is_newer("0.9.0", "0.10.0"));
    assert!(is_newer("+2", "1"));
    assert!(!is_newer("007", "7"));
}

#[test]
fn unreadable_segments_count_as_zero() {
    assert!(!is_newer("1.x", "1.0"));
    assert!(!is_newer("1.-1", "1.0"));
    assert!(!is_newer("1.+", "1"));
    assert!(!is_newer("", "0"));
    assert!(!is_newer("1.18446744073709551616", "1"));
    assert!(is_newer("1.18446744073709551615", "1.18446744073709551614"));
    assert!(is_newer("2", "1.x"));
}

#[test]
fn newer_is_a_strict_order() {
    let vs = ["0.1", "0.1.0", "0.2", "1.0.0", "0.10", "1.0.1", "2"];
    for a in vs {
        assert!(!is_newer(a, a));
        for b in vs {
            assert!(!(is_newer(a, b) && is_newer(b, a)));
            for c in vs {
                if is_newer(a, b) && is_newer(b, c) {
                    assert!(is_newer(a, c));
                }
            }
        }
    }
}

#[test]
fn release_url_names_the_repository() {
    assert_eq!(
        latest_release_url(),
        "https://api.github.com/repos/terrence03/mytranslator/releases/latest"
    );
}

#[test]
fn http_error_shows_the_status() {
    assert_eq!(http_error(404), "HTTP 404");
    assert_eq!(http_error(0), "HTTP 0");
}

#[test]
fn update_info_strips_v_and_compares() {
    let info = update_info("0.1.0", &release(Some("v0.2.0"), Some("https://example.com/r/0.2.0")), "q").unwrap();
    assert_eq!(info.current, "0.1.0");
    assert_eq!(info.latest, "0.2.0");
    assert!(info.has_update);
    assert_eq!(info.url, "https://example.com/r/0.2.0");
}

#[test]
fn update_info_without_page_uses_query_url() {
    let info = update_info("0.2.0", &release(Some("0.2.0"), None), "https://api.example.com").unwrap();
    assert_eq!(info.latest, "0.2.0");
    assert!(!info.has_update);
    assert_eq!(info.url, "https://api.example.com");
}

#[test]
fn update_info_strips_only_one_v() {
    let info = update_info("1", &release(Some("vv2"), None), "u").unwrap();
    assert_eq!(info.latest, "v2");
    assert!(!info.has_update);
}

#[test]
fn update_info_needs_a_tag() {
    let err = update_info("0.1.0", &release(None, Some("x")), "u").unwrap_err();
    assert_eq!(err, "release 回應缺少 tag_name");
}

#[test]
fn update_info_ignores_a_tag_that_is_not_text() {
    let body = Json::Object(vec![("tag_name".to_string(), Json::Number("2".to_string()))]);
    assert!(update_info("1", &body, "u").is_err());
    assert!(update_info("1", &Json::Null, "u").is_err());
}

#[test]
fn release_query_status() {
    assert!(status_error(200).is_none());
    assert!(status_error(299).is_none());
    assert_eq!(status_error(404).as_deref(), Some("HTTP 404"));
    assert_eq!(status_error(301).as_deref(), Some("HTTP 301"));
    assert_eq!(status_error(199).as_deref(), Some("HTTP 199"));
}
