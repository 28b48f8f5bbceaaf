use analytics_collector::errors::ApplicationError;
use analytics_collector::ingest::{body_too_large, check_content_type, contains_text, recorded_by_of};

fn message(r: Result<(), ApplicationError>) -> Option<String> {
    match r {
        Ok(()) => None,
        Err(e) => Some(e.response_body()),
    }
}

#[test]
fn test_missing_content_type_header_returns_400() {
    let e = check_content_type(None).err().unwrap();
    assert_eq!(e.status_code(), 400);
    assert_eq!(e.response_body(), "Missing Content-Type header");
}

#[test]
fn test_content_type_header_invalid_type_returns_400() {
    assert_eq!(check_content_type(Some("invalid/type")).err().unwrap().status_code(), 400);
}

#[test]
fn test_content_type_header_xml_returns_400() {
    assert_eq!(check_content_type(Some("application/xml")).err().unwrap().status_code(), 400);
}

#[test]
fn test_content_type_header_html_returns_400() {
    let e = check_content_type(Some("text/html")).err().unwrap();
    assert_eq!(e.status_code(), 400);
    assert_eq!(message(Err(e)), Some("Invalid Content-Type header".to_string()));
}

#[test]
fn test_body_too_large_returns_413() {
    assert!(body_too_large(1025));
    assert!(body_too_large(4096));
}

#[test]
fn json_and_text_are_accepted() {
    assert_eq!(message(check_content_type(Some("application/json"))), None);
    assert_eq!(message(check_content_type(Some("application/json; charset=utf-8"))), None);
    assert_eq!(message(check_content_type(Some("text/plain"))), None);
}

#[test]
fn body_limit() {
    assert!(!body_too_large(1024));
    assert!(body_too_large(1025));
}

#[test]
fn substring_search() {
    assert!(contains_text("abc", ""));
    assert!(contains_text("xxabcxx", "abc"));
    assert!(!contains_text("ab", "abc"));
    assert!(!contains_text("axbxc", "abc"));
}

#[test]
fn tenant_comes_from_app_id() {
    assert_eq!(recorded_by_of(r#"{"appId":"my-app-id"}"#).ok(), Some("my-app-id".to_string()));
    assert!(recorded_by_of(r#"{"appId":12345}"#).is_err());
    assert!(recorded_by_of(r#"{"entity":"page"}"#).is_err());
}
