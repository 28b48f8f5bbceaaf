use analytics_collector::event::{Event, EventRecord};
use chrono::{TimeZone, Utc};

fn millis(y: i32, mo: u32, d: u32, h: u32, mi: u32, s: u32) -> i64 {
    Utc.with_ymd_and_hms(y, mo, d, h, mi, s).unwrap().timestamp_millis()
}

#[test]
fn test_event_record_deserialization_success() {
    let payload = r#"{
                "ts": "2023-01-01T10:00:00Z",
                "entity": "user",
                "action": "login",
                "path": "/login",
                "appId": "my-app"
            }"#;
    let event_record =
        EventRecord::from_row("test-id-123", "2023-01-01T12:00:00Z", Some("test-user"), payload).unwrap();

    assert_eq!(event_record.id, "test-id-123");
    assert_eq!(event_record.recorded_by, Some("test-user".to_string()));
    assert_eq!(event_record.event.entity, "user");
    assert_eq!(event_record.event.action, "login");
    assert_eq!(event_record.event.path, Some("/login".to_string()));
    assert_eq!(event_record.event.app_id, "my-app");
    assert_eq!(event_record.event.ts, Some(millis(2023, 1, 1, 10, 0, 0)));
}

#[test]
fn test_event_record_deserialization_with_null_fields() {
    let payload = r#"{
                "ts": null,
                "entity": "page",
                "action": "view",
                "path": null,
                "appId": "my-app"
            }"#;
    let event_record = EventRecord::from_row("test-id-456", "2023-01-01T12:00:00Z", None, payload).unwrap();

    assert_eq!(event_record.id, "test-id-456");
    assert_eq!(event_record.recorded_by, None);
    assert_eq!(event_record.event.entity, "page");
    assert_eq!(event_record.event.action, "view");
    assert_eq!(event_record.event.path, None);
    assert_eq!(event_record.event.ts, None);
    assert_eq!(event_record.event.app_id, "my-app");
}

#[test]
fn test_event_record_deserialization_invalid_event_json() {
    let result = EventRecord::from_row(
        "test-id-789",
        "2023-01-01T12:00:00Z",
        Some("test-user"),
        "invalid json string",
    );
    assert!(result.is_none());
}

#[test]
fn test_event_record_deserialization_missing_required_fields() {
    let payload = r#"{
                "entity": "user",
                "action": "login"
            }"#;
    let result = EventRecord::from_row("test-id-999", "2023-01-01T12:00:00Z", Some("test-user"), payload);
    assert!(result.is_none());
}

#[test]
fn test_event_deserialization_from_string_wrapper() {
    let payload = r#"{
                "ts": "2023-06-15T14:30:00Z",
                "entity": "product",
                "action": "purchase",
                "path": "/checkout",
                "appId": "ecommerce-app"
            }"#;
    let event = Event::from_payload(payload).unwrap();

    assert_eq!(event.entity, "product");
    assert_eq!(event.action, "purchase");
    assert_eq!(event.path, Some("/checkout".to_string()));
    assert_eq!(event.app_id, "ecommerce-app");
    assert_eq!(event.ts, Some(millis(2023, 6, 15, 14, 30, 0)));
}

#[test]
fn test_event_deserialization_camel_case_mapping() {
    let payload = r#"{
                "ts": "2023-12-25T00:00:00Z",
                "entity": "gift",
                "action": "unwrap",
                "path": "/presents",
                "appId": "holiday-tracker"
            }"#;
    let event = Event::from_payload(payload).unwrap();
    assert_eq!(event.app_id, "holiday-tracker");
}

#[test]
fn test_complete_event_record_roundtrip() {
    let payload = r#"{
                "ts": "2023-07-04T16:45:00Z",
                "entity": "celebration",
                "action": "fireworks",
                "path": "/independence-day",
                "appId": "patriot-app"
            }"#;
    let event_record =
        EventRecord::from_row("roundtrip-test", "2023-07-04T16:45:30Z", Some("system"), payload).unwrap();

    assert_eq!(event_record.id, "roundtrip-test");
    assert_eq!(event_record.recorded_by, Some("system".to_string()));
    assert_eq!(event_record.event.entity, "celebration");
    assert_eq!(event_record.event.action, "fireworks");
    assert_eq!(event_record.event.path, Some("/independence-day".to_string()));
    assert_eq!(event_record.event.app_id, "patriot-app");
    assert_eq!(event_record.recorded_at, millis(2023, 7, 4, 16, 45, 30));
    assert_eq!(event_record.event.ts, Some(millis(2023, 7, 4, 16, 45, 0)));
}

#[test]
fn snake_case_app_id_is_not_an_event() {
    let payload = r#"{"entity":"a","action":"b","app_id":"c"}"#;
    assert!(Event::from_payload(payload).is_none());
}

#[test]
fn bad_client_timestamp_rejects_event() {
    let payload = r#"{"ts":"not-a-date","entity":"a","action":"b","appId":"c"}"#;
    assert!(Event::from_payload(payload).is_none());
}

#[test]
fn bad_recorded_at_rejects_row() {
    let payload = r#"{"entity":"a","action":"b","appId":"c"}"#;
    assert!(EventRecord::from_row("x", "yesterday", None, payload).is_none());
    assert!(EventRecord::from_row("x", "2023-01-01T00:00:00Z", None, payload).is_some());
}

#[test]
fn non_string_path_rejects_event() {
    let payload = r#"{"entity":"a","action":"b","path":123,"appId":"c"}"#;
    assert!(Event::from_payload(payload).is_none());
}
