use analytics_collector::columnar::{
    event_fields, generate_record_batch, records_of, schema_columns, upload_target, upload_url, ColumnType,
    ParqetSerializer, VERSION,
};
use analytics_collector::event::{Event, EventRecord, StoredEvent};
use chrono::{DateTime, Utc};

fn at(s: &str) -> i64 {
    s.parse::<DateTime<Utc>>().unwrap().timestamp_millis()
}

fn create_test_event_record(id: &str, with_optional_fields: bool) -> EventRecord {
    EventRecord {
        id: id.to_string(),
        recorded_at: at("2023-01-01T12:00:00Z"),
        recorded_by: if with_optional_fields { Some("test-user".to_string()) } else { None },
        event: Event {
            ts: if with_optional_fields { Some(at("2023-01-01T10:00:00Z")) } else { None },
            entity: "user".to_string(),
            action: "login".to_string(),
            path: if with_optional_fields { Some("/login".to_string()) } else { None },
            app_id: "my-app".to_string(),
        },
    }
}

#[test]
fn test_generate_record_batch_empty() {
    let empty_records: Vec<EventRecord> = vec![];
    let (record_batch, count) = generate_record_batch(&empty_records);

    assert_eq!(count, 0);
    assert_eq!(record_batch.num_rows(), 0);
    assert_eq!(record_batch.num_columns(), 4);
}

#[test]
fn test_generate_record_batch_single_record() {
    let records = vec![create_test_event_record("test-id-1", true)];
    let (record_batch, count) = generate_record_batch(&records);

    assert_eq!(count, 1);
    assert_eq!(record_batch.num_rows(), 1);
    assert_eq!(record_batch.num_columns(), 4);
    let names: Vec<&str> = schema_columns().iter().map(|c| c.name).collect();
    assert_eq!(names, vec!["id", "event", "recorded_at", "recorded_by"]);
    assert_eq!(record_batch.id, vec!["test-id-1".to_string()]);
}

#[test]
fn test_generate_record_batch_multiple_records() {
    let records = vec![
        create_test_event_record("test-id-1", true),
        create_test_event_record("test-id-2", false),
        create_test_event_record("test-id-3", true),
    ];
    let (record_batch, count) = generate_record_batch(&records);

    assert_eq!(count, 3);
    assert_eq!(record_batch.num_rows(), 3);
    assert_eq!(record_batch.num_columns(), 4);
}

#[test]
fn null_placement_is_kept() {
    let records = vec![
        create_test_event_record("a", true),
        create_test_event_record("b", false),
        create_test_event_record("c", true),
    ];
    let (b, _) = generate_record_batch(&records);
    assert_eq!(b.ts, vec![Some(at("2023-01-01T10:00:00Z")), None, Some(at("2023-01-01T10:00:00Z"))]);
    assert_eq!(b.path, vec![Some("/login".to_string()), None, Some("/login".to_string())]);
    assert_eq!(b.recorded_by, vec![Some("test-user".to_string()), None, Some("test-user".to_string())]);
    assert_eq!(b.entity, vec!["user".to_string(); 3]);
    assert_eq!(b.action, vec!["login".to_string(); 3]);
    assert_eq!(b.app_id, vec!["my-app".to_string(); 3]);
    assert_eq!(b.recorded_at, vec![at("2023-01-01T12:00:00Z"); 3]);
}

#[test]
fn event_schema_fields() {
    let fields: Vec<(&str, ColumnType, bool)> = event_fields().iter().map(|c| (c.name, c.kind, c.nullable)).collect();
    assert_eq!(
        fields,
        vec![
            ("ts", ColumnType::TimestampMillis, true),
            ("entity", ColumnType::Text, false),
            ("action", ColumnType::Text, false),
            ("path", ColumnType::Text, true),
            ("app_id", ColumnType::Text, false),
        ]
    );
    let columns: Vec<(&str, ColumnType, bool)> = schema_columns().iter().map(|c| (c.name, c.kind, c.nullable)).collect();
    assert_eq!(
        columns,
        vec![
            ("id", ColumnType::Text, false),
            ("event", ColumnType::Record, false),
            ("recorded_at", ColumnType::TimestampMillis, false),
            ("recorded_by", ColumnType::Text, true),
        ]
    );
}

#[test]
fn unreadable_payloads_are_left_out() {
    let delta = vec![
        StoredEvent {
            id: "1".to_string(),
            recorded_at: 10,
            recorded_by: None,
            payload: r#"{"entity":"page","action":"view","appId":"app"}"#.to_string(),
        },
        StoredEvent { id: "2".to_string(), recorded_at: 11, recorded_by: None, payload: "not a json".to_string() },
        StoredEvent {
            id: "3".to_string(),
            recorded_at: 12,
            recorded_by: Some("t".to_string()),
            payload: r#"{"entity":"anchor","action":"click","path":"/x","appId":"app"}"#.to_string(),
        },
    ];
    let records = records_of(&delta);
    assert_eq!(records.len(), 2);
    assert_eq!(records[0].id, "1");
    assert_eq!(records[1].id, "3");
    assert_eq!(records[1].recorded_by, Some("t".to_string()));
    assert_eq!(records[1].event.path, Some("/x".to_string()));
}

#[test]
fn object_name_is_version_and_micros() {
    assert_eq!(VERSION, "1.1.0");
    assert_eq!(ParqetSerializer.object_name(1_700_000_000_123_456), "1.1.0/1700000000123456");
    assert_eq!(ParqetSerializer.object_name(0), "1.1.0/0");
}

#[test]
fn empty_batch_is_not_uploaded() {
    assert!(!ParqetSerializer.should_upload(0));
    assert!(ParqetSerializer.should_upload(3));
}

#[test]
fn bucket_with_prefix() {
    let t = upload_target("my-bucket/exports/events", "1.1.0/42");
    assert_eq!(t.bucket, "my-bucket");
    assert_eq!(t.object, "exports/events/1.1.0/42");
}

#[test]
fn bucket_without_prefix() {
    let t = upload_target("my-bucket", "1.1.0/42");
    assert_eq!(t.bucket, "my-bucket");
    assert_eq!(t.object, "1.1.0/42");
    let t = upload_target("my-bucket/", "1.1.0/42");
    assert_eq!(t.bucket, "my-bucket");
    assert_eq!(t.object, "1.1.0/42");
}

#[test]
fn upload_url_encodes_object_name() {
    let t = upload_target("b/p", "1.1.0/7");
    assert_eq!(
        upload_url(&t),
        "https://storage.googleapis.com/upload/storage/v1/b/b/o?uploadType=media&name=p%2F1.1.0%2F7"
    );
}
