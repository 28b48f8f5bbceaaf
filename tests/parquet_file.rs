use analytics_collector::columnar::{schema_columns, ParqetSerializer};
use analytics_collector::event::{Event, EventRecord};
use arrow_array::{Array, RecordBatch, StringArray, StructArray};
use chrono::{DateTime, Utc};
use parquet::arrow::arrow_reader::ParquetRecordBatchReaderBuilder;

fn at(s: &str) -> i64 {
    s.parse::<DateTime<Utc>>().unwrap().timestamp_millis()
}

fn create_test_event_record(id: &str, with_optional_fields: bool) -> EventRecord {
    EventRecord {
        id: id.to_string(),
        recorded_at: at("2023-01-01T12:00:00Z"),
        recorded_by: if with_optional_fields { Some("test-user".to_string()) } else { None },
        event: Event {
            ts: if with_optional_fields { Some(at("2023-01-01T10:00:00Z")) } else { None },
            entity: "user".to_string(),
            action: "login".to_string(),
            path: if with_optional_fields { Some("/login".to_string()) } else { None },
            app_id: "my-app".to_string(),
        },
    }
}

fn read(bytes: Vec<u8>) -> (Vec<String>, Vec<RecordBatch>) {
    let builder = ParquetRecordBatchReaderBuilder::try_new(bytes::Bytes::from(bytes)).unwrap();
    let names = builder.schema().fields().iter().map(|f| f.name().clone()).collect();
    let batches = builder.build().unwrap().map(|b| b.unwrap()).collect();
    (names, batches)
}

#[test]
fn test_to_bytes_empty_records() {
    let serializer = ParqetSerializer;
    let empty_records: Vec<EventRecord> = vec![];
    let (bytes, count) = serializer.to_bytes(&empty_records).unwrap();
    assert_eq!(count, 0);
    assert!(!bytes.is_empty());
}

#[test]
fn test_to_bytes_single_record_with_optional_fields() {
    let serializer = ParqetSerializer;
    let records = vec![create_test_event_record("test-id-1", true)];
    let (bytes, count) = serializer.to_bytes(&records).unwrap();
    assert_eq!(count, 1);
    assert!(!bytes.is_empty());
    assert!(bytes.len() > 8);
    assert_eq!(&bytes[0..4], b"PAR1");
    assert_eq!(&bytes[bytes.len() - 4..], b"PAR1");
}

#[test]
fn test_to_bytes_single_record_without_optional_fields() {
    let serializer = ParqetSerializer;
    let records = vec![create_test_event_record("test-id-2", false)];
    let (bytes, count) = serializer.to_bytes(&records).unwrap();
    assert_eq!(count, 1);
    assert!(!bytes.is_empty());
}

#[test]
fn test_to_bytes_multiple_records() {
    let serializer = ParqetSerializer;
    let records = vec![
        create_test_event_record("test-id-1", true),
        create_test_event_record("test-id-2", false),
        create_test_event_record("test-id-3", true),
    ];
    let (bytes, count) = serializer.to_bytes(&records).unwrap();
    assert_eq!(count, 3);
    assert!(!bytes.is_empty());
    assert!(bytes.len() > 8);
    assert_eq!(&bytes[0..4], b"PAR1");
    assert_eq!(&bytes[bytes.len() - 4..], b"PAR1");
}

#[test]
fn test_parquet_file_roundtrip() {
    let serializer = ParqetSerializer;
    let records = vec![create_test_event_record("test-id-1", true), create_test_event_record("test-id-2", false)];
    let (bytes, count) = serializer.to_bytes(&records).unwrap();
    assert_eq!(count, 2);
    assert!(bytes.len() > 8);
    assert_eq!(&bytes[0..4], b"PAR1");
    assert_eq!(&bytes[bytes.len() - 4..], b"PAR1");
}

#[test]
fn test_large_number_of_records() {
    let serializer = ParqetSerializer;
    let mut records = Vec::new();
    for i in 0..1000 {
        records.push(create_test_event_record(&format!("test-id-{i}"), i % 2 == 0));
    }
    let (bytes, count) = serializer.to_bytes(&records).unwrap();
    assert_eq!(count, 1000);
    assert!(!bytes.is_empty());
    assert!(bytes.len() > 8);
    assert_eq!(&bytes[0..4], b"PAR1");
    assert_eq!(&bytes[bytes.len() - 4..], b"PAR1");
}

#[test]
fn empty_file_reads_back_with_schema() {
    let (bytes, _) = ParqetSerializer.to_bytes(&Vec::new()).unwrap();
    let (names, batches) = read(bytes);
    let expected: Vec<String> = schema_columns().iter().map(|c| c.name.to_string()).collect();
    assert_eq!(names, expected);
    assert_eq!(batches.iter().map(|b| b.num_rows()).sum::<usize>(), 0);
}

#[test]
fn mixed_file_keeps_rows_and_nulls() {
    let records = vec![
        create_test_event_record("test-id-1", true),
        create_test_event_record("test-id-2", false),
        create_test_event_record("test-id-3", true),
    ];
    let (bytes, count) = ParqetSerializer.to_bytes(&records).unwrap();
    assert_eq!(count, 3);
    let (names, batches) = read(bytes);
    assert_eq!(names.len(), 4);
    assert_eq!(batches.len(), 1);
    let b = &batches[0];
    assert_eq!(b.num_rows(), 3);
    let recorded_by = b.column(3).as_any().downcast_ref::<StringArray>().unwrap();
    assert_eq!((0..3).map(|i| recorded_by.is_null(i)).collect::<Vec<bool>>(), vec![false, true, false]);
    let event = b.column(1).as_any().downcast_ref::<StructArray>().unwrap();
    assert_eq!((0..3).map(|i| event.column(0).is_null(i)).collect::<Vec<bool>>(), vec![false, true, false]);
    assert_eq!((0..3).map(|i| event.column(3).is_null(i)).collect::<Vec<bool>>(), vec![false, true, false]);
    let ids = b.column(0).as_any().downcast_ref::<StringArray>().unwrap();
    assert_eq!(ids.value(1), "test-id-2");
}
