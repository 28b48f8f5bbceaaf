use analytics_collector::event::StoredEvent;
use analytics_collector::log::EventLog;
use analytics_collector::metrics::{parse_labels, EventCounters, MetricLabels, PrometheusExporter};

fn setup_log(events: Vec<&str>) -> EventLog {
    let mut log = EventLog::new();
    for (i, event) in events.into_iter().enumerate() {
        log.insert(StoredEvent {
            id: format!("id-{i}"),
            recorded_at: 1_000 + i as i64,
            recorded_by: None,
            payload: event.to_string(),
        })
        .unwrap();
    }
    log
}

fn labels(entity: &str, action: &str, app_id: &str, instance: &str, path: Option<&str>) -> MetricLabels {
    MetricLabels {
        entity: entity.to_string(),
        action: action.to_string(),
        app_id: app_id.to_string(),
        instance_id: Some(instance.to_string()),
        path: path.map(|p| p.to_string()),
    }
}

fn count(c: &EventCounters, l: &MetricLabels) -> Option<u64> {
    c.count_of(l)
}

#[test]
fn test_publish_counts_events() {
    let log = setup_log(vec![
        r#"{"entity":"signup","action":"page_view","path":"/","app_id":"test-app"}"#,
        r#"{"entity":"signup","action":"page_view","path":"/","app_id":"test-app"}"#,
        r#"{"entity":"login","action":"click","path":"/login","app_id":"test-app"}"#,
    ]);
    let exporter = PrometheusExporter { instance_id: "test-app".to_string() };
    let buffer = exporter.publish(&log).render().unwrap();

    assert!(buffer.contains("entity=\"signup\""));
    assert!(buffer.contains("entity=\"login\""));
    assert!(buffer.contains("action=\"page_view\""));
    assert!(buffer.contains("action=\"click\""));
    assert!(buffer.contains("instance_id=\"test-app\""));
    assert!(buffer.contains("path=\"/\""));
    assert!(buffer.contains("path=\"/login\""));

    let signup_count = buffer.lines().find(|l| l.contains("entity=\"signup\"")).unwrap();
    let signup_count_value: i32 = signup_count
        .rsplit_once(' ')
        .and_then(|(_, count)| count.parse().ok())
        .expect("Failed to parse signup count");
    assert_eq!(signup_count_value, 2);

    let login_count = buffer.lines().find(|l| l.contains("entity=\"login\"")).unwrap();
    let login_count_value: i32 = login_count
        .rsplit_once(' ')
        .and_then(|(_, count)| count.parse().ok())
        .expect("Failed to parse login count");
    assert_eq!(login_count_value, 1);
}

#[test]
fn test_publish_handles_empty_table() {
    let log = setup_log(vec![]);
    let exporter = PrometheusExporter { instance_id: "empty-app".to_string() };
    let buffer = exporter.publish(&log).render().unwrap();
    assert!(buffer.contains("# TYPE events counter"));
    assert!(!buffer.contains("entity="));
}

#[test]
fn test_publish_ignores_invalid_json() {
    let log = setup_log(vec![
        r#"{"entity":"signup", "action": "click", "app_id": "bad-json"}"#,
        r#"not a json"#,
        r#"{"entity":"signup", "action": "click", "app_id": "bad-json"}"#,
    ]);
    let exporter = PrometheusExporter { instance_id: "bad-json".to_string() };
    let buffer = exporter.publish(&log).render().unwrap();
    let signup_count = buffer.lines().find(|l| l.contains("entity=\"signup\"")).unwrap();
    let count: u64 = signup_count
        .split_whitespace()
        .last()
        .and_then(|v| v.parse().ok())
        .expect("Failed to parse count from metrics");
    assert_eq!(count, 2);
}

#[test]
fn unparsable_row_leaves_counts_alone() {
    let log = setup_log(vec![
        r#"{"entity":"signup","action":"page_view","path":"/","app_id":"a"}"#,
        "not a json",
        r#"{"entity":"signup","action":"page_view","path":"/","app_id":"a"}"#,
        r#"{"entity":"login","action":"click","path":"/login","app_id":"a"}"#,
        r#"{"entity":"login","action":7,"path":"/login","app_id":"a"}"#,
    ]);
    let c = PrometheusExporter { instance_id: "i".to_string() }.publish(&log);
    assert_eq!(count(&c, &labels("signup", "page_view", "a", "i", Some("/"))), Some(2));
    assert_eq!(count(&c, &labels("login", "click", "a", "i", Some("/login"))), Some(1));
    assert_eq!(count(&c, &labels("login", "click", "a", "i", Some("/"))), None);
}

#[test]
fn distinct_paths_are_distinct_counters() {
    let log = setup_log(vec![
        r#"{"entity":"page","action":"view","path":"/a","app_id":"x"}"#,
        r#"{"entity":"page","action":"view","path":"/b","app_id":"x"}"#,
        r#"{"entity":"page","action":"view","app_id":"x"}"#,
    ]);
    let c = PrometheusExporter { instance_id: "i".to_string() }.publish(&log);
    assert_eq!(count(&c, &labels("page", "view", "x", "i", Some("/a"))), Some(1));
    assert_eq!(count(&c, &labels("page", "view", "x", "i", Some("/b"))), Some(1));
    assert_eq!(count(&c, &labels("page", "view", "x", "i", None)), Some(1));
    let text = c.render().unwrap();
    assert!(text.contains("path=\"\""));
}

#[test]
fn instance_replaces_payload_instance() {
    let l = parse_labels(r#"{"entity":"e","action":"a","app_id":"x","instance_id":"other"}"#, "mine").unwrap();
    assert_eq!(l.instance_id, Some("mine".to_string()));
    assert_eq!(l.path, None);
    assert!(parse_labels(r#"{"entity":"e","action":"a","app_id":"x","instance_id":5}"#, "mine").is_none());
}

#[test]
fn render_exact_text_for_one_counter() {
    let log = setup_log(vec![
        r#"{"entity":"signup","action":"page_view","path":"/","app_id":"test-app"}"#,
        r#"{"entity":"signup","action":"page_view","path":"/","app_id":"test-app"}"#,
    ]);
    let text = PrometheusExporter { instance_id: "test-app".to_string() }.publish(&log).render().unwrap();
    assert_eq!(
        text,
        "# HELP events analytics.\n# TYPE events counter\nevents_total{entity=\"signup\",action=\"page_view\",app_id=\"test-app\",instance_id=\"test-app\",path=\"/\"} 2\n# EOF\n"
    );
}

#[test]
fn render_exact_text_for_empty_log() {
    let text = PrometheusExporter { instance_id: "x".to_string() }.publish(&setup_log(vec![])).render().unwrap();
    assert_eq!(text, "# HELP events analytics.\n# TYPE events counter\n# EOF\n");
}
