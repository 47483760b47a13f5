use logforth::gcl::GoogleCloudLoggingLayout;
use logforth::kv::Key;
use logforth::kv::KeyValues;
use logforth::kv::Value;

#[test]
fn pairs_go_to_payload_without_trace_project() {
    let pairs = [
        (Key::new("trace_id"), Value::str("abc")),
        (Key::new("user"), Value::str("ann")),
    ];
    let kvs = KeyValues::from_slice(&pairs);
    let fields = GoogleCloudLoggingLayout::new().collect(&kvs, &[]);
    assert_eq!(fields.payload.len(), 2);
    assert_eq!(fields.labels.len(), 0);
    assert!(fields.trace.is_none());
    assert!(fields.span_id.is_none());
    assert!(fields.trace_sampled.is_none());
}

#[test]
fn trace_fields_with_trace_project() {
    let record_pairs = [(Key::new("label1"), Value::str("v1")), (Key::new("x"), Value::i64(5))];
    let diag_pairs = [
        (Key::new("trace_id"), Value::str("612b91406b684ece2c4137ce0f3fd668")),
        (Key::new("span_id"), Value::str("0123456789abcdef")),
        (Key::new("sampled"), Value::bool(true)),
        (Key::new("trace_id"), Value::str("second")),
    ];
    let kvs = KeyValues::from_slice(&record_pairs);
    let diags = [KeyValues::from_slice(&diag_pairs)];
    let layout = GoogleCloudLoggingLayout::new()
        .trace_project_id("project-id".to_string())
        .label_keys(vec!["label1".to_string(), "label2".to_string()]);
    let fields = layout.collect(&kvs, &diags);
    assert_eq!(
        fields.trace.as_deref(),
        Some("projects/project-id/traces/612b91406b684ece2c4137ce0f3fd668")
    );
    assert_eq!(fields.span_id.as_deref(), Some("0123456789abcdef"));
    assert_eq!(fields.trace_sampled, Some(true));
    assert_eq!(fields.labels.len(), 1);
    let (k, v) = fields.labels.entry(0);
    assert_eq!(k, "label1");
    assert_eq!(v.to_str(), Some("v1"));
    // the second trace key is an ordinary payload field
    assert_eq!(fields.payload.len(), 2);
    assert_eq!(fields.payload.entry(0).0, "trace_id");
    assert_eq!(fields.payload.entry(0).1.to_str(), Some("second"));
    assert_eq!(fields.payload.entry(1).0, "x");
}

#[test]
fn non_boolean_sampled_value_leaves_the_field_unset() {
    let pairs = [
        (Key::new("trace_sampled"), Value::str("yes")),
        (Key::new("sampled"), Value::bool(false)),
    ];
    let kvs = KeyValues::from_slice(&pairs);
    let fields = GoogleCloudLoggingLayout::new()
        .trace_project_id("p".to_string())
        .collect(&kvs, &[]);
    assert_eq!(fields.trace_sampled, Some(false));
    assert_eq!(fields.payload.len(), 0);
}

#[test]
fn label_keys_accumulate_across_calls() {
    let pairs = [
        (Key::new("label1"), Value::str("x")),
        (Key::new("label2"), Value::str("z")),
        (Key::new("other"), Value::str("y")),
    ];
    let kvs = KeyValues::from_slice(&pairs);
    let twice = GoogleCloudLoggingLayout::new()
        .label_keys(vec!["label1".to_string()])
        .label_keys(vec!["label2".to_string()]);
    let once = GoogleCloudLoggingLayout::new().label_keys(vec!["label1".to_string(), "label2".to_string()]);
    let a = twice.collect(&kvs, &[]);
    let b = once.collect(&kvs, &[]);
    assert_eq!(a.labels.len(), 2);
    assert_eq!(b.labels.len(), 2);
    for i in 0..2 {
        assert_eq!(a.labels.entry(i).0, b.labels.entry(i).0);
        assert_eq!(a.labels.entry(i).1.to_str(), b.labels.entry(i).1.to_str());
    }
    assert_eq!(a.payload.len(), 1);
    assert_eq!(a.payload.entry(0).0, "other");
    assert_eq!(a.payload.entry(0).1.to_str(), Some("y"));
}
