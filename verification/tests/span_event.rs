use std::borrow::Cow;

use fastrace::collector::SpanContext;
use fastrace::Span;

use logforth::kv::Key;
use logforth::kv::KeyValues;
use logforth::kv::Value;
use logforth::level::Level;
use logforth::record::Record;
use logforth::span_event::FastraceDiagnostic;
use logforth::span_event::FastraceEvent;
use logforth::span_event::SpanEventLog;

#[test]
fn key_values() {
    let diagnostic = FastraceDiagnostic::default();
    let current = {
        let span = Span::root("test", SpanContext::random());
        let _guard = span.set_local_parent();
        diagnostic.current()
    };
    let (trace_id, span_id, sampled) = current.unwrap();
    let kvs = FastraceDiagnostic::key_values(&trace_id, &span_id, sampled);
    let kvs = KeyValues::from_slice(&kvs);
    assert_eq!(32, kvs.get("trace_id").unwrap().to_string().len());
    assert_eq!(16, kvs.get("span_id").unwrap().to_string().len());
    assert!(kvs.get("sampled").unwrap().to_bool().unwrap());
    assert_eq!(kvs.len(), 3);
    assert!(diagnostic.current().is_none());
}

#[test]
fn rendered_span_context() {
    let (trace_id, span_id, sampled) = FastraceDiagnostic::render_context(0xabc, 0x12, true);
    assert_eq!(32, trace_id.len());
    assert_eq!(16, span_id.len());
    assert_eq!(trace_id, format!("{:032x}", 0xabcu128));
    assert_eq!(span_id, "0000000000000012");
    let kvs = FastraceDiagnostic::key_values(&trace_id, &span_id, sampled);
    let kvs = KeyValues::from_slice(&kvs);
    assert_eq!(kvs.len(), 3);
    assert!(kvs.get("sampled").unwrap().to_bool().unwrap());
    assert_eq!(kvs.get("trace_id").unwrap().to_str(), Some(trace_id.as_str()));
}

#[test]
fn event_properties() {
    let pairs = [(Key::new("k"), Value::i64(7))];
    let record = Record::builder()
        .level(Level::Warn)
        .payload(Cow::Borrowed("msg"))
        .key_values(KeyValues::from_slice(&pairs))
        .build();
    let props = FastraceEvent::properties(&record, "now".to_string(), &[]);
    assert_eq!(
        props,
        vec![
            ("level".to_string(), "WARN".to_string()),
            ("timestamp".to_string(), "now".to_string()),
            ("k".to_string(), "7".to_string()),
        ]
    );
    let mut log = SpanEventLog::new();
    assert!(FastraceEvent::new().append(&record, &[], &mut log).is_ok());
    assert!(FastraceEvent::new().flush(&mut log).is_ok());
}
