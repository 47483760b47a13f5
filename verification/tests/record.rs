use std::borrow::Cow;

use logforth::append_async::RecordOwned;
use logforth::kv::Key;
use logforth::kv::KeyValues;
use logforth::kv::Value;
use logforth::kv::ValueView;
use logforth::level::Level;
use logforth::record::Record;
use logforth::task_local::extend_context;
use logforth::task_local::ContextStack;

#[test]
fn record_builder_sets_fields() {
    let target = String::from("service::worker");
    let r = Record::builder()
        .level(Level::Warn)
        .target(&target)
        .module_name(Some("service::worker"))
        .file(Some("src/worker.rs"))
        .line(Some(42))
        .payload(Cow::Owned("retrying".to_string()))
        .build();
    assert_eq!(r.level(), Level::Warn);
    assert_eq!(r.target(), "service::worker");
    assert_eq!(r.target_static(), None);
    assert_eq!(r.module_name(), Some("service::worker"));
    assert_eq!(r.module_name_static(), None);
    assert_eq!(r.file(), Some("src/worker.rs"));
    assert_eq!(r.file_static(), None);
    assert_eq!(r.line(), Some(42));
    assert_eq!(r.payload(), "retrying");
    assert_eq!(r.payload_static(), None);
    assert_eq!(r.filename(), "worker.rs");

    let d = Record::builder().build();
    assert_eq!(d.level(), Level::Info);
    assert_eq!(d.target(), "");
    assert_eq!(d.target_static(), Some(""));
    assert_eq!(d.payload_static(), Some(""));
    assert_eq!(d.filename(), "");
    assert!(d.key_values().is_empty());

    let copy = r.to_builder().level(Level::Error).build();
    assert_eq!(copy.level(), Level::Error);
    assert_eq!(copy.target(), "service::worker");
    assert_eq!(copy.line(), Some(42));
}

#[test]
fn owned_record_keeps_static_strings_and_values() {
    let pairs = [
        (Key::new("attempt"), Value::i64(3)),
        (Key::new("note"), Value::display("shown")),
    ];
    let r = Record::builder()
        .level(Level::Info)
        .target_static("service")
        .module_name_static("service::worker")
        .file_static("src/worker.rs")
        .line(Some(42))
        .payload(Cow::Borrowed("retrying"))
        .key_values(KeyValues::from_slice(&pairs))
        .build();
    let owned = r.to_owned();
    let kvs = owned.key_values();
    let back = owned.to_builder(&kvs).build();
    assert_eq!(back.level(), Level::Info);
    assert_eq!(back.target_static(), Some("service"));
    assert_eq!(back.module_name_static(), Some("service::worker"));
    assert_eq!(back.file_static(), Some("src/worker.rs"));
    assert_eq!(back.line(), Some(42));
    assert_eq!(back.payload_static(), Some("retrying"));
    assert_eq!(back.key_values().len(), 2);
    assert_eq!(back.key_values().get("attempt").unwrap().to_i64(), Some(3));
    // a rendered value becomes an owned string of its text
    assert_eq!(back.key_values().get("note").unwrap().to_str(), Some("shown"));
    assert!(r.time() == back.time());
}

#[test]
fn record_preserves_supplied_metadata_across_owned_boundary() {
    let owned = {
        let target = String::from("service");
        let module_name = String::from("service::worker");
        let file = String::from("src/worker.rs");
        let record = Record::builder()
            .level(Level::Warn2)
            .target(&target)
            .module_name(Some(&module_name))
            .file(Some(&file))
            .line(Some(42))
            .payload(Cow::Borrowed("retrying"))
            .build();

        assert_eq!(record.level(), Level::Warn2);
        assert_eq!(record.target(), "service");
        assert_eq!(record.module_name(), Some("service::worker"));
        assert_eq!(record.file(), Some("src/worker.rs"));
        assert_eq!(record.line(), Some(42));

        RecordOwned::from_record(&record)
    };

    let kvs = owned.key_values();
    let record = owned.to_builder(&kvs).build();
    assert_eq!(record.level(), Level::Warn2);
    assert_eq!(record.target(), "service");
    assert_eq!(record.module_name(), Some("service::worker"));
    assert_eq!(record.file(), Some("src/worker.rs"));
    assert_eq!(record.line(), Some(42));
    assert_eq!(record.payload().to_string(), "retrying");
}

#[test]
fn owned_values_keep_their_kind() {
    let v = ValueView::StaticStr("s").to_owned();
    assert_eq!(v.view().to_static_str(), Some("s"));
    let text = String::from("t");
    let v = ValueView::BorrowedStr(&text).to_owned();
    assert_eq!(v.view().to_static_str(), None);
    assert_eq!(v.view().to_str(), Some("t"));
    let v = ValueView::Bytes(b"ab").to_owned();
    assert_eq!(v.view().to_string(), "b\"ab\"");
    assert_eq!(ValueView::U128(9).to_owned().view().to_u128(), Some(9));
    assert_eq!(ValueView::NoValue.to_owned().view().to_string(), "<none>");
}

#[test]
fn context_stack_is_restored_after_each_poll() {
    let mut s = ContextStack::new();
    s.push("a");
    s.push("b");
    s.push("c");
    s.pop();
    assert_eq!(s.contexts(), &["a", "b"]);
    s.pop();
    s.pop();
    assert!(s.contexts().is_empty());
    s.pop();
    assert!(s.contexts().is_empty());
}

#[test]
fn nested_context_extends_the_enclosing_one() {
    let parent = vec![("user_id".to_string(), "42".to_string())];
    let ctx = extend_context(Some(&parent), vec![("request_id".to_string(), "abc123".to_string())]);
    assert_eq!(
        ctx,
        vec![
            ("user_id".to_string(), "42".to_string()),
            ("request_id".to_string(), "abc123".to_string()),
        ]
    );
    assert_eq!(extend_context(None, vec![]), Vec::<(String, String)>::new());
}
