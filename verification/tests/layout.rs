use std::time::Duration;
use std::time::SystemTime;
use colored::Color;
use logforth::text_layout::level_field;
use std::borrow::Cow;

use logforth::kv::Key;
use logforth::kv::KeyValues;
use logforth::kv::Value;
use logforth::layout::PlainTextLayout;
use logforth::level::Level;
use logforth::record::Record;
use logforth::text_layout::format_text;
use logforth::text_layout::padded_level_name;
use logforth::text_layout::LevelColor;
use logforth::json::JsonLayout;

#[test]
fn plain_text_line() {
    let pairs = [(Key::new("user"), Value::str("ann"))];
    let diag_pairs = [(Key::new("trace_id"), Value::str("abc"))];
    let record = Record::builder()
        .level(Level::Info)
        .target_static("simple")
        .file_static("examples/simple.rs")
        .line(Some(24))
        .payload(Cow::Borrowed("Hello info!"))
        .key_values(KeyValues::from_slice(&pairs))
        .build();
    let diags = [KeyValues::from_slice(&diag_pairs)];
    let layout = PlainTextLayout::new();
    let text = layout.format_text((false, 1760092868730576000), &record, "simple.rs", &diags);
    assert_eq!(
        text,
        "1760092868730576000  INFO simple: simple.rs:24 Hello info! user=ann trace_id=abc"
    );
    let text = layout.format_text((true, 5), &record, "simple.rs", &[]);
    assert_eq!(text, "-5  INFO simple: simple.rs:24 Hello info! user=ann");
}

#[test]
fn plain_text_format_uses_file_name_and_default_line() {
    let record = Record::builder()
        .level(Level::Error)
        .target_static("t")
        .file_static("src/nested/file.rs")
        .payload(Cow::Borrowed("m"))
        .build();
    let bytes = PlainTextLayout::new().format(&record, &[]).unwrap();
    let text = String::from_utf8(bytes).unwrap();
    assert!(text.ends_with(" ERROR t: file.rs:0 m"));
    assert!(!text.ends_with("  ERROR t: file.rs:0 m"));
}

#[test]
fn plain_text_format_writes_the_record_time_from_the_epoch() {
    let after = Record::builder()
        .time(SystemTime::UNIX_EPOCH + Duration::from_nanos(1_500))
        .target_static("t")
        .payload(Cow::Borrowed("m"))
        .build();
    let text = String::from_utf8(PlainTextLayout::new().format(&after, &[]).unwrap()).unwrap();
    assert!(text.starts_with("1500  INFO t: "));
    let before = Record::builder()
        .time(SystemTime::UNIX_EPOCH - Duration::from_nanos(7))
        .target_static("t")
        .payload(Cow::Borrowed("m"))
        .build();
    let text = String::from_utf8(PlainTextLayout::new().format(&before, &[]).unwrap()).unwrap();
    assert!(text.starts_with("-7  INFO t: "));
}

#[test]
fn text_layout_line() {
    let record = Record::builder()
        .level(Level::Warn)
        .target_static("file")
        .line(Some(52))
        .payload(Cow::Borrowed("Hello warn!"))
        .build();
    assert_eq!(padded_level_name(Level::Warn), " WARN");
    assert_eq!(padded_level_name(Level::Error), "ERROR");
    assert_eq!(padded_level_name(Level::Error2), "ERROR2");
    let text = format_text("2024-08-11T22:44:57.172219+08:00", " WARN", &record, "file.rs", &[]);
    assert_eq!(text, "2024-08-11T22:44:57.172219+08:00  WARN file: file.rs:52 Hello warn!");
}

#[test]
fn level_colors_by_group() {
    let colors = LevelColor { fatal: 1, error: 2, warn: 3, info: 4, debug: 5, trace: 6 };
    assert_eq!(colors.color_for(Level::Fatal3), 1);
    assert_eq!(colors.color_for(Level::Error), 2);
    assert_eq!(colors.color_for(Level::Warn4), 3);
    assert_eq!(colors.color_for(Level::Info2), 4);
    assert_eq!(colors.color_for(Level::Debug), 5);
    assert_eq!(colors.color_for(Level::Trace2), 6);
    assert_eq!(colors.paint_for(false, Level::Warn), Some(3));
    assert_eq!(colors.paint_for(true, Level::Warn), None);
}

#[test]
fn json_fields_are_gathered_by_key() {
    let pairs = [
        (Key::new("b"), Value::i64(1)),
        (Key::new("a"), Value::i64(2)),
        (Key::new("b"), Value::i64(3)),
    ];
    let record = Record::builder()
        .level(Level::Debug)
        .target_static("tgt")
        .module_name_static("app::module")
        .payload(Cow::Borrowed("msg"))
        .key_values(KeyValues::from_slice(&pairs))
        .build();
    let fields = JsonLayout::new().collect(&record, &[]);
    assert_eq!(fields.level, "DEBUG");
    assert_eq!(fields.module_name, "app::module");
    assert_eq!(fields.file, "");
    assert_eq!(fields.line, 0);
    assert_eq!(fields.message, "msg");
    assert_eq!(fields.kvs.len(), 2);
    let (k0, v0) = fields.kvs.entry(0);
    assert_eq!(k0, "a");
    assert_eq!(v0.to_i64(), Some(2));
    let (k1, v1) = fields.kvs.entry(1);
    assert_eq!(k1, "b");
    assert_eq!(v1.to_i64(), Some(3));
    assert_eq!(fields.diags.len(), 0);
}

#[test]
fn level_field_without_colors_is_the_padded_name() {
    let colors = LevelColor {
        fatal: Color::BrightRed,
        error: Color::Red,
        warn: Color::Yellow,
        info: Color::Green,
        debug: Color::Blue,
        trace: Color::Magenta,
    };
    assert_eq!(level_field(&colors, true, Level::Warn), " WARN");
    assert_eq!(level_field(&colors, true, Level::Error2), "ERROR2");
    assert!(level_field(&colors, false, Level::Warn).contains("WARN"));
}
