use std::borrow::Cow;

use logforth::kv::Key;
use logforth::kv::KeyOwned;
use logforth::kv::KeyValues;
use logforth::kv::Value;
use logforth::kv::ValueView;
use logforth::str::RefStr;

#[test]
fn value_texts() {
    assert_eq!(ValueView::NoValue.to_string(), "<none>");
    assert_eq!(ValueView::Bool(true).to_string(), "true");
    assert_eq!(ValueView::I64(-42).to_string(), "-42");
    assert_eq!(ValueView::I64(i64::MIN).to_string(), "-9223372036854775808");
    assert_eq!(ValueView::U64(7).to_string(), "7");
    assert_eq!(ValueView::I128(i128::MIN).to_string(), i128::MIN.to_string());
    assert_eq!(ValueView::U128(u128::MAX).to_string(), u128::MAX.to_string());
    assert_eq!(ValueView::Char('ß').to_string(), "ß");
    assert_eq!(ValueView::BorrowedStr("hello").to_string(), "hello");
    assert_eq!(Value::debug("Some(1)").view().to_string(), "Some(1)");
    assert_eq!(Value::display("shown").view().to_string(), "shown");
}

#[test]
fn bytes_are_written_as_byte_string_literals() {
    let v = ValueView::Bytes(b"a\n\r\t\\\"\0 ~\x7f\xff");
    assert_eq!(v.to_string(), "b\"a\\n\\r\\t\\\\\\\"\\0 ~\\x7f\\xff\"");
    assert_eq!(ValueView::Bytes(b"").to_string(), "b\"\"");
}

#[test]
fn value_accessors() {
    assert_eq!(Value::bool(true).view().to_bool(), Some(true));
    assert_eq!(Value::i64(3).view().to_bool(), None);
    assert_eq!(Value::i64(3).view().to_i64(), Some(3));
    assert_eq!(Value::u64(3).view().to_u64(), Some(3));
    assert_eq!(Value::i128(-3).view().to_i128(), Some(-3));
    assert_eq!(Value::u128(3).view().to_u128(), Some(3));
    assert_eq!(Value::char('x').view().to_char(), Some('x'));
    assert_eq!(Value::str("s").view().to_str(), Some("s"));
    assert_eq!(Value::static_str("s").view().to_str(), Some("s"));
    assert_eq!(Value::static_str("s").view().to_static_str(), Some("s"));
    assert_eq!(Value::str("s").view().to_static_str(), None);
    assert!(Value::debug("d").view().to_debug().is_some());
    assert!(Value::display("d").view().to_display().is_some());
    assert!(Value::none().view().to_str().is_none());
}

#[test]
fn keys_keep_their_text_and_lifetime() {
    let k = Key::new("static");
    assert_eq!(k.view().as_str(), "static");
    assert!(matches!(k.view().to_cow(), Cow::Borrowed("static")));

    let owned = String::from("borrowed");
    let k = Key::borrowed(&owned);
    assert_eq!(k.as_str(), "borrowed");
    let cow = k.view().to_cow();
    assert!(matches!(cow, Cow::Owned(_)));
    assert_eq!(cow, "borrowed");
    assert_eq!(k.view().to_owned().view().as_str(), "borrowed");

    let ko = KeyOwned::new(Cow::Borrowed("fixed"));
    assert!(matches!(ko.view().to_cow(), Cow::Borrowed("fixed")));
    let ko = KeyOwned::new(Cow::Owned("made".to_string()));
    assert!(matches!(ko.view().to_cow(), Cow::Owned(_)));
}

#[test]
fn key_values_lookup_finds_the_first_pair() {
    let pairs = [
        (Key::new("a"), Value::i64(1)),
        (Key::new("b"), Value::str("x")),
        (Key::new("a"), Value::i64(2)),
    ];
    let kvs = KeyValues::from_slice(&pairs);
    assert_eq!(kvs.len(), 3);
    assert!(!kvs.is_empty());
    assert_eq!(kvs.get("a").unwrap().to_i64(), Some(1));
    assert_eq!(kvs.get("b").unwrap().to_str(), Some("x"));
    assert!(kvs.get("c").is_none());
    let (k, v) = kvs.entry(1);
    assert_eq!(k.as_str(), "b");
    assert_eq!(v.to_string(), "x");
    assert!(KeyValues::empty().is_empty());
}

#[test]
fn key_values_are_written_as_pairs() {
    let pairs = [(Key::new("a"), Value::i64(1)), (Key::new("b"), Value::bool(false))];
    let kvs = KeyValues::from_slice(&pairs);
    let mut s = String::from("msg");
    kvs.write_pairs(&mut s);
    assert_eq!(s, "msg a=1 b=false");
}

#[test]
fn ref_str_kinds() {
    let owned = String::from("x");
    let b = RefStr::Borrowed(&owned);
    let s = RefStr::Static("x");
    assert_eq!(b.get(), "x");
    assert_eq!(b.get_static(), None);
    assert_eq!(s.get_static(), Some("x"));
    assert!(b.same_text(&s));
    assert!(matches!(s.into_cow_static(), Cow::Borrowed("x")));
    assert!(matches!(b.into_cow_static(), Cow::Owned(_)));
}
