use logforth::journald::put_field_bytes;
use logforth::journald::put_field_length_encoded;
use logforth::journald::put_field_name;
use logforth::journald::write_escaped_key;
use logforth::journald::is_valid_key_char;
use logforth::journald::FieldName::WellFormed;
use logforth::journald::FieldName::WriteEscaped;

#[test]
fn test_escape_journal_key() {
    for case in ["FOO", "FOO_123"] {
        let mut bs = vec![];
        write_escaped_key(case, &mut bs);
        assert_eq!(String::from_utf8_lossy(&bs), case);
    }

    let cases = vec![
        ("foo", "FOO"),
        ("_foo", "ESCAPED__FOO"),
        ("1foo", "ESCAPED_1FOO"),
        ("Hallöchen", "HALL_CHEN"),
    ];
    for (key, expected) in cases {
        let mut bs = vec![];
        write_escaped_key(key, &mut bs);
        assert_eq!(String::from_utf8_lossy(&bs), expected);
    }

    {
        for case in [
            "very_long_key_name_that_is_longer_than_64_bytes".repeat(5),
            "_need_escape_very_long_key_name_that_is_longer_than_64_bytes".repeat(5),
        ] {
            let mut bs = vec![];
            write_escaped_key(&case, &mut bs);
            println!("{:?}", String::from_utf8_lossy(&bs));
            assert_eq!(bs.len(), 64);
        }
    }
}

#[test]
fn test_put_field_length_encoded() {
    let mut buffer = Vec::new();
    // See "Data Format" in https://systemd.io/JOURNAL_NATIVE_PROTOCOL/ for this example
    put_field_length_encoded(&mut buffer, WellFormed("FOO"), "BAR".as_bytes());
    assert_eq!(&buffer, b"FOO\n\x03\0\0\0\0\0\0\0BAR\n");
}

#[test]
fn test_put_field_bytes_no_newline() {
    let mut buffer = Vec::new();
    put_field_bytes(&mut buffer, WellFormed("FOO"), "BAR".as_bytes());
    assert_eq!(&buffer, b"FOO=BAR\n");
}

#[test]
fn test_put_field_bytes_newline() {
    let mut buffer = Vec::new();
    put_field_bytes(
        &mut buffer,
        WellFormed("FOO"),
        "BAR\nSPAM_WITH_EGGS".as_bytes(),
    );
    assert_eq!(&buffer, b"FOO\n\x12\0\0\0\0\0\0\0BAR\nSPAM_WITH_EGGS\n");
}

#[test]
fn escaped_empty_name_is_empty_marker() {
    let mut buffer = Vec::new();
    put_field_name(&mut buffer, WriteEscaped(""));
    assert_eq!(&buffer, b"EMPTY");
}

#[test]
fn escaped_name_is_written_escaped() {
    let mut buffer = Vec::new();
    put_field_bytes(&mut buffer, WriteEscaped("user.id"), b"42");
    assert_eq!(&buffer, b"USER_ID=42\n");
}

#[test]
fn escaped_prefix_counts_toward_the_limit() {
    let key = "9".repeat(100);
    let mut bs = vec![];
    write_escaped_key(&key, &mut bs);
    assert_eq!(bs.len(), 64);
    assert!(bs.starts_with(b"ESCAPED_9"));
}

#[test]
fn escaped_keys_are_valid_keys() {
    for key in ["a-b", "ünïcödé", "_", "0", "x".repeat(70).as_str()] {
        let mut bs = vec![];
        write_escaped_key(key, &mut bs);
        assert!(bs.len() <= 64);
        assert!(bs.iter().all(|&b| is_valid_key_char(b as char)));
        assert!(bs[0].is_ascii_uppercase());
    }
}

#[test]
fn length_encoded_field_appends_to_buffer() {
    let mut buffer = b"X=1\n".to_vec();
    put_field_length_encoded(&mut buffer, WellFormed("A"), b"");
    assert_eq!(&buffer, b"X=1\nA\n\0\0\0\0\0\0\0\0\n");
}

#[test]
fn valid_key_chars() {
    assert!(is_valid_key_char('A'));
    assert!(is_valid_key_char('Z'));
    assert!(is_valid_key_char('0'));
    assert!(is_valid_key_char('9'));
    assert!(is_valid_key_char('_'));
    assert!(!is_valid_key_char('a'));
    assert!(!is_valid_key_char('-'));
    assert!(!is_valid_key_char('ö'));
}
