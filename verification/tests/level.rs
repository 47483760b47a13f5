use logforth::level::Level;
use logforth::level::LevelFilter;

#[test]
fn round_trip_level() {
    let levels = [
        Level::Trace,
        Level::Trace2,
        Level::Trace3,
        Level::Trace4,
        Level::Debug,
        Level::Debug2,
        Level::Debug3,
        Level::Debug4,
        Level::Info,
        Level::Info2,
        Level::Info3,
        Level::Info4,
        Level::Warn,
        Level::Warn2,
        Level::Warn3,
        Level::Warn4,
        Level::Error,
        Level::Error2,
        Level::Error3,
        Level::Error4,
        Level::Fatal,
        Level::Fatal2,
        Level::Fatal3,
        Level::Fatal4,
    ];

    for &level in &levels {
        let s = level.name();
        let parsed = s.parse::<Level>().unwrap();
        assert_eq!(level, parsed);
    }
}

#[test]
fn level_parse_ignores_ascii_case() {
    assert_eq!("warn".parse::<Level>().unwrap(), Level::Warn);
    assert_eq!("WaRn3".parse::<Level>().unwrap(), Level::Warn3);
}

#[test]
fn level_parse_rejects_unknown_names() {
    let err = "verbose".parse::<Level>().unwrap_err();
    assert_eq!(err.to_string(), "malformed level: \"verbose\"");
}

#[test]
fn level_filter_tests_severity() {
    assert!(LevelFilter::MoreSevereEqual(Level::Info).test(Level::Error));
    assert!(LevelFilter::MoreSevereEqual(Level::Info).test(Level::Info));
    assert!(!LevelFilter::MoreSevereEqual(Level::Info).test(Level::Debug));
    assert!(!LevelFilter::Off.test(Level::Fatal));
    assert!(LevelFilter::All.test(Level::Trace));
}
