use logforth::error::Error;
use logforth::filter::FilterResult;
use logforth::level::Level;
use logforth::level::LevelFilter;
use logforth::record::FilterCriteria;
use logforth::rustlog::RustLogFilter;
use logforth::rustlog::RustLogFilterBuilder;

fn check(f: &RustLogFilter, level: Level, target: &str) -> FilterResult {
    f.enabled(&FilterCriteria::builder().level(level).target(target).build())
}

#[test]
fn longest_matching_directive_decides() {
    let f = RustLogFilterBuilder::from_spec("info,my_crate=debug,my_crate::noisy=error").build();
    assert_eq!(check(&f, Level::Info, "other"), FilterResult::Neutral);
    assert_eq!(check(&f, Level::Debug, "other"), FilterResult::Reject);
    assert_eq!(check(&f, Level::Debug, "my_crate::db"), FilterResult::Neutral);
    assert_eq!(check(&f, Level::Info, "my_crate::noisy::x"), FilterResult::Reject);
    assert_eq!(check(&f, Level::Error, "my_crate::noisy::x"), FilterResult::Neutral);
}

#[test]
fn malformed_directives_are_ignored_or_refused() {
    let spec = "info,a=b=c,x=loud";
    let f = RustLogFilterBuilder::from_spec(spec).build();
    assert_eq!(check(&f, Level::Info, "x"), FilterResult::Neutral);
    let warnings = RustLogFilterBuilder::parse_warnings(spec);
    assert_eq!(
        warnings,
        vec!["malformed logging spec 'a=b=c'".to_string(), "malformed logging spec 'loud'".to_string()]
    );
    let err = RustLogFilterBuilder::try_from_spec(spec).err().unwrap();
    assert_eq!(err.to_string(), "malformed logging spec 'a=b=c'");
    assert!(RustLogFilterBuilder::try_from_spec("warn, m = debug").is_ok());
}

#[test]
fn builder_directives_replace_same_name() {
    let f = RustLogFilterBuilder::from_spec("")
        .filter_level(LevelFilter::MoreSevereEqual(Level::Warn))
        .filter_module("m".to_string(), LevelFilter::Off)
        .filter_module("m".to_string(), LevelFilter::All)
        .build();
    assert_eq!(check(&f, Level::Trace, "m::x"), FilterResult::Neutral);
    assert_eq!(check(&f, Level::Info, "n"), FilterResult::Reject);
    assert_eq!(check(&f, Level::Warn, "n"), FilterResult::Neutral);
}

#[test]
fn empty_spec_admits_errors_only() {
    let f = RustLogFilterBuilder::from_spec("").build();
    assert_eq!(check(&f, Level::Error, "any"), FilterResult::Neutral);
    assert_eq!(check(&f, Level::Fatal, "any"), FilterResult::Neutral);
    assert_eq!(check(&f, Level::Warn, "any"), FilterResult::Reject);
}

#[test]
fn off_and_all_levels() {
    let f = RustLogFilterBuilder::from_spec("off,loud=all").build();
    assert_eq!(check(&f, Level::Fatal, "quiet"), FilterResult::Reject);
    assert_eq!(check(&f, Level::Trace, "loud"), FilterResult::Neutral);
    let f = RustLogFilterBuilder::from_spec("bare_name").build();
    assert_eq!(check(&f, Level::Trace, "bare_name::x"), FilterResult::Neutral);
    assert_eq!(check(&f, Level::Trace, "other"), FilterResult::Reject);
}

#[test]
fn errors_from_io_and_fmt() {
    let e = Error::from_io_error(std::io::Error::new(std::io::ErrorKind::Other, "disk gone"));
    assert_eq!(e.to_string(), "failed to perform io, sources: [disk gone]");
    let e = Error::from_fmt_error(std::fmt::Error);
    assert_eq!(e.to_string(), "failed to perform format, sources: [an error occurred when formatting an argument]");
}

#[test]
fn lenient_parse_acts_like_the_well_formed_pieces() {
    let lenient = RustLogFilterBuilder::from_spec("info,x=bogus,m=debug").build();
    let strict = RustLogFilterBuilder::try_from_spec("info,m=debug").unwrap().build();
    for level in [Level::Error, Level::Warn, Level::Info, Level::Debug, Level::Trace] {
        for target in ["x", "m::a", "other"] {
            assert_eq!(check(&lenient, level, target), check(&strict, level, target));
        }
    }
    assert_eq!(RustLogFilterBuilder::parse_warnings("info,x=bogus,m=debug").len(), 1);
}
