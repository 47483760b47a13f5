use logforth::bridge_log::criteria_for;
use logforth::bridge_log::level_to_level;
use logforth::bridge_log::record_builder_for;
use logforth::bridge_log::LogLevel;
use logforth::error::Error;
use logforth::filter::FilterResult;
use logforth::record::FilterCriteria;
use logforth::level::Level;
use logforth::logger::builder;
use logforth::rustlog::RustLogFilterBuilder;
use logforth::starter_log;
use logforth::starter_log::default_filter;
use logforth::starter_log::LogStarterBuilder;

#[test]
fn named_logger() {
    let metering = builder::<u8>().name("metering").dispatch(1).dispatch(2).build();
    assert_eq!(metering.name(), Some("metering"));
    assert_eq!(metering.dispatches(), &[1, 2]);
    let unnamed = builder::<u8>().build();
    assert_eq!(unnamed.name(), None);
}

#[test]
fn starter_keeps_dispatches() {
    let logger = starter_log::builder::<&str>().dispatch("stderr").into_logger();
    assert_eq!(logger.dispatches(), &["stderr"]);
}

#[test]
fn starter_apply_outcomes() {
    assert!(LogStarterBuilder::<u8>::try_apply(true, Some(true)).is_ok());
    assert_eq!(
        LogStarterBuilder::<u8>::try_apply(false, None).unwrap_err().to_string(),
        "logforth default logger has been already setup"
    );
    assert_eq!(
        LogStarterBuilder::<u8>::try_apply(true, Some(false)).unwrap_err().to_string(),
        "log global logger has been already setup"
    );
}

#[test]
fn default_filter_from_environment_value() {
    let f = default_filter(None);
    let c = FilterCriteria::builder().level(Level::Error).target("app").build();
    assert_eq!(f.enabled(&c), FilterResult::Neutral);
    let c = FilterCriteria::builder().level(Level::Warn).target("app").build();
    assert_eq!(f.enabled(&c), FilterResult::Reject);
    let f = default_filter(Some("debug"));
    assert_eq!(f.enabled(&c), FilterResult::Neutral);
    let b = RustLogFilterBuilder::from_env_value_or(None, "warn").build();
    assert_eq!(b.enabled(&c), FilterResult::Neutral);
}

#[test]
fn log_levels_map_by_name() {
    assert_eq!(level_to_level(LogLevel::Error), Level::Error);
    assert_eq!(level_to_level(LogLevel::Warn), Level::Warn);
    assert_eq!(level_to_level(LogLevel::Info), Level::Info);
    assert_eq!(level_to_level(LogLevel::Debug), Level::Debug);
    assert_eq!(level_to_level(LogLevel::Trace), Level::Trace);
    let c = criteria_for("my_target", LogLevel::Warn);
    assert_eq!(c.target(), "my_target");
    assert_eq!(c.level(), Level::Warn);
}

#[test]
fn bridged_records_keep_static_strings() {
    let r = record_builder_for(
        LogLevel::Info,
        "t",
        Some(3),
        Some("my::module"),
        None,
        None,
        Some("src/lib.rs"),
        std::borrow::Cow::Borrowed("hi"),
    )
    .build();
    assert_eq!(r.level(), Level::Info);
    assert_eq!(r.module_name_static(), Some("my::module"));
    assert_eq!(r.file(), Some("src/lib.rs"));
    assert_eq!(r.file_static(), None);
    assert_eq!(r.payload_static(), Some("hi"));
    assert_eq!(r.line(), Some(3));
}

#[test]
fn error_display() {
    let e = Error::new("boom".to_string())
        .with_context("k", "v".to_string())
        .with_context("n", "1".to_string())
        .with_source("inner".to_string());
    assert_eq!(e.to_string(), "boom, context: { k: v, n: 1 }, sources: [inner]");
    assert_eq!(e.sources().len(), 1);
}

#[test]
fn filter_chain_first_decision_wins() {
    use_chain();
}

fn use_chain() {
    use_results(&[], true);
    use_results(&[FilterResult::Neutral, FilterResult::Neutral], true);
    use_results(&[FilterResult::Neutral, FilterResult::Reject, FilterResult::Accept], false);
    use_results(&[FilterResult::Accept, FilterResult::Reject], true);
}

fn use_results(results: &[FilterResult], expected: bool) {
    assert_eq!(logforth::filter::filters_admit(results), expected);
}

#[test]
fn sources_keep_the_order_of_the_calls() {
    let e = Error::new("top".to_string())
        .with_source("first".to_string())
        .with_context("k", "v".to_string())
        .with_source("second".to_string());
    assert_eq!(e.sources(), &["first".to_string(), "second".to_string()]);
    assert_eq!(e.first_source(), Some("first"));
    assert_eq!(Error::new("m".to_string()).first_source(), None);
}
