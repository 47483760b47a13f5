//! The bridge from the `log` crate: how its levels map to the levels of this library, and the
//! filter criteria and records that its calls become.
use vstd::prelude::*;

use crate::level::Level;
use crate::record::{FilterCriteria, FilterCriteriaBuilder, Record, RecordBuilder};
use crate::str::RefStr;

verus! {

/// The levels of the `log` crate, as the caller reads them from `log::Level`.
#[derive(Clone, Copy, Debug, PartialEq, Eq, Structural)]
pub enum LogLevel {
    Error,
    Warn,
    Info,
    Debug,
    Trace,
}

pub open spec fn spec_level_to_level(level: LogLevel) -> Level {
    match level {
        LogLevel::Error => Level::Error,
        LogLevel::Warn => Level::Warn,
        LogLevel::Info => Level::Info,
        LogLevel::Debug => Level::Debug,
        LogLevel::Trace => Level::Trace,
    }
}

/// The level of this library for a level of the `log` crate: the level of the same name.
pub fn level_to_level(level: LogLevel) -> (r: Level)
    ensures
        r == spec_level_to_level(level),
{
    match level {
        LogLevel::Error => Level::Error,
        LogLevel::Warn => Level::Warn,
        LogLevel::Info => Level::Info,
        LogLevel::Debug => Level::Debug,
        LogLevel::Trace => Level::Trace,
    }
}

/// The filter criteria of a `log` call with the given target and level.
pub fn criteria_for<'a>(target: &'a str, level: LogLevel) -> (r: FilterCriteria<'a>)
    ensures
        r.spec_target() == target@,
        r.spec_level() == spec_level_to_level(level),
{
    FilterCriteria::builder().target(target).level(level_to_level(level)).build()
}

/// The record builder for a `log` record: its level, target and line, its module path and file
/// (kept `'static` where the `log` record has them so), and its message.
pub fn record_builder_for<'a>(
    level: LogLevel,
    target: &'a str,
    line: Option<u32>,
    module_static: Option<&'static str>,
    module: Option<&'a str>,
    file_static: Option<&'static str>,
    file: Option<&'a str>,
    message: std::borrow::Cow<'static, str>,
) -> (r: RecordBuilder<'a>)
    ensures
        r.spec_record().spec_level() == spec_level_to_level(level),
        r.spec_record().spec_target() == RefStr::Borrowed(target),
        r.spec_record().spec_line() == line,
        r.spec_record().spec_module_name() == (match module_static {
            Some(m) => Some(RefStr::<'a>::Static(m)),
            None => match module {
                Some(m) => Some(RefStr::Borrowed(m)),
                None => None,
            },
        }),
        r.spec_record().spec_file() == (match file_static {
            Some(f) => Some(RefStr::<'a>::Static(f)),
            None => match file {
                Some(f) => Some(RefStr::Borrowed(f)),
                None => None,
            },
        }),
        r.spec_record().spec_payload() == (message@, message is Borrowed),
{
    let mut builder = Record::builder().level(level_to_level(level)).target(target).line(line);
    builder = match module_static {
        Some(m) => builder.module_name_static(m),
        None => builder.module_name(module),
    };
    builder = match file_static {
        Some(f) => builder.file_static(f),
        None => builder.file(file),
    };
    builder.payload(message)
}

} // verus!
