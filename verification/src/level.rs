//! Severity levels and level filters.
use vstd::prelude::*;

use crate::error::Error;
use crate::text::{ascii_lower, debug_str, eq_ignore_ascii_case, push_str, quote_debug, str_eq_ignore_ascii_case};

verus! {

/// A Level is the importance or severity of a log event.
///
/// The higher the level, the more important or severe the event. The levels follow the
/// OpenTelemetry severity numbers: `Trace` is 1 and `Fatal4` is 24.
#[derive(Clone, Copy, Debug, PartialEq, Eq, Structural, PartialOrd, Ord, Hash)]
pub enum Level {
    /// A fine-grained debugging event.
    Trace,
    /// A fine-grained debugging event.
    Trace2,
    /// A fine-grained debugging event.
    Trace3,
    /// A fine-grained debugging event.
    Trace4,
    /// A debugging event.
    Debug,
    /// A debugging event.
    Debug2,
    /// A debugging event.
    Debug3,
    /// A debugging event.
    Debug4,
    /// An informational event.
    Info,
    /// An informational event.
    Info2,
    /// An informational event.
    Info3,
    /// An informational event.
    Info4,
    /// A warning event.
    Warn,
    /// A warning event.
    Warn2,
    /// A warning event.
    Warn3,
    /// A warning event.
    Warn4,
    /// An error event.
    Error,
    /// An error event.
    Error2,
    /// An error event.
    Error3,
    /// An error event.
    Error4,
    /// A fatal error such as application or system crash.
    Fatal,
    /// A fatal error such as application or system crash.
    Fatal2,
    /// A fatal error such as application or system crash.
    Fatal3,
    /// A fatal error such as application or system crash.
    Fatal4,
}

impl Level {
    /// The severity number of the level, from 1 (`Trace`) to 24 (`Fatal4`).
    pub open spec fn severity(self) -> nat {
        match self {
            Level::Trace => 1,
            Level::Trace2 => 2,
            Level::Trace3 => 3,
            Level::Trace4 => 4,
            Level::Debug => 5,
            Level::Debug2 => 6,
            Level::Debug3 => 7,
            Level::Debug4 => 8,
            Level::Info => 9,
            Level::Info2 => 10,
            Level::Info3 => 11,
            Level::Info4 => 12,
            Level::Warn => 13,
            Level::Warn2 => 14,
            Level::Warn3 => 15,
            Level::Warn4 => 16,
            Level::Error => 17,
            Level::Error2 => 18,
            Level::Error3 => 19,
            Level::Error4 => 20,
            Level::Fatal => 21,
            Level::Fatal2 => 22,
            Level::Fatal3 => 23,
            Level::Fatal4 => 24,
        }
    }

    /// The short upper-case name of the level.
    pub open spec fn spec_name(self) -> Seq<char> {
        match self {
            Level::Trace => seq!['T', 'R', 'A', 'C', 'E'],
            Level::Trace2 => seq!['T', 'R', 'A', 'C', 'E', '2'],
            Level::Trace3 => seq!['T', 'R', 'A', 'C', 'E', '3'],
            Level::Trace4 => seq!['T', 'R', 'A', 'C', 'E', '4'],
            Level::Debug => seq!['D', 'E', 'B', 'U', 'G'],
            Level::Debug2 => seq!['D', 'E', 'B', 'U', 'G', '2'],
            Level::Debug3 => seq!['D', 'E', 'B', 'U', 'G', '3'],
            Level::Debug4 => seq!['D', 'E', 'B', 'U', 'G', '4'],
            Level::Info => seq!['I', 'N', 'F', 'O'],
            Level::Info2 => seq!['I', 'N', 'F', 'O', '2'],
            Level::Info3 => seq!['I', 'N', 'F', 'O', '3'],
            Level::Info4 => seq!['I', 'N', 'F', 'O', '4'],
            Level::Warn => seq!['W', 'A', 'R', 'N'],
            Level::Warn2 => seq!['W', 'A', 'R', 'N', '2'],
            Level::Warn3 => seq!['W', 'A', 'R', 'N', '3'],
            Level::Warn4 => seq!['W', 'A', 'R', 'N', '4'],
            Level::Error => seq!['E', 'R', 'R', 'O', 'R'],
            Level::Error2 => seq!['E', 'R', 'R', 'O', 'R', '2'],
            Level::Error3 => seq!['E', 'R', 'R', 'O', 'R', '3'],
            Level::Error4 => seq!['E', 'R', 'R', 'O', 'R', '4'],
            Level::Fatal => seq!['F', 'A', 'T', 'A', 'L'],
            Level::Fatal2 => seq!['F', 'A', 'T', 'A', 'L', '2'],
            Level::Fatal3 => seq!['F', 'A', 'T', 'A', 'L', '3'],
            Level::Fatal4 => seq!['F', 'A', 'T', 'A', 'L', '4'],
        }
    }

    /// Return the string representation the short name for the `Level`.
    pub fn name(&self) -> (r: &'static str)
        ensures
            r@ == self.spec_name(),
    {
        match self {
            Level::Trace => {
                proof {
                    reveal_strlit("TRACE");
                }
                let s = "TRACE";
                assert(s@ =~= self.spec_name());
                s
            },
            Level::Trace2 => {
                proof {
                    reveal_strlit("TRACE2");
                }
                let s = "TRACE2";
                assert(s@ =~= self.spec_name());
                s
            },
            Level::Trace3 => {
                proof {
                    reveal_strlit("TRACE3");
                }
                let s = "TRACE3";
                assert(s@ =~= self.spec_name());
                s
            },
            Level::Trace4 => {
                proof {
                    reveal_strlit("TRACE4");
                }
                let s = "TRACE4";
                assert(s@ =~= self.spec_name());
                s
            },
            Level::Debug => {
                proof {
                    reveal_strlit("DEBUG");
                }
                let s = "DEBUG";
                assert(s@ =~= self.spec_name());
                s
            },
            Level::Debug2 => {
                proof {
                    reveal_strlit("DEBUG2");
                }
                let s = "DEBUG2";
                assert(s@ =~= self.spec_name());
                s
            },
            Level::Debug3 => {
                proof {
                    reveal_strlit("DEBUG3");
                }
                let s = "DEBUG3";
                assert(s@ =~= self.spec_name());
                s
            },
            Level::Debug4 => {
                proof {
                    reveal_strlit("DEBUG4");
                }
                let s = "DEBUG4";
                assert(s@ =~= self.spec_name());
                s
            },
            Level::Info => {
                proof {
                    reveal_strlit("INFO");
                }
                let s = "INFO";
                assert(s@ =~= self.spec_name());
                s
            },
            Level::Info2 => {
                proof {
                    reveal_strlit("INFO2");
                }
                let s = "INFO2";
                assert(s@ =~= self.spec_name());
                s
            },
            Level::Info3 => {
                proof {
                    reveal_strlit("INFO3");
                }
                let s = "INFO3";
                assert(s@ =~= self.spec_name());
                s
            },
            Level::Info4 => {
                proof {
                    reveal_strlit("INFO4");
                }
                let s = "INFO4";
                assert(s@ =~= self.spec_name());
                s
            },
            Level::Warn => {
                proof {
                    reveal_strlit("WARN");
                }
                let s = "WARN";
                assert(s@ =~= self.spec_name());
                s
            },
            Level::Warn2 => {
                proof {
                    reveal_strlit("WARN2");
                }
                let s = "WARN2";
                assert(s@ =~= self.spec_name());
                s
            },
            Level::Warn3 => {
                proof {
                    reveal_strlit("WARN3");
                }
                let s = "WARN3";
                assert(s@ =~= self.spec_name());
                s
            },
            Level::Warn4 => {
                proof {
                    reveal_strlit("WARN4");
                }
                let s = "WARN4";
                assert(s@ =~= self.spec_name());
                s
            },
            Level::Error => {
                proof {
                    reveal_strlit("ERROR");
                }
                let s = "ERROR";
                assert(s@ =~= self.spec_name());
                s
            },
            Level::Error2 => {
                proof {
                    reveal_strlit("ERROR2");
                }
                let s = "ERROR2";
                assert(s@ =~= self.spec_name());
                s
            },
            Level::Error3 => {
                proof {
                    reveal_strlit("ERROR3");
                }
                let s = "ERROR3";
                assert(s@ =~= self.spec_name());
                s
            },
            Level::Error4 => {
                proof {
                    reveal_strlit("ERROR4");
                }
                let s = "ERROR4";
                assert(s@ =~= self.spec_name());
                s
            },
            Level::Fatal => {
                proof {
                    reveal_strlit("FATAL");
                }
                let s = "FATAL";
                assert(s@ =~= self.spec_name());
                s
            },
            Level::Fatal2 => {
                proof {
                    reveal_strlit("FATAL2");
                }
                let s = "FATAL2";
                assert(s@ =~= self.spec_name());
                s
            },
            Level::Fatal3 => {
                proof {
                    reveal_strlit("FATAL3");
                }
                let s = "FATAL3";
                assert(s@ =~= self.spec_name());
                s
            },
            Level::Fatal4 => {
                proof {
                    reveal_strlit("FATAL4");
                }
                let s = "FATAL4";
                assert(s@ =~= self.spec_name());
                s
            },
        }
    }

    /// The severity number of the level.
    pub fn severity_number(&self) -> (r: u8)
        ensures
            r as nat == self.severity(),
    {
        match self {
            Level::Trace => 1,
            Level::Trace2 => 2,
            Level::Trace3 => 3,
            Level::Trace4 => 4,
            Level::Debug => 5,
            Level::Debug2 => 6,
            Level::Debug3 => 7,
            Level::Debug4 => 8,
            Level::Info => 9,
            Level::Info2 => 10,
            Level::Info3 => 11,
            Level::Info4 => 12,
            Level::Warn => 13,
            Level::Warn2 => 14,
            Level::Warn3 => 15,
            Level::Warn4 => 16,
            Level::Error => 17,
            Level::Error2 => 18,
            Level::Error3 => 19,
            Level::Error4 => 20,
            Level::Fatal => 21,
            Level::Fatal2 => 22,
            Level::Fatal3 => 23,
            Level::Fatal4 => 24,
        }
    }

    /// The level that `s` names, ignoring ASCII case; the names are tried in the order of the
    /// common levels first.
    pub open spec fn spec_parse(s: Seq<char>) -> Option<Level> {
        if eq_ignore_ascii_case(s, seq!['f', 'a', 't', 'a', 'l']) {
            Some(Level::Fatal)
        } else if eq_ignore_ascii_case(s, seq!['e', 'r', 'r', 'o', 'r']) {
            Some(Level::Error)
        } else if eq_ignore_ascii_case(s, seq!['w', 'a', 'r', 'n']) {
            Some(Level::Warn)
        } else if eq_ignore_ascii_case(s, seq!['i', 'n', 'f', 'o']) {
            Some(Level::Info)
        } else if eq_ignore_ascii_case(s, seq!['d', 'e', 'b', 'u', 'g']) {
            Some(Level::Debug)
        } else if eq_ignore_ascii_case(s, seq!['t', 'r', 'a', 'c', 'e']) {
            Some(Level::Trace)
        } else if eq_ignore_ascii_case(s, seq!['f', 'a', 't', 'a', 'l', '2']) {
            Some(Level::Fatal2)
        } else if eq_ignore_ascii_case(s, seq!['f', 'a', 't', 'a', 'l', '3']) {
            Some(Level::Fatal3)
        } else if eq_ignore_ascii_case(s, seq!['f', 'a', 't', 'a', 'l', '4']) {
            Some(Level::Fatal4)
        } else if eq_ignore_ascii_case(s, seq!['e', 'r', 'r', 'o', 'r', '2']) {
            Some(Level::Error2)
        } else if eq_ignore_ascii_case(s, seq!['e', 'r', 'r', 'o', 'r', '3']) {
            Some(Level::Error3)
        } else if eq_ignore_ascii_case(s, seq!['e', 'r', 'r', 'o', 'r', '4']) {
            Some(Level::Error4)
        } else if eq_ignore_ascii_case(s, seq!['w', 'a', 'r', 'n', '2']) {
            Some(Level::Warn2)
        } else if eq_ignore_ascii_case(s, seq!['w', 'a', 'r', 'n', '3']) {
            Some(Level::Warn3)
        } else if eq_ignore_ascii_case(s, seq!['w', 'a', 'r', 'n', '4']) {
            Some(Level::Warn4)
        } else if eq_ignore_ascii_case(s, seq!['i', 'n', 'f', 'o', '2']) {
            Some(Level::Info2)
        } else if eq_ignore_ascii_case(s, seq!['i', 'n', 'f', 'o', '3']) {
            Some(Level::Info3)
        } else if eq_ignore_ascii_case(s, seq!['i', 'n', 'f', 'o', '4']) {
            Some(Level::Info4)
        } else if eq_ignore_ascii_case(s, seq!['d', 'e', 'b', 'u', 'g', '2']) {
            Some(Level::Debug2)
        } else if eq_ignore_ascii_case(s, seq!['d', 'e', 'b', 'u', 'g', '3']) {
            Some(Level::Debug3)
        } else if eq_ignore_ascii_case(s, seq!['d', 'e', 'b', 'u', 'g', '4']) {
            Some(Level::Debug4)
        } else if eq_ignore_ascii_case(s, seq!['t', 'r', 'a', 'c', 'e', '2']) {
            Some(Level::Trace2)
        } else if eq_ignore_ascii_case(s, seq!['t', 'r', 'a', 'c', 'e', '3']) {
            Some(Level::Trace3)
        } else if eq_ignore_ascii_case(s, seq!['t', 'r', 'a', 'c', 'e', '4']) {
            Some(Level::Trace4)
        } else {
            None
        }
    }

    /// Find the level that `s` names, ignoring ASCII case.
    pub fn parse_name(s: &str) -> (r: Option<Level>)
        ensures
            r == Level::spec_parse(s@),
    {
        proof {
            reveal_strlit("fatal");
        }
        let t = "fatal";
        assert(t@ =~= seq!['f', 'a', 't', 'a', 'l']);
        if str_eq_ignore_ascii_case(s, t) {
            return Some(Level::Fatal);
        }
        proof {
            reveal_strlit("error");
        }
        let t = "error";
        assert(t@ =~= seq!['e', 'r', 'r', 'o', 'r']);
        if str_eq_ignore_ascii_case(s, t) {
            return Some(Level::Error);
        }
        proof {
            reveal_strlit("warn");
        }
        let t = "warn";
        assert(t@ =~= seq!['w', 'a', 'r', 'n']);
        if str_eq_ignore_ascii_case(s, t) {
            return Some(Level::Warn);
        }
        proof {
            reveal_strlit("info");
        }
        let t = "info";
        assert(t@ =~= seq!['i', 'n', 'f', 'o']);
        if str_eq_ignore_ascii_case(s, t) {
            return Some(Level::Info);
        }
        proof {
            reveal_strlit("debug");
        }
        let t = "debug";
        assert(t@ =~= seq!['d', 'e', 'b', 'u', 'g']);
        if str_eq_ignore_ascii_case(s, t) {
            return Some(Level::Debug);
        }
        proof {
            reveal_strlit("trace");
        }
        let t = "trace";
        assert(t@ =~= seq!['t', 'r', 'a', 'c', 'e']);
        if str_eq_ignore_ascii_case(s, t) {
            return Some(Level::Trace);
        }
        proof {
            reveal_strlit("fatal2");
        }
        let t = "fatal2";
        assert(t@ =~= seq!['f', 'a', 't', 'a', 'l', '2']);
        if str_eq_ignore_ascii_case(s, t) {
            return Some(Level::Fatal2);
        }
        proof {
            reveal_strlit("fatal3");
        }
        let t = "fatal3";
        assert(t@ =~= seq!['f', 'a', 't', 'a', 'l', '3']);
        if str_eq_ignore_ascii_case(s, t) {
            return Some(Level::Fatal3);
        }
        proof {
            reveal_strlit("fatal4");
        }
        let t = "fatal4";
        assert(t@ =~= seq!['f', 'a', 't', 'a', 'l', '4']);
        if str_eq_ignore_ascii_case(s, t) {
            return Some(Level::Fatal4);
        }
        proof {
            reveal_strlit("error2");
        }
        let t = "error2";
        assert(t@ =~= seq!['e', 'r', 'r', 'o', 'r', '2']);
        if str_eq_ignore_ascii_case(s, t) {
            return Some(Level::Error2);
        }
        proof {
            reveal_strlit("error3");
        }
        let t = "error3";
        assert(t@ =~= seq!['e', 'r', 'r', 'o', 'r', '3']);
        if str_eq_ignore_ascii_case(s, t) {
            return Some(Level::Error3);
        }
        proof {
            reveal_strlit("error4");
        }
        let t = "error4";
        assert(t@ =~= seq!['e', 'r', 'r', 'o', 'r', '4']);
        if str_eq_ignore_ascii_case(s, t) {
            return Some(Level::Error4);
        }
        proof {
            reveal_strlit("warn2");
        }
        let t = "warn2";
        assert(t@ =~= seq!['w', 'a', 'r', 'n', '2']);
        if str_eq_ignore_ascii_case(s, t) {
            return Some(Level::Warn2);
        }
        proof {
            reveal_strlit("warn3");
        }
        let t = "warn3";
        assert(t@ =~= seq!['w', 'a', 'r', 'n', '3']);
        if str_eq_ignore_ascii_case(s, t) {
            return Some(Level::Warn3);
        }
        proof {
            reveal_strlit("warn4");
        }
        let t = "warn4";
        assert(t@ =~= seq!['w', 'a', 'r', 'n', '4']);
        if str_eq_ignore_ascii_case(s, t) {
            return Some(Level::Warn4);
        }
        proof {
            reveal_strlit("info2");
        }
        let t = "info2";
        assert(t@ =~= seq!['i', 'n', 'f', 'o', '2']);
        if str_eq_ignore_ascii_case(s, t) {
            return Some(Level::Info2);
        }
        proof {
            reveal_strlit("info3");
        }
        let t = "info3";
        assert(t@ =~= seq!['i', 'n', 'f', 'o', '3']);
        if str_eq_ignore_ascii_case(s, t) {
            return Some(Level::Info3);
        }
        proof {
            reveal_strlit("info4");
        }
        let t = "info4";
        assert(t@ =~= seq!['i', 'n', 'f', 'o', '4']);
        if str_eq_ignore_ascii_case(s, t) {
            return Some(Level::Info4);
        }
        proof {
            reveal_strlit("debug2");
        }
        let t = "debug2";
        assert(t@ =~= seq!['d', 'e', 'b', 'u', 'g', '2']);
        if str_eq_ignore_ascii_case(s, t) {
            return Some(Level::Debug2);
        }
        proof {
            reveal_strlit("debug3");
        }
        let t = "debug3";
        assert(t@ =~= seq!['d', 'e', 'b', 'u', 'g', '3']);
        if str_eq_ignore_ascii_case(s, t) {
            return Some(Level::Debug3);
        }
        proof {
            reveal_strlit("debug4");
        }
        let t = "debug4";
        assert(t@ =~= seq!['d', 'e', 'b', 'u', 'g', '4']);
        if str_eq_ignore_ascii_case(s, t) {
            return Some(Level::Debug4);
        }
        proof {
            reveal_strlit("trace2");
        }
        let t = "trace2";
        assert(t@ =~= seq!['t', 'r', 'a', 'c', 'e', '2']);
        if str_eq_ignore_ascii_case(s, t) {
            return Some(Level::Trace2);
        }
        proof {
            reveal_strlit("trace3");
        }
        let t = "trace3";
        assert(t@ =~= seq!['t', 'r', 'a', 'c', 'e', '3']);
        if str_eq_ignore_ascii_case(s, t) {
            return Some(Level::Trace3);
        }
        proof {
            reveal_strlit("trace4");
        }
        let t = "trace4";
        assert(t@ =~= seq!['t', 'r', 'a', 'c', 'e', '4']);
        if str_eq_ignore_ascii_case(s, t) {
            return Some(Level::Trace4);
        }
        None
    }
}


impl Level {
    /// The message of the error for a string that names no level.
    pub open spec fn malformed_message(s: Seq<char>) -> Seq<char> {
        "malformed level: "@ + debug_str(s)
    }

    /// Parse a level from its name, ignoring ASCII case.
    ///
    /// Fails with the message `malformed level: "<s>"` when `s` names no level.
    pub fn parse(s: &str) -> (r: Result<Level, Error>)
        ensures
            match r {
                Ok(l) => Level::spec_parse(s@) == Some(l),
                Err(e) => Level::spec_parse(s@).is_none() && e.message() == Level::malformed_message(
                    s@,
                ) && e.context().len() == 0 && e.source_texts().len() == 0,
            },
    {
        match Level::parse_name(s) {
            Some(l) => Ok(l),
            None => {
                let mut m = "malformed level: ".to_string();
                let q = quote_debug(s);
                push_str(&mut m, q.as_str());
                Err(Error::new(m))
            },
        }
    }
}

impl std::str::FromStr for Level {
    type Err = Error;

    fn from_str(s: &str) -> (r: Result<Level, Error>)
        ensures
            match r {
                Ok(l) => Level::spec_parse(s@) == Some(l),
                Err(e) => Level::spec_parse(s@).is_none() && e.message() == Level::malformed_message(
                    s@,
                ) && e.context().len() == 0 && e.source_texts().len() == 0,
            },
    {
        Level::parse(s)
    }
}

/// An enum representing the available verbosity level filters of the logger.
#[derive(Clone, Copy, Debug, PartialEq, Eq, Structural, Hash)]
pub enum LevelFilter {
    /// Disables all levels.
    Off,
    /// Enables if the target level is equal to the filter level.
    Equal(Level),
    /// Enables if the target level is not equal to the filter level.
    NotEqual(Level),
    /// Enables if the target level is more severe than the filter level.
    MoreSevere(Level),
    /// Enables if the target level is more severe than or equal to the filter level.
    MoreSevereEqual(Level),
    /// Enables if the target level is more verbose than the filter level.
    MoreVerbose(Level),
    /// Enables if the target level is more verbose than or equal to the filter level.
    MoreVerboseEqual(Level),
    /// Enables all levels.
    All,
}

impl LevelFilter {
    /// Whether the filter enables records of the given level.
    pub open spec fn spec_test(self, level: Level) -> bool {
        match self {
            LevelFilter::Off => false,
            LevelFilter::Equal(l) => level == l,
            LevelFilter::NotEqual(l) => level != l,
            LevelFilter::MoreSevere(l) => level.severity() > l.severity(),
            LevelFilter::MoreSevereEqual(l) => level.severity() >= l.severity(),
            LevelFilter::MoreVerbose(l) => level.severity() < l.severity(),
            LevelFilter::MoreVerboseEqual(l) => level.severity() <= l.severity(),
            LevelFilter::All => true,
        }
    }

    /// Checks the given level if satisfies the filter condition.
    pub fn test(&self, level: Level) -> (r: bool)
        ensures
            r == self.spec_test(level),
    {
        let v = level.severity_number();
        match self {
            LevelFilter::Off => false,
            LevelFilter::Equal(l) => level == *l,
            LevelFilter::NotEqual(l) => level != *l,
            LevelFilter::MoreSevere(l) => v > l.severity_number(),
            LevelFilter::MoreSevereEqual(l) => v >= l.severity_number(),
            LevelFilter::MoreVerbose(l) => v < l.severity_number(),
            LevelFilter::MoreVerboseEqual(l) => v <= l.severity_number(),
            LevelFilter::All => true,
        }
    }
}

/// Distinct levels have distinct severity numbers.
pub proof fn lemma_severity_injective(a: Level, b: Level)
    ensures
        a.severity() == b.severity() <==> a == b,
{
}

/// Two character sequences that differ in length, in the case-folded first character or in the
/// case-folded last character are not equal ignoring ASCII case.
proof fn lemma_not_eq_ignore_case(a: Seq<char>, b: Seq<char>)
    requires
        a.len() > 0,
        b.len() > 0,
        a.len() != b.len() || ascii_lower(a[0]) != ascii_lower(b[0]) || ascii_lower(a[a.len() - 1])
            != ascii_lower(b[b.len() - 1]),
    ensures
        !eq_ignore_ascii_case(a, b),
{
    if eq_ignore_ascii_case(a, b) {
        assert(ascii_lower(a[0]) == ascii_lower(b[0]));
        assert(ascii_lower(a[a.len() - 1]) == ascii_lower(b[a.len() - 1]));
    }
}

/// Parsing the name of a level gives back that level.
pub proof fn lemma_parse_name_round_trip(l: Level)
    ensures
        Level::spec_parse(l.spec_name()) == Some(l),
{
    let n = l.spec_name();
    match l {
        Level::Trace => {
            lemma_not_eq_ignore_case(n, seq!['f', 'a', 't', 'a', 'l']);
            lemma_not_eq_ignore_case(n, seq!['e', 'r', 'r', 'o', 'r']);
            lemma_not_eq_ignore_case(n, seq!['w', 'a', 'r', 'n']);
            lemma_not_eq_ignore_case(n, seq!['i', 'n', 'f', 'o']);
            lemma_not_eq_ignore_case(n, seq!['d', 'e', 'b', 'u', 'g']);
            assert forall|i: int| 0 <= i < n.len() implies #[trigger] ascii_lower(n[i]) == ascii_lower(seq!['t', 'r', 'a', 'c', 'e'][i]) by {
                if i == 0 {} else if i == 1 {} else if i == 2 {} else if i == 3 {} else if i == 4 {}
            }
        },
        Level::Trace2 => {
            lemma_not_eq_ignore_case(n, seq!['f', 'a', 't', 'a', 'l']);
            lemma_not_eq_ignore_case(n, seq!['e', 'r', 'r', 'o', 'r']);
            lemma_not_eq_ignore_case(n, seq!['w', 'a', 'r', 'n']);
            lemma_not_eq_ignore_case(n, seq!['i', 'n', 'f', 'o']);
            lemma_not_eq_ignore_case(n, seq!['d', 'e', 'b', 'u', 'g']);
            lemma_not_eq_ignore_case(n, seq!['t', 'r', 'a', 'c', 'e']);
            lemma_not_eq_ignore_case(n, seq!['f', 'a', 't', 'a', 'l', '2']);
            lemma_not_eq_ignore_case(n, seq!['f', 'a', 't', 'a', 'l', '3']);
            lemma_not_eq_ignore_case(n, seq!['f', 'a', 't', 'a', 'l', '4']);
            lemma_not_eq_ignore_case(n, seq!['e', 'r', 'r', 'o', 'r', '2']);
            lemma_not_eq_ignore_case(n, seq!['e', 'r', 'r', 'o', 'r', '3']);
            lemma_not_eq_ignore_case(n, seq!['e', 'r', 'r', 'o', 'r', '4']);
            lemma_not_eq_ignore_case(n, seq!['w', 'a', 'r', 'n', '2']);
            lemma_not_eq_ignore_case(n, seq!['w', 'a', 'r', 'n', '3']);
            lemma_not_eq_ignore_case(n, seq!['w', 'a', 'r', 'n', '4']);
            lemma_not_eq_ignore_case(n, seq!['i', 'n', 'f', 'o', '2']);
            lemma_not_eq_ignore_case(n, seq!['i', 'n', 'f', 'o', '3']);
            lemma_not_eq_ignore_case(n, seq!['i', 'n', 'f', 'o', '4']);
            lemma_not_eq_ignore_case(n, seq!['d', 'e', 'b', 'u', 'g', '2']);
            lemma_not_eq_ignore_case(n, seq!['d', 'e', 'b', 'u', 'g', '3']);
            lemma_not_eq_ignore_case(n, seq!['d', 'e', 'b', 'u', 'g', '4']);
            assert forall|i: int| 0 <= i < n.len() implies #[trigger] ascii_lower(n[i]) == ascii_lower(seq!['t', 'r', 'a', 'c', 'e', '2'][i]) by {
                if i == 0 {} else if i == 1 {} else if i == 2 {} else if i == 3 {} else if i == 4 {} else if i == 5 {}
            }
        },
        Level::Trace3 => {
            lemma_not_eq_ignore_case(n, seq!['f', 'a', 't', 'a', 'l']);
            lemma_not_eq_ignore_case(n, seq!['e', 'r', 'r', 'o', 'r']);
            lemma_not_eq_ignore_case(n, seq!['w', 'a', 'r', 'n']);
            lemma_not_eq_ignore_case(n, seq!['i', 'n', 'f', 'o']);
            lemma_not_eq_ignore_case(n, seq!['d', 'e', 'b', 'u', 'g']);
            lemma_not_eq_ignore_case(n, seq!['t', 'r', 'a', 'c', 'e']);
            lemma_not_eq_ignore_case(n, seq!['f', 'a', 't', 'a', 'l', '2']);
            lemma_not_eq_ignore_case(n, seq!['f', 'a', 't', 'a', 'l', '3']);
            lemma_not_eq_ignore_case(n, seq!['f', 'a', 't', 'a', 'l', '4']);
            lemma_not_eq_ignore_case(n, seq!['e', 'r', 'r', 'o', 'r', '2']);
            lemma_not_eq_ignore_case(n, seq!['e', 'r', 'r', 'o', 'r', '3']);
            lemma_not_eq_ignore_case(n, seq!['e', 'r', 'r', 'o', 'r', '4']);
            lemma_not_eq_ignore_case(n, seq!['w', 'a', 'r', 'n', '2']);
            lemma_not_eq_ignore_case(n, seq!['w', 'a', 'r', 'n', '3']);
            lemma_not_eq_ignore_case(n, seq!['w', 'a', 'r', 'n', '4']);
            lemma_not_eq_ignore_case(n, seq!['i', 'n', 'f', 'o', '2']);
            lemma_not_eq_ignore_case(n, seq!['i', 'n', 'f', 'o', '3']);
            lemma_not_eq_ignore_case(n, seq!['i', 'n', 'f', 'o', '4']);
            lemma_not_eq_ignore_case(n, seq!['d', 'e', 'b', 'u', 'g', '2']);
            lemma_not_eq_ignore_case(n, seq!['d', 'e', 'b', 'u', 'g', '3']);
            lemma_not_eq_ignore_case(n, seq!['d', 'e', 'b', 'u', 'g', '4']);
            lemma_not_eq_ignore_case(n, seq!['t', 'r', 'a', 'c', 'e', '2']);
            assert forall|i: int| 0 <= i < n.len() implies #[trigger] ascii_lower(n[i]) == ascii_lower(seq!['t', 'r', 'a', 'c', 'e', '3'][i]) by {
                if i == 0 {} else if i == 1 {} else if i == 2 {} else if i == 3 {} else if i == 4 {} else if i == 5 {}
            }
        },
        Level::Trace4 => {
            lemma_not_eq_ignore_case(n, seq!['f', 'a', 't', 'a', 'l']);
            lemma_not_eq_ignore_case(n, seq!['e', 'r', 'r', 'o', 'r']);
            lemma_not_eq_ignore_case(n, seq!['w', 'a', 'r', 'n']);
            lemma_not_eq_ignore_case(n, seq!['i', 'n', 'f', 'o']);
            lemma_not_eq_ignore_case(n, seq!['d', 'e', 'b', 'u', 'g']);
            lemma_not_eq_ignore_case(n, seq!['t', 'r', 'a', 'c', 'e']);
            lemma_not_eq_ignore_case(n, seq!['f', 'a', 't', 'a', 'l', '2']);
            lemma_not_eq_ignore_case(n, seq!['f', 'a', 't', 'a', 'l', '3']);
            lemma_not_eq_ignore_case(n, seq!['f', 'a', 't', 'a', 'l', '4']);
            lemma_not_eq_ignore_case(n, seq!['e', 'r', 'r', 'o', 'r', '2']);
            lemma_not_eq_ignore_case(n, seq!['e', 'r', 'r', 'o', 'r', '3']);
            lemma_not_eq_ignore_case(n, seq!['e', 'r', 'r', 'o', 'r', '4']);
            lemma_not_eq_ignore_case(n, seq!['w', 'a', 'r', 'n', '2']);
            lemma_not_eq_ignore_case(n, seq!['w', 'a', 'r', 'n', '3']);
            lemma_not_eq_ignore_case(n, seq!['w', 'a', 'r', 'n', '4']);
            lemma_not_eq_ignore_case(n, seq!['i', 'n', 'f', 'o', '2']);
            lemma_not_eq_ignore_case(n, seq!['i', 'n', 'f', 'o', '3']);
            lemma_not_eq_ignore_case(n, seq!['i', 'n', 'f', 'o', '4']);
            lemma_not_eq_ignore_case(n, seq!['d', 'e', 'b', 'u', 'g', '2']);
            lemma_not_eq_ignore_case(n, seq!['d', 'e', 'b', 'u', 'g', '3']);
            lemma_not_eq_ignore_case(n, seq!['d', 'e', 'b', 'u', 'g', '4']);
            lemma_not_eq_ignore_case(n, seq!['t', 'r', 'a', 'c', 'e', '2']);
            lemma_not_eq_ignore_case(n, seq!['t', 'r', 'a', 'c', 'e', '3']);
            assert forall|i: int| 0 <= i < n.len() implies #[trigger] ascii_lower(n[i]) == ascii_lower(seq!['t', 'r', 'a', 'c', 'e', '4'][i]) by {
                if i == 0 {} else if i == 1 {} else if i == 2 {} else if i == 3 {} else if i == 4 {} else if i == 5 {}
            }
        },
        Level::Debug => {
            lemma_not_eq_ignore_case(n, seq!['f', 'a', 't', 'a', 'l']);
            lemma_not_eq_ignore_case(n, seq!['e', 'r', 'r', 'o', 'r']);
            lemma_not_eq_ignore_case(n, seq!['w', 'a', 'r', 'n']);
            lemma_not_eq_ignore_case(n, seq!['i', 'n', 'f', 'o']);
            assert forall|i: int| 0 <= i < n.len() implies #[trigger] ascii_lower(n[i]) == ascii_lower(seq!['d', 'e', 'b', 'u', 'g'][i]) by {
                if i == 0 {} else if i == 1 {} else if i == 2 {} else if i == 3 {} else if i == 4 {}
            }
        },
        Level::Debug2 => {
            lemma_not_eq_ignore_case(n, seq!['f', 'a', 't', 'a', 'l']);
            lemma_not_eq_ignore_case(n, seq!['e', 'r', 'r', 'o', 'r']);
            lemma_not_eq_ignore_case(n, seq!['w', 'a', 'r', 'n']);
            lemma_not_eq_ignore_case(n, seq!['i', 'n', 'f', 'o']);
            lemma_not_eq_ignore_case(n, seq!['d', 'e', 'b', 'u', 'g']);
            lemma_not_eq_ignore_case(n, seq!['t', 'r', 'a', 'c', 'e']);
            lemma_not_eq_ignore_case(n, seq!['f', 'a', 't', 'a', 'l', '2']);
            lemma_not_eq_ignore_case(n, seq!['f', 'a', 't', 'a', 'l', '3']);
            lemma_not_eq_ignore_case(n, seq!['f', 'a', 't', 'a', 'l', '4']);
            lemma_not_eq_ignore_case(n, seq!['e', 'r', 'r', 'o', 'r', '2']);
            lemma_not_eq_ignore_case(n, seq!['e', 'r', 'r', 'o', 'r', '3']);
            lemma_not_eq_ignore_case(n, seq!['e', 'r', 'r', 'o', 'r', '4']);
            lemma_not_eq_ignore_case(n, seq!['w', 'a', 'r', 'n', '2']);
            lemma_not_eq_ignore_case(n, seq!['w', 'a', 'r', 'n', '3']);
            lemma_not_eq_ignore_case(n, seq!['w', 'a', 'r', 'n', '4']);
            lemma_not_eq_ignore_case(n, seq!['i', 'n', 'f', 'o', '2']);
            lemma_not_eq_ignore_case(n, seq!['i', 'n', 'f', 'o', '3']);
            lemma_not_eq_ignore_case(n, seq!['i', 'n', 'f', 'o', '4']);
            assert forall|i: int| 0 <= i < n.len() implies #[trigger] ascii_lower(n[i]) == ascii_lower(seq!['d', 'e', 'b', 'u', 'g', '2'][i]) by {
                if i == 0 {} else if i == 1 {} else if i == 2 {} else if i == 3 {} else if i == 4 {} else if i == 5 {}
            }
        },
        Level::Debug3 => {
            lemma_not_eq_ignore_case(n, seq!['f', 'a', 't', 'a', 'l']);
            lemma_not_eq_ignore_case(n, seq!['e', 'r', 'r', 'o', 'r']);
            lemma_not_eq_ignore_case(n, seq!['w', 'a', 'r', 'n']);
            lemma_not_eq_ignore_case(n, seq!['i', 'n', 'f', 'o']);
            lemma_not_eq_ignore_case(n, seq!['d', 'e', 'b', 'u', 'g']);
            lemma_not_eq_ignore_case(n, seq!['t', 'r', 'a', 'c', 'e']);
            lemma_not_eq_ignore_case(n, seq!['f', 'a', 't', 'a', 'l', '2']);
            lemma_not_eq_ignore_case(n, seq!['f', 'a', 't', 'a', 'l', '3']);
            lemma_not_eq_ignore_case(n, seq!['f', 'a', 't', 'a', 'l', '4']);
            lemma_not_eq_ignore_case(n, seq!['e', 'r', 'r', 'o', 'r', '2']);
            lemma_not_eq_ignore_case(n, seq!['e', 'r', 'r', 'o', 'r', '3']);
            lemma_not_eq_ignore_case(n, seq!['e', 'r', 'r', 'o', 'r', '4']);
            lemma_not_eq_ignore_case(n, seq!['w', 'a', 'r', 'n', '2']);
            lemma_not_eq_ignore_case(n, seq!['w', 'a', 'r', 'n', '3']);
            lemma_not_eq_ignore_case(n, seq!['w', 'a', 'r', 'n', '4']);
            lemma_not_eq_ignore_case(n, seq!['i', 'n', 'f', 'o', '2']);
            lemma_not_eq_ignore_case(n, seq!['i', 'n', 'f', 'o', '3']);
            lemma_not_eq_ignore_case(n, seq!['i', 'n', 'f', 'o', '4']);
            lemma_not_eq_ignore_case(n, seq!['d', 'e', 'b', 'u', 'g', '2']);
            assert forall|i: int| 0 <= i < n.len() implies #[trigger] ascii_lower(n[i]) == ascii_lower(seq!['d', 'e', 'b', 'u', 'g', '3'][i]) by {
                if i == 0 {} else if i == 1 {} else if i == 2 {} else if i == 3 {} else if i == 4 {} else if i == 5 {}
            }
        },
        Level::Debug4 => {
            lemma_not_eq_ignore_case(n, seq!['f', 'a', 't', 'a', 'l']);
            lemma_not_eq_ignore_case(n, seq!['e', 'r', 'r', 'o', 'r']);
            lemma_not_eq_ignore_case(n, seq!['w', 'a', 'r', 'n']);
            lemma_not_eq_ignore_case(n, seq!['i', 'n', 'f', 'o']);
            lemma_not_eq_ignore_case(n, seq!['d', 'e', 'b', 'u', 'g']);
            lemma_not_eq_ignore_case(n, seq!['t', 'r', 'a', 'c', 'e']);
            lemma_not_eq_ignore_case(n, seq!['f', 'a', 't', 'a', 'l', '2']);
            lemma_not_eq_ignore_case(n, seq!['f', 'a', 't', 'a', 'l', '3']);
            lemma_not_eq_ignore_case(n, seq!['f', 'a', 't', 'a', 'l', '4']);
            lemma_not_eq_ignore_case(n, seq!['e', 'r', 'r', 'o', 'r', '2']);
            lemma_not_eq_ignore_case(n, seq!['e', 'r', 'r', 'o', 'r', '3']);
            lemma_not_eq_ignore_case(n, seq!['e', 'r', 'r', 'o', 'r', '4']);
            lemma_not_eq_ignore_case(n, seq!['w', 'a', 'r', 'n', '2']);
            lemma_not_eq_ignore_case(n, seq!['w', 'a', 'r', 'n', '3']);
            lemma_not_eq_ignore_case(n, seq!['w', 'a', 'r', 'n', '4']);
            lemma_not_eq_ignore_case(n, seq!['i', 'n', 'f', 'o', '2']);
            lemma_not_eq_ignore_case(n, seq!['i', 'n', 'f', 'o', '3']);
            lemma_not_eq_ignore_case(n, seq!['i', 'n', 'f', 'o', '4']);
            lemma_not_eq_ignore_case(n, seq!['d', 'e', 'b', 'u', 'g', '2']);
            lemma_not_eq_ignore_case(n, seq!['d', 'e', 'b', 'u', 'g', '3']);
            assert forall|i: int| 0 <= i < n.len() implies #[trigger] ascii_lower(n[i]) == ascii_lower(seq!['d', 'e', 'b', 'u', 'g', '4'][i]) by {
                if i == 0 {} else if i == 1 {} else if i == 2 {} else if i == 3 {} else if i == 4 {} else if i == 5 {}
            }
        },
        Level::Info => {
            lemma_not_eq_ignore_case(n, seq!['f', 'a', 't', 'a', 'l']);
            lemma_not_eq_ignore_case(n, seq!['e', 'r', 'r', 'o', 'r']);
            lemma_not_eq_ignore_case(n, seq!['w', 'a', 'r', 'n']);
            assert forall|i: int| 0 <= i < n.len() implies #[trigger] ascii_lower(n[i]) == ascii_lower(seq!['i', 'n', 'f', 'o'][i]) by {
                if i == 0 {} else if i == 1 {} else if i == 2 {} else if i == 3 {}
            }
        },
        Level::Info2 => {
            lemma_not_eq_ignore_case(n, seq!['f', 'a', 't', 'a', 'l']);
            lemma_not_eq_ignore_case(n, seq!['e', 'r', 'r', 'o', 'r']);
            lemma_not_eq_ignore_case(n, seq!['w', 'a', 'r', 'n']);
            lemma_not_eq_ignore_case(n, seq!['i', 'n', 'f', 'o']);
            lemma_not_eq_ignore_case(n, seq!['d', 'e', 'b', 'u', 'g']);
            lemma_not_eq_ignore_case(n, seq!['t', 'r', 'a', 'c', 'e']);
            lemma_not_eq_ignore_case(n, seq!['f', 'a', 't', 'a', 'l', '2']);
            lemma_not_eq_ignore_case(n, seq!['f', 'a', 't', 'a', 'l', '3']);
            lemma_not_eq_ignore_case(n, seq!['f', 'a', 't', 'a', 'l', '4']);
            lemma_not_eq_ignore_case(n, seq!['e', 'r', 'r', 'o', 'r', '2']);
            lemma_not_eq_ignore_case(n, seq!['e', 'r', 'r', 'o', 'r', '3']);
            lemma_not_eq_ignore_case(n, seq!['e', 'r', 'r', 'o', 'r', '4']);
            lemma_not_eq_ignore_case(n, seq!['w', 'a', 'r', 'n', '2']);
            lemma_not_eq_ignore_case(n, seq!['w', 'a', 'r', 'n', '3']);
            lemma_not_eq_ignore_case(n, seq!['w', 'a', 'r', 'n', '4']);
            assert forall|i: int| 0 <= i < n.len() implies #[trigger] ascii_lower(n[i]) == ascii_lower(seq!['i', 'n', 'f', 'o', '2'][i]) by {
                if i == 0 {} else if i == 1 {} else if i == 2 {} else if i == 3 {} else if i == 4 {}
            }
        },
        Level::Info3 => {
            lemma_not_eq_ignore_case(n, seq!['f', 'a', 't', 'a', 'l']);
            lemma_not_eq_ignore_case(n, seq!['e', 'r', 'r', 'o', 'r']);
            lemma_not_eq_ignore_case(n, seq!['w', 'a', 'r', 'n']);
            lemma_not_eq_ignore_case(n, seq!['i', 'n', 'f', 'o']);
            lemma_not_eq_ignore_case(n, seq!['d', 'e', 'b', 'u', 'g']);
            lemma_not_eq_ignore_case(n, seq!['t', 'r', 'a', 'c', 'e']);
            lemma_not_eq_ignore_case(n, seq!['f', 'a', 't', 'a', 'l', '2']);
            lemma_not_eq_ignore_case(n, seq!['f', 'a', 't', 'a', 'l', '3']);
            lemma_not_eq_ignore_case(n, seq!['f', 'a', 't', 'a', 'l', '4']);
            lemma_not_eq_ignore_case(n, seq!['e', 'r', 'r', 'o', 'r', '2']);
            lemma_not_eq_ignore_case(n, seq!['e', 'r', 'r', 'o', 'r', '3']);
            lemma_not_eq_ignore_case(n, seq!['e', 'r', 'r', 'o', 'r', '4']);
            lemma_not_eq_ignore_case(n, seq!['w', 'a', 'r', 'n', '2']);
            lemma_not_eq_ignore_case(n, seq!['w', 'a', 'r', 'n', '3']);
            lemma_not_eq_ignore_case(n, seq!['w', 'a', 'r', 'n', '4']);
            lemma_not_eq_ignore_case(n, seq!['i', 'n', 'f', 'o', '2']);
            assert forall|i: int| 0 <= i < n.len() implies #[trigger] ascii_lower(n[i]) == ascii_lower(seq!['i', 'n', 'f', 'o', '3'][i]) by {
                if i == 0 {} else if i == 1 {} else if i == 2 {} else if i == 3 {} else if i == 4 {}
            }
        },
        Level::Info4 => {
            lemma_not_eq_ignore_case(n, seq!['f', 'a', 't', 'a', 'l']);
            lemma_not_eq_ignore_case(n, seq!['e', 'r', 'r', 'o', 'r']);
            lemma_not_eq_ignore_case(n, seq!['w', 'a', 'r', 'n']);
            lemma_not_eq_ignore_case(n, seq!['i', 'n', 'f', 'o']);
            lemma_not_eq_ignore_case(n, seq!['d', 'e', 'b', 'u', 'g']);
            lemma_not_eq_ignore_case(n, seq!['t', 'r', 'a', 'c', 'e']);
            lemma_not_eq_ignore_case(n, seq!['f', 'a', 't', 'a', 'l', '2']);
            lemma_not_eq_ignore_case(n, seq!['f', 'a', 't', 'a', 'l', '3']);
            lemma_not_eq_ignore_case(n, seq!['f', 'a', 't', 'a', 'l', '4']);
            lemma_not_eq_ignore_case(n, seq!['e', 'r', 'r', 'o', 'r', '2']);
            lemma_not_eq_ignore_case(n, seq!['e', 'r', 'r', 'o', 'r', '3']);
            lemma_not_eq_ignore_case(n, seq!['e', 'r', 'r', 'o', 'r', '4']);
            lemma_not_eq_ignore_case(n, seq!['w', 'a', 'r', 'n', '2']);
            lemma_not_eq_ignore_case(n, seq!['w', 'a', 'r', 'n', '3']);
            lemma_not_eq_ignore_case(n, seq!['w', 'a', 'r', 'n', '4']);
            lemma_not_eq_ignore_case(n, seq!['i', 'n', 'f', 'o', '2']);
            lemma_not_eq_ignore_case(n, seq!['i', 'n', 'f', 'o', '3']);
            assert forall|i: int| 0 <= i < n.len() implies #[trigger] ascii_lower(n[i]) == ascii_lower(seq!['i', 'n', 'f', 'o', '4'][i]) by {
                if i == 0 {} else if i == 1 {} else if i == 2 {} else if i == 3 {} else if i == 4 {}
            }
        },
        Level::Warn => {
            lemma_not_eq_ignore_case(n, seq!['f', 'a', 't', 'a', 'l']);
            lemma_not_eq_ignore_case(n, seq!['e', 'r', 'r', 'o', 'r']);
            assert forall|i: int| 0 <= i < n.len() implies #[trigger] ascii_lower(n[i]) == ascii_lower(seq!['w', 'a', 'r', 'n'][i]) by {
                if i == 0 {} else if i == 1 {} else if i == 2 {} else if i == 3 {}
            }
        },
        Level::Warn2 => {
            lemma_not_eq_ignore_case(n, seq!['f', 'a', 't', 'a', 'l']);
            lemma_not_eq_ignore_case(n, seq!['e', 'r', 'r', 'o', 'r']);
            lemma_not_eq_ignore_case(n, seq!['w', 'a', 'r', 'n']);
            lemma_not_eq_ignore_case(n, seq!['i', 'n', 'f', 'o']);
            lemma_not_eq_ignore_case(n, seq!['d', 'e', 'b', 'u', 'g']);
            lemma_not_eq_ignore_case(n, seq!['t', 'r', 'a', 'c', 'e']);
            lemma_not_eq_ignore_case(n, seq!['f', 'a', 't', 'a', 'l', '2']);
            lemma_not_eq_ignore_case(n, seq!['f', 'a', 't', 'a', 'l', '3']);
            lemma_not_eq_ignore_case(n, seq!['f', 'a', 't', 'a', 'l', '4']);
            lemma_not_eq_ignore_case(n, seq!['e', 'r', 'r', 'o', 'r', '2']);
            lemma_not_eq_ignore_case(n, seq!['e', 'r', 'r', 'o', 'r', '3']);
            lemma_not_eq_ignore_case(n, seq!['e', 'r', 'r', 'o', 'r', '4']);
            assert forall|i: int| 0 <= i < n.len() implies #[trigger] ascii_lower(n[i]) == ascii_lower(seq!['w', 'a', 'r', 'n', '2'][i]) by {
                if i == 0 {} else if i == 1 {} else if i == 2 {} else if i == 3 {} else if i == 4 {}
            }
        },
        Level::Warn3 => {
            lemma_not_eq_ignore_case(n, seq!['f', 'a', 't', 'a', 'l']);
            lemma_not_eq_ignore_case(n, seq!['e', 'r', 'r', 'o', 'r']);
            lemma_not_eq_ignore_case(n, seq!['w', 'a', 'r', 'n']);
            lemma_not_eq_ignore_case(n, seq!['i', 'n', 'f', 'o']);
            lemma_not_eq_ignore_case(n, seq!['d', 'e', 'b', 'u', 'g']);
            lemma_not_eq_ignore_case(n, seq!['t', 'r', 'a', 'c', 'e']);
            lemma_not_eq_ignore_case(n, seq!['f', 'a', 't', 'a', 'l', '2']);
            lemma_not_eq_ignore_case(n, seq!['f', 'a', 't', 'a', 'l', '3']);
            lemma_not_eq_ignore_case(n, seq!['f', 'a', 't', 'a', 'l', '4']);
            lemma_not_eq_ignore_case(n, seq!['e', 'r', 'r', 'o', 'r', '2']);
            lemma_not_eq_ignore_case(n, seq!['e', 'r', 'r', 'o', 'r', '3']);
            lemma_not_eq_ignore_case(n, seq!['e', 'r', 'r', 'o', 'r', '4']);
            lemma_not_eq_ignore_case(n, seq!['w', 'a', 'r', 'n', '2']);
            assert forall|i: int| 0 <= i < n.len() implies #[trigger] ascii_lower(n[i]) == ascii_lower(seq!['w', 'a', 'r', 'n', '3'][i]) by {
                if i == 0 {} else if i == 1 {} else if i == 2 {} else if i == 3 {} else if i == 4 {}
            }
        },
        Level::Warn4 => {
            lemma_not_eq_ignore_case(n, seq!['f', 'a', 't', 'a', 'l']);
            lemma_not_eq_ignore_case(n, seq!['e', 'r', 'r', 'o', 'r']);
            lemma_not_eq_ignore_case(n, seq!['w', 'a', 'r', 'n']);
            lemma_not_eq_ignore_case(n, seq!['i', 'n', 'f', 'o']);
            lemma_not_eq_ignore_case(n, seq!['d', 'e', 'b', 'u', 'g']);
            lemma_not_eq_ignore_case(n, seq!['t', 'r', 'a', 'c', 'e']);
            lemma_not_eq_ignore_case(n, seq!['f', 'a', 't', 'a', 'l', '2']);
            lemma_not_eq_ignore_case(n, seq!['f', 'a', 't', 'a', 'l', '3']);
            lemma_not_eq_ignore_case(n, seq!['f', 'a', 't', 'a', 'l', '4']);
            lemma_not_eq_ignore_case(n, seq!['e', 'r', 'r', 'o', 'r', '2']);
            lemma_not_eq_ignore_case(n, seq!['e', 'r', 'r', 'o', 'r', '3']);
            lemma_not_eq_ignore_case(n, seq!['e', 'r', 'r', 'o', 'r', '4']);
            lemma_not_eq_ignore_case(n, seq!['w', 'a', 'r', 'n', '2']);
            lemma_not_eq_ignore_case(n, seq!['w', 'a', 'r', 'n', '3']);
            assert forall|i: int| 0 <= i < n.len() implies #[trigger] ascii_lower(n[i]) == ascii_lower(seq!['w', 'a', 'r', 'n', '4'][i]) by {
                if i == 0 {} else if i == 1 {} else if i == 2 {} else if i == 3 {} else if i == 4 {}
            }
        },
        Level::Error => {
            lemma_not_eq_ignore_case(n, seq!['f', 'a', 't', 'a', 'l']);
            assert forall|i: int| 0 <= i < n.len() implies #[trigger] ascii_lower(n[i]) == ascii_lower(seq!['e', 'r', 'r', 'o', 'r'][i]) by {
                if i == 0 {} else if i == 1 {} else if i == 2 {} else if i == 3 {} else if i == 4 {}
            }
        },
        Level::Error2 => {
            lemma_not_eq_ignore_case(n, seq!['f', 'a', 't', 'a', 'l']);
            lemma_not_eq_ignore_case(n, seq!['e', 'r', 'r', 'o', 'r']);
            lemma_not_eq_ignore_case(n, seq!['w', 'a', 'r', 'n']);
            lemma_not_eq_ignore_case(n, seq!['i', 'n', 'f', 'o']);
            lemma_not_eq_ignore_case(n, seq!['d', 'e', 'b', 'u', 'g']);
            lemma_not_eq_ignore_case(n, seq!['t', 'r', 'a', 'c', 'e']);
            lemma_not_eq_ignore_case(n, seq!['f', 'a', 't', 'a', 'l', '2']);
            lemma_not_eq_ignore_case(n, seq!['f', 'a', 't', 'a', 'l', '3']);
            lemma_not_eq_ignore_case(n, seq!['f', 'a', 't', 'a', 'l', '4']);
            assert forall|i: int| 0 <= i < n.len() implies #[trigger] ascii_lower(n[i]) == ascii_lower(seq!['e', 'r', 'r', 'o', 'r', '2'][i]) by {
                if i == 0 {} else if i == 1 {} else if i == 2 {} else if i == 3 {} else if i == 4 {} else if i == 5 {}
            }
        },
        Level::Error3 => {
            lemma_not_eq_ignore_case(n, seq!['f', 'a', 't', 'a', 'l']);
            lemma_not_eq_ignore_case(n, seq!['e', 'r', 'r', 'o', 'r']);
            lemma_not_eq_ignore_case(n, seq!['w', 'a', 'r', 'n']);
            lemma_not_eq_ignore_case(n, seq!['i', 'n', 'f', 'o']);
            lemma_not_eq_ignore_case(n, seq!['d', 'e', 'b', 'u', 'g']);
            lemma_not_eq_ignore_case(n, seq!['t', 'r', 'a', 'c', 'e']);
            lemma_not_eq_ignore_case(n, seq!['f', 'a', 't', 'a', 'l', '2']);
            lemma_not_eq_ignore_case(n, seq!['f', 'a', 't', 'a', 'l', '3']);
            lemma_not_eq_ignore_case(n, seq!['f', 'a', 't', 'a', 'l', '4']);
            lemma_not_eq_ignore_case(n, seq!['e', 'r', 'r', 'o', 'r', '2']);
            assert forall|i: int| 0 <= i < n.len() implies #[trigger] ascii_lower(n[i]) == ascii_lower(seq!['e', 'r', 'r', 'o', 'r', '3'][i]) by {
                if i == 0 {} else if i == 1 {} else if i == 2 {} else if i == 3 {} else if i == 4 {} else if i == 5 {}
            }
        },
        Level::Error4 => {
            lemma_not_eq_ignore_case(n, seq!['f', 'a', 't', 'a', 'l']);
            lemma_not_eq_ignore_case(n, seq!['e', 'r', 'r', 'o', 'r']);
            lemma_not_eq_ignore_case(n, seq!['w', 'a', 'r', 'n']);
            lemma_not_eq_ignore_case(n, seq!['i', 'n', 'f', 'o']);
            lemma_not_eq_ignore_case(n, seq!['d', 'e', 'b', 'u', 'g']);
            lemma_not_eq_ignore_case(n, seq!['t', 'r', 'a', 'c', 'e']);
            lemma_not_eq_ignore_case(n, seq!['f', 'a', 't', 'a', 'l', '2']);
            lemma_not_eq_ignore_case(n, seq!['f', 'a', 't', 'a', 'l', '3']);
            lemma_not_eq_ignore_case(n, seq!['f', 'a', 't', 'a', 'l', '4']);
            lemma_not_eq_ignore_case(n, seq!['e', 'r', 'r', 'o', 'r', '2']);
            lemma_not_eq_ignore_case(n, seq!['e', 'r', 'r', 'o', 'r', '3']);
            assert forall|i: int| 0 <= i < n.len() implies #[trigger] ascii_lower(n[i]) == ascii_lower(seq!['e', 'r', 'r', 'o', 'r', '4'][i]) by {
                if i == 0 {} else if i == 1 {} else if i == 2 {} else if i == 3 {} else if i == 4 {} else if i == 5 {}
            }
        },
        Level::Fatal => {
            assert forall|i: int| 0 <= i < n.len() implies #[trigger] ascii_lower(n[i]) == ascii_lower(seq!['f', 'a', 't', 'a', 'l'][i]) by {
                if i == 0 {} else if i == 1 {} else if i == 2 {} else if i == 3 {} else if i == 4 {}
            }
        },
        Level::Fatal2 => {
            lemma_not_eq_ignore_case(n, seq!['f', 'a', 't', 'a', 'l']);
            lemma_not_eq_ignore_case(n, seq!['e', 'r', 'r', 'o', 'r']);
            lemma_not_eq_ignore_case(n, seq!['w', 'a', 'r', 'n']);
            lemma_not_eq_ignore_case(n, seq!['i', 'n', 'f', 'o']);
            lemma_not_eq_ignore_case(n, seq!['d', 'e', 'b', 'u', 'g']);
            lemma_not_eq_ignore_case(n, seq!['t', 'r', 'a', 'c', 'e']);
            assert forall|i: int| 0 <= i < n.len() implies #[trigger] ascii_lower(n[i]) == ascii_lower(seq!['f', 'a', 't', 'a', 'l', '2'][i]) by {
                if i == 0 {} else if i == 1 {} else if i == 2 {} else if i == 3 {} else if i == 4 {} else if i == 5 {}
            }
        },
        Level::Fatal3 => {
            lemma_not_eq_ignore_case(n, seq!['f', 'a', 't', 'a', 'l']);
            lemma_not_eq_ignore_case(n, seq!['e', 'r', 'r', 'o', 'r']);
            lemma_not_eq_ignore_case(n, seq!['w', 'a', 'r', 'n']);
            lemma_not_eq_ignore_case(n, seq!['i', 'n', 'f', 'o']);
            lemma_not_eq_ignore_case(n, seq!['d', 'e', 'b', 'u', 'g']);
            lemma_not_eq_ignore_case(n, seq!['t', 'r', 'a', 'c', 'e']);
            lemma_not_eq_ignore_case(n, seq!['f', 'a', 't', 'a', 'l', '2']);
            assert forall|i: int| 0 <= i < n.len() implies #[trigger] ascii_lower(n[i]) == ascii_lower(seq!['f', 'a', 't', 'a', 'l', '3'][i]) by {
                if i == 0 {} else if i == 1 {} else if i == 2 {} else if i == 3 {} else if i == 4 {} else if i == 5 {}
            }
        },
        Level::Fatal4 => {
            lemma_not_eq_ignore_case(n, seq!['f', 'a', 't', 'a', 'l']);
            lemma_not_eq_ignore_case(n, seq!['e', 'r', 'r', 'o', 'r']);
            lemma_not_eq_ignore_case(n, seq!['w', 'a', 'r', 'n']);
            lemma_not_eq_ignore_case(n, seq!['i', 'n', 'f', 'o']);
            lemma_not_eq_ignore_case(n, seq!['d', 'e', 'b', 'u', 'g']);
            lemma_not_eq_ignore_case(n, seq!['t', 'r', 'a', 'c', 'e']);
            lemma_not_eq_ignore_case(n, seq!['f', 'a', 't', 'a', 'l', '2']);
            lemma_not_eq_ignore_case(n, seq!['f', 'a', 't', 'a', 'l', '3']);
            assert forall|i: int| 0 <= i < n.len() implies #[trigger] ascii_lower(n[i]) == ascii_lower(seq!['f', 'a', 't', 'a', 'l', '4'][i]) by {
                if i == 0 {} else if i == 1 {} else if i == 2 {} else if i == 3 {} else if i == 4 {} else if i == 5 {}
            }
        },
    }
}

/// Each comparing filter and its opposite decide every level the other way: `Equal` and
/// `NotEqual`, `MoreSevere` and `MoreVerboseEqual`, `MoreVerbose` and `MoreSevereEqual`, `Off` and
/// `All`.
pub proof fn lemma_level_filter_opposites(l: Level, x: Level)
    ensures
        LevelFilter::Equal(l).spec_test(x) == !LevelFilter::NotEqual(l).spec_test(x),
        LevelFilter::MoreSevere(l).spec_test(x) == !LevelFilter::MoreVerboseEqual(l).spec_test(x),
        LevelFilter::MoreVerbose(l).spec_test(x) == !LevelFilter::MoreSevereEqual(l).spec_test(x),
        LevelFilter::Off.spec_test(x) == !LevelFilter::All.spec_test(x),
{
}

/// The comparing filters are strict or inclusive as their names say, and point the right way: no
/// level is more severe or more verbose than itself, and each is as severe and as verbose as
/// itself; an inclusive filter admits what its strict form admits and the level itself;
/// `MoreSevere(l)` admits `x` exactly when `MoreVerbose(x)` admits `l`; `Equal(l)` admits `l`
/// alone; nothing is more verbose than `Trace` or more severe than `Fatal4`, and every level but
/// `Trace` is more severe than `Trace`.
pub proof fn lemma_level_filter_bounds(l: Level, x: Level)
    ensures
        !LevelFilter::MoreSevere(l).spec_test(l),
        LevelFilter::MoreSevereEqual(l).spec_test(l),
        !LevelFilter::MoreVerbose(l).spec_test(l),
        LevelFilter::MoreVerboseEqual(l).spec_test(l),
        LevelFilter::Equal(l).spec_test(l),
        !LevelFilter::NotEqual(l).spec_test(l),
        LevelFilter::MoreSevereEqual(l).spec_test(x) == (LevelFilter::MoreSevere(l).spec_test(x)
            || x == l),
        LevelFilter::MoreVerboseEqual(l).spec_test(x) == (LevelFilter::MoreVerbose(l).spec_test(x)
            || x == l),
        LevelFilter::MoreSevere(l).spec_test(x) == LevelFilter::MoreVerbose(x).spec_test(l),
        LevelFilter::Equal(l).spec_test(x) == (x == l),
        !LevelFilter::MoreVerbose(Level::Trace).spec_test(x),
        !LevelFilter::MoreSevere(Level::Fatal4).spec_test(x),
        x != Level::Trace ==> LevelFilter::MoreSevere(Level::Trace).spec_test(x),
{
    lemma_severity_injective(l, x);
    lemma_severity_injective(x, Level::Trace);
}

} // verus!
