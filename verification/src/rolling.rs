//! The rules of the rolling file writer: how log files are named, which file names belong to a
//! writer, in which order its files age, which of them are removed, and when the current file is
//! rotated.
//!
//! The file system work itself (listing, renaming, opening and writing files) is done by the
//! caller; this module decides what is done.
use vstd::prelude::*;

use crate::error::Error;
use vstd::utf8::{encode_scalar, encode_utf8};
use crate::text::{decimal, push_char, push_decimal, push_str};

verus! {

/// A civil date and time, as jiff's `civil::DateTime` holds it.
#[derive(Clone, Copy, Debug, PartialEq, Eq, Structural)]
pub struct CivilDateTime {
    pub year: i16,
    pub month: i8,
    pub day: i8,
    pub hour: i8,
    pub minute: i8,
    pub second: i8,
    pub subsec_nanosecond: i32,
}

/// The fields of a civil date and time, from the year down to the nanosecond.
pub type DateTimeParts = (i16, i8, i8, i8, i8, i8, i32);

pub open spec fn is_leap_year(y: int) -> bool {
    (y % 4 == 0 && y % 100 != 0) || y % 400 == 0
}

pub open spec fn days_in_month(y: int, m: int) -> int {
    if m == 2 {
        if is_leap_year(y) { 29 } else { 28 }
    } else if m == 4 || m == 6 || m == 9 || m == 11 {
        30
    } else {
        31
    }
}

impl CivilDateTime {
    /// The fields as a tuple.
    pub open spec fn parts(self) -> DateTimeParts {
        (self.year, self.month, self.day, self.hour, self.minute, self.second, self.subsec_nanosecond)
    }

    pub open spec fn from_parts(p: DateTimeParts) -> CivilDateTime {
        CivilDateTime {
            year: p.0,
            month: p.1,
            day: p.2,
            hour: p.3,
            minute: p.4,
            second: p.5,
            subsec_nanosecond: p.6,
        }
    }

    /// Whether the fields name a date and time that jiff can represent.
    pub open spec fn valid(self) -> bool {
        &&& -9999 <= self.year <= 9999
        &&& 1 <= self.month <= 12
        &&& 1 <= self.day <= days_in_month(self.year as int, self.month as int)
        &&& 0 <= self.hour <= 23
        &&& 0 <= self.minute <= 59
        &&& 0 <= self.second <= 59
        &&& 0 <= self.subsec_nanosecond <= 999_999_999
    }

    /// The latest date and time that jiff represents.
    pub open spec fn spec_max() -> CivilDateTime {
        CivilDateTime {
            year: 9999,
            month: 12,
            day: 31,
            hour: 23,
            minute: 59,
            second: 59,
            subsec_nanosecond: 999_999_999,
        }
    }

    /// The latest date and time that jiff represents.
    pub fn max() -> (r: CivilDateTime)
        ensures
            r == CivilDateTime::spec_max(),
            r.valid(),
    {
        CivilDateTime {
            year: 9999,
            month: 12,
            day: 31,
            hour: 23,
            minute: 59,
            second: 59,
            subsec_nanosecond: 999_999_999,
        }
    }

    /// Chronological order: the fields compared from the year down to the nanosecond.
    pub open spec fn before(self, other: CivilDateTime) -> bool {
        if self.year != other.year {
            self.year < other.year
        } else if self.month != other.month {
            self.month < other.month
        } else if self.day != other.day {
            self.day < other.day
        } else if self.hour != other.hour {
            self.hour < other.hour
        } else if self.minute != other.minute {
            self.minute < other.minute
        } else if self.second != other.second {
            self.second < other.second
        } else {
            self.subsec_nanosecond < other.subsec_nanosecond
        }
    }

    /// Whether `self` comes strictly before `other`.
    pub fn is_before(&self, other: &CivilDateTime) -> (r: bool)
        ensures
            r == self.before(*other),
    {
        if self.year != other.year {
            self.year < other.year
        } else if self.month != other.month {
            self.month < other.month
        } else if self.day != other.day {
            self.day < other.day
        } else if self.hour != other.hour {
            self.hour < other.hour
        } else if self.minute != other.minute {
            self.minute < other.minute
        } else if self.second != other.second {
            self.second < other.second
        } else {
            self.subsec_nanosecond < other.subsec_nanosecond
        }
    }
}

/// What jiff's `civil::DateTime::strptime` gives for a format and an input: the parsed fields,
/// or nothing where the input does not match the format.
pub uninterp spec fn strptime_result(format: Seq<char>, input: Seq<u8>) -> Option<DateTimeParts>;

/// The decimal digits of `n`, padded with leading zeros to at least `width` digits.
pub open spec fn zero_padded(n: nat, width: nat) -> Seq<char> {
    let d = decimal(n);
    if d.len() >= width {
        d
    } else {
        Seq::new((width - d.len()) as nat, |_i: int| '0') + d
    }
}

/// A year as `%Y` renders it: four digits at least, and for a negative year a `-` followed by
/// three digits at least.
pub open spec fn year_text(y: int) -> Seq<char> {
    if y >= 0 {
        zero_padded(y as nat, 4)
    } else {
        seq!['-'] + zero_padded((-y) as nat, 3)
    }
}

/// Whether `format` is one of the formats of the dates in the names of archived files.
pub open spec fn is_date_format(format: Seq<char>) -> bool {
    ||| format == "%Y-%m-%d-%H-%M"@
    ||| format == "%Y-%m-%d-%H"@
    ||| format == "%Y-%m-%d"@
}

/// The text that jiff's `civil::DateTime::strftime` renders for a date and time in one of the
/// formats of archived file names: `%Y`, then `-` and the two-digit month and day, and, as the
/// format asks, the two-digit hour and minute.
pub open spec fn date_format_text(format: Seq<char>, dt: DateTimeParts) -> Seq<char> {
    let ymd = year_text(dt.0 as int) + seq!['-'] + zero_padded(dt.1 as nat, 2) + seq!['-']
        + zero_padded(dt.2 as nat, 2);
    if format == "%Y-%m-%d-%H-%M"@ {
        ymd + seq!['-'] + zero_padded(dt.3 as nat, 2) + seq!['-'] + zero_padded(dt.4 as nat, 2)
    } else if format == "%Y-%m-%d-%H"@ {
        ymd + seq!['-'] + zero_padded(dt.3 as nat, 2)
    } else {
        ymd
    }
}

/// Parses `input` with `jiff::civil::DateTime::strptime`. The result is named by
/// `strptime_result`; a date and time that jiff returns is always a valid one.
#[verifier::external_body]
fn parse_datetime(format: &str, input: &[u8]) -> (r: Option<CivilDateTime>)
    ensures
        r == (match strptime_result(format@, input@) {
            Some(p) => Some(CivilDateTime::from_parts(p)),
            None => None::<CivilDateTime>,
        }),
        r matches Some(d) ==> d.valid(),
{
    match jiff::civil::DateTime::strptime(format, input) {
        Ok(d) => Some(
            CivilDateTime {
                year: d.year(),
                month: d.month(),
                day: d.day(),
                hour: d.hour(),
                minute: d.minute(),
                second: d.second(),
                subsec_nanosecond: d.subsec_nanosecond(),
            },
        ),
        Err(_) => None,
    }
}

/// Formats a valid date and time with `jiff::civil::DateTime::strftime` in one of the formats of
/// archived file names: jiff writes the year zero-padded to four places (the `-` of a negative
/// year taking one of them) and the other fields zero-padded to two, and copies the `-` between.
#[verifier::external_body]
fn format_datetime(format: &str, dt: CivilDateTime) -> (r: String)
    requires
        dt.valid(),
        is_date_format(format@),
    ensures
        r@ == date_format_text(format@, dt.parts()),
{
    match jiff::civil::DateTime::new(
        dt.year,
        dt.month,
        dt.day,
        dt.hour,
        dt.minute,
        dt.second,
        dt.subsec_nanosecond,
    ) {
        Ok(d) => d.strftime(format).to_string(),
        Err(_) => String::new(),
    }
}

/// How often the current log file is rotated by time.
#[derive(Clone, Copy, Debug, PartialEq, Eq, Structural)]
pub enum Rotation {
    /// Every minute.
    Minutely,
    /// Every hour.
    Hourly,
    /// Every day.
    Daily,
    /// Never: the file is rotated by size alone.
    Never,
}

impl Rotation {
    pub open spec fn spec_date_format(self) -> Seq<char> {
        match self {
            Rotation::Minutely => "%Y-%m-%d-%H-%M"@,
            Rotation::Hourly => "%Y-%m-%d-%H"@,
            Rotation::Daily => "%Y-%m-%d"@,
            Rotation::Never => "%Y-%m-%d"@,
        }
    }

    /// The strftime format of the date in the names of archived files.
    pub fn date_format(&self) -> (r: &'static str)
        ensures
            r@ == self.spec_date_format(),
    {
        match self {
            Rotation::Minutely => "%Y-%m-%d-%H-%M",
            Rotation::Hourly => "%Y-%m-%d-%H",
            Rotation::Daily => "%Y-%m-%d",
            Rotation::Never => "%Y-%m-%d",
        }
    }
}

/// The value of a sequence of ASCII digits.
pub open spec fn digits_value(d: Seq<u8>) -> nat
    decreases d.len(),
{
    if d.len() == 0 {
        0
    } else {
        digits_value(d.drop_last()) * 10 + (d.last() - 48) as nat
    }
}

pub open spec fn is_digit(b: u8) -> bool {
    48 <= b <= 57
}

pub open spec fn all_digits(d: Seq<u8>) -> bool {
    forall|i: int| 0 <= i < d.len() ==> is_digit(#[trigger] d[i])
}

/// What `usize::from_str` gives for the bytes of a string: an optional `+`, then one digit or
/// more, whose value fits in a `usize`.
pub open spec fn parse_usize_spec(s: Seq<u8>) -> Option<nat> {
    let d = if s.len() > 0 && s[0] == 43u8 { s.skip(1) } else { s };
    if d.len() == 0 || !all_digits(d) || digits_value(d) > usize::MAX {
        None
    } else {
        Some(digits_value(d))
    }
}

proof fn lemma_digits_value_prefix(d: Seq<u8>, i: int)
    requires
        0 <= i <= d.len(),
        all_digits(d),
    ensures
        digits_value(d.take(i)) <= digits_value(d),
    decreases d.len() - i,
{
    if i < d.len() {
        lemma_digits_value_prefix(d, i + 1);
        let t = d.take(i + 1);
        assert(t.drop_last() =~= d.take(i));
        assert(is_digit(d[i]));
        assert(digits_value(t) == digits_value(d.take(i)) * 10 + (d[i] - 48) as nat);
    } else {
        assert(d.take(i) =~= d);
    }
}

/// Parses the bytes of a string as `usize::from_str` does.
pub fn parse_usize(s: &[u8]) -> (r: Option<usize>)
    ensures
        r matches Some(v) ==> parse_usize_spec(s@) == Some(v as nat),
        r is None ==> parse_usize_spec(s@) is None,
{
    let start: usize = if s.len() > 0 && s[0] == 43u8 { 1 } else { 0 };
    let ghost d = if s@.len() > 0 && s@[0] == 43u8 { s@.skip(1) } else { s@ };
    assert(d =~= s@.skip(start as int));
    if start == s.len() {
        return None;
    }
    let mut v: usize = 0;
    let mut i: usize = start;
    while i < s.len()
        invariant
            start <= i <= s.len(),
            d == s@.skip(start as int),
            d == (if s@.len() > 0 && s@[0] == 43u8 { s@.skip(1) } else { s@ }),
            d.len() > 0,
            all_digits(d.take(i - start)),
            v as nat == digits_value(d.take(i - start)),
        decreases s.len() - i,
    {
        let b = s[i];
        let ghost k = i - start;
        assert(d[k] == b);
        if b < 48u8 || b > 57u8 {
            assert(!all_digits(d));
            return None;
        }
        assert(d.take(k + 1).drop_last() =~= d.take(k));
        assert(d.take(k + 1).last() == b);
        let digit: usize = (b - 48u8) as usize;
        if v > (usize::MAX - digit) / 10 {
            proof {
                assert(digits_value(d.take(k + 1)) == v * 10 + digit);
                assert(v * 10 + digit > usize::MAX) by (nonlinear_arith)
                    requires
                        v > (usize::MAX - digit) / 10,
                        digit <= 9,
                ;
                if all_digits(d) {
                    lemma_digits_value_prefix(d, k + 1);
                }
            }
            return None;
        }
        assert(v * 10 + digit <= usize::MAX) by (nonlinear_arith)
            requires
                v <= (usize::MAX - digit) / 10,
                digit <= 9,
        ;
        v = v * 10 + digit;
        i = i + 1;
        assert(forall|j: int| 0 <= j < k + 1 ==> is_digit(#[trigger] d.take(k + 1)[j])) by {
            assert forall|j: int| 0 <= j < k + 1 implies is_digit(#[trigger] d.take(k + 1)[j]) by {
                if j < k {
                    assert(d.take(k + 1)[j] == d.take(k)[j]);
                }
            }
        }
    }
    assert(d.take(i - start) =~= d);
    Some(v)
}

pub open spec fn has_prefix(p: Seq<u8>, s: Seq<u8>) -> bool {
    p.len() <= s.len() && s.take(p.len() as int) == p
}

pub open spec fn has_suffix(x: Seq<u8>, s: Seq<u8>) -> bool {
    x.len() <= s.len() && s.skip(s.len() - x.len()) == x
}

/// Whether `b` continues a multi-byte UTF-8 sequence.
pub open spec fn is_continuation(b: u8) -> bool {
    128 <= b < 192
}

pub open spec fn opt_bytes(o: Option<&[u8]>) -> Option<Seq<u8>> {
    match o {
        Some(x) => Some(x@),
        None => None,
    }
}

/// The part of a file name between the writer's file name and its suffix: the suffix and the one
/// byte in front of it are dropped. `None` where the name does not end with the suffix.
pub open spec fn strip_suffix(rest: Seq<u8>, suffix: Option<Seq<u8>>) -> Option<Seq<u8>> {
    match suffix {
        None => Some(rest),
        Some(x) => if has_suffix(x, rest) {
            Some(rest.take(rest.len() - x.len() - 1))
        } else {
            None
        },
    }
}

/// The file names on which the listing of log files fails: the name ends with the suffix, but
/// holds no byte in front of it, or cutting in front of that byte would split a character.
pub open spec fn name_panics(name: Seq<u8>, prefix: Seq<u8>, suffix: Option<Seq<u8>>) -> bool {
    let rest = name.skip(prefix.len() as int);
    &&& has_prefix(prefix, name)
    &&& suffix is Some
    &&& has_suffix(suffix->0, rest)
    &&& (rest.len() < suffix->0.len() + 1 || ({
        let k = rest.len() - suffix->0.len() - 1;
        k > 0 && is_continuation(rest[k])
    }))
}

pub open spec fn is_first_dot(s: Seq<u8>, p: int) -> bool {
    &&& 0 <= p < s.len()
    &&& s[p] == 46u8
    &&& forall|j: int| 0 <= j < p ==> s[j] != 46u8
}

/// The position of the first `.` in `s`.
pub open spec fn first_dot(s: Seq<u8>) -> Option<int> {
    if exists|p: int| is_first_dot(s, p) {
        Some(choose|p: int| is_first_dot(s, p))
    } else {
        None
    }
}

/// The date and the count that a log file's name carries.
#[derive(Clone, Copy, Debug, PartialEq, Eq, Structural)]
pub struct LogFileKey {
    pub datetime: CivilDateTime,
    pub count: usize,
}

/// Reads the rest of a file name, behind the writer's file name and in front of its suffix: empty
/// for the current file, which is the newest; otherwise `.`, the date when the writer rotates by
/// time, then `.` and the count.
pub open spec fn parse_tail(t: Seq<u8>, rotation: Rotation) -> Option<(CivilDateTime, nat)> {
    if t.len() == 0 {
        Some((CivilDateTime::spec_max(), 0))
    } else if t[0] != 46u8 {
        None
    } else {
        let u = t.skip(1);
        if rotation != Rotation::Never {
            match first_dot(u) {
                None => None,
                Some(p) => match strptime_result(rotation.spec_date_format(), u.take(p)) {
                    None => None,
                    Some(dt) => match parse_usize_spec(u.skip(p + 1)) {
                        Some(c) => Some((CivilDateTime::from_parts(dt), c)),
                        None => None,
                    },
                },
            }
        } else {
            match parse_usize_spec(u) {
                Some(c) => Some((CivilDateTime::spec_max(), c)),
                None => None,
            }
        }
    }
}

/// Which log file, if any, a file name stands for, for a writer with the given file name, suffix
/// and rotation.
pub open spec fn parse_logfile_spec(
    name: Seq<u8>,
    prefix: Seq<u8>,
    suffix: Option<Seq<u8>>,
    rotation: Rotation,
) -> Option<(CivilDateTime, nat)> {
    if !has_prefix(prefix, name) {
        None
    } else {
        match strip_suffix(name.skip(prefix.len() as int), suffix) {
            None => None,
            Some(t) => parse_tail(t, rotation),
        }
    }
}

pub open spec fn key_matches(r: Option<LogFileKey>, s: Option<(CivilDateTime, nat)>) -> bool {
    match (r, s) {
        (Some(k), Some(p)) => k.datetime == p.0 && k.count as nat == p.1,
        (None, None) => true,
        _ => false,
    }
}

fn bytes_starts_with(s: &[u8], p: &[u8]) -> (r: bool)
    ensures
        r == has_prefix(p@, s@),
{
    if p.len() > s.len() {
        return false;
    }
    let mut i: usize = 0;
    while i < p.len()
        invariant
            p.len() <= s.len(),
            i <= p.len(),
            forall|j: int| 0 <= j < i ==> s@[j] == p@[j],
        decreases p.len() - i,
    {
        if s[i] != p[i] {
            assert(s@.take(p.len() as int)[i as int] != p@[i as int]);
            return false;
        }
        i = i + 1;
    }
    assert(s@.take(p.len() as int) =~= p@);
    true
}

fn bytes_ends_with(s: &[u8], x: &[u8]) -> (r: bool)
    ensures
        r == has_suffix(x@, s@),
{
    if x.len() > s.len() {
        return false;
    }
    let off = s.len() - x.len();
    let mut i: usize = 0;
    while i < x.len()
        invariant
            x.len() <= s.len(),
            off == s.len() - x.len(),
            i <= x.len(),
            forall|j: int| 0 <= j < i ==> s@[off + j] == x@[j],
        decreases x.len() - i,
    {
        if s[off + i] != x[i] {
            assert(s@.skip(off as int)[i as int] != x@[i as int]);
            return false;
        }
        i = i + 1;
    }
    assert(s@.skip(off as int) =~= x@);
    true
}

fn find_first_dot(s: &[u8]) -> (r: Option<usize>)
    ensures
        match r {
            Some(p) => first_dot(s@) == Some(p as int),
            None => first_dot(s@) is None,
        },
{
    let mut i: usize = 0;
    while i < s.len()
        invariant
            i <= s.len(),
            forall|j: int| 0 <= j < i ==> s@[j] != 46u8,
        decreases s.len() - i,
    {
        if s[i] == 46u8 {
            assert(is_first_dot(s@, i as int));
            let ghost q = choose|p: int| is_first_dot(s@, p);
            assert(q == i) by {
                if q < i {
                    assert(s@[q] != 46u8);
                } else if q > i {
                    assert(s@[i as int] != 46u8);
                }
            }
            return Some(i);
        }
        i = i + 1;
    }
    assert(!exists|p: int| is_first_dot(s@, p));
    None
}

/// Reads a file name as a log file of a writer with the given file name, suffix and rotation:
/// the date and the count that it carries, or `None` where the file is not one of the writer's.
pub fn parse_logfile_name(
    name: &[u8],
    prefix: &[u8],
    suffix: Option<&[u8]>,
    rotation: Rotation,
) -> (r: Option<LogFileKey>)
    requires
        !name_panics(name@, prefix@, opt_bytes(suffix)),
    ensures
        key_matches(r, parse_logfile_spec(name@, prefix@, opt_bytes(suffix), rotation)),
{
    if !bytes_starts_with(name, prefix) {
        return None;
    }
    let rest = &name[prefix.len()..name.len()];
    assert(rest@ =~= name@.skip(prefix@.len() as int));
    let t: &[u8] = match suffix {
        None => rest,
        Some(x) => {
            if !bytes_ends_with(rest, x) {
                return None;
            }
            let k = rest.len() - x.len() - 1;
            let t = &rest[0..k];
            assert(t@ =~= rest@.take(rest@.len() - x@.len() - 1));
            t
        },
    };
    assert(strip_suffix(rest@, opt_bytes(suffix)) == Some(t@));
    if t.len() == 0 {
        return Some(LogFileKey { datetime: CivilDateTime::max(), count: 0 });
    }
    if t[0] != 46u8 {
        return None;
    }
    let u = &t[1..t.len()];
    assert(u@ =~= t@.skip(1));
    if rotation != Rotation::Never {
        match find_first_dot(u) {
            None => None,
            Some(p) => {
                let date_part = &u[0..p];
                assert(date_part@ =~= u@.take(p as int));
                match parse_datetime(rotation.date_format(), date_part) {
                    None => None,
                    Some(dt) => {
                        let count_part = &u[p + 1..u.len()];
                        assert(count_part@ =~= u@.skip(p + 1));
                        match parse_usize(count_part) {
                            Some(c) => Some(LogFileKey { datetime: dt, count: c }),
                            None => None,
                        }
                    },
                }
            },
        }
    } else {
        match parse_usize(u) {
            Some(c) => Some(LogFileKey { datetime: CivilDateTime::max(), count: c }),
            None => None,
        }
    }
}

/// The order in which log files age: earlier dates are older, and for the same date the file with
/// the higher count is the older one.
pub open spec fn older(a: LogFileKey, b: LogFileKey) -> bool {
    a.datetime.before(b.datetime) || (a.datetime == b.datetime && a.count > b.count)
}

proof fn lemma_before_transitive(a: CivilDateTime, b: CivilDateTime, c: CivilDateTime)
    requires
        a.before(b),
        b.before(c),
    ensures
        a.before(c),
{
}

proof fn lemma_before_irreflexive_asym(a: CivilDateTime, b: CivilDateTime)
    ensures
        !a.before(a),
        a.before(b) ==> !b.before(a),
        a != b ==> a.before(b) || b.before(a),
{
}

proof fn lemma_older_transitive(a: LogFileKey, b: LogFileKey, c: LogFileKey)
    requires
        older(a, b),
        older(b, c),
    ensures
        older(a, c),
{
    if a.datetime.before(b.datetime) && b.datetime.before(c.datetime) {
        lemma_before_transitive(a.datetime, b.datetime, c.datetime);
    }
}

/// Compares two log files by age; the older one is the lesser.
pub fn compare_logfile(a: &LogFileKey, b: &LogFileKey) -> (r: std::cmp::Ordering)
    ensures
        (r == std::cmp::Ordering::Less) == older(*a, *b),
        (r == std::cmp::Ordering::Greater) == older(*b, *a),
        (r == std::cmp::Ordering::Equal) == (*a == *b),
{
    proof {
        lemma_before_irreflexive_asym(a.datetime, b.datetime);
    }
    if a.datetime.is_before(&b.datetime) {
        std::cmp::Ordering::Less
    } else if b.datetime.is_before(&a.datetime) {
        std::cmp::Ordering::Greater
    } else if a.count > b.count {
        std::cmp::Ordering::Less
    } else if a.count < b.count {
        std::cmp::Ordering::Greater
    } else {
        std::cmp::Ordering::Equal
    }
}

fn is_older(a: &LogFileKey, b: &LogFileKey) -> (r: bool)
    ensures
        r == older(*a, *b),
{
    a.datetime.is_before(&b.datetime) || (a.datetime == b.datetime && a.count > b.count)
}

/// Position `a` comes before position `b` when its file is older, or, for files of the same age,
/// when it comes first in the listing: the order of a stable sort.
pub open spec fn precedes(keys: Seq<LogFileKey>, a: int, b: int) -> bool {
    older(keys[a], keys[b]) || (keys[a] == keys[b] && a < b)
}

/// `order` lists the positions of `keys`, each once, from the oldest file to the newest, files of
/// the same age in the order of the listing.
pub open spec fn is_age_order(keys: Seq<LogFileKey>, order: Seq<usize>) -> bool {
    &&& order.len() == keys.len()
    &&& forall|i: int| 0 <= i < order.len() ==> #[trigger] order[i] < keys.len()
    &&& forall|i: int, j: int|
        0 <= i < j < order.len() ==> precedes(keys, #[trigger] order[i] as int, #[trigger] order[j] as int)
}

/// The positions of `keys` from the oldest file to the newest, as a stable sort by
/// `compare_logfile` orders them.
pub fn sort_order(keys: &Vec<LogFileKey>) -> (r: Vec<usize>)
    ensures
        is_age_order(keys@, r@),
        forall|x: usize| x < keys.len() ==> #[trigger] r@.contains(x),
{
    let n = keys.len();
    let mut r: Vec<usize> = Vec::new();
    let mut idx: usize = 0;
    while idx < n
        invariant
            n == keys.len(),
            idx <= n,
            r.len() == idx,
            forall|i: int| 0 <= i < r.len() ==> #[trigger] r@[i] < idx,
            forall|i: int, j: int|
                0 <= i < j < r.len() ==> precedes(keys@, #[trigger] r@[i] as int, #[trigger] r@[j] as int),
            forall|x: usize| x < idx ==> #[trigger] r@.contains(x),
        decreases n - idx,
    {
        let mut pos: usize = 0;
        while pos < r.len() && !is_older(&keys[idx], &keys[r[pos]])
            invariant
                n == keys.len(),
                idx < n,
                pos <= r.len(),
                forall|i: int| 0 <= i < r.len() ==> #[trigger] r@[i] < idx,
                forall|i: int| 0 <= i < pos ==> !older(keys@[idx as int], keys@[#[trigger] r@[i] as int]),
            decreases r.len() - pos,
        {
            pos = pos + 1;
        }
        let ghost old_r = r@;
        proof {
            old_r.insert_ensures(pos as int, idx);
        }
        r.insert(pos, idx);
        proof {
            let k = keys@;
            assert forall|i: int, j: int| 0 <= i < j < r.len() implies precedes(
                k,
                #[trigger] r@[i] as int,
                #[trigger] r@[j] as int,
            ) by {
                if j < pos {
                    assert(r@[i] == old_r[i] && r@[j] == old_r[j]);
                } else if j == pos {
                    assert(r@[i] == old_r[i]);
                    let a = k[old_r[i] as int];
                    let b = k[idx as int];
                    assert(!older(b, a));
                    lemma_before_irreflexive_asym(a.datetime, b.datetime);
                } else if i == pos {
                    assert(r@[j] == old_r[j - 1]);
                    assert(older(k[idx as int], k[old_r[pos as int] as int]));
                    if j - 1 > pos {
                        assert(precedes(k, old_r[pos as int] as int, old_r[j - 1] as int));
                        if older(k[old_r[pos as int] as int], k[old_r[j - 1] as int]) {
                            lemma_older_transitive(
                                k[idx as int],
                                k[old_r[pos as int] as int],
                                k[old_r[j - 1] as int],
                            );
                        }
                    }
                } else if i < pos {
                    assert(r@[i] == old_r[i] && r@[j] == old_r[j - 1]);
                } else {
                    assert(r@[i] == old_r[i - 1] && r@[j] == old_r[j - 1]);
                }
            }
            assert forall|x: usize| x < idx + 1 implies #[trigger] r@.contains(x) by {
                if x == idx {
                    assert(r@[pos as int] == idx);
                } else {
                    assert(old_r.contains(x));
                    let w = choose|w: int| 0 <= w < old_r.len() && old_r[w] == x;
                    if w < pos {
                        assert(r@[w] == x);
                    } else {
                        assert(r@[w + 1] == x);
                    }
                }
            }
            assert forall|i: int| 0 <= i < r.len() implies #[trigger] r@[i] < idx + 1 by {
                if i < pos {
                    assert(r@[i] == old_r[i]);
                } else if i > pos {
                    assert(r@[i] == old_r[i - 1]);
                }
            }
        }
        idx = idx + 1;
    }
    r
}

/// The positions of the `k` oldest files, oldest first.
pub open spec fn oldest(keys: Seq<LogFileKey>, r: Seq<usize>, k: nat) -> bool {
    exists|order: Seq<usize>| is_age_order(keys, order) && r == order.take(k as int)
}

/// The number of files that are removed before a new one is created, so that `max_files - 1`
/// remain: none while there are fewer than `max_files`.
pub open spec fn excess_files(n: nat, max_files: nat) -> nat {
    if n < max_files {
        0
    } else {
        (n - (max_files - 1)) as nat
    }
}

/// The positions of the files to remove, so that `max_files - 1` remain beside the file that
/// is created next: nothing while there are fewer than `max_files`, and otherwise the oldest.
pub fn files_to_delete(keys: &Vec<LogFileKey>, max_files: usize) -> (r: Vec<usize>)
    requires
        max_files > 0,
    ensures
        r.len() == excess_files(keys.len() as nat, max_files as nat),
        oldest(keys@, r@, r.len() as nat),
{
    let order = sort_order(keys);
    let k: usize = if keys.len() < max_files {
        0
    } else {
        keys.len() - (max_files - 1)
    };
    let mut r: Vec<usize> = Vec::new();
    for i in 0..k
        invariant
            k <= order.len(),
            r@ == order@.take(i as int),
    {
        r.push(order[i]);
        assert(r@ =~= order@.take(i + 1));
    }
    assert(is_age_order(keys@, order@) && r@ == order@.take(k as int));
    r
}

/// The position of the newest file: the last in the order of age.
pub open spec fn is_newest(keys: Seq<LogFileKey>, i: int) -> bool {
    &&& 0 <= i < keys.len()
    &&& forall|j: int| 0 <= j < keys.len() && j != i ==> precedes(keys, j, i)
}

/// What a writer does with its directory when it starts.
#[derive(Clone, Copy, Debug, PartialEq, Eq, Structural)]
pub enum Startup {
    /// Create a new current file.
    CreateNew,
    /// Go on writing to the listed file at this position, which is the current file.
    Resume(usize),
}

/// The state of a rolling file writer: how its files are named, how large the current file is,
/// and when it is rotated next. It also records, as a model, how many of its files the writer
/// keeps and how often it rolled over.
pub struct RollingState {
    log_filename: String,
    log_filename_suffix: Option<String>,
    rotation: Rotation,
    current_filesize: usize,
    this_date: CivilDateTime,
    next_date_timestamp: Option<usize>,
    max_size: Option<usize>,
    max_files: Option<usize>,
    kept: Ghost<nat>,
    rollovers: Ghost<nat>,
    accounted: Ghost<bool>,
}

pub open spec fn opt_chars(o: Option<String>) -> Option<Seq<char>> {
    match o {
        Some(s) => Some(s@),
        None => None,
    }
}

pub open spec fn positive(o: Option<usize>) -> bool {
    o matches Some(n) ==> n > 0
}

/// The name of the current file: the file name, and the suffix behind a `.` where there is one.
pub open spec fn current_name(filename: Seq<char>, suffix: Option<Seq<char>>) -> Seq<char> {
    match suffix {
        None => filename,
        Some(x) => filename + seq!['.'] + x,
    }
}

/// The name of an archived file: behind the file name come the date (unless the writer never
/// rotates by time), the count and the suffix, each behind a `.`.
pub open spec fn archive_name(
    filename: Seq<char>,
    suffix: Option<Seq<char>>,
    rotation: Rotation,
    date: Seq<char>,
    cnt: nat,
) -> Seq<char> {
    let dated = if rotation == Rotation::Never {
        filename
    } else {
        filename + seq!['.'] + date
    };
    let counted = dated + seq!['.'] + decimal(cnt);
    match suffix {
        None => counted,
        Some(x) => counted + seq!['.'] + x,
    }
}

impl RollingState {
    pub closed spec fn filename(&self) -> Seq<char> {
        self.log_filename@
    }

    pub closed spec fn suffix(&self) -> Option<Seq<char>> {
        opt_chars(self.log_filename_suffix)
    }

    pub closed spec fn rotation(&self) -> Rotation {
        self.rotation
    }

    pub closed spec fn filesize(&self) -> usize {
        self.current_filesize
    }

    pub closed spec fn this_date(&self) -> CivilDateTime {
        self.this_date
    }

    pub closed spec fn next_timestamp(&self) -> Option<usize> {
        self.next_date_timestamp
    }

    pub closed spec fn max_size(&self) -> Option<usize> {
        self.max_size
    }

    pub closed spec fn max_files(&self) -> Option<usize> {
        self.max_files
    }

    /// The number of the writer's files after its last step, as its decisions have them: the
    /// files listed at that step, less those it chose to remove, and the new current file.
    pub closed spec fn kept(&self) -> nat {
        self.kept@
    }

    /// The number of rollovers at which the writer decided which files to keep.
    pub closed spec fn rollovers(&self) -> nat {
        self.rollovers@
    }

    /// Whether the writer started in a directory without its files, under a limit on the number
    /// of files, and each listing since has shown just the files that it kept.
    pub closed spec fn accounted(&self) -> bool {
        self.accounted@
    }

    /// The writer's file name is not empty, the limits are positive and the date is valid.
    pub open spec fn wf(&self) -> bool {
        &&& self.filename().len() > 0
        &&& positive(self.max_size())
        &&& positive(self.max_files())
        &&& self.this_date().valid()
        &&& self.accounted() ==> (self.max_files() matches Some(m) && self.kept()
            == files_after_rollovers(self.rollovers(), m as nat))
    }

    /// The date in the names of archived files.
    pub open spec fn date_text(&self, date: CivilDateTime) -> Seq<char> {
        date_format_text(self.rotation().spec_date_format(), date.parts())
    }

    /// A fresh state, with an empty current file.
    pub fn new(
        rotation: Rotation,
        log_filename: String,
        log_filename_suffix: Option<String>,
        max_size: Option<usize>,
        max_files: Option<usize>,
        now: CivilDateTime,
        next_date_timestamp: Option<usize>,
    ) -> (r: RollingState)
        requires
            log_filename@.len() > 0,
            positive(max_size),
            positive(max_files),
            now.valid(),
        ensures
            r.wf(),
            r.filename() == log_filename@,
            r.suffix() == opt_chars(log_filename_suffix),
            r.rotation() == rotation,
            r.filesize() == 0,
            r.this_date() == now,
            r.next_timestamp() == next_date_timestamp,
            r.max_size() == max_size,
            r.max_files() == max_files,
            !r.accounted(),
    {
        RollingState {
            log_filename,
            log_filename_suffix,
            rotation,
            current_filesize: 0,
            this_date: now,
            next_date_timestamp,
            max_size,
            max_files,
            kept: Ghost(0),
            rollovers: Ghost(0),
            accounted: Ghost(false),
        }
    }

    /// The size of the current file.
    pub fn current_filesize(&self) -> (r: usize)
        ensures
            r == self.filesize(),
    {
        self.current_filesize
    }

    /// The rotation policy.
    pub fn rotation_policy(&self) -> (r: Rotation)
        ensures
            r == self.rotation(),
    {
        self.rotation
    }

    /// The writer's file name.
    pub fn log_filename(&self) -> (r: &str)
        ensures
            r@ == self.filename(),
    {
        self.log_filename.as_str()
    }

    /// The writer's file name suffix, if any.
    pub fn filename_suffix(&self) -> (r: Option<&str>)
        ensures
            match r {
                Some(x) => self.suffix() == Some(x@),
                None => self.suffix() is None,
            },
    {
        match &self.log_filename_suffix {
            Some(x) => Some(x.as_str()),
            None => None,
        }
    }

    /// The maximum number of files to keep, if any.
    pub fn max_log_files(&self) -> (r: Option<usize>)
        ensures
            r == self.max_files(),
    {
        self.max_files
    }

    /// The name of the current file.
    pub fn current_filename(&self) -> (r: String)
        ensures
            r@ == current_name(self.filename(), self.suffix()),
    {
        let mut r = String::new();
        push_str(&mut r, self.log_filename.as_str());
        match &self.log_filename_suffix {
            None => {},
            Some(x) => {
                push_char(&mut r, '.');
                push_str(&mut r, x.as_str());
            },
        }
        r
    }

    /// The name under which the file of a given date and count is archived.
    pub fn archive_filename(&self, date: CivilDateTime, cnt: usize) -> (r: String)
        requires
            date.valid(),
        ensures
            r@ == archive_name(
                self.filename(),
                self.suffix(),
                self.rotation(),
                self.date_text(date),
                cnt as nat,
            ),
    {
        let mut r = String::new();
        push_str(&mut r, self.log_filename.as_str());
        if self.rotation != Rotation::Never {
            let d = format_datetime(self.rotation.date_format(), date);
            push_char(&mut r, '.');
            push_str(&mut r, d.as_str());
        }
        push_char(&mut r, '.');
        push_decimal(&mut r, cnt as u128);
        match &self.log_filename_suffix {
            None => {},
            Some(x) => {
                push_char(&mut r, '.');
                push_str(&mut r, x.as_str());
            },
        }
        r
    }

    /// The number that ends the search for archived files: the maximum number of files, or
    /// `usize::MAX` without one.
    pub fn probe_limit(&self) -> (r: usize)
        ensures
            r == (match self.max_files() {
                Some(n) => n,
                None => usize::MAX,
            }),
    {
        match self.max_files {
            Some(n) => n,
            None => usize::MAX,
        }
    }

    /// The renames that rotate the current file away, in the order in which they are made, when
    /// the archived files of counts `1..=existing` exist: each archived file moves one count up,
    /// the highest first, then the current file becomes the archived file of count 1.
    pub fn rename_plan(&self, date: CivilDateTime, existing: usize) -> (r: Vec<(String, String)>)
        requires
            date.valid(),
            existing < usize::MAX,
        ensures
            r.len() == existing + 1,
            forall|j: int|
                0 <= j < existing ==> {
                    let c = existing - j;
                    &&& (#[trigger] r@[j]).0@ == archive_name(
                        self.filename(),
                        self.suffix(),
                        self.rotation(),
                        self.date_text(date),
                        c as nat,
                    )
                    &&& r@[j].1@ == archive_name(
                        self.filename(),
                        self.suffix(),
                        self.rotation(),
                        self.date_text(date),
                        (c + 1) as nat,
                    )
                },
            r@[existing as int].0@ == current_name(self.filename(), self.suffix()),
            r@[existing as int].1@ == archive_name(
                self.filename(),
                self.suffix(),
                self.rotation(),
                self.date_text(date),
                1,
            ),
    {
        let mut r: Vec<(String, String)> = Vec::new();
        let mut c: usize = existing;
        while c > 0
            invariant
                c <= existing < usize::MAX,
                date.valid(),
                r.len() == existing - c,
                forall|j: int|
                    0 <= j < r.len() ==> {
                        let cc = existing - j;
                        &&& (#[trigger] r@[j]).0@ == archive_name(
                            self.filename(),
                            self.suffix(),
                            self.rotation(),
                            self.date_text(date),
                            cc as nat,
                        )
                        &&& r@[j].1@ == archive_name(
                            self.filename(),
                            self.suffix(),
                            self.rotation(),
                            self.date_text(date),
                            (cc + 1) as nat,
                        )
                    },
            decreases c,
        {
            let from = self.archive_filename(date, c);
            let to = self.archive_filename(date, c + 1);
            r.push((from, to));
            c = c - 1;
        }
        let cur = self.current_filename();
        let first = self.archive_filename(date, 1);
        r.push((cur, first));
        r
    }

    /// Reads a listed file name as one of this writer's log files.
    pub fn parse_logfile(&self, name: &[u8]) -> (r: Option<LogFileKey>)
        requires
            !name_panics(
                name@,
                self.filename_bytes(),
                self.suffix_bytes(),
            ),
        ensures
            key_matches(
                r,
                parse_logfile_spec(name@, self.filename_bytes(), self.suffix_bytes(), self.rotation()),
            ),
    {
        let prefix = self.log_filename.as_str().as_bytes();
        match &self.log_filename_suffix {
            None => parse_logfile_name(name, prefix, None, self.rotation),
            Some(x) => parse_logfile_name(name, prefix, Some(x.as_str().as_bytes()), self.rotation),
        }
    }

    /// The UTF-8 bytes of the writer's file name.
    pub closed spec fn filename_bytes(&self) -> Seq<u8> {
        encode_utf8(self.log_filename@)
    }

    /// The UTF-8 bytes of the writer's suffix.
    pub closed spec fn suffix_bytes(&self) -> Option<Seq<u8>> {
        match self.log_filename_suffix {
            Some(x) => Some(encode_utf8(x@)),
            None => None,
        }
    }
}

impl RollingState {
    /// Whether the current file is due for rotation by time at `now_ms`, the milliseconds since
    /// the Unix epoch, read as a `usize` as the writer reads them.
    pub open spec fn spec_rollover_on_date(&self, now_ms: i64) -> bool {
        match self.next_timestamp() {
            Some(ts) => (now_ms as usize) >= ts,
            None => false,
        }
    }

    /// Whether the current file has reached the maximum size.
    pub open spec fn spec_rollover_on_size(&self) -> bool {
        match self.max_size() {
            Some(n) => self.filesize() >= n,
            None => false,
        }
    }

    /// Whether the current file is due for rotation by time.
    pub fn should_rollover_on_date(&self, now_ms: i64) -> (r: bool)
        ensures
            r == self.spec_rollover_on_date(now_ms),
    {
        match self.next_date_timestamp {
            Some(ts) => (now_ms as usize) >= ts,
            None => false,
        }
    }

    /// Whether the current file is due for rotation by size.
    pub fn should_rollover_on_size(&self) -> (r: bool)
        ensures
            r == self.spec_rollover_on_size(),
    {
        match self.max_size {
            Some(n) => self.current_filesize >= n,
            None => false,
        }
    }

    /// Prepares a write at `now` (`now_ms` milliseconds since the epoch). When the current file is
    /// due for rotation by time, it is rotated under the date of the previous write and the next
    /// rotation time becomes `next_at_now`; otherwise, when it has reached the maximum size, it is
    /// rotated under `now`. The result is the date under which the current file is rotated, if it
    /// is; a rotated file starts empty. Either way `now` becomes the date of the last write.
    pub fn begin_write(&mut self, now: CivilDateTime, now_ms: i64, next_at_now: Option<usize>) -> (r:
        Option<CivilDateTime>)
        requires
            old(self).wf(),
            now.valid(),
        ensures
            final(self).wf(),
            final(self).filename() == old(self).filename(),
            final(self).suffix() == old(self).suffix(),
            final(self).rotation() == old(self).rotation(),
            final(self).max_size() == old(self).max_size(),
            final(self).max_files() == old(self).max_files(),
            final(self).this_date() == now,
            final(self).kept() == old(self).kept(),
            final(self).rollovers() == old(self).rollovers(),
            final(self).accounted() == old(self).accounted(),
            old(self).spec_rollover_on_date(now_ms) ==> {
                &&& r == Some(old(self).this_date())
                &&& final(self).filesize() == 0
                &&& final(self).next_timestamp() == next_at_now
            },
            !old(self).spec_rollover_on_date(now_ms) && old(self).spec_rollover_on_size() ==> {
                &&& r == Some(now)
                &&& final(self).filesize() == 0
                &&& final(self).next_timestamp() == old(self).next_timestamp()
            },
            !old(self).spec_rollover_on_date(now_ms) && !old(self).spec_rollover_on_size() ==> {
                &&& r is None
                &&& final(self).filesize() == old(self).filesize()
                &&& final(self).next_timestamp() == old(self).next_timestamp()
            },
    {
        let mut rotate_as: Option<CivilDateTime> = None;
        if self.should_rollover_on_date(now_ms) {
            self.current_filesize = 0;
            self.next_date_timestamp = next_at_now;
            rotate_as = Some(self.this_date);
        }
        if self.should_rollover_on_size() {
            self.current_filesize = 0;
            rotate_as = Some(now);
        }
        self.this_date = now;
        rotate_as
    }

    /// Counts `n` bytes written to the current file.
    pub fn record_written(&mut self, n: usize)
        requires
            old(self).wf(),
            old(self).filesize() + n <= usize::MAX,
        ensures
            final(self).wf(),
            final(self).filesize() == old(self).filesize() + n,
            final(self).filename() == old(self).filename(),
            final(self).suffix() == old(self).suffix(),
            final(self).rotation() == old(self).rotation(),
            final(self).max_size() == old(self).max_size(),
            final(self).max_files() == old(self).max_files(),
            final(self).this_date() == old(self).this_date(),
            final(self).next_timestamp() == old(self).next_timestamp(),
            final(self).kept() == old(self).kept(),
            final(self).rollovers() == old(self).rollovers(),
            final(self).accounted() == old(self).accounted(),
    {
        self.current_filesize = self.current_filesize + n;
    }

    /// Takes up an existing current file of `filesize` bytes; where its modification time is
    /// known, it becomes the date of the last write and `next_at_mtime` the next rotation time.
    pub fn resume(&mut self, filesize: usize, mtime: Option<(CivilDateTime, Option<usize>)>)
        requires
            old(self).wf(),
            mtime matches Some(m) ==> m.0.valid(),
        ensures
            final(self).wf(),
            final(self).filesize() == filesize,
            final(self).filename() == old(self).filename(),
            final(self).suffix() == old(self).suffix(),
            final(self).rotation() == old(self).rotation(),
            final(self).max_size() == old(self).max_size(),
            final(self).max_files() == old(self).max_files(),
            match mtime {
                Some(m) => final(self).this_date() == m.0 && final(self).next_timestamp() == m.1,
                None => final(self).this_date() == old(self).this_date()
                    && final(self).next_timestamp() == old(self).next_timestamp(),
            },
            final(self).kept() == old(self).kept(),
            final(self).rollovers() == old(self).rollovers(),
            final(self).accounted() == old(self).accounted(),
    {
        self.current_filesize = filesize;
        match mtime {
            Some(m) => {
                self.next_date_timestamp = m.1;
                self.this_date = m.0;
            },
            None => {},
        }
    }

    /// Decides how the writer starts on the files it finds: when the newest of them is the
    /// current file, the writer goes on with it; otherwise (no file, or the newest has another
    /// name) it creates a new current file.
    ///
    /// The writer keeps the listed files, and the new current file where it creates one; when
    /// the directory held none of its files and the number of files is limited, its later
    /// rollovers are accounted for (see `retention_plan`).
    pub fn startup(&mut self, names: &Vec<Vec<u8>>, keys: &Vec<LogFileKey>) -> (r: Startup)
        requires
            old(self).wf(),
            names.len() == keys.len(),
        ensures
            keys.len() == 0 ==> r == Startup::CreateNew,
            r matches Startup::Resume(i) ==> is_newest(keys@, i as int) && names@[i as int]@
                == encode_utf8(current_name(old(self).filename(), old(self).suffix())),
            r == Startup::CreateNew && keys.len() > 0 ==> forall|i: int|
                is_newest(keys@, i) ==> names@[i]@ != encode_utf8(
                    current_name(old(self).filename(), old(self).suffix()),
                ),
            final(self).wf(),
            final(self).filename() == old(self).filename(),
            final(self).suffix() == old(self).suffix(),
            final(self).rotation() == old(self).rotation(),
            final(self).filesize() == old(self).filesize(),
            final(self).this_date() == old(self).this_date(),
            final(self).next_timestamp() == old(self).next_timestamp(),
            final(self).max_size() == old(self).max_size(),
            final(self).max_files() == old(self).max_files(),
            final(self).kept() == (if r == Startup::CreateNew {
                (keys.len() + 1) as nat
            } else {
                keys.len() as nat
            }),
            final(self).rollovers() == 0,
            final(self).accounted() == (keys.len() == 0 && old(self).max_files() is Some),
    {
        proof {
            self.rollovers@ = 0;
            self.accounted@ = keys.len() == 0 && self.max_files is Some;
            self.kept@ = (keys.len() + 1) as nat;
        }
        if keys.len() == 0 {
            return Startup::CreateNew;
        }
        if keys.len() == 0 {
            return Startup::CreateNew;
        }
        let order = sort_order(keys);
        let last = order[order.len() - 1];
        let ghost n = keys.len() as int;
        proof {
            assert forall|j: int| 0 <= j < n && j != last implies precedes(keys@, j, last as int) by {
                assert(order@.contains(j as usize));
                let w = choose|w: int| 0 <= w < order@.len() && order@[w] == j as usize;
                assert(w != n - 1);
                assert(precedes(keys@, order@[w] as int, order@[n - 1] as int));
            }
            assert forall|i: int| is_newest(keys@, i) implies i == last by {
                if i != last {
                    assert(precedes(keys@, i, last as int));
                    assert(precedes(keys@, last as int, i));
                    lemma_before_irreflexive_asym(keys@[i].datetime, keys@[last as int].datetime);
                }
            }
        }
        let cur = self.current_filename();
        let cur_bytes = cur.as_str().as_bytes();
        let name = names[last].as_slice();
        if bytes_eq(name, cur_bytes) {
            proof {
                self.kept@ = keys.len() as nat;
            }
            Startup::Resume(last)
        } else {
            Startup::CreateNew
        }
    }

    /// Decides, at a rollover of a writer with a limit on the number of files, which of its
    /// files to remove: `keys` are those that the directory lists once the current file is
    /// archived, and the result holds the positions of the oldest of them, as many as leave room
    /// for the new current file within the limit. The writer then keeps the listed files less
    /// those removed, and the new current file.
    pub fn retention_plan(&mut self, keys: &Vec<LogFileKey>) -> (r: Vec<usize>)
        requires
            old(self).wf(),
            old(self).max_files() is Some,
        ensures
            r.len() == excess_files(keys.len() as nat, old(self).max_files()->0 as nat),
            oldest(keys@, r@, r.len() as nat),
            final(self).wf(),
            final(self).filename() == old(self).filename(),
            final(self).suffix() == old(self).suffix(),
            final(self).rotation() == old(self).rotation(),
            final(self).filesize() == old(self).filesize(),
            final(self).this_date() == old(self).this_date(),
            final(self).next_timestamp() == old(self).next_timestamp(),
            final(self).max_size() == old(self).max_size(),
            final(self).max_files() == old(self).max_files(),
            final(self).kept() == keys.len() - r.len() + 1,
            final(self).rollovers() == old(self).rollovers() + 1,
            final(self).accounted() == (old(self).accounted() && keys.len() == old(self).kept()),
    {
        let m = match self.max_files {
            Some(m) => m,
            None => 0,
        };
        let r = files_to_delete(keys, m);
        proof {
            let before = self.kept@;
            self.kept@ = (keys.len() - r.len() + 1) as nat;
            self.rollovers@ = self.rollovers@ + 1;
            self.accounted@ = self.accounted@ && keys.len() == before;
        }
        r
    }
}

/// A writer that started in a directory without its files, and whose directory has listed at
/// each rollover just the files that it kept, keeps after `i` rollovers exactly
/// `min(i + 1, max_files)` files: never more than `max_files`.
pub proof fn lemma_writer_retention(s: RollingState)
    requires
        s.wf(),
        s.accounted(),
    ensures
        s.max_files() is Some,
        s.kept() == (if s.rollovers() + 1 <= s.max_files()->0 {
            s.rollovers() + 1
        } else {
            s.max_files()->0 as nat
        }),
        s.kept() <= s.max_files()->0,
{
    lemma_retention_over_rollovers(s.rollovers(), s.max_files()->0 as nat);
}

fn bytes_eq(a: &[u8], b: &[u8]) -> (r: bool)
    ensures
        r == (a@ == b@),
{
    if a.len() != b.len() {
        return false;
    }
    let mut i: usize = 0;
    while i < a.len()
        invariant
            a.len() == b.len(),
            i <= a.len(),
            forall|j: int| 0 <= j < i ==> a@[j] == b@[j],
        decreases a.len() - i,
    {
        if a[i] != b[i] {
            return false;
        }
        i = i + 1;
    }
    assert(a@ =~= b@);
    true
}

/// The settings of a rolling file writer, before it is built.
#[derive(Debug)]
pub struct RollingFileWriterBuilder {
    filename: String,
    rotation: Rotation,
    filename_suffix: Option<String>,
    max_size: Option<usize>,
    max_files: Option<usize>,
}

impl RollingFileWriterBuilder {
    pub closed spec fn spec_filename(&self) -> Seq<char> {
        self.filename@
    }

    pub closed spec fn spec_rotation(&self) -> Rotation {
        self.rotation
    }

    pub closed spec fn spec_suffix(&self) -> Option<Seq<char>> {
        opt_chars(self.filename_suffix)
    }

    pub closed spec fn spec_max_size(&self) -> Option<usize> {
        self.max_size
    }

    pub closed spec fn spec_max_files(&self) -> Option<usize> {
        self.max_files
    }

    pub open spec fn wf(&self) -> bool {
        positive(self.spec_max_size()) && positive(self.spec_max_files())
    }

    /// The rotation policy that the writer will have.
    pub fn rotation_policy(&self) -> (r: Rotation)
        ensures
            r == self.spec_rotation(),
    {
        self.rotation
    }

    /// A builder for files named `filename`, never rotated, without suffix or limits.
    pub fn new(filename: String) -> (r: RollingFileWriterBuilder)
        ensures
            r.wf(),
            r.spec_filename() == filename@,
            r.spec_rotation() == Rotation::Never,
            r.spec_suffix() is None,
            r.spec_max_size() is None,
            r.spec_max_files() is None,
    {
        RollingFileWriterBuilder {
            filename,
            rotation: Rotation::Never,
            filename_suffix: None,
            max_size: None,
            max_files: None,
        }
    }

    /// Sets the rotation policy.
    pub fn rotation(self, rotation: Rotation) -> (r: RollingFileWriterBuilder)
        ensures
            r.spec_rotation() == rotation,
            r.spec_filename() == self.spec_filename(),
            r.spec_suffix() == self.spec_suffix(),
            r.spec_max_size() == self.spec_max_size(),
            r.spec_max_files() == self.spec_max_files(),
    {
        RollingFileWriterBuilder { rotation, ..self }
    }

    /// Sets the filename suffix; an empty suffix means none.
    pub fn filename_suffix(self, suffix: String) -> (r: RollingFileWriterBuilder)
        ensures
            r.spec_suffix() == (if suffix@.len() == 0 { None } else { Some(suffix@) }),
            r.spec_filename() == self.spec_filename(),
            r.spec_rotation() == self.spec_rotation(),
            r.spec_max_size() == self.spec_max_size(),
            r.spec_max_files() == self.spec_max_files(),
    {
        let filename_suffix = if suffix.as_str().is_empty() {
            None
        } else {
            Some(suffix)
        };
        RollingFileWriterBuilder { filename_suffix, ..self }
    }

    /// Sets the maximum number of log files to keep.
    pub fn max_log_files(self, n: usize) -> (r: RollingFileWriterBuilder)
        requires
            n > 0,
        ensures
            r.spec_max_files() == Some(n),
            r.spec_filename() == self.spec_filename(),
            r.spec_rotation() == self.spec_rotation(),
            r.spec_suffix() == self.spec_suffix(),
            r.spec_max_size() == self.spec_max_size(),
    {
        RollingFileWriterBuilder { max_files: Some(n), ..self }
    }

    /// Sets the maximum size of a log file in bytes.
    pub fn max_file_size(self, n: usize) -> (r: RollingFileWriterBuilder)
        requires
            n > 0,
        ensures
            r.spec_max_size() == Some(n),
            r.spec_filename() == self.spec_filename(),
            r.spec_rotation() == self.spec_rotation(),
            r.spec_suffix() == self.spec_suffix(),
            r.spec_max_files() == self.spec_max_files(),
    {
        RollingFileWriterBuilder { max_size: Some(n), ..self }
    }

    /// Builds the state of the writer at `now`, whose next rotation time is `next_at_now`; an
    /// empty file name is refused.
    pub fn build(self, now: CivilDateTime, next_at_now: Option<usize>) -> (r: Result<
        RollingState,
        Error,
    >)
        requires
            self.wf(),
            now.valid(),
        ensures
            self.spec_filename().len() == 0 <==> r is Err,
            r matches Err(e) ==> e.message() == "filename must not be empty"@,
            r matches Ok(st) ==> {
                &&& st.wf()
                &&& st.filename() == self.spec_filename()
                &&& st.suffix() == self.spec_suffix()
                &&& st.rotation() == self.spec_rotation()
                &&& st.max_size() == self.spec_max_size()
                &&& st.max_files() == self.spec_max_files()
                &&& st.filesize() == 0
                &&& st.this_date() == now
                &&& st.next_timestamp() == next_at_now
            },
    {
        if self.filename.as_str().is_empty() {
            return Err(Error::new("filename must not be empty".to_string()));
        }
        Ok(
            RollingState::new(
                self.rotation,
                self.filename,
                self.filename_suffix,
                self.max_size,
                self.max_files,
                now,
                next_at_now,
            ),
        )
    }
}

} // verus!

verus! {

/// The UTF-8 bytes of an optional suffix.
pub open spec fn opt_encoded(suffix: Option<Seq<char>>) -> Option<Seq<u8>> {
    match suffix {
        Some(x) => Some(encode_utf8(x)),
        None => None,
    }
}

proof fn lemma_encode_concat(a: Seq<char>, b: Seq<char>)
    ensures
        encode_utf8(a + b) == encode_utf8(a) + encode_utf8(b),
    decreases a.len(),
{
    if a.len() == 0 {
        assert(a + b =~= b);
        assert(encode_utf8(a) =~= Seq::<u8>::empty());
        assert(encode_utf8(a) + encode_utf8(b) =~= encode_utf8(b));
    } else {
        lemma_encode_concat(a.drop_first(), b);
        assert((a + b).drop_first() =~= a.drop_first() + b);
        assert((a + b)[0] == a[0]);
        assert(encode_utf8(a + b) =~= encode_utf8(a) + encode_utf8(b));
    }
}

proof fn lemma_encode_ascii(c: char)
    requires
        (c as u32) < 128,
    ensures
        encode_utf8(seq![c]) == seq![c as u32 as u8],
{
    let v = c as u32;
    assert(v <= 0x7F ==> (v & 0x7F) == v) by (bit_vector);
    assert(seq![c].drop_first() =~= Seq::<char>::empty());
    assert(encode_utf8(seq![c]) =~= encode_scalar(v) + encode_utf8(Seq::<char>::empty()));
    assert(encode_scalar(v) =~= seq![v as u8]);
}

proof fn lemma_decimal_bytes(n: nat)
    ensures
        encode_utf8(decimal(n)).len() > 0,
        all_digits(encode_utf8(decimal(n))),
        digits_value(encode_utf8(decimal(n))) == n,
        encode_utf8(decimal(n))[0] != 43u8,
    decreases n,
{
    let c = crate::text::digit_char(n % 10);
    assert((c as u32) == (n % 10) + 48);
    lemma_encode_ascii(c);
    if n < 10 {
        assert(decimal(n) == seq![c]);
        let e = seq![((n % 10) + 48) as u8];
        assert(encode_utf8(decimal(n)) == e);
        assert(e.drop_last() =~= Seq::<u8>::empty());
        assert(digits_value(e.drop_last()) == 0);
        assert(e.last() == ((n % 10) + 48) as u8);
        assert((((n % 10) + 48) as u8) as int == (n % 10) + 48);
        assert(digits_value(e) == (n % 10));
    } else {
        lemma_decimal_bytes(n / 10);
        let d = decimal(n / 10);
        assert(decimal(n) == d.push(c));
        assert(d.push(c) =~= d + seq![c]);
        lemma_encode_concat(d, seq![c]);
        let e = encode_utf8(d) + seq![((n % 10) + 48) as u8];
        assert(encode_utf8(decimal(n)) == e);
        assert(e.drop_last() =~= encode_utf8(d));
        assert(e.last() == ((n % 10) + 48) as u8);
        assert(digits_value(e) == digits_value(encode_utf8(d)) * 10 + (n % 10));
        assert((n / 10) * 10 + n % 10 == n);
        assert forall|i: int| 0 <= i < e.len() implies is_digit(#[trigger] e[i]) by {
            if i < e.len() - 1 {
                assert(e[i] == encode_utf8(d)[i]);
            }
        }
        assert(e[0] == encode_utf8(d)[0]);
    }
}

proof fn lemma_dot_bytes()
    ensures
        encode_utf8(seq!['.']) == seq![46u8],
{
    lemma_encode_ascii('.');
}

/// The writer recognises its current file as its newest file: the name of the current file is
/// read as carrying the latest date and the count 0, whatever the rotation.
pub proof fn lemma_current_file_is_newest(
    filename: Seq<char>,
    suffix: Option<Seq<char>>,
    rotation: Rotation,
)
    ensures
        !name_panics(
            encode_utf8(current_name(filename, suffix)),
            encode_utf8(filename),
            opt_encoded(suffix),
        ),
        parse_logfile_spec(
            encode_utf8(current_name(filename, suffix)),
            encode_utf8(filename),
            opt_encoded(suffix),
            rotation,
        ) == Some((CivilDateTime::spec_max(), 0nat)),
{
    let f = encode_utf8(filename);
    lemma_dot_bytes();
    match suffix {
        None => {
            assert(f.take(f.len() as int) =~= f);
            assert(f.skip(f.len() as int) =~= Seq::<u8>::empty());
        },
        Some(x) => {
            let ex = encode_utf8(x);
            lemma_encode_concat(filename, seq!['.']);
            lemma_encode_concat(filename + seq!['.'], x);
            let name = f + seq![46u8] + ex;
            assert(encode_utf8(current_name(filename, suffix)) == name);
            assert(name.take(f.len() as int) =~= f);
            let rest = name.skip(f.len() as int);
            assert(rest =~= seq![46u8] + ex);
            assert(rest.skip(rest.len() - ex.len()) =~= ex);
            assert(rest.take(rest.len() - ex.len() - 1) =~= Seq::<u8>::empty());
        },
    }
}

/// The writer recognises the files it archives when it never rotates by time: the name of the
/// archived file of count `cnt` is read as carrying the latest date and the count `cnt`.
pub proof fn lemma_archived_file_is_recognised(
    filename: Seq<char>,
    suffix: Option<Seq<char>>,
    date: Seq<char>,
    cnt: nat,
)
    requires
        cnt <= usize::MAX,
    ensures
        !name_panics(
            encode_utf8(archive_name(filename, suffix, Rotation::Never, date, cnt)),
            encode_utf8(filename),
            opt_encoded(suffix),
        ),
        parse_logfile_spec(
            encode_utf8(archive_name(filename, suffix, Rotation::Never, date, cnt)),
            encode_utf8(filename),
            opt_encoded(suffix),
            Rotation::Never,
        ) == Some((CivilDateTime::spec_max(), cnt)),
{
    let f = encode_utf8(filename);
    let dd = decimal(cnt);
    let db = encode_utf8(dd);
    lemma_dot_bytes();
    lemma_decimal_bytes(cnt);
    lemma_encode_concat(filename, seq!['.']);
    lemma_encode_concat(filename + seq!['.'], dd);
    let counted = f + seq![46u8] + db;
    assert(encode_utf8(filename + seq!['.'] + dd) == counted);
    let tail = seq![46u8] + db;
    assert(parse_usize_spec(db) == Some(cnt)) by {
        assert(db.len() > 0 && db[0] != 43u8);
    }
    match suffix {
        None => {
            assert(encode_utf8(archive_name(filename, suffix, Rotation::Never, date, cnt)) == counted);
            assert(counted.take(f.len() as int) =~= f);
            assert(counted.skip(f.len() as int) =~= tail);
            assert(tail.skip(1) =~= db);
        },
        Some(x) => {
            let ex = encode_utf8(x);
            lemma_encode_concat(filename + seq!['.'] + dd, seq!['.']);
            lemma_encode_concat(filename + seq!['.'] + dd + seq!['.'], x);
            let name = counted + seq![46u8] + ex;
            assert(encode_utf8(archive_name(filename, suffix, Rotation::Never, date, cnt)) == name);
            assert(name.take(f.len() as int) =~= f);
            let rest = name.skip(f.len() as int);
            assert(rest =~= tail + seq![46u8] + ex);
            assert(rest.skip(rest.len() - ex.len()) =~= ex);
            assert(rest.take(rest.len() - ex.len() - 1) =~= tail);
            assert(rest[rest.len() - ex.len() - 1] == 46u8);
            assert(tail.skip(1) =~= db);
        },
    }
}

/// A writer keeps at most `max_files` files: after the excess files are removed and a new file
/// is created, there are at most `max_files`, and exactly `max_files` when there were at least
/// `max_files - 1` before.
pub proof fn lemma_retention(n: nat, max_files: nat)
    requires
        max_files > 0,
    ensures
        n - excess_files(n, max_files) + 1 <= max_files,
        excess_files(n, max_files) <= n,
        n + 1 >= max_files ==> n - excess_files(n, max_files) + 1 == max_files,
        n + 1 <= max_files ==> excess_files(n, max_files) == 0,
{
}

/// The number of files a writer keeps after `i` rollovers, starting from an empty directory with
/// its first file: at each rollover the excess files are removed and a new file is created.
pub open spec fn files_after_rollovers(i: nat, max_files: nat) -> nat
    decreases i,
{
    if i == 0 {
        1
    } else {
        let n = files_after_rollovers((i - 1) as nat, max_files);
        (n - excess_files(n, max_files) + 1) as nat
    }
}

/// Over any run of rollovers a writer never keeps more than `max_files` files: after `i`
/// rollovers it keeps exactly `min(i + 1, max_files)`.
pub proof fn lemma_retention_over_rollovers(i: nat, max_files: nat)
    requires
        max_files > 0,
    ensures
        files_after_rollovers(i, max_files) == (if i + 1 <= max_files {
            i + 1
        } else {
            max_files
        }),
        files_after_rollovers(i, max_files) <= max_files,
    decreases i,
{
    if i > 0 {
        lemma_retention_over_rollovers((i - 1) as nat, max_files);
        lemma_retention(files_after_rollovers((i - 1) as nat, max_files), max_files);
    }
}

} // verus!

verus! {

/// A text of ASCII characters other than `.` (46).
pub open spec fn ascii_without_dot(t: Seq<char>) -> bool {
    forall|i: int| 0 <= i < t.len() ==> (#[trigger] t[i] as u32) < 128 && (t[i] as u32) != 46
}

proof fn lemma_ascii_concat(a: Seq<char>, b: Seq<char>)
    requires
        ascii_without_dot(a),
        ascii_without_dot(b),
    ensures
        ascii_without_dot(a + b),
{
    assert forall|i: int| 0 <= i < (a + b).len() implies ((#[trigger] (a + b)[i] as u32) < 128 && ((
    a + b)[i] as u32) != 46) by {
        if i < a.len() {
            assert((a + b)[i] == a[i]);
            assert((a[i] as u32) < 128);
        } else {
            assert((a + b)[i] == b[i - a.len()]);
            assert((b[i - a.len()] as u32) < 128);
        }
    }
}

proof fn lemma_char_ascii(c: char)
    requires
        (c as u32) < 128,
        (c as u32) != 46,
    ensures
        ascii_without_dot(seq![c]),
{
    assert forall|i: int| 0 <= i < seq![c].len() implies ((#[trigger] seq![c][i] as u32) < 128 && (
    seq![c][i] as u32) != 46) by {
        assert(seq![c][i] == c);
    }
}

proof fn lemma_decimal_ascii(n: nat)
    ensures
        ascii_without_dot(decimal(n)),
    decreases n,
{
    let c = crate::text::digit_char(n % 10);
    assert((c as u32) == (n % 10) + 48);
    lemma_char_ascii(c);
    if n >= 10 {
        lemma_decimal_ascii(n / 10);
        assert(decimal(n) =~= decimal(n / 10) + seq![c]);
        lemma_ascii_concat(decimal(n / 10), seq![c]);
    } else {
        assert(decimal(n) =~= seq![c]);
    }
}

proof fn lemma_zero_padded_ascii(n: nat, width: nat)
    ensures
        ascii_without_dot(zero_padded(n, width)),
{
    lemma_decimal_ascii(n);
    let d = decimal(n);
    if d.len() < width {
        let z = Seq::new((width - d.len()) as nat, |_i: int| '0');
        assert forall|i: int| 0 <= i < z.len() implies ((#[trigger] z[i] as u32) < 128 && (z[i] as u32)
            != 46) by {
            assert(z[i] == '0');
        }
        lemma_ascii_concat(z, d);
    }
}

/// The date text of an archived file is ASCII without `.`.
proof fn lemma_date_text_ascii(format: Seq<char>, dt: DateTimeParts)
    ensures
        ascii_without_dot(date_format_text(format, dt)),
{
    let dash = seq!['-'];
    lemma_char_ascii('-');
    let y = dt.0 as int;
    if y >= 0 {
        lemma_zero_padded_ascii(y as nat, 4);
    } else {
        lemma_zero_padded_ascii((-y) as nat, 3);
        lemma_ascii_concat(dash, zero_padded((-y) as nat, 3));
    }
    let p1 = zero_padded(dt.1 as nat, 2);
    let p2 = zero_padded(dt.2 as nat, 2);
    let p3 = zero_padded(dt.3 as nat, 2);
    let p4 = zero_padded(dt.4 as nat, 2);
    lemma_zero_padded_ascii(dt.1 as nat, 2);
    lemma_zero_padded_ascii(dt.2 as nat, 2);
    lemma_zero_padded_ascii(dt.3 as nat, 2);
    lemma_zero_padded_ascii(dt.4 as nat, 2);
    let a = year_text(y);
    lemma_ascii_concat(a, dash);
    lemma_ascii_concat(a + dash, p1);
    lemma_ascii_concat(a + dash + p1, dash);
    lemma_ascii_concat(a + dash + p1 + dash, p2);
    let ymd = a + dash + p1 + dash + p2;
    lemma_ascii_concat(ymd, dash);
    lemma_ascii_concat(ymd + dash, p3);
    lemma_ascii_concat(ymd + dash + p3, dash);
    lemma_ascii_concat(ymd + dash + p3 + dash, p4);
}

proof fn lemma_encode_ascii_seq(t: Seq<char>)
    requires
        forall|i: int| 0 <= i < t.len() ==> (#[trigger] t[i] as u32) < 128,
    ensures
        encode_utf8(t) == Seq::new(t.len(), |i: int| t[i] as u32 as u8),
    decreases t.len(),
{
    if t.len() == 0 {
        assert(encode_utf8(t) =~= Seq::<u8>::empty());
    } else {
        let rest = t.drop_first();
        assert forall|i: int| 0 <= i < rest.len() implies (#[trigger] rest[i] as u32) < 128 by {
            assert(rest[i] == t[i + 1]);
        }
        lemma_encode_ascii_seq(rest);
        lemma_encode_ascii(t[0]);
        assert(seq![t[0]].drop_first() =~= Seq::<char>::empty());
        assert(encode_utf8(seq![t[0]]) == encode_scalar(t[0] as u32) + encode_utf8(Seq::<char>::empty()));
        assert(encode_utf8(Seq::<char>::empty()) =~= Seq::<u8>::empty());
        assert(encode_utf8(t) =~= Seq::new(t.len(), |i: int| t[i] as u32 as u8));
    }
}

proof fn lemma_no_dot_bytes(t: Seq<char>)
    requires
        ascii_without_dot(t),
    ensures
        forall|i: int| 0 <= i < encode_utf8(t).len() ==> #[trigger] encode_utf8(t)[i] != 46u8,
{
    lemma_encode_ascii_seq(t);
    let d = encode_utf8(t);
    assert forall|i: int| 0 <= i < d.len() implies #[trigger] d[i] != 46u8 by {
        let v = t[i] as u32;
        assert(v < 128 && v != 46);
        assert(d[i] == v as u8);
        assert(v < 128 && v != 46 ==> (v as u8) != 46u8) by (bit_vector);
    }
}

proof fn lemma_dated_tail(d: Seq<u8>, db: Seq<u8>, cnt: nat)
    requires
        forall|i: int| 0 <= i < d.len() ==> #[trigger] d[i] != 46u8,
        parse_usize_spec(db) == Some(cnt),
    ensures
        first_dot(d + seq![46u8] + db) == Some(d.len() as int),
        (d + seq![46u8] + db).take(d.len() as int) == d,
        parse_usize_spec((d + seq![46u8] + db).skip(d.len() as int + 1)) == Some(cnt),
{
    let u = d + seq![46u8] + db;
    assert(is_first_dot(u, d.len() as int)) by {
        assert forall|j: int| 0 <= j < d.len() implies u[j] != 46u8 by {
            assert(u[j] == d[j]);
        }
    }
    let p = choose|p: int| is_first_dot(u, p);
    assert(p == d.len()) by {
        if p < d.len() {
            assert(u[p] == d[p]);
        } else if p > d.len() {
            assert(u[d.len() as int] == 46u8);
        }
    }
    assert(u.take(d.len() as int) =~= d);
    assert(u.skip(d.len() as int + 1) =~= db);
}

/// The writer recognises the files it archives when it rotates by time, as far as jiff reads
/// back the dates that it writes: where jiff parses the date text of `date` back as the date
/// `parsed`, the name of the archived file of count `cnt` is read as carrying `parsed` and
/// `cnt`.
#[verifier::rlimit(80)]
pub proof fn lemma_dated_archive_is_recognised(
    filename: Seq<char>,
    suffix: Option<Seq<char>>,
    rotation: Rotation,
    date: DateTimeParts,
    parsed: DateTimeParts,
    cnt: nat,
)
    requires
        rotation != Rotation::Never,
        cnt <= usize::MAX,
        strptime_result(
            rotation.spec_date_format(),
            encode_utf8(date_format_text(rotation.spec_date_format(), date)),
        ) == Some(parsed),
    ensures
        !name_panics(
            encode_utf8(
                archive_name(
                    filename,
                    suffix,
                    rotation,
                    date_format_text(rotation.spec_date_format(), date),
                    cnt,
                ),
            ),
            encode_utf8(filename),
            opt_encoded(suffix),
        ),
        parse_logfile_spec(
            encode_utf8(
                archive_name(
                    filename,
                    suffix,
                    rotation,
                    date_format_text(rotation.spec_date_format(), date),
                    cnt,
                ),
            ),
            encode_utf8(filename),
            opt_encoded(suffix),
            rotation,
        ) == Some((CivilDateTime::from_parts(parsed), cnt)),
{
    let text = date_format_text(rotation.spec_date_format(), date);
    lemma_date_text_ascii(rotation.spec_date_format(), date);
    let f = encode_utf8(filename);
    let d = encode_utf8(text);
    let dd = decimal(cnt);
    let db = encode_utf8(dd);
    lemma_dot_bytes();
    lemma_decimal_bytes(cnt);
    lemma_no_dot_bytes(text);
    assert(parse_usize_spec(db) == Some(cnt)) by {
        assert(db.len() > 0 && db[0] != 43u8);
    }
    lemma_dated_tail(d, db, cnt);
    lemma_encode_concat(filename, seq!['.']);
    lemma_encode_concat(filename + seq!['.'], text);
    lemma_encode_concat(filename + seq!['.'] + text, seq!['.']);
    lemma_encode_concat(filename + seq!['.'] + text + seq!['.'], dd);
    let counted = f + seq![46u8] + d + seq![46u8] + db;
    assert(encode_utf8(filename + seq!['.'] + text + seq!['.'] + dd) == counted);
    let tail = seq![46u8] + d + seq![46u8] + db;
    let u = d + seq![46u8] + db;
    assert(tail.skip(1) =~= u);
    assert(tail[0] == 46u8);
    match suffix {
        None => {
            assert(encode_utf8(archive_name(filename, suffix, rotation, text, cnt)) == counted);
            assert(counted.take(f.len() as int) =~= f);
            assert(counted.skip(f.len() as int) =~= tail);
        },
        Some(x) => {
            let ex = encode_utf8(x);
            lemma_encode_concat(filename + seq!['.'] + text + seq!['.'] + dd, seq!['.']);
            lemma_encode_concat(filename + seq!['.'] + text + seq!['.'] + dd + seq!['.'], x);
            let name = counted + seq![46u8] + ex;
            assert(encode_utf8(archive_name(filename, suffix, rotation, text, cnt)) == name);
            assert(name.take(f.len() as int) =~= f);
            let rest = name.skip(f.len() as int);
            assert(rest =~= tail + seq![46u8] + ex);
            assert(rest.skip(rest.len() - ex.len()) =~= ex);
            assert(rest.take(rest.len() - ex.len() - 1) =~= tail);
            assert(rest[rest.len() - ex.len() - 1] == 46u8);
        },
    }
}

} // verus!
