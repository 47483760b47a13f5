//! Integration with fastrace: log records as events of the current local span, and the trace
//! context of the current span as diagnostic key-values.
use vstd::prelude::*;

use crate::error::Error;
use crate::kv::{value_text, Key, KeyValues, Value, ValueView};
use crate::kv::entries_of;
use crate::kv::hex_digit;
use crate::level::Level;
use crate::record::Record;
use crate::text::push_char;

use std::borrow::Cow;
use std::time::SystemTime;

use crate::record::system_time_now;

verus! {

/// The trace ID, span ID and sampling flag of the current local parent span, with
/// `fastrace::collector::SpanContext::current_local_parent`. Which span is current depends on
/// the calling thread, so nothing is stated of the result.
#[verifier::external_body]
fn current_span_context() -> Option<(u128, u64, bool)> {
    match fastrace::collector::SpanContext::current_local_parent() {
        Some(span) => Some((span.trace_id.0, span.span_id.0, span.sampled)),
        None => None,
    }
}

/// A time of the system clock in the system time zone, as jiff renders a `Zoned` made with
/// `Zoned::try_from`; `None` where the time lies outside the range that jiff holds. The text
/// depends on the time zone of the machine, so nothing more is stated of it.
#[verifier::external_body]
fn zoned_text(time: SystemTime) -> Option<String> {
    match jiff::Zoned::try_from(time) {
        Ok(z) => Some(z.to_string()),
        Err(_) => None,
    }
}

/// The events handed to fastrace and the flushes asked of it, as far as this library made them.
pub struct SpanEventLog {
    events: Ghost<Seq<(Seq<char>, Seq<(Seq<char>, Seq<char>)>)>>,
    flushes: Ghost<nat>,
}

impl SpanEventLog {
    /// An empty log.
    pub fn new() -> (r: SpanEventLog)
        ensures
            r.events() == Seq::<(Seq<char>, Seq<(Seq<char>, Seq<char>)>)>::empty(),
            r.flushes() == 0,
    {
        SpanEventLog { events: Ghost(Seq::empty()), flushes: Ghost(0) }
    }

    /// The events handed to the current span, each its name and properties, the first first.
    pub closed spec fn events(&self) -> Seq<(Seq<char>, Seq<(Seq<char>, Seq<char>)>)> {
        self.events@
    }

    /// The number of flushes asked of fastrace.
    pub closed spec fn flushes(&self) -> nat {
        self.flushes@
    }
}

/// Adds an event with the given name and properties to the current local span, with
/// `fastrace::local::LocalSpan::add_event`; the event is added to the log.
#[verifier::external_body]
fn add_local_event(log: &mut SpanEventLog, name: Cow<'static, str>, properties: Vec<(String, String)>)
    ensures
        final(log).events() == old(log).events().push((name@, string_pairs(properties@))),
        final(log).flushes() == old(log).flushes(),
{
    fastrace::local::LocalSpan::add_event(
        fastrace::Event::new(name).with_properties(|| properties),
    )
}

/// Flushes the spans that fastrace holds, with `fastrace::flush`; the flush is counted in the
/// log.
#[verifier::external_body]
fn fastrace_flush(log: &mut SpanEventLog)
    ensures
        final(log).events() == old(log).events(),
        final(log).flushes() == old(log).flushes() + 1,
{
    fastrace::flush()
}

/// The `k` lowest hexadecimal digits of `n`, the most significant first.
pub open spec fn hex_digits(n: nat, k: nat) -> Seq<char>
    decreases k,
{
    if k == 0 {
        seq![]
    } else {
        hex_digits(n / 16, (k - 1) as nat).push(hex_digit(n % 16))
    }
}

fn hex_char(d: u8) -> (r: char)
    requires
        d < 16,
    ensures
        r == hex_digit(d as nat),
{
    if d < 10 {
        (d + 48) as char
    } else {
        (d + 87) as char
    }
}

/// Appends the `k` lowest hexadecimal digits of `n`, zero-padded, in lower case.
fn push_hex(s: &mut String, n: u128, k: u32)
    ensures
        final(s)@ == old(s)@ + hex_digits(n as nat, k as nat),
    decreases k,
{
    if k > 0 {
        push_hex(s, n / 16, k - 1);
        let d = (n % 16) as u8;
        push_char(s, hex_char(d));
        assert(old(s)@ + hex_digits(n as nat, k as nat) =~= old(s)@ + hex_digits((n / 16) as nat, (k - 1) as nat) + seq![hex_digit((n % 16) as nat)]);
    }
}

/// A diagnostic that gives the trace context of the current fastrace span.
#[derive(Debug, Clone, Copy, Default)]
pub struct FastraceDiagnostic {}

impl FastraceDiagnostic {
    /// The diagnostic.
    pub fn new() -> (r: FastraceDiagnostic) {
        FastraceDiagnostic {}
    }

    /// The trace ID (32 hexadecimal digits), span ID (16 hexadecimal digits) and sampling flag of
    /// a span context.
    pub fn render_context(trace_id: u128, span_id: u64, sampled: bool) -> (r: (String, String, bool))
        ensures
            r.0@ == hex_digits(trace_id as nat, 32),
            r.1@ == hex_digits(span_id as nat, 16),
            r.2 == sampled,
    {
        let mut t = String::new();
        push_hex(&mut t, trace_id, 32);
        let mut s = String::new();
        push_hex(&mut s, span_id as u128, 16);
        (t, s, sampled)
    }

    /// The rendered trace context of the current span, if there is one. Whether a span is
    /// current, and its IDs, are fastrace's; what comes back is the rendering of some trace ID and
    /// span ID.
    pub fn current(&self) -> (r: Option<(String, String, bool)>)
        ensures
            r matches Some(c) ==> c.0@.len() == 32 && c.1@.len() == 16,
            r matches Some(c) ==> exists|t: u128, s: u64|
                c.0@ == hex_digits(t as nat, 32) && c.1@ == hex_digits(s as nat, 16),
    {
        match current_span_context() {
            Some((t, s, b)) => {
                let r = FastraceDiagnostic::render_context(t, s, b);
                proof {
                    lemma_hex_digits_len(t as nat, 32);
                    lemma_hex_digits_len(s as nat, 16);
                }
                Some(r)
            },
            None => None,
        }
    }

    /// The key-values that the diagnostic gives for a rendered trace context.
    pub fn key_values<'a>(trace_id: &'a str, span_id: &'a str, sampled: bool) -> (r: Vec<
        (Key<'a>, Value<'a>),
    >)
        ensures
            entries_of(r@) == seq![
                ("trace_id"@, ValueView::BorrowedStr(trace_id)),
                ("span_id"@, ValueView::BorrowedStr(span_id)),
                ("sampled"@, ValueView::<'a>::Bool(sampled)),
            ],
    {
        let mut r: Vec<(Key<'a>, Value<'a>)> = Vec::new();
        r.push((Key::new("trace_id"), Value::str(trace_id)));
        r.push((Key::new("span_id"), Value::str(span_id)));
        r.push((Key::new("sampled"), Value::bool(sampled)));
        assert(entries_of(r@) =~= seq![
            ("trace_id"@, ValueView::BorrowedStr(trace_id)),
            ("span_id"@, ValueView::BorrowedStr(span_id)),
            ("sampled"@, ValueView::<'a>::Bool(sampled)),
        ]);
        r
    }
}

pub proof fn lemma_hex_digits_len(n: nat, k: nat)
    ensures
        hex_digits(n, k).len() == k,
    decreases k,
{
    if k > 0 {
        lemma_hex_digits_len(n / 16, (k - 1) as nat);
    }
}

/// The properties of the event of a record: its level and the time, then each key-value of the
/// record and of its diagnostics as texts.
pub open spec fn event_properties<'a>(
    level: Level,
    timestamp: Seq<char>,
    pairs: Seq<(Seq<char>, ValueView<'a>)>,
) -> Seq<(Seq<char>, Seq<char>)> {
    seq![("level"@, level.spec_name()), ("timestamp"@, timestamp)] + Seq::new(
        pairs.len(),
        |i: int| (pairs[i].0, value_text(pairs[i].1)),
    )
}

pub open spec fn string_pairs(v: Seq<(String, String)>) -> Seq<(Seq<char>, Seq<char>)> {
    Seq::new(v.len(), |i: int| (v[i].0@, v[i].1@))
}

/// The pairs of the record, then those of each diagnostic.
pub open spec fn record_pairs<'a>(kvs: KeyValues<'a>, diags: Seq<KeyValues<'a>>) -> Seq<
    (Seq<char>, ValueView<'a>),
> {
    crate::gcl::all_pairs(kvs, diags)
}

fn push_pairs<'a>(props: &mut Vec<(String, String)>, kvs: &KeyValues<'a>)
    ensures
        string_pairs(final(props)@) == string_pairs(old(props)@) + Seq::new(
            kvs.entries().len(),
            |i: int| (kvs.entries()[i].0, value_text(kvs.entries()[i].1)),
        ),
{
    let ghost es = kvs.entries();
    let ghost start = string_pairs(props@);
    let n = kvs.len();
    for i in 0..n
        invariant
            n == es.len(),
            es == kvs.entries(),
            string_pairs(props@) == start + Seq::new(
                i as nat,
                |j: int| (es[j].0, value_text(es[j].1)),
            ),
    {
        let (k, v) = kvs.entry(i);
        let ghost before = string_pairs(props@);
        let key_text = k.as_str().to_owned();
        let value_str = v.to_string();
        assert(key_text@ == es[i as int].0);
        assert(value_str@ == value_text(es[i as int].1));
        props.push((key_text, value_str));
        assert(string_pairs(props@) =~= before.push((es[i as int].0, value_text(es[i as int].1))));
        assert(string_pairs(props@) =~= start + Seq::new(
            (i + 1) as nat,
            |j: int| (es[j].0, value_text(es[j].1)),
        ));
    }
}

/// An appender that adds each record as an event to the current fastrace span.
#[derive(Debug, Clone, Copy, Default)]
pub struct FastraceEvent {}

impl FastraceEvent {
    /// The appender.
    pub fn new() -> (r: FastraceEvent) {
        FastraceEvent {}
    }

    /// The properties of the event of a record at the time `timestamp`.
    pub fn properties<'a>(record: &Record<'a>, timestamp: String, diags: &[KeyValues<'a>]) -> (r: Vec<
        (String, String),
    >)
        ensures
            string_pairs(r@) == event_properties(
                record.spec_level(),
                timestamp@,
                record_pairs(record.spec_kvs(), diags@),
            ),
    {
        let mut props: Vec<(String, String)> = Vec::new();
        props.push(("level".to_string(), record.level().name().to_string()));
        props.push(("timestamp".to_string(), timestamp));
        push_pairs(&mut props, record.key_values());
        let m = diags.len();
        for j in 0..m
            invariant
                m == diags@.len(),
                string_pairs(props@) == event_properties(
                    record.spec_level(),
                    timestamp@,
                    record_pairs(record.spec_kvs(), diags@.take(j as int)),
                ),
        {
            let ghost before = string_pairs(props@);
            push_pairs(&mut props, &diags[j]);
            proof {
                assert(diags@.take(j + 1).drop_last() =~= diags@.take(j as int));
                let a = record_pairs(record.spec_kvs(), diags@.take(j as int));
                let b = diags@[j as int].entries();
                assert(record_pairs(record.spec_kvs(), diags@.take(j + 1)) == a + b);
                assert(string_pairs(props@) =~= event_properties(
                    record.spec_level(),
                    timestamp@,
                    a + b,
                ));
            }
        }
        assert(diags@.take(m as int) =~= diags@);
        props
    }

    /// Adds a record as an event to the current span: named by the message, with the level, the
    /// current time and the key-values as properties. Fails, adding nothing, where the system
    /// clock lies outside the range of times that jiff holds.
    pub fn append<'a>(&self, record: &Record<'a>, diags: &[KeyValues<'a>], log: &mut SpanEventLog) -> (r: Result<(), Error>)
        ensures
            r is Ok ==> exists|t: Seq<char>|
                final(log).events() == old(log).events().push(
                    (
                        record.spec_payload().0,
                        event_properties(
                            record.spec_level(),
                            t,
                            record_pairs(record.spec_kvs(), diags@),
                        ),
                    ),
                ),
            r matches Err(e) ==> final(log).events() == old(log).events() && e.message()
                == "system time out of range"@ && e.context().len() == 0 && e.source_texts().len()
                == 0,
            final(log).flushes() == old(log).flushes(),
    {
        let message: Cow<'static, str> = match record.payload_static() {
            Some(m) => Cow::Borrowed(m),
            None => Cow::Owned(record.payload().to_owned()),
        };
        match zoned_text(system_time_now()) {
            Some(now) => {
                let props = FastraceEvent::properties(record, now, diags);
                add_local_event(log, message, props);
                Ok(())
            },
            None => Err(Error::new("system time out of range".to_string())),
        }
    }

    /// Flushes fastrace.
    pub fn flush(&self, log: &mut SpanEventLog) -> (r: Result<(), Error>)
        ensures
            r is Ok,
            final(log).events() == old(log).events(),
            final(log).flushes() == old(log).flushes() + 1,
    {
        fastrace_flush(log);
        Ok(())
    }
}

/// The value of a lower-case hexadecimal digit.
pub open spec fn hex_char_value(c: char) -> int {
    if '0' <= c && c <= '9' {
        (c as u32) as int - 48
    } else {
        (c as u32) as int - 87
    }
}

/// The value of a hexadecimal numeral, read with the most significant digit first.
pub open spec fn hex_numeral_value(s: Seq<char>) -> int
    decreases s.len(),
{
    if s.len() == 0 {
        0
    } else {
        hex_numeral_value(s.drop_last()) * 16 + hex_char_value(s.last())
    }
}

pub open spec fn pow16(k: nat) -> nat
    decreases k,
{
    if k == 0 {
        1
    } else {
        16 * pow16((k - 1) as nat)
    }
}

/// `k` hexadecimal digits of a number below `16^k` read back as that number, and each is a
/// lower-case hexadecimal digit.
pub proof fn lemma_hex_digits_read_back(n: nat, k: nat)
    requires
        n < pow16(k),
    ensures
        hex_numeral_value(hex_digits(n, k)) == n,
        forall|i: int| 0 <= i < hex_digits(n, k).len() ==> {
            let c = #[trigger] hex_digits(n, k)[i];
            ('0' <= c && c <= '9') || ('a' <= c && c <= 'f')
        },
    decreases k,
{
    assert(('0' as u32) == 48 && ('9' as u32) == 57 && ('a' as u32) == 97 && ('f' as u32) == 102);
    if k == 0 {
        assert(n == 0);
    } else {
        let p = pow16((k - 1) as nat);
        assert(n / 16 < p) by (nonlinear_arith)
            requires
                n < 16 * p,
        ;
        lemma_hex_digits_read_back(n / 16, (k - 1) as nat);
        let pre = hex_digits(n / 16, (k - 1) as nat);
        let d = hex_digit(n % 16);
        let h = hex_digits(n, k);
        assert(h == pre.push(d));
        assert(h.drop_last() =~= pre);
        assert(h.last() == d);
        assert(hex_char_value(d) == n % 16);
        assert((n / 16) * 16 + n % 16 == n);
        assert forall|i: int| 0 <= i < h.len() implies {
            let c = #[trigger] h[i];
            ('0' <= c && c <= '9') || ('a' <= c && c <= 'f')
        } by {
            if i < pre.len() {
                assert(h[i] == pre[i]);
            }
        }
    }
}

/// The rendered trace context reads back: the trace text is 32 lower-case hexadecimal digits
/// whose value is the trace ID, and the span text 16 whose value is the span ID.
pub proof fn lemma_rendered_context_reads_back(trace_id: u128, span_id: u64)
    ensures
        hex_digits(trace_id as nat, 32).len() == 32,
        hex_numeral_value(hex_digits(trace_id as nat, 32)) == trace_id,
        hex_digits(span_id as nat, 16).len() == 16,
        hex_numeral_value(hex_digits(span_id as nat, 16)) == span_id,
{
    lemma_hex_digits_len(trace_id as nat, 32);
    lemma_hex_digits_len(span_id as nat, 16);
    assert(pow16(32) == 0x1_0000_0000_0000_0000_0000_0000_0000_0000) by {
        reveal_with_fuel(pow16, 33);
    }
    assert(pow16(16) == 0x1_0000_0000_0000_0000) by {
        reveal_with_fuel(pow16, 17);
    }
    lemma_hex_digits_read_back(trace_id as nat, 32);
    lemma_hex_digits_read_back(span_id as nat, 16);
}

} // verus!
