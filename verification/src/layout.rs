//! Layouts that format log records.
use vstd::prelude::*;

use vstd::string::StrSliceExecFns;
use vstd::utf8::encode_utf8;

use crate::error::Error;
use crate::kv::{pairs_text, KeyValues};
use crate::level::Level;
use crate::record::Record;
use crate::text::{decimal, push_char, push_decimal, push_str};

use std::time::SystemTime;

verus! {

/// How a point in time lies from the Unix epoch, as `SystemTime::duration_since` measures it:
/// whether it lies before the epoch, and how many nanoseconds away. It depends on the time alone.
pub uninterp spec fn epoch_offset(t: SystemTime) -> (bool, nat);

/// The time of a record as the signed nanoseconds since the Unix epoch, with
/// `SystemTime::duration_since(UNIX_EPOCH)`: `Ok` of the distance for a time at or after the
/// epoch, and an error holding the distance for one before it. The result is named by
/// `epoch_offset`.
#[verifier::external_body]
fn epoch_nanos(t: SystemTime) -> (r: (bool, u128))
    ensures
        (r.0, r.1 as nat) == epoch_offset(t),
{
    match t.duration_since(SystemTime::UNIX_EPOCH) {
        Ok(d) => (false, d.as_nanos()),
        Err(e) => (true, e.duration().as_nanos()),
    }
}

/// The time as the plain text layout writes it: the nanoseconds since the epoch, negative
/// before it.
pub open spec fn time_text(before_epoch: bool, nanos: nat) -> Seq<char> {
    if before_epoch {
        seq!['-'] + decimal(nanos)
    } else {
        decimal(nanos)
    }
}

/// The level name right-aligned in five columns.
pub open spec fn padded_name(name: Seq<char>) -> Seq<char> {
    if name.len() < 5 {
        Seq::new((5 - name.len()) as nat, |i: int| ' ') + name
    } else {
        name
    }
}

/// The pairs of each diagnostic, one diagnostic after another.
pub open spec fn diags_text<'a>(diags: Seq<KeyValues<'a>>) -> Seq<char>
    decreases diags.len(),
{
    if diags.len() == 0 {
        seq![]
    } else {
        diags_text(diags.drop_last()) + pairs_text(diags.last().entries())
    }
}

/// A line of the plain text layout:
/// `TIME LEVEL TARGET: FILE:LINE MESSAGE` and ` key=value` for each key-value of the record and
/// then of each diagnostic, the level right-aligned in five columns.
pub open spec fn plain_text<'a>(
    time: Seq<char>,
    level: Level,
    target: Seq<char>,
    file: Seq<char>,
    line: nat,
    message: Seq<char>,
    kvs: KeyValues<'a>,
    diags: Seq<KeyValues<'a>>,
) -> Seq<char> {
    time + seq![' '] + padded_name(level.spec_name()) + seq![' '] + target + seq![':', ' '] + file
        + seq![':'] + decimal(line) + seq![' '] + message + pairs_text(kvs.entries()) + diags_text(
        diags,
    )
}

/// The line number that the layout writes: that of the record, or 0.
pub open spec fn line_or_zero(line: Option<u32>) -> nat {
    match line {
        Some(l) => l as nat,
        None => 0,
    }
}

/// A layout that formats a log record as a line of plain text.
#[derive(Debug, Clone, Copy, Default)]
pub struct PlainTextLayout {}

impl PlainTextLayout {
    /// The plain text layout.
    pub fn new() -> (r: PlainTextLayout) {
        PlainTextLayout {}
    }

    /// The text of a record whose time is `time` from the epoch (before it where `time.0`) and
    /// whose source file name is `filename`.
    #[verifier::rlimit(40)]
    pub fn format_text<'a>(
        &self,
        time: (bool, u128),
        record: &Record<'a>,
        filename: &str,
        diags: &[KeyValues<'a>],
    ) -> (r: String)
        ensures
            r@ == plain_text(
                time_text(time.0, time.1 as nat),
                record.spec_level(),
                record.spec_target().text(),
                filename@,
                line_or_zero(record.spec_line()),
                record.spec_payload().0,
                record.spec_kvs(),
                diags@,
            ),
    {
        let mut text = String::new();
        if time.0 {
            push_char(&mut text, '-');
        }
        push_decimal(&mut text, time.1);
        push_char(&mut text, ' ');
        let name = record.level().name();
        let n = name.unicode_len();
        let ghost before_pad = text@;
        let mut k: usize = n;
        while k < 5
            invariant
                n <= k <= 5 || (n > 5 && k == n),
                text@ == before_pad + Seq::new((k - n) as nat, |i: int| ' '),
            decreases 5 - k,
        {
            push_char(&mut text, ' ');
            k = k + 1;
            assert(text@ =~= before_pad + Seq::new((k - n) as nat, |i: int| ' '));
        }
        if n >= 5 {
            assert(Seq::new(0nat, |i: int| ' ') =~= Seq::<char>::empty());
            assert(text@ =~= before_pad);
        }
        push_str(&mut text, name);
        push_char(&mut text, ' ');
        push_str(&mut text, record.target());
        push_char(&mut text, ':');
        push_char(&mut text, ' ');
        push_str(&mut text, filename);
        push_char(&mut text, ':');
        let line: u32 = match record.line() {
            Some(l) => l,
            None => 0,
        };
        push_decimal(&mut text, line as u128);
        push_char(&mut text, ' ');
        push_str(&mut text, record.payload());
        record.key_values().write_pairs(&mut text);
        let ghost before_diags = text@;
        let m = diags.len();
        for j in 0..m
            invariant
                m == diags@.len(),
                text@ == before_diags + diags_text(diags@.take(j as int)),
        {
            diags[j].write_pairs(&mut text);
            assert(diags@.take(j + 1).drop_last() =~= diags@.take(j as int));
            assert(text@ =~= before_diags + diags_text(diags@.take(j + 1)));
        }
        assert(diags@.take(m as int) =~= diags@);
        proof {
            let t = if time.0 { seq!['-'] + decimal(time.1 as nat) } else { decimal(time.1 as nat) };
            assert(t == time_text(time.0, time.1 as nat));
        }
        assert(text@ =~= plain_text(
            time_text(time.0, time.1 as nat),
            record.spec_level(),
            record.spec_target().text(),
            filename@,
            line_or_zero(record.spec_line()),
            record.spec_payload().0,
            record.spec_kvs(),
            diags@,
        ));
        text
    }

    /// Formats a record with the key-values of its diagnostics, as UTF-8 bytes: the record's
    /// time as its signed nanoseconds from the Unix epoch, and the name of its source file as the
    /// platform's path syntax gives it.
    pub fn format<'a>(&self, record: &Record<'a>, diags: &[KeyValues<'a>]) -> (r: Result<
        Vec<u8>,
        Error,
    >)
        ensures
            r matches Ok(bytes) && exists|file: Seq<char>|
                bytes@ == encode_utf8(
                    plain_text(
                        time_text(
                            epoch_offset(record.spec_time()).0,
                            epoch_offset(record.spec_time()).1,
                        ),
                        record.spec_level(),
                        record.spec_target().text(),
                        file,
                        line_or_zero(record.spec_line()),
                        record.spec_payload().0,
                        record.spec_kvs(),
                        diags@,
                    ),
                ),
    {
        let time = epoch_nanos(record.time());
        let file = record.filename();
        let fname: &str = match &file {
            std::borrow::Cow::Borrowed(s) => s,
            std::borrow::Cow::Owned(s) => s.as_str(),
        };
        let text = self.format_text(time, record, fname, diags);
        let bytes = text.as_str().as_bytes_vec();
        Ok(bytes)
    }
}

/// A padded level name is the name right-aligned in at least five columns: it ends with the
/// name, what comes before is spaces, and it is five characters long unless the name is longer.
pub proof fn lemma_padded_name_aligns(name: Seq<char>)
    ensures
        padded_name(name).len() == (if name.len() < 5 {
            5
        } else {
            name.len()
        }),
        padded_name(name).skip(padded_name(name).len() - name.len()) == name,
        forall|i: int| 0 <= i < padded_name(name).len() - name.len() ==> #[trigger] padded_name(name)[i]
            == ' ',
{
    let p = padded_name(name);
    assert(p.skip(p.len() - name.len()) =~= name);
}

} // verus!
