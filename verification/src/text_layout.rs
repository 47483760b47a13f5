//! The text layout: a line like that of the plain text layout, with a formatted timestamp and an
//! optionally colored level. The colors and the timestamp are rendered by the caller.
use vstd::prelude::*;

use crate::kv::{pairs_text, KeyValues};
use crate::layout::{diags_text, line_or_zero, padded_name};
use crate::level::Level;
use crate::record::Record;
use crate::text::{decimal, push_char, push_decimal, push_str};

use vstd::string::StrSliceExecFns;

verus! {

/// The six groups of levels that have a color each.
#[derive(Clone, Copy, Debug, PartialEq, Eq, Structural)]
pub enum LevelGroup {
    Fatal,
    Error,
    Warn,
    Info,
    Debug,
    Trace,
}

/// The group of a level: the levels of one name and their numbered variants.
pub open spec fn spec_level_group(level: Level) -> LevelGroup {
    match level {
        Level::Fatal | Level::Fatal2 | Level::Fatal3 | Level::Fatal4 => LevelGroup::Fatal,
        Level::Error | Level::Error2 | Level::Error3 | Level::Error4 => LevelGroup::Error,
        Level::Warn | Level::Warn2 | Level::Warn3 | Level::Warn4 => LevelGroup::Warn,
        Level::Info | Level::Info2 | Level::Info3 | Level::Info4 => LevelGroup::Info,
        Level::Debug | Level::Debug2 | Level::Debug3 | Level::Debug4 => LevelGroup::Debug,
        Level::Trace | Level::Trace2 | Level::Trace3 | Level::Trace4 => LevelGroup::Trace,
    }
}

/// The group of a level.
pub fn level_group(level: Level) -> (r: LevelGroup)
    ensures
        r == spec_level_group(level),
{
    match level {
        Level::Fatal | Level::Fatal2 | Level::Fatal3 | Level::Fatal4 => LevelGroup::Fatal,
        Level::Error | Level::Error2 | Level::Error3 | Level::Error4 => LevelGroup::Error,
        Level::Warn | Level::Warn2 | Level::Warn3 | Level::Warn4 => LevelGroup::Warn,
        Level::Info | Level::Info2 | Level::Info3 | Level::Info4 => LevelGroup::Info,
        Level::Debug | Level::Debug2 | Level::Debug3 | Level::Debug4 => LevelGroup::Debug,
        Level::Trace | Level::Trace2 | Level::Trace3 | Level::Trace4 => LevelGroup::Trace,
    }
}

/// Colors for the groups of levels.
pub struct LevelColor<C> {
    pub fatal: C,
    pub error: C,
    pub warn: C,
    pub info: C,
    pub debug: C,
    pub trace: C,
}

impl<C: Copy> LevelColor<C> {
    pub open spec fn spec_color_for(&self, level: Level) -> C {
        match spec_level_group(level) {
            LevelGroup::Fatal => self.fatal,
            LevelGroup::Error => self.error,
            LevelGroup::Warn => self.warn,
            LevelGroup::Info => self.info,
            LevelGroup::Debug => self.debug,
            LevelGroup::Trace => self.trace,
        }
    }

    /// The color of a level: that of its group.
    pub fn color_for(&self, level: Level) -> (r: C)
        ensures
            r == self.spec_color_for(level),
    {
        match level_group(level) {
            LevelGroup::Fatal => self.fatal,
            LevelGroup::Error => self.error,
            LevelGroup::Warn => self.warn,
            LevelGroup::Info => self.info,
            LevelGroup::Debug => self.debug,
            LevelGroup::Trace => self.trace,
        }
    }

    /// The color to paint the level field of a record with: none where colors are turned off,
    /// and otherwise the color of the level's group.
    pub fn paint_for(&self, no_color: bool, level: Level) -> (r: Option<C>)
        ensures
            r == (if no_color {
                None
            } else {
                Some(self.spec_color_for(level))
            }),
    {
        if no_color {
            None
        } else {
            Some(self.color_for(level))
        }
    }
}

/// A color of the `colored` crate.
#[verifier::external_type_specification]
#[verifier::external_body]
pub struct ExColor(colored::Color);

/// Paints a text in a color with `colored::Colorize::color`, as its `Display` renders it.
/// Whether escape codes are written depends on the environment and the terminal, as `colored`
/// decides, so nothing is stated of the text.
#[verifier::external_body]
fn paint(text: &str, color: colored::Color) -> String {
    colored::Colorize::color(text, color).to_string()
}

/// The level field of a line of the text layout: the level name right-aligned in five columns,
/// painted in the color of the level's group unless colors are turned off.
pub fn level_field(colors: &LevelColor<colored::Color>, no_color: bool, level: Level) -> (r: String)
    ensures
        no_color ==> r@ == padded_name(level.spec_name()),
{
    let padded = padded_level_name(level);
    match colors.paint_for(no_color, level) {
        None => padded,
        Some(color) => paint(padded.as_str(), color),
    }
}

/// The level name right-aligned in five columns, as the level field of the line shows it before
/// it is colored.
pub fn padded_level_name(level: Level) -> (r: String)
    ensures
        r@ == padded_name(level.spec_name()),
{
    let name = level.name();
    let n = name.unicode_len();
    let mut text = String::new();
    let mut k: usize = n;
    while k < 5
        invariant
            n <= k <= 5 || (n > 5 && k == n),
            text@ == Seq::new((k - n) as nat, |i: int| ' '),
        decreases 5 - k,
    {
        push_char(&mut text, ' ');
        k = k + 1;
        assert(text@ =~= Seq::new((k - n) as nat, |i: int| ' '));
    }
    if n >= 5 {
        assert(text@ =~= Seq::<char>::empty());
    }
    push_str(&mut text, name);
    assert(text@ =~= padded_name(level.spec_name()));
    text
}

/// A line of the text layout: `TIME LEVEL TARGET: FILE:LINE MESSAGE` and ` key=value` for each
/// key-value of the record and then of each diagnostic.
pub open spec fn text_line<'a>(
    time: Seq<char>,
    level_field: Seq<char>,
    target: Seq<char>,
    file: Seq<char>,
    line: nat,
    message: Seq<char>,
    kvs: KeyValues<'a>,
    diags: Seq<KeyValues<'a>>,
) -> Seq<char> {
    time + seq![' '] + level_field + seq![' '] + target + seq![':', ' '] + file + seq![':']
        + decimal(line) + seq![' '] + message + pairs_text(kvs.entries()) + diags_text(diags)
}

/// The line of a record, with the rendered timestamp `time`, the rendered level field and the
/// source file `filename` as the line shows it.
pub fn format_text<'a>(
    time: &str,
    level_field: &str,
    record: &Record<'a>,
    filename: &str,
    diags: &[KeyValues<'a>],
) -> (r: String)
    ensures
        r@ == text_line(
            time@,
            level_field@,
            record.spec_target().text(),
            filename@,
            line_or_zero(record.spec_line()),
            record.spec_payload().0,
            record.spec_kvs(),
            diags@,
        ),
{
    let mut text = String::new();
    push_str(&mut text, time);
    push_char(&mut text, ' ');
    push_str(&mut text, level_field);
    push_char(&mut text, ' ');
    push_str(&mut text, record.target());
    push_char(&mut text, ':');
    push_char(&mut text, ' ');
    push_str(&mut text, filename);
    push_char(&mut text, ':');
    let line: u32 = match record.line() {
        Some(l) => l,
        None => 0,
    };
    push_decimal(&mut text, line as u128);
    push_char(&mut text, ' ');
    push_str(&mut text, record.payload());
    record.key_values().write_pairs(&mut text);
    let ghost before_diags = text@;
    let m = diags.len();
    for j in 0..m
        invariant
            m == diags@.len(),
            text@ == before_diags + diags_text(diags@.take(j as int)),
    {
        diags[j].write_pairs(&mut text);
        assert(diags@.take(j + 1).drop_last() =~= diags@.take(j as int));
        assert(text@ =~= before_diags + diags_text(diags@.take(j + 1)));
    }
    assert(diags@.take(m as int) =~= diags@);
    assert(text@ =~= text_line(
        time@,
        level_field@,
        record.spec_target().text(),
        filename@,
        line_or_zero(record.spec_line()),
        record.spec_payload().0,
        record.spec_kvs(),
        diags@,
    ));
    text
}

} // verus!
