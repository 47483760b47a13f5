//! Key-value pairs in a log record or a diagnostic context.
//!
//! A value captured through its `Debug` or `Display` representation is held here as the text
//! that the representation renders.
use vstd::prelude::*;

use std::borrow::Cow;

use crate::str::RefStr;
use crate::text::{decimal, is_canonical_numeral, lemma_decimal_reads_back, lemma_signed_decimal_reads_back, numeral_value, signed_numeral_value, push_char, push_decimal, push_signed_decimal, push_str, signed_decimal, str_eq};

verus! {

/// A key in a key-value pair.
#[derive(Clone, Copy, Debug)]
pub struct Key<'a>(RefStr<'a>);

impl<'a> Key<'a> {
    /// The characters of the key.
    pub closed spec fn text(&self) -> Seq<char> {
        self.0.text()
    }

    /// Whether the key is `'static`.
    pub closed spec fn is_static(&self) -> bool {
        self.0.is_static()
    }

    /// Create a new key from a `&str`. [`Key::new`] should be preferred where possible.
    pub fn borrowed(k: &'a str) -> (r: Key<'a>)
        ensures
            r.text() == k@,
            !r.is_static(),
    {
        Key(RefStr::Borrowed(k))
    }

    /// Create a borrowed view of this key.
    pub fn view(&self) -> (r: KeyView<'_>)
        ensures
            r.text() == self.text(),
            r.is_static() == self.is_static(),
    {
        KeyView(self.0)
    }

    /// The key string.
    pub fn as_str(&self) -> (r: &'a str)
        ensures
            r@ == self.text(),
    {
        self.0.get()
    }
}

impl Key<'static> {
    /// Create a new key from a static `&str`.
    pub fn new(k: &'static str) -> (r: Key<'static>)
        ensures
            r.text() == k@,
            r.is_static(),
    {
        Key(RefStr::Static(k))
    }
}

/// An owned key in a key-value pair.
#[derive(Debug)]
pub struct KeyOwned(Cow<'static, str>);

impl KeyOwned {
    /// The characters of the key.
    pub closed spec fn text(&self) -> Seq<char> {
        self.0@
    }

    /// Whether the key borrows a `'static` string.
    pub closed spec fn is_static(&self) -> bool {
        self.0 is Borrowed
    }

    /// Create an owned key.
    pub fn new(k: Cow<'static, str>) -> (r: KeyOwned)
        ensures
            r.text() == k@,
            r.is_static() == (k is Borrowed),
    {
        KeyOwned(k)
    }

    /// Create a borrowed view of this owned key; a `'static` key stays `'static`.
    pub fn view(&self) -> (r: KeyView<'_>)
        ensures
            r.text() == self.text(),
            r.is_static() == self.is_static(),
    {
        KeyView(
            match &self.0 {
                Cow::Borrowed(s) => RefStr::Static(s),
                Cow::Owned(s) => RefStr::Borrowed(s.as_str()),
            },
        )
    }
}

/// A borrowed view of a key in a key-value pair.
#[derive(Clone, Copy, Debug)]
pub struct KeyView<'a>(RefStr<'a>);

impl<'a> KeyView<'a> {
    /// The characters of the key.
    pub closed spec fn text(&self) -> Seq<char> {
        self.0.text()
    }

    /// Whether the key is `'static`.
    pub closed spec fn is_static(&self) -> bool {
        self.0.is_static()
    }

    /// Convert to an owned key; a `'static` key is borrowed, any other is copied.
    pub fn to_owned(&self) -> (r: KeyOwned)
        ensures
            r.text() == self.text(),
            r.is_static() == self.is_static(),
    {
        KeyOwned(self.0.into_cow_static())
    }

    /// Convert to a `Cow` str; a `'static` key is borrowed, any other is copied.
    pub fn to_cow(&self) -> (r: Cow<'static, str>)
        ensures
            r@ == self.text(),
            r is Borrowed <==> self.is_static(),
    {
        self.0.into_cow_static()
    }

    /// Get the key string.
    pub fn as_str(&self) -> (r: &'a str)
        ensures
            r@ == self.text(),
    {
        self.0.get()
    }
}

/// A value captured through its `Debug` representation: the text that it renders.
#[derive(Clone, Copy, Debug)]
pub struct DebugValue<'a>(&'a str);

impl<'a> DebugValue<'a> {
    pub closed spec fn text(&self) -> Seq<char> {
        self.0@
    }

    /// A value whose `Debug` representation renders `rendered`.
    pub fn new(rendered: &'a str) -> (r: DebugValue<'a>)
        ensures
            r.text() == rendered@,
    {
        DebugValue(rendered)
    }

    /// The rendered text.
    pub fn as_str(&self) -> (r: &'a str)
        ensures
            r@ == self.text(),
    {
        self.0
    }
}

/// A value captured through its `Display` representation: the text that it renders.
#[derive(Clone, Copy, Debug)]
pub struct DisplayValue<'a>(&'a str);

impl<'a> DisplayValue<'a> {
    pub closed spec fn text(&self) -> Seq<char> {
        self.0@
    }

    /// A value whose `Display` representation renders `rendered`.
    pub fn new(rendered: &'a str) -> (r: DisplayValue<'a>)
        ensures
            r.text() == rendered@,
    {
        DisplayValue(rendered)
    }

    /// The rendered text.
    pub fn as_str(&self) -> (r: &'a str)
        ensures
            r@ == self.text(),
    {
        self.0
    }
}

/// A borrowed view of a value.
#[derive(Clone, Copy, Debug)]
pub enum ValueView<'a> {
    /// The absence of a value.
    NoValue,
    /// A borrowed string value.
    BorrowedStr(&'a str),
    /// A static string value.
    StaticStr(&'static str),
    /// A byte array value.
    Bytes(&'a [u8]),
    /// A boolean value.
    Bool(bool),
    /// A signed 64-bit integer value.
    I64(i64),
    /// An unsigned 64-bit integer value.
    U64(u64),
    /// A signed 128-bit integer value.
    I128(i128),
    /// An unsigned 128-bit integer value.
    U128(u128),
    /// A Unicode scalar value.
    Char(char),
    /// A debug-formatted value.
    Debug(DebugValue<'a>),
    /// A display-formatted value.
    Display(DisplayValue<'a>),
}

/// The lower-case hexadecimal digit of a value below sixteen.
pub open spec fn hex_digit(d: nat) -> char {
    if d < 10 {
        ((d + 48) as u32) as char
    } else {
        ((d + 87) as u32) as char
    }
}

/// How one byte of a byte array is written: the escapes of Rust's byte literals for newline,
/// carriage return, tab, backslash, double quote and zero, the byte itself for the other
/// printable ASCII bytes, and `\x` with two lower-case hexadecimal digits for the rest.
pub open spec fn escape_byte(b: u8) -> Seq<char> {
    if b == 10 {
        seq!['\\', 'n']
    } else if b == 13 {
        seq!['\\', 'r']
    } else if b == 9 {
        seq!['\\', 't']
    } else if b == 92 || b == 34 {
        seq!['\\', (b as u32) as char]
    } else if b == 0 {
        seq!['\\', '0']
    } else if 0x20 <= b < 0x7f {
        seq![(b as u32) as char]
    } else {
        seq!['\\', 'x', hex_digit((b / 16) as nat), hex_digit((b % 16) as nat)]
    }
}

/// The escaped bytes, one after another.
pub open spec fn escape_bytes(bs: Seq<u8>) -> Seq<char>
    decreases bs.len(),
{
    if bs.len() == 0 {
        seq![]
    } else {
        escape_bytes(bs.drop_last()) + escape_byte(bs.last())
    }
}

/// How a byte array is written: as a Rust byte string literal.
pub open spec fn bytes_text(bs: Seq<u8>) -> Seq<char> {
    seq!['b', '"'] + escape_bytes(bs) + seq!['"']
}

/// The text that a value's `Display` implementation renders.
pub open spec fn value_text(v: ValueView) -> Seq<char> {
    match v {
        ValueView::NoValue => "<none>"@,
        ValueView::BorrowedStr(s) => s@,
        ValueView::StaticStr(s) => s@,
        ValueView::Bytes(b) => bytes_text(b@),
        ValueView::Bool(b) => if b { "true"@ } else { "false"@ },
        ValueView::I64(i) => signed_decimal(i as int),
        ValueView::U64(u) => decimal(u as nat),
        ValueView::I128(i) => signed_decimal(i as int),
        ValueView::U128(u) => decimal(u as nat),
        ValueView::Char(c) => seq![c],
        ValueView::Debug(d) => d.text(),
        ValueView::Display(d) => d.text(),
    }
}

fn hex_char(d: u8) -> (r: char)
    requires
        d < 16,
    ensures
        r == hex_digit(d as nat),
{
    if d < 10 {
        (d + 48) as char
    } else {
        (d + 87) as char
    }
}

/// Appends the escaped form of one byte.
fn push_escaped_byte(s: &mut String, b: u8)
    ensures
        final(s)@ == old(s)@ + escape_byte(b),
{
    let ghost start = s@;
    if b == 10 {
        push_char(s, '\\');
        push_char(s, 'n');
    } else if b == 13 {
        push_char(s, '\\');
        push_char(s, 'r');
    } else if b == 9 {
        push_char(s, '\\');
        push_char(s, 't');
    } else if b == 92 || b == 34 {
        push_char(s, '\\');
        push_char(s, b as char);
    } else if b == 0 {
        push_char(s, '\\');
        push_char(s, '0');
    } else if 0x20 <= b && b < 0x7f {
        push_char(s, b as char);
    } else {
        push_char(s, '\\');
        push_char(s, 'x');
        push_char(s, hex_char(b / 16));
        push_char(s, hex_char(b % 16));
    }
    assert(s@ =~= start + escape_byte(b));
}

/// Appends the text of a byte array.
pub fn push_bytes_text(s: &mut String, bs: &[u8])
    ensures
        final(s)@ == old(s)@ + bytes_text(bs@),
{
    let ghost start = s@;
    push_char(s, 'b');
    push_char(s, '"');
    let n = bs.len();
    for i in 0..n
        invariant
            n == bs@.len(),
            s@ == start + seq!['b', '"'] + escape_bytes(bs@.take(i as int)),
    {
        let ghost before = s@;
        push_escaped_byte(s, bs[i]);
        assert(bs@.take(i + 1).drop_last() =~= bs@.take(i as int));
        assert(s@ =~= start + seq!['b', '"'] + escape_bytes(bs@.take(i + 1)));
    }
    assert(bs@.take(n as int) =~= bs@);
    push_char(s, '"');
    assert(s@ =~= start + bytes_text(bs@));
}

impl<'a> ValueView<'a> {
    /// Appends the text that the value's `Display` implementation renders.
    pub fn write_text(&self, s: &mut String)
        ensures
            final(s)@ == old(s)@ + value_text(*self),
    {
        match self {
            ValueView::NoValue => {
                let ghost start = s@;
                push_str(s, "<none>");
            },
            ValueView::BorrowedStr(v) => push_str(s, v),
            ValueView::StaticStr(v) => push_str(s, v),
            ValueView::Bytes(v) => push_bytes_text(s, v),
            ValueView::Bool(b) => {
                if *b {
                    push_str(s, "true");
                } else {
                    push_str(s, "false");
                }
            },
            ValueView::I64(i) => push_signed_decimal(s, *i as i128),
            ValueView::U64(u) => push_decimal(s, *u as u128),
            ValueView::I128(i) => push_signed_decimal(s, *i),
            ValueView::U128(u) => push_decimal(s, *u),
            ValueView::Char(c) => push_char(s, *c),
            ValueView::Debug(d) => push_str(s, d.as_str()),
            ValueView::Display(d) => push_str(s, d.as_str()),
        }
    }

    /// The text that the value's `Display` implementation renders.
    pub fn to_string(&self) -> (r: String)
        ensures
            r@ == value_text(*self),
    {
        let mut s = String::new();
        self.write_text(&mut s);
        s
    }

    /// Try to convert this view into a boolean.
    pub fn to_bool(&self) -> (r: Option<bool>)
        ensures
            r == (match *self {
                ValueView::Bool(b) => Some(b),
                _ => None::<bool>,
            }),
    {
        match self {
            ValueView::Bool(b) => Some(*b),
            _ => None,
        }
    }

    /// Try to convert this view into a signed 64-bit integer.
    pub fn to_i64(&self) -> (r: Option<i64>)
        ensures
            r == (match *self {
                ValueView::I64(i) => Some(i),
                _ => None::<i64>,
            }),
    {
        match self {
            ValueView::I64(i) => Some(*i),
            _ => None,
        }
    }

    /// Try to convert this view into an unsigned 64-bit integer.
    pub fn to_u64(&self) -> (r: Option<u64>)
        ensures
            r == (match *self {
                ValueView::U64(u) => Some(u),
                _ => None::<u64>,
            }),
    {
        match self {
            ValueView::U64(u) => Some(*u),
            _ => None,
        }
    }

    /// Try to convert this view into a signed 128-bit integer.
    pub fn to_i128(&self) -> (r: Option<i128>)
        ensures
            r == (match *self {
                ValueView::I128(i) => Some(i),
                _ => None::<i128>,
            }),
    {
        match self {
            ValueView::I128(i) => Some(*i),
            _ => None,
        }
    }

    /// Try to convert this view into an unsigned 128-bit integer.
    pub fn to_u128(&self) -> (r: Option<u128>)
        ensures
            r == (match *self {
                ValueView::U128(u) => Some(u),
                _ => None::<u128>,
            }),
    {
        match self {
            ValueView::U128(u) => Some(*u),
            _ => None,
        }
    }

    /// Try to convert this view into a Unicode scalar value.
    pub fn to_char(&self) -> (r: Option<char>)
        ensures
            r == (match *self {
                ValueView::Char(c) => Some(c),
                _ => None::<char>,
            }),
    {
        match self {
            ValueView::Char(c) => Some(*c),
            _ => None,
        }
    }

    /// Try to convert this view into a string slice: a borrowed or a static string.
    pub fn to_str(&self) -> (r: Option<&'a str>)
        ensures
            match *self {
                ValueView::BorrowedStr(s) => r == Some(s),
                ValueView::StaticStr(s) => r matches Some(t) && t@ == s@,
                _ => r is None,
            },
    {
        match self {
            ValueView::BorrowedStr(s) => Some(*s),
            ValueView::StaticStr(s) => Some(*s),
            _ => None,
        }
    }

    /// Try to convert this view into a static string slice.
    pub fn to_static_str(&self) -> (r: Option<&'static str>)
        ensures
            r == (match *self {
                ValueView::StaticStr(s) => Some(s),
                _ => None::<&'static str>,
            }),
    {
        match self {
            ValueView::StaticStr(s) => Some(*s),
            _ => None,
        }
    }

    /// Try to convert this view into a display-formatted value.
    pub fn to_display(&self) -> (r: Option<DisplayValue<'a>>)
        ensures
            r == (match *self {
                ValueView::Display(d) => Some(d),
                _ => None::<DisplayValue<'a>>,
            }),
    {
        match self {
            ValueView::Display(d) => Some(*d),
            _ => None,
        }
    }

    /// Try to convert this view into a debug-formatted value.
    pub fn to_debug(&self) -> (r: Option<DebugValue<'a>>)
        ensures
            r == (match *self {
                ValueView::Debug(d) => Some(d),
                _ => None::<DebugValue<'a>>,
            }),
    {
        match self {
            ValueView::Debug(d) => Some(*d),
            _ => None,
        }
    }
}

/// A borrowed value in a key-value pair.
#[derive(Clone, Copy, Debug)]
pub struct Value<'a>(ValueView<'a>);

impl<'a> Value<'a> {
    /// The view that the value gives.
    pub closed spec fn spec_view(&self) -> ValueView<'a> {
        self.0
    }

    /// Create a borrowed view of this value.
    pub fn view(&self) -> (r: ValueView<'a>)
        ensures
            r == self.spec_view(),
    {
        self.0
    }

    /// Create a value representing the absence of data.
    pub fn none() -> (r: Value<'a>)
        ensures
            r.spec_view() == ValueView::<'a>::NoValue,
    {
        Value(ValueView::NoValue)
    }

    /// Create a value from a borrowed string.
    pub fn str(s: &'a str) -> (r: Value<'a>)
        ensures
            r.spec_view() == ValueView::BorrowedStr(s),
    {
        Value(ValueView::BorrowedStr(s))
    }

    /// Create a value from a static string.
    pub fn static_str(s: &'static str) -> (r: Value<'a>)
        ensures
            r.spec_view() == ValueView::<'a>::StaticStr(s),
    {
        Value(ValueView::StaticStr(s))
    }

    /// Create a value from a byte array.
    pub fn bytes(b: &'a [u8]) -> (r: Value<'a>)
        ensures
            r.spec_view() == ValueView::Bytes(b),
    {
        Value(ValueView::Bytes(b))
    }

    /// Create a value from a boolean.
    pub fn bool(b: bool) -> (r: Value<'a>)
        ensures
            r.spec_view() == ValueView::<'a>::Bool(b),
    {
        Value(ValueView::Bool(b))
    }

    /// Create a value from a signed 64-bit integer.
    pub fn i64(i: i64) -> (r: Value<'a>)
        ensures
            r.spec_view() == ValueView::<'a>::I64(i),
    {
        Value(ValueView::I64(i))
    }

    /// Create a value from an unsigned 64-bit integer.
    pub fn u64(u: u64) -> (r: Value<'a>)
        ensures
            r.spec_view() == ValueView::<'a>::U64(u),
    {
        Value(ValueView::U64(u))
    }

    /// Create a value from a signed 128-bit integer.
    pub fn i128(i: i128) -> (r: Value<'a>)
        ensures
            r.spec_view() == ValueView::<'a>::I128(i),
    {
        Value(ValueView::I128(i))
    }

    /// Create a value from an unsigned 128-bit integer.
    pub fn u128(u: u128) -> (r: Value<'a>)
        ensures
            r.spec_view() == ValueView::<'a>::U128(u),
    {
        Value(ValueView::U128(u))
    }

    /// Create a value from a Unicode scalar value.
    pub fn char(c: char) -> (r: Value<'a>)
        ensures
            r.spec_view() == ValueView::<'a>::Char(c),
    {
        Value(ValueView::Char(c))
    }

    /// Create a value from the text that a `Debug` implementation renders.
    pub fn debug(rendered: &'a str) -> (r: Value<'a>)
        ensures
            r.spec_view() matches ValueView::Debug(d) && d.text() == rendered@,
    {
        Value(ValueView::Debug(DebugValue::new(rendered)))
    }

    /// Create a value from the text that a `Display` implementation renders.
    pub fn display(rendered: &'a str) -> (r: Value<'a>)
        ensures
            r.spec_view() matches ValueView::Display(d) && d.text() == rendered@,
    {
        Value(ValueView::Display(DisplayValue::new(rendered)))
    }
}

/// The key-value pairs as the characters of each key and the view of each value.
pub open spec fn entries_of<'a>(kvs: Seq<(Key<'a>, Value<'a>)>) -> Seq<(Seq<char>, ValueView<'a>)> {
    Seq::new(kvs.len(), |i: int| (kvs[i].0.text(), kvs[i].1.spec_view()))
}

/// The value of the first pair whose key is `key`.
pub open spec fn lookup<'a>(es: Seq<(Seq<char>, ValueView<'a>)>, key: Seq<char>) -> Option<ValueView<'a>>
    decreases es.len(),
{
    if es.len() == 0 {
        None
    } else if es[0].0 == key {
        Some(es[0].1)
    } else {
        lookup(es.drop_first(), key)
    }
}

/// The pairs written as ` key=value`, one after another.
pub open spec fn pairs_text<'a>(es: Seq<(Seq<char>, ValueView<'a>)>) -> Seq<char>
    decreases es.len(),
{
    if es.len() == 0 {
        seq![]
    } else {
        pairs_text(es.drop_last()) + seq![' '] + es.last().0 + seq!['='] + value_text(es.last().1)
    }
}

/// A collection of key-value pairs.
#[derive(Clone, Copy, Debug)]
pub struct KeyValues<'a>(&'a [(Key<'a>, Value<'a>)]);

impl<'a> KeyValues<'a> {
    /// The pairs, in their order.
    pub closed spec fn entries(&self) -> Seq<(Seq<char>, ValueView<'a>)> {
        entries_of(self.0@)
    }

    /// Whether the key of each pair is `'static`, in the order of the pairs.
    pub closed spec fn key_statics(&self) -> Seq<bool> {
        Seq::new(self.0@.len(), |i: int| self.0@[i].0.is_static())
    }

    /// Create an empty key-value collection.
    pub fn empty() -> (r: KeyValues<'a>)
        ensures
            r.entries().len() == 0,
            r.key_statics().len() == 0,
    {
        KeyValues(&[])
    }

    /// The pairs of a slice.
    pub fn from_slice(kvs: &'a [(Key<'a>, Value<'a>)]) -> (r: KeyValues<'a>)
        ensures
            r.entries() == entries_of(kvs@),
            r.key_statics() == Seq::new(kvs@.len(), |i: int| kvs@[i].0.is_static()),
    {
        KeyValues(kvs)
    }

    /// Get the number of key-value pairs.
    pub fn len(&self) -> (r: usize)
        ensures
            r == self.entries().len(),
    {
        self.0.len()
    }

    /// Check if there are no key-value pairs.
    pub fn is_empty(&self) -> (r: bool)
        ensures
            r == (self.entries().len() == 0),
    {
        self.0.len() == 0
    }

    /// The pair at position `i`.
    pub fn entry(&self, i: usize) -> (r: (KeyView<'a>, ValueView<'a>))
        requires
            i < self.entries().len(),
        ensures
            r.0.text() == self.entries()[i as int].0,
            r.0.is_static() == self.key_statics()[i as int],
            r.1 == self.entries()[i as int].1,
    {
        let (k, v) = &self.0[i];
        (KeyView(k.0), v.view())
    }

    /// Get the value for a given key: that of the first pair with this key.
    pub fn get(&self, key: &str) -> (r: Option<ValueView<'a>>)
        ensures
            r == lookup(self.entries(), key@),
    {
        let ghost es = self.entries();
        let n = self.0.len();
        let mut i: usize = 0;
        assert(es.skip(0) =~= es);
        while i < n
            invariant
                n == es.len(),
                es == self.entries(),
                i <= n,
                lookup(es, key@) == lookup(es.skip(i as int), key@),
            decreases n - i,
        {
            let (k, v) = &self.0[i];
            assert(es.skip(i as int)[0] == es[i as int]);
            if str_eq(k.as_str(), key) {
                return Some(v.view());
            }
            assert(es.skip(i as int).drop_first() =~= es.skip(i + 1));
            i = i + 1;
        }
        None
    }

    /// Appends each pair as ` key=value`.
    pub fn write_pairs(&self, s: &mut String)
        ensures
            final(s)@ == old(s)@ + pairs_text(self.entries()),
    {
        let ghost es = self.entries();
        let ghost start = s@;
        let n = self.0.len();
        for i in 0..n
            invariant
                n == es.len(),
                es == self.entries(),
                s@ == start + pairs_text(es.take(i as int)),
        {
            let (k, v) = &self.0[i];
            push_char(s, ' ');
            push_str(s, k.as_str());
            push_char(s, '=');
            v.view().write_text(s);
            assert(es.take(i + 1).drop_last() =~= es.take(i as int));
            assert(s@ =~= start + pairs_text(es.take(i + 1)));
        }
        assert(es.take(n as int) =~= es);
    }
}

/// What a value holds, whatever owns it: a string with whether it is `'static`, the bytes of a
/// byte array, or a scalar.
pub enum ValueModel {
    NoValue,
    Str(Seq<char>, bool),
    Bytes(Seq<u8>),
    Bool(bool),
    I64(i64),
    U64(u64),
    I128(i128),
    U128(u128),
    Char(char),
    Rendered(Seq<char>, bool),
}

/// What a borrowed view holds; a `Debug` rendering is marked `true`, a `Display` one `false`.
pub open spec fn view_model(v: ValueView) -> ValueModel {
    match v {
        ValueView::NoValue => ValueModel::NoValue,
        ValueView::BorrowedStr(s) => ValueModel::Str(s@, false),
        ValueView::StaticStr(s) => ValueModel::Str(s@, true),
        ValueView::Bytes(b) => ValueModel::Bytes(b@),
        ValueView::Bool(b) => ValueModel::Bool(b),
        ValueView::I64(i) => ValueModel::I64(i),
        ValueView::U64(u) => ValueModel::U64(u),
        ValueView::I128(i) => ValueModel::I128(i),
        ValueView::U128(u) => ValueModel::U128(u),
        ValueView::Char(c) => ValueModel::Char(c),
        ValueView::Debug(d) => ValueModel::Rendered(d.text(), true),
        ValueView::Display(d) => ValueModel::Rendered(d.text(), false),
    }
}

/// What the owned copy of a view holds: a rendered value becomes an owned string of its text,
/// a `'static` string stays borrowed, and everything else is copied.
pub open spec fn owned_model(v: ValueView) -> ValueModel {
    match v {
        ValueView::Debug(d) => ValueModel::Str(d.text(), false),
        ValueView::Display(d) => ValueModel::Str(d.text(), false),
        _ => view_model(v),
    }
}

#[derive(Debug)]
enum OwnedState {
    NoValue,
    Bool(bool),
    I64(i64),
    U64(u64),
    I128(i128),
    U128(u128),
    Char(char),
    Str(Cow<'static, str>),
    Bytes(Vec<u8>),
}

/// An owned value in a key-value pair.
#[derive(Debug)]
pub struct ValueOwned(OwnedState);

impl ValueOwned {
    /// What the value holds.
    pub closed spec fn model(&self) -> ValueModel {
        match self.0 {
            OwnedState::NoValue => ValueModel::NoValue,
            OwnedState::Bool(b) => ValueModel::Bool(b),
            OwnedState::I64(i) => ValueModel::I64(i),
            OwnedState::U64(u) => ValueModel::U64(u),
            OwnedState::I128(i) => ValueModel::I128(i),
            OwnedState::U128(u) => ValueModel::U128(u),
            OwnedState::Char(c) => ValueModel::Char(c),
            OwnedState::Str(s) => ValueModel::Str(s@, s is Borrowed),
            OwnedState::Bytes(b) => ValueModel::Bytes(b@),
        }
    }

    /// Create a borrowed view of this owned value; a `'static` string stays `'static`.
    pub fn view(&self) -> (r: ValueView<'_>)
        ensures
            view_model(r) == self.model(),
    {
        match &self.0 {
            OwnedState::NoValue => ValueView::NoValue,
            OwnedState::Bool(b) => ValueView::Bool(*b),
            OwnedState::I64(i) => ValueView::I64(*i),
            OwnedState::U64(u) => ValueView::U64(*u),
            OwnedState::I128(i) => ValueView::I128(*i),
            OwnedState::U128(u) => ValueView::U128(*u),
            OwnedState::Char(c) => ValueView::Char(*c),
            OwnedState::Str(Cow::Borrowed(s)) => ValueView::StaticStr(s),
            OwnedState::Str(Cow::Owned(s)) => ValueView::BorrowedStr(s.as_str()),
            OwnedState::Bytes(b) => ValueView::Bytes(b.as_slice()),
        }
    }

    /// An owned string value.
    pub fn str(s: Cow<'static, str>) -> (r: ValueOwned)
        ensures
            r.model() == ValueModel::Str(s@, s is Borrowed),
    {
        ValueOwned(OwnedState::Str(s))
    }

    /// An owned byte array value.
    pub fn bytes(b: Vec<u8>) -> (r: ValueOwned)
        ensures
            r.model() == ValueModel::Bytes(b@),
    {
        ValueOwned(OwnedState::Bytes(b))
    }
}

impl<'a> ValueView<'a> {
    /// Convert this view into an owned value.
    pub fn to_owned(&self) -> (r: ValueOwned)
        ensures
            r.model() == owned_model(*self),
    {
        match self {
            ValueView::NoValue => ValueOwned(OwnedState::NoValue),
            ValueView::BorrowedStr(s) => ValueOwned(OwnedState::Str(Cow::Owned((*s).to_owned()))),
            ValueView::StaticStr(s) => ValueOwned(OwnedState::Str(Cow::Borrowed(s))),
            ValueView::Bytes(b) => ValueOwned(OwnedState::Bytes(vstd::slice::slice_to_vec(b))),
            ValueView::Bool(b) => ValueOwned(OwnedState::Bool(*b)),
            ValueView::I64(i) => ValueOwned(OwnedState::I64(*i)),
            ValueView::U64(u) => ValueOwned(OwnedState::U64(*u)),
            ValueView::I128(i) => ValueOwned(OwnedState::I128(*i)),
            ValueView::U128(u) => ValueOwned(OwnedState::U128(*u)),
            ValueView::Char(c) => ValueOwned(OwnedState::Char(*c)),
            ValueView::Debug(d) => ValueOwned(OwnedState::Str(Cow::Owned(d.as_str().to_owned()))),
            ValueView::Display(d) => ValueOwned(OwnedState::Str(Cow::Owned(d.as_str().to_owned()))),
        }
    }
}

impl KeyOwned {
    /// A borrowed key with the text of this one: `'static` where this one borrows a `'static`
    /// string.
    pub fn as_key(&self) -> (r: Key<'_>)
        ensures
            r.text() == self.text(),
            r.is_static() == self.is_static(),
    {
        Key(
            match &self.0 {
                Cow::Borrowed(s) => RefStr::Static(s),
                Cow::Owned(s) => RefStr::Borrowed(s.as_str()),
            },
        )
    }
}

impl<'a> Key<'a> {
    /// Convert to an owned key; a `'static` key is borrowed, any other is copied.
    pub fn to_owned(&self) -> (r: KeyOwned)
        ensures
            r.text() == self.text(),
            r.is_static() == self.is_static(),
    {
        KeyOwned(self.0.into_cow_static())
    }
}

impl ValueOwned {
    /// A borrowed value with the same view.
    pub fn as_value(&self) -> (r: Value<'_>)
        ensures
            view_model(r.spec_view()) == self.model(),
    {
        Value(self.view())
    }
}

/// The text of an integer value is the decimal numeral of the whole value: an unsigned value
/// reads back from its canonical numeral, and a signed value from its numeral with a minus sign
/// before a negative one.
pub proof fn lemma_integer_texts_read_back(u: u64, v: u128, i: i64, j: i128)
    ensures
        is_canonical_numeral(value_text(ValueView::<'static>::U64(u))),
        numeral_value(value_text(ValueView::<'static>::U64(u))) == u,
        is_canonical_numeral(value_text(ValueView::<'static>::U128(v))),
        numeral_value(value_text(ValueView::<'static>::U128(v))) == v,
        signed_numeral_value(value_text(ValueView::<'static>::I64(i))) == i,
        signed_numeral_value(value_text(ValueView::<'static>::I128(j))) == j,
{
    lemma_decimal_reads_back(u as nat);
    lemma_decimal_reads_back(v as nat);
    lemma_signed_decimal_reads_back(i as int);
    lemma_signed_decimal_reads_back(j as int);
}

} // verus!
