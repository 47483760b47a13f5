//! Write well-formatted systemd journal fields to buffers.
//!
//! A field is either `NAME=value\n`, or, when the value holds a newline, the length-encoded form
//! `NAME\n` followed by the value's length as 64-bit little-endian bytes, the value and `\n`.
use vstd::prelude::*;

use crate::text::{ascii_upper, to_ascii_upper};
use vstd::utf8::encode_utf8;

verus! {

/// The name of a journal field.
pub enum FieldName<'a> {
    /// A name that is already a valid journal key; it is written as it is.
    WellFormed(&'a str),
    /// A name that is escaped into a valid journal key before it is written.
    WriteEscaped(&'a str),
}

/// Journal field keys may only contain ASCII uppercase letters A to Z, numbers 0 to 9 and the
/// underscore.
pub open spec fn valid_key_char(c: char) -> bool {
    ('A' <= c && c <= 'Z') || ('0' <= c && c <= '9') || c == '_'
}

/// Whether `c` is a valid character in the key of a journal field.
pub fn is_valid_key_char(c: char) -> (r: bool)
    ensures
        r == valid_key_char(c),
{
    ('A' <= c && c <= 'Z') || ('0' <= c && c <= '9') || c == '_'
}

/// The character that stands for `c` in an escaped key: its ASCII upper-case form when that is
/// valid, and `_` otherwise.
pub open spec fn escape_char(c: char) -> char {
    if valid_key_char(ascii_upper(c)) {
        ascii_upper(c)
    } else {
        '_'
    }
}

/// The escaped characters of a key, one byte per character of the key.
pub open spec fn escape_bytes(key: Seq<char>) -> Seq<u8> {
    Seq::new(key.len(), |i: int| escape_char(key[i]) as u8)
}

/// The prefix of escaped keys that would otherwise start with `_` or a digit.
pub open spec fn escaped_prefix() -> Seq<u8> {
    seq![69u8, 83, 67, 65, 80, 69, 68, 95]
}

/// The key that `write_escaped_key` writes: the escaped characters, behind `ESCAPED_` when the
/// first of them is `_` or a digit, cut to at most 64 bytes.
pub open spec fn escaped_key(key: Seq<char>) -> Seq<u8> {
    let e = escape_bytes(key);
    let full = if e.len() > 0 && (e[0] == 95u8 || (48u8 <= e[0] && e[0] <= 57u8)) {
        escaped_prefix() + e
    } else {
        e
    };
    if full.len() <= 64 {
        full
    } else {
        full.take(64)
    }
}

/// The bytes that `put_field_name` writes for a field name.
pub open spec fn field_name_bytes(name: FieldName) -> Seq<u8> {
    match name {
        FieldName::WellFormed(n) => encode_utf8(n@),
        FieldName::WriteEscaped(n) => if n@.len() == 0 {
            seq![69u8, 77, 80, 84, 89]
        } else {
            escaped_key(n@)
        },
    }
}

/// The `k` low bytes of `n`, least significant first.
pub open spec fn le_bytes(n: nat, k: nat) -> Seq<u8>
    decreases k,
{
    if k == 0 {
        seq![]
    } else {
        seq![(n % 256) as u8] + le_bytes(n / 256, (k - 1) as nat)
    }
}

/// The bytes of a length-encoded field.
pub open spec fn length_encoded_field(name: FieldName, value: Seq<u8>) -> Seq<u8> {
    field_name_bytes(name) + seq![10u8] + le_bytes(value.len(), 8) + value + seq![10u8]
}

/// The bytes of a field with the given value.
pub open spec fn field_bytes(name: FieldName, value: Seq<u8>) -> Seq<u8> {
    if value.contains(10u8) {
        length_encoded_field(name, value)
    } else {
        field_name_bytes(name) + seq![61u8] + value + seq![10u8]
    }
}


/// The bytes that may stand in a journal key: ASCII upper-case letters, digits and `_`.
pub open spec fn valid_key_byte(b: u8) -> bool {
    (65 <= b <= 90) || (48 <= b <= 57) || b == 95
}

proof fn lemma_escape_char_valid(c: char)
    ensures
        valid_key_char(escape_char(c)),
        valid_key_byte(escape_char(c) as u8),
        (escape_char(c) as u8) as u32 == escape_char(c) as u32,
{
}

/// An escaped key is a valid journal key: at most 64 bytes, each an upper-case letter, a digit
/// or `_`, and, for a non-empty key, starting with an upper-case letter.
pub proof fn lemma_escaped_key_is_valid(key: Seq<char>)
    ensures
        escaped_key(key).len() <= 64,
        forall|i: int| 0 <= i < escaped_key(key).len() ==> valid_key_byte(#[trigger] escaped_key(key)[i]),
        key.len() > 0 ==> escaped_key(key).len() > 0 && 65 <= escaped_key(key)[0] <= 90,
{
    let e = escape_bytes(key);
    assert forall|i: int| 0 <= i < e.len() implies valid_key_byte(#[trigger] e[i]) by {
        lemma_escape_char_valid(key[i]);
    }
    let p = escaped_prefix();
    let full = if e.len() > 0 && (e[0] == 95u8 || (48u8 <= e[0] && e[0] <= 57u8)) {
        p + e
    } else {
        e
    };
    assert forall|i: int| 0 <= i < full.len() implies valid_key_byte(#[trigger] full[i]) by {
        if full == p + e {
            if i >= p.len() {
                assert(full[i] == e[i - p.len()]);
            }
        }
    }
    let r = escaped_key(key);
    assert(r == if full.len() <= 64 { full } else { full.take(64) });
    assert forall|i: int| 0 <= i < r.len() implies valid_key_byte(#[trigger] r[i]) by {
        assert(r[i] == full[i]);
    }
    if key.len() > 0 {
        assert(e.len() > 0);
        assert(r[0] == full[0]);
    }
}

/// Write an escaped `key` for use in a systemd journal field.
///
/// The key is upper-cased, each character that is not valid in a key becomes `_`, a key that
/// then starts with `_` or a digit gets the prefix `ESCAPED_`, and the result is cut to 64 bytes.
pub fn write_escaped_key(key: &str, buffer: &mut Vec<u8>)
    ensures
        final(buffer)@ == old(buffer)@ + escaped_key(key@),
{
    let n = key.unicode_len();
    let mut escaped: Vec<u8> = Vec::new();
    for i in 0..n
        invariant
            n == key@.len(),
            escaped@ == escape_bytes(key@).take(i as int),
    {
        let c = to_ascii_upper(key.get_char(i));
        let e = if is_valid_key_char(c) {
            c
        } else {
            '_'
        };
        assert(e == escape_char(key@[i as int]));
        escaped.push(e as u32 as u8);
        assert(escaped@ =~= escape_bytes(key@).take(i + 1));
    }
    assert(escape_bytes(key@).take(n as int) =~= escape_bytes(key@));
    let ghost start = buffer@;
    let mut remaining: usize = 64;
    let ghost full = if escaped@.len() > 0 && (escaped@[0] == 95u8 || (48u8 <= escaped@[0]
        && escaped@[0] <= 57u8)) {
        escaped_prefix() + escaped@
    } else {
        escaped@
    };
    if escaped.len() > 0 && (escaped[0] == 95u8 || (48u8 <= escaped[0] && escaped[0] <= 57u8)) {
        buffer.push(69u8);
        buffer.push(83u8);
        buffer.push(67u8);
        buffer.push(65u8);
        buffer.push(80u8);
        buffer.push(69u8);
        buffer.push(68u8);
        buffer.push(95u8);
        remaining = remaining - 8;
        assert(buffer@ =~= start + escaped_prefix());
    }
    let written_prefix: usize = 64 - remaining;
    assert(buffer@ =~= start + full.take(written_prefix as int));
    let m = escaped.len();
    let mut i: usize = 0;
    while i < m && remaining > 0
        invariant
            m == escaped@.len(),
            i <= m,
            written_prefix == 0 || written_prefix == 8,
            written_prefix == 8 ==> full == escaped_prefix() + escaped@,
            written_prefix == 0 ==> full == escaped@,
            remaining + i + written_prefix == 64,
            buffer@ == start + full.take(i + written_prefix),
        decreases m - i,
    {
        buffer.push(escaped[i]);
        assert(full[i + written_prefix] == escaped@[i as int]);
        assert(buffer@ =~= start + full.take(i + 1 + written_prefix));
        remaining = remaining - 1;
        i = i + 1;
    }
    proof {
        if full.len() <= 64 {
            assert(i == m);
            assert(full.take(i + written_prefix) =~= full);
        } else {
            assert(i + written_prefix == 64);
        }
    }
}

/// Write the name of a field.
pub fn put_field_name(buffer: &mut Vec<u8>, name: FieldName<'_>)
    ensures
        final(buffer)@ == old(buffer)@ + field_name_bytes(name),
{
    match name {
        FieldName::WellFormed(n) => {
            let bytes = n.as_bytes();
            let ghost start = buffer@;
            for i in 0..bytes.len()
                invariant
                    bytes@ == encode_utf8(n@),
                    buffer@ == start + bytes@.take(i as int),
            {
                buffer.push(bytes[i]);
                assert(buffer@ =~= start + bytes@.take(i + 1));
            }
            assert(bytes@.take(bytes@.len() as int) =~= bytes@);
        },
        FieldName::WriteEscaped(n) => {
            if n.unicode_len() == 0 {
                let ghost start = buffer@;
                buffer.push(69u8);
                buffer.push(77u8);
                buffer.push(80u8);
                buffer.push(84u8);
                buffer.push(89u8);
                assert(buffer@ =~= start + seq![69u8, 77, 80, 84, 89]);
            } else {
                write_escaped_key(n, buffer);
            }
        },
    }
}

fn push_bytes(buffer: &mut Vec<u8>, value: &[u8])
    ensures
        final(buffer)@ == old(buffer)@ + value@,
{
    let ghost start = buffer@;
    for i in 0..value.len()
        invariant
            buffer@ == start + value@.take(i as int),
    {
        buffer.push(value[i]);
        assert(buffer@ =~= start + value@.take(i + 1));
    }
    assert(value@.take(value@.len() as int) =~= value@);
}

fn push_le_bytes(buffer: &mut Vec<u8>, n: u64)
    ensures
        final(buffer)@ == old(buffer)@ + le_bytes(n as nat, 8),
{
    let ghost start = buffer@;
    let mut x = n;
    let mut k: usize = 0;
    while k < 8
        invariant
            k <= 8,
            start + le_bytes(n as nat, 8) == buffer@ + le_bytes(x as nat, (8 - k) as nat),
        decreases 8 - k,
    {
        let b = (x % 256) as u8;
        assert(le_bytes(x as nat, (8 - k) as nat) == seq![b] + le_bytes((x / 256) as nat, (8 - k - 1) as nat));
        buffer.push(b);
        x = x / 256;
        k = k + 1;
        assert(start + le_bytes(n as nat, 8) =~= buffer@ + le_bytes(x as nat, (8 - k) as nat));
    }
    assert(le_bytes(x as nat, 0) =~= Seq::<u8>::empty());
    assert(buffer@ =~= start + le_bytes(n as nat, 8));
}

/// Write a field in the length-encoded form.
pub fn put_field_length_encoded(buffer: &mut Vec<u8>, name: FieldName<'_>, value: &[u8])
    ensures
        final(buffer)@ == old(buffer)@ + length_encoded_field(name, value@),
{
    let ghost start = buffer@;
    let ghost nb = field_name_bytes(name);
    put_field_name(buffer, name);
    buffer.push(10u8);
    push_le_bytes(buffer, value.len() as u64);
    push_bytes(buffer, value);
    buffer.push(10u8);
    assert(buffer@ =~= start + length_encoded_field(name, value@));
}

/// Write a field, in the length-encoded form when the value holds a newline.
pub fn put_field_bytes(buffer: &mut Vec<u8>, name: FieldName<'_>, value: &[u8])
    ensures
        final(buffer)@ == old(buffer)@ + field_bytes(name, value@),
{
    let mut has_newline = false;
    for i in 0..value.len()
        invariant
            has_newline == value@.take(i as int).contains(10u8),
    {
        let ghost before = value@.take(i as int);
        let ghost after = value@.take(i + 1);
        assert(after =~= before.push(value@[i as int]));
        if value[i] == 10u8 {
            has_newline = true;
            assert(after[i as int] == 10u8);
        } else {
            assert(after.contains(10u8) ==> before.contains(10u8)) by {
                if after.contains(10u8) {
                    let j = choose|j: int| 0 <= j < after.len() && after[j] == 10u8;
                    assert(before[j] == 10u8);
                }
            }
            assert(before.contains(10u8) ==> after.contains(10u8)) by {
                if before.contains(10u8) {
                    let j = choose|j: int| 0 <= j < before.len() && before[j] == 10u8;
                    assert(after[j] == 10u8);
                }
            }
        }
    }
    assert(value@.take(value@.len() as int) =~= value@);
    if has_newline {
        put_field_length_encoded(buffer, name, value);
    } else {
        let ghost start = buffer@;
        put_field_name(buffer, name);
        buffer.push(61u8);
        push_bytes(buffer, value);
        buffer.push(10u8);
        assert(buffer@ =~= start + field_bytes(name, value@));
    }
}

} // verus!
