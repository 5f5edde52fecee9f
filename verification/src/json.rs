//! The library's own model of a JSON document.
//!
//! The runtime never interprets handler payloads; it only reads and
//! builds the envelope around them.  A `JsonValue` therefore keeps a
//! document as plain data the contracts can speak about: objects as
//! ordered field lists, numbers as signed integers (the envelope needs
//! nothing finer).  The library writes such a value out as JSON text
//! itself; only the reading of inbound text happens outside it.

use vstd::prelude::*;
use vstd::utf8::encode_utf8;
use crate::framing::{digits_of, push_digits};

verus! {

broadcast use vstd::std_specs::vec::axiom_vec_index_decreases;

/// A JSON document, as plain data.
#[derive(Debug, PartialEq)]
pub enum JsonValue {
    Null,
    Bool(bool),
    Num(i64),
    Str(String),
    Arr(Vec<JsonValue>),
    /// Fields in document order; duplicates are kept, and lookups see
    /// the first occurrence of a name.
    Obj(Vec<(String, JsonValue)>),
}

/// Whether a name equals a keyword.
pub fn str_eq(a: &String, b: &str) -> (r: bool)
    ensures
        r == (a@ == b@),
{
    let bs = String::from_str(b);
    *a == bs
}

/// The value of the first field named `name`, if any.
pub open spec fn lookup_spec(fields: Seq<(String, JsonValue)>, name: Seq<char>) -> Option<JsonValue>
    decreases fields.len(),
{
    if fields.len() == 0 {
        None
    } else if fields[0].0@ == name {
        Some(fields[0].1)
    } else {
        lookup_spec(fields.skip(1), name)
    }
}

/// Find the first field named `name`.
pub fn obj_get<'a>(fields: &'a Vec<(String, JsonValue)>, name: &str) -> (r: Option<&'a JsonValue>)
    ensures
        match r {
            Some(v) => lookup_spec(fields@, name@) == Some(*v),
            None => lookup_spec(fields@, name@) is None,
        },
{
    let mut i: usize = 0;
    proof {
        assert(fields@.skip(0) =~= fields@);
    }
    while i < fields.len()
        invariant
            i <= fields@.len(),
            lookup_spec(fields@, name@) == lookup_spec(fields@.skip(i as int), name@),
        decreases fields@.len() - i,
    {
        proof {
            assert(fields@.skip(i as int)[0] == fields@[i as int]);
            assert(fields@.skip(i as int).skip(1) =~= fields@.skip(i as int + 1));
        }
        if str_eq(&fields[i].0, name) {
            return Some(&fields[i].1);
        }
        i = i + 1;
    }
    None
}

/// The lower-case hex digit of `n`.
pub open spec fn hex_digit(n: int) -> u8 {
    if n < 10 {
        (48 + n) as u8
    } else {
        (87 + n) as u8
    }
}

/// How one byte of a string's text appears between the quotes: the
/// quote and the backslash escaped, the common control characters by
/// letter, the rest of the control characters numerically, everything
/// else as itself.
pub open spec fn escaped_byte(b: u8) -> Seq<u8> {
    if b == 34 {
        seq![92u8, 34u8]
    } else if b == 92 {
        seq![92u8, 92u8]
    } else if b == 10 {
        seq![92u8, 110u8]
    } else if b == 13 {
        seq![92u8, 114u8]
    } else if b == 9 {
        seq![92u8, 116u8]
    } else if b < 32 {
        seq![92u8, 117u8, 48u8, 48u8, hex_digit(b as int / 16), hex_digit(b as int % 16)]
    } else {
        seq![b]
    }
}

/// The escaped form of a string's bytes.
pub open spec fn escape_bytes(bs: Seq<u8>) -> Seq<u8>
    decreases bs.len(),
{
    if bs.len() == 0 {
        Seq::empty()
    } else {
        escape_bytes(bs.drop_last()) + escaped_byte(bs.last())
    }
}

/// The text of an integer: a minus sign where negative, then digits.
pub open spec fn int_bytes(n: int) -> Seq<u8> {
    if n < 0 {
        seq![45u8] + digits_of(-n)
    } else {
        digits_of(n)
    }
}

/// The JSON text of a value, as bytes.
pub open spec fn json_bytes(v: JsonValue) -> Seq<u8>
    decreases v,
{
    match v {
        JsonValue::Null => seq![110u8, 117u8, 108u8, 108u8],
        JsonValue::Bool(b) => if b {
            seq![116u8, 114u8, 117u8, 101u8]
        } else {
            seq![102u8, 97u8, 108u8, 115u8, 101u8]
        },
        JsonValue::Num(n) => int_bytes(n as int),
        JsonValue::Str(s) => seq![34u8] + escape_bytes(encode_utf8(s@)) + seq![34u8],
        JsonValue::Arr(xs) => seq![91u8] + items_bytes(xs, xs@.len() as int) + seq![93u8],
        JsonValue::Obj(fs) => seq![123u8] + fields_bytes(fs, fs@.len() as int) + seq![125u8],
    }
}

/// The text of the first `i` elements of an array, comma-separated.
pub open spec fn items_bytes(xs: Vec<JsonValue>, i: int) -> Seq<u8>
    decreases xs, i,
{
    if i <= 0 || i > xs@.len() {
        Seq::empty()
    } else {
        items_bytes(xs, i - 1) + (if i > 1 {
            seq![44u8]
        } else {
            Seq::empty()
        }) + json_bytes(xs@[i - 1])
    }
}

/// The text of the first `i` fields of an object, comma-separated,
/// each a quoted name, a colon, and the value.
pub open spec fn fields_bytes(fs: Vec<(String, JsonValue)>, i: int) -> Seq<u8>
    decreases fs, i,
{
    if i <= 0 || i > fs@.len() {
        Seq::empty()
    } else {
        fields_bytes(fs, i - 1) + (if i > 1 {
            seq![44u8]
        } else {
            Seq::empty()
        }) + seq![34u8] + escape_bytes(encode_utf8(fs@[i - 1].0@)) + seq![34u8, 58u8] + json_bytes(
            fs@[i - 1].1,
        )
    }
}

/// Append one escaped text byte.
fn push_escaped(out: &mut Vec<u8>, b: u8)
    ensures
        final(out)@ == old(out)@ + escaped_byte(b),
{
    if b == 34 {
        out.push(92);
        out.push(34);
    } else if b == 92 {
        out.push(92);
        out.push(92);
    } else if b == 10 {
        out.push(92);
        out.push(110);
    } else if b == 13 {
        out.push(92);
        out.push(114);
    } else if b == 9 {
        out.push(92);
        out.push(116);
    } else if b < 32 {
        out.push(92);
        out.push(117);
        out.push(48);
        out.push(48);
        let hi = b / 16;
        let lo = b % 16;
        out.push(if hi < 10 { 48 + hi } else { 87 + hi });
        out.push(if lo < 10 { 48 + lo } else { 87 + lo });
    } else {
        out.push(b);
    }
    proof {
        assert(out@ =~= old(out)@ + escaped_byte(b));
    }
}

/// Append a string's text, quoted and escaped.
fn push_quoted(out: &mut Vec<u8>, s: &str)
    ensures
        final(out)@ == old(out)@ + seq![34u8] + escape_bytes(encode_utf8(s@)) + seq![34u8],
{
    let bs = s.as_bytes();
    let ghost all = encode_utf8(s@);
    out.push(34);
    let ghost head = out@;
    let mut i: usize = 0;
    while i < bs.len()
        invariant
            i <= all.len(),
            bs@ == all,
            out@ == head + escape_bytes(all.take(i as int)),
        decreases bs@.len() - i,
    {
        push_escaped(out, bs[i]);
        proof {
            assert(all.take(i + 1).drop_last() =~= all.take(i as int));
            assert(all.take(i + 1).last() == all[i as int]);
            assert(out@ =~= head + escape_bytes(all.take(i + 1)));
        }
        i = i + 1;
    }
    out.push(34);
    proof {
        assert(all.take(all.len() as int) =~= all);
        assert(out@ =~= old(out)@ + seq![34u8] + escape_bytes(all) + seq![34u8]);
    }
}

/// Append the text of an integer.
fn push_int(out: &mut Vec<u8>, n: i64)
    ensures
        final(out)@ == old(out)@ + int_bytes(n as int),
{
    if n < 0 {
        out.push(45);
        let mag: u64 = (-(n as i128)) as u64;
        push_digits(out, mag);
        proof {
            assert(out@ =~= old(out)@ + int_bytes(n as int));
        }
    } else {
        push_digits(out, n as u64);
    }
}

/// Append the JSON text of a value.
fn write_json(v: &JsonValue, out: &mut Vec<u8>)
    ensures
        final(out)@ == old(out)@ + json_bytes(*v),
    decreases *v,
{
    match v {
        JsonValue::Null => {
            out.push(110);
            out.push(117);
            out.push(108);
            out.push(108);
            proof {
                assert(out@ =~= old(out)@ + json_bytes(*v));
            }
        },
        JsonValue::Bool(b) => {
            if *b {
                out.push(116);
                out.push(114);
                out.push(117);
                out.push(101);
            } else {
                out.push(102);
                out.push(97);
                out.push(108);
                out.push(115);
                out.push(101);
            }
            proof {
                assert(out@ =~= old(out)@ + json_bytes(*v));
            }
        },
        JsonValue::Num(n) => {
            push_int(out, *n);
        },
        JsonValue::Str(s) => {
            push_quoted(out, s.as_str());
            proof {
                assert(out@ =~= old(out)@ + json_bytes(*v));
            }
        },
        JsonValue::Arr(xs) => {
            out.push(91);
            write_items(xs, out);
            out.push(93);
            proof {
                assert(out@ =~= old(out)@ + json_bytes(*v));
            }
        },
        JsonValue::Obj(fs) => {
            out.push(123);
            write_fields(fs, out);
            out.push(125);
            proof {
                assert(out@ =~= old(out)@ + json_bytes(*v));
            }
        },
    }
}

/// Append an array's elements, comma-separated.
fn write_items(xs: &Vec<JsonValue>, out: &mut Vec<u8>)
    ensures
        final(out)@ == old(out)@ + items_bytes(*xs, xs@.len() as int),
    decreases *xs,
{
    let ghost head = out@;
    let mut i: usize = 0;
    proof {
        assert(out@ =~= head + items_bytes(*xs, 0));
    }
    while i < xs.len()
        invariant
            i <= xs@.len(),
            out@ == head + items_bytes(*xs, i as int),
        decreases xs@.len() - i,
    {
        if i > 0 {
            out.push(44);
        }
        write_json(&xs[i], out);
        proof {
            assert(out@ =~= head + items_bytes(*xs, i + 1));
        }
        i = i + 1;
    }
}

/// Append an object's fields, comma-separated, each a quoted name, a
/// colon, and the value.
fn write_fields(fs: &Vec<(String, JsonValue)>, out: &mut Vec<u8>)
    ensures
        final(out)@ == old(out)@ + fields_bytes(*fs, fs@.len() as int),
    decreases *fs,
{
    let ghost head = out@;
    let mut i: usize = 0;
    proof {
        assert(out@ =~= head + fields_bytes(*fs, 0));
    }
    while i < fs.len()
        invariant
            i <= fs@.len(),
            out@ == head + fields_bytes(*fs, i as int),
        decreases fs@.len() - i,
    {
        if i > 0 {
            out.push(44);
        }
        push_quoted(out, fs[i].0.as_str());
        out.push(58);
        write_json(&fs[i].1, out);
        proof {
            assert(out@ =~= head + fields_bytes(*fs, i + 1));
        }
        i = i + 1;
    }
}

/// The JSON text of a value, as bytes.
pub fn to_json_bytes(v: &JsonValue) -> (r: Vec<u8>)
    ensures
        r@ == json_bytes(*v),
{
    let mut out: Vec<u8> = Vec::new();
    write_json(v, &mut out);
    proof {
        assert(out@ =~= json_bytes(*v));
    }
    out
}

/// Extending a field list on the right changes a lookup only where the
/// name was absent so far.
pub proof fn lemma_lookup_snoc(fields: Seq<(String, JsonValue)>, f: (String, JsonValue), name: Seq<char>)
    ensures
        lookup_spec(fields.push(f), name) == match lookup_spec(fields, name) {
            Some(v) => Some(v),
            None => if f.0@ == name {
                Some(f.1)
            } else {
                None
            },
        },
    decreases fields.len(),
{
    if fields.len() == 0 {
        assert(fields.push(f).skip(1) =~= fields);
    } else {
        assert(fields.push(f).skip(1) =~= fields.skip(1).push(f));
        lemma_lookup_snoc(fields.skip(1), f, name);
    }
}

} // verus!
