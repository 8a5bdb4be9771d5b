//! `repr` and `str` rendering of runtime values.
//!
//! `repr` is the round-trippable form (strings quoted and escaped);
//! `str` is the informal form, which differs only for strings (their
//! raw text) and exceptions (their message).  Containers render their
//! elements with `repr`, like the source language.  The recursion fuel
//! is the heap's slot count, which covers every acyclic structure; a
//! structure deeper than that (only possible through a reference
//! cycle) renders its innermost part as an ellipsis.

use vstd::prelude::*;

use crate::builtins::Builtins;
use crate::exceptions::{append_args_reprs, spec_args_reprs, spec_exc_message};
use crate::fmt::{append_int, append_str_repr, spec_bool_str, spec_digit_char, spec_int_str,
    spec_none_str, spec_str_repr, push_char};
use crate::heap::{Heap, HeapData, HeapEntry};
use crate::pydata::{spec_data_in, spec_present_in};
use crate::value::Value;

verus! {

/// The name of a builtin callable.
pub open spec fn spec_builtin_name(b: Builtins) -> Seq<char> {
    match b {
        Builtins::Print => "print"@,
        Builtins::Range => "range"@,
        Builtins::Len => "len"@,
        Builtins::Any => "any"@,
        Builtins::Filter => "filter"@,
        Builtins::MapFn => "map"@,
        Builtins::Sum => "sum"@,
    }
}

/// The name of a builtin callable, executable form.
pub fn builtin_name(b: Builtins) -> (r: &'static str)
    ensures
        r@ == spec_builtin_name(b),
{
    match b {
        Builtins::Print => "print",
        Builtins::Range => "range",
        Builtins::Len => "len",
        Builtins::Any => "any",
        Builtins::Filter => "filter",
        Builtins::MapFn => "map",
        Builtins::Sum => "sum",
    }
}

/// The lower-case hex digit for `d` (meaningful for `0 <= d <= 15`).
pub open spec fn spec_hex_char(d: int) -> char {
    if d < 10 {
        spec_digit_char(d)
    } else if d == 10 {
        'a'
    } else if d == 11 {
        'b'
    } else if d == 12 {
        'c'
    } else if d == 13 {
        'd'
    } else if d == 14 {
        'e'
    } else {
        'f'
    }
}

/// The escaped form of one byte inside a byte-string repr: tab,
/// newline, carriage return, quote and backslash get two-character
/// escapes, printable bytes stand for themselves, and everything else
/// is a `\xhh` escape.
pub open spec fn spec_byte_escape(b: u8) -> Seq<char> {
    if b == 9 {
        seq!['\\', 't']
    } else if b == 10 {
        seq!['\\', 'n']
    } else if b == 13 {
        seq!['\\', 'r']
    } else if b == 39 {
        seq!['\\', '\'']
    } else if b == 92 {
        seq!['\\', '\\']
    } else if 32 <= b && b <= 126 {
        seq![b as char]
    } else {
        seq!['\\', 'x', spec_hex_char(b as int / 16), spec_hex_char(b as int % 16)]
    }
}

/// The escaped body of a byte-string repr.
pub open spec fn spec_bytes_body(s: Seq<u8>) -> Seq<char>
    decreases s.len(),
{
    if s.len() == 0 {
        Seq::empty()
    } else {
        spec_byte_escape(s[0]) + spec_bytes_body(s.skip(1))
    }
}

/// The repr of a byte string: the escaped body between `b'` and `'`.
pub open spec fn spec_bytes_repr(s: Seq<u8>) -> Seq<char> {
    "b'"@ + spec_bytes_body(s) + seq!['\'']
}

/// The repr of a value.
pub open spec fn spec_repr_value(entries: Seq<Option<HeapEntry>>, v: Value, fuel: nat) -> Seq<char>
    decreases fuel, 1nat, 0nat,
{
    match v {
        Value::PyNone => spec_none_str(),
        Value::Undefined => "<undefined>"@,
        Value::Bool(b) => spec_bool_str(b),
        Value::Int(i) => spec_int_str(i as int),
        Value::Builtin(b) => "<built-in function "@ + spec_builtin_name(b) + seq!['>'],
        Value::Ref(id) => if spec_present_in(entries, id) {
            spec_repr_data(entries, spec_data_in(entries, id), fuel)
        } else {
            "<invalid>"@
        },
    }
}

/// The repr of a heap payload.
pub open spec fn spec_repr_data(entries: Seq<Option<HeapEntry>>, d: HeapData, fuel: nat) -> Seq<
    char,
>
    decreases fuel, 0nat, 0nat,
{
    match d {
        HeapData::Str(s) => spec_str_repr(s@),
        HeapData::Bytes(b) => spec_bytes_repr(b@),
        HeapData::List(items) => if fuel == 0 {
            "[...]"@
        } else {
            seq!['['] + spec_repr_items(entries, items@, (fuel - 1) as nat) + seq![']']
        },
        HeapData::Tuple(items) => if fuel == 0 {
            "(...)"@
        } else if items@.len() == 1 {
            seq!['('] + spec_repr_value(entries, items@[0], (fuel - 1) as nat) + ",)"@
        } else {
            seq!['('] + spec_repr_items(entries, items@, (fuel - 1) as nat) + seq![')']
        },
        HeapData::Dict(pairs) => if fuel == 0 {
            "{...}"@
        } else {
            seq!['{'] + spec_repr_pairs(entries, pairs@, (fuel - 1) as nat) + seq!['}']
        },
        HeapData::Exception(e) => e.exc_type.spec_str() + seq!['('] + spec_args_reprs(e.args@)
            + seq![')'],
    }
}

/// The reprs of a sequence of values, joined with `", "`.
pub open spec fn spec_repr_items(entries: Seq<Option<HeapEntry>>, items: Seq<Value>, fuel: nat)
    -> Seq<char>
    decreases fuel, 2nat, items.len(),
{
    if items.len() == 0 {
        Seq::empty()
    } else if items.len() == 1 {
        spec_repr_value(entries, items[0], fuel)
    } else {
        spec_repr_value(entries, items[0], fuel) + ", "@ + spec_repr_items(
            entries,
            items.skip(1),
            fuel,
        )
    }
}

/// The `key: value` reprs of a dict's pairs, joined with `", "`.
pub open spec fn spec_repr_pairs(
    entries: Seq<Option<HeapEntry>>,
    pairs: Seq<(Value, Value)>,
    fuel: nat,
) -> Seq<char>
    decreases fuel, 2nat, pairs.len(),
{
    if pairs.len() == 0 {
        Seq::empty()
    } else if pairs.len() == 1 {
        spec_repr_value(entries, pairs[0].0, fuel) + ": "@ + spec_repr_value(
            entries,
            pairs[0].1,
            fuel,
        )
    } else {
        spec_repr_value(entries, pairs[0].0, fuel) + ": "@ + spec_repr_value(
            entries,
            pairs[0].1,
            fuel,
        ) + ", "@ + spec_repr_pairs(entries, pairs.skip(1), fuel)
    }
}

/// The `str` form of a value: raw text for strings, the message for
/// exceptions, the repr for everything else.
pub open spec fn spec_str_value(entries: Seq<Option<HeapEntry>>, v: Value, fuel: nat) -> Seq<char> {
    match v {
        Value::Ref(id) => if spec_present_in(entries, id) {
            match spec_data_in(entries, id) {
                HeapData::Str(s) => s@,
                HeapData::Exception(e) => spec_exc_message(e.args@),
                _ => spec_repr_value(entries, v, fuel),
            }
        } else {
            spec_repr_value(entries, v, fuel)
        },
        _ => spec_repr_value(entries, v, fuel),
    }
}

/// The lower-case hex digit for `d`, executable form.
fn hex_char(d: u8) -> (c: char)
    requires
        d <= 15,
    ensures
        c == spec_hex_char(d as int),
{
    match d {
        0 => '0',
        1 => '1',
        2 => '2',
        3 => '3',
        4 => '4',
        5 => '5',
        6 => '6',
        7 => '7',
        8 => '8',
        9 => '9',
        10 => 'a',
        11 => 'b',
        12 => 'c',
        13 => 'd',
        14 => 'e',
        _ => 'f',
    }
}

/// Appends the escaped repr body of the bytes from index `i` on.
fn append_bytes_body(out: &mut String, b: &Vec<u8>, i: usize)
    requires
        i <= b@.len(),
    ensures
        final(out)@ == old(out)@ + spec_bytes_body(b@.skip(i as int)),
    decreases b@.len() - i,
{
    if i < b.len() {
        let by = b[i];
        if by == 9 {
            out.append("\\t");
        } else if by == 10 {
            out.append("\\n");
        } else if by == 13 {
            out.append("\\r");
        } else if by == 39 {
            out.append("\\'");
        } else if by == 92 {
            out.append("\\\\");
        } else if 32 <= by && by <= 126 {
            push_char(out, by as char);
        } else {
            out.append("\\x");
            let h = hex_char(by / 16);
            push_char(out, h);
            let l = hex_char(by % 16);
            push_char(out, l);
        }
        proof {
            reveal_strlit("\\t");
            reveal_strlit("\\n");
            reveal_strlit("\\r");
            reveal_strlit("\\'");
            reveal_strlit("\\\\");
            reveal_strlit("\\x");
            assert(b@.skip(i as int)[0] == b@[i as int]);
            assert(out@ =~= old(out)@ + spec_byte_escape(b@[i as int]));
        }
        append_bytes_body(out, b, i + 1);
        proof {
            assert(b@.skip(i as int).skip(1) =~= b@.skip(i + 1));
            assert(final(out)@ =~= old(out)@ + spec_bytes_body(b@.skip(i as int)));
        }
    } else {
        proof {
            assert(b@.skip(i as int) =~= Seq::<u8>::empty());
        }
    }
}

/// Appends the repr of a value.
pub fn append_repr_value(heap: &Heap, out: &mut String, v: &Value, fuel: usize)
    ensures
        final(out)@ == old(out)@ + spec_repr_value(heap.entries@, *v, fuel as nat),
    decreases fuel, 1nat, 0nat,
{
    match v {
        Value::PyNone => crate::fmt::append_none(out),
        Value::Undefined => {
            out.append("<undefined>");
        },
        Value::Bool(b) => crate::fmt::append_bool(out, *b),
        Value::Int(i) => append_int(out, *i),
        Value::Builtin(b) => {
            out.append("<built-in function ");
            out.append(builtin_name(*b));
            out.append(">");
            proof {
                reveal_strlit(">");
                assert(out@ =~= old(out)@ + spec_repr_value(heap.entries@, *v, fuel as nat));
            }
        },
        Value::Ref(id) => {
            if *id < heap.entries.len() {
                match &heap.entries[*id] {
                    Some(entry) => match &entry.data {
                        Some(d) => append_repr_data(heap, out, d, fuel),
                        None => {
                            out.append("<invalid>");
                        },
                    },
                    None => {
                        out.append("<invalid>");
                    },
                }
            } else {
                out.append("<invalid>");
            }
        },
    }
}

/// Appends the repr of a heap payload.
pub fn append_repr_data(heap: &Heap, out: &mut String, d: &HeapData, fuel: usize)
    ensures
        final(out)@ == old(out)@ + spec_repr_data(heap.entries@, *d, fuel as nat),
    decreases fuel, 0nat, 0nat,
{
    match d {
        HeapData::Str(s) => append_str_repr(out, s.as_str()),
        HeapData::Bytes(b) => {
            out.append("b'");
            append_bytes_body(out, b, 0);
            push_char(out, '\'');
            proof {
                assert(b@.skip(0) =~= b@);
                assert(out@ =~= old(out)@ + spec_bytes_repr(b@));
            }
        },
        HeapData::List(items) => {
            if fuel == 0 {
                out.append("[...]");
            } else {
                push_char(out, '[');
                append_repr_items(heap, out, items, 0, fuel - 1);
                push_char(out, ']');
                proof {
                    assert(items@.skip(0) =~= items@);
                    assert(out@ =~= old(out)@ + spec_repr_data(
                        heap.entries@,
                        *d,
                        fuel as nat,
                    ));
                }
            }
        },
        HeapData::Tuple(items) => {
            if fuel == 0 {
                out.append("(...)");
            } else if items.len() == 1 {
                push_char(out, '(');
                append_repr_value(heap, out, &items[0], fuel - 1);
                out.append(",)");
                proof {
                    assert(out@ =~= old(out)@ + spec_repr_data(
                        heap.entries@,
                        *d,
                        fuel as nat,
                    ));
                }
            } else {
                push_char(out, '(');
                append_repr_items(heap, out, items, 0, fuel - 1);
                push_char(out, ')');
                proof {
                    assert(items@.skip(0) =~= items@);
                    assert(out@ =~= old(out)@ + spec_repr_data(
                        heap.entries@,
                        *d,
                        fuel as nat,
                    ));
                }
            }
        },
        HeapData::Dict(pairs) => {
            if fuel == 0 {
                out.append("{...}");
            } else {
                push_char(out, '{');
                append_repr_pairs(heap, out, pairs, 0, fuel - 1);
                push_char(out, '}');
                proof {
                    assert(pairs@.skip(0) =~= pairs@);
                    assert(out@ =~= old(out)@ + spec_repr_data(
                        heap.entries@,
                        *d,
                        fuel as nat,
                    ));
                }
            }
        },
        HeapData::Exception(e) => {
            out.append(e.exc_type.str());
            out.append("(");
            append_args_reprs(out, &e.args);
            out.append(")");
            proof {
                reveal_strlit("(");
                reveal_strlit(")");
                assert(out@ =~= old(out)@ + spec_repr_data(heap.entries@, *d, fuel as nat));
            }
        },
    }
}

/// Appends the joined reprs of the values from index `i` on.
fn append_repr_items(heap: &Heap, out: &mut String, items: &Vec<Value>, i: usize, fuel: usize)
    requires
        i <= items@.len(),
    ensures
        final(out)@ == old(out)@ + spec_repr_items(
            heap.entries@,
            items@.skip(i as int),
            fuel as nat,
        ),
    decreases fuel, 2nat, items@.len() - i,
{
    if i < items.len() {
        append_repr_value(heap, out, &items[i], fuel);
        proof {
            assert(items@.skip(i as int)[0] == items@[i as int]);
            assert(items@.skip(i as int).skip(1) =~= items@.skip(i + 1));
        }
        if i + 1 < items.len() {
            out.append(", ");
            append_repr_items(heap, out, items, i + 1, fuel);
            proof {
                assert(final(out)@ =~= old(out)@ + spec_repr_items(
                    heap.entries@,
                    items@.skip(i as int),
                    fuel as nat,
                ));
            }
        }
    } else {
        proof {
            assert(items@.skip(i as int) =~= Seq::<Value>::empty());
        }
    }
}

/// Appends the joined `key: value` reprs of the pairs from index `i`
/// on.
fn append_repr_pairs(
    heap: &Heap,
    out: &mut String,
    pairs: &Vec<(Value, Value)>,
    i: usize,
    fuel: usize,
)
    requires
        i <= pairs@.len(),
    ensures
        final(out)@ == old(out)@ + spec_repr_pairs(
            heap.entries@,
            pairs@.skip(i as int),
            fuel as nat,
        ),
    decreases fuel, 2nat, pairs@.len() - i,
{
    if i < pairs.len() {
        append_repr_value(heap, out, &pairs[i].0, fuel);
        out.append(": ");
        append_repr_value(heap, out, &pairs[i].1, fuel);
        proof {
            assert(pairs@.skip(i as int)[0] == pairs@[i as int]);
            assert(pairs@.skip(i as int).skip(1) =~= pairs@.skip(i + 1));
        }
        if i + 1 < pairs.len() {
            out.append(", ");
            append_repr_pairs(heap, out, pairs, i + 1, fuel);
            proof {
                assert(final(out)@ =~= old(out)@ + spec_repr_pairs(
                    heap.entries@,
                    pairs@.skip(i as int),
                    fuel as nat,
                ));
            }
        }
    } else {
        proof {
            assert(pairs@.skip(i as int) =~= Seq::<(Value, Value)>::empty());
        }
    }
}

/// Appends the repr of a payload at one more fuel than the heap's
/// slot count: the root level is unrolled here, so every acyclic
/// structure is fully rendered whether or not the payload currently
/// sits in a slot.
fn append_repr_data_rooted(heap: &Heap, out: &mut String, d: &HeapData)
    ensures
        final(out)@ == old(out)@ + spec_repr_data(
            heap.entries@,
            *d,
            (heap.entries@.len() + 1) as nat,
        ),
{
    let fuel = heap.entries.len();
    match d {
        HeapData::Str(s) => append_str_repr(out, s.as_str()),
        HeapData::Bytes(b) => {
            out.append("b'");
            append_bytes_body(out, b, 0);
            push_char(out, '\'');
            proof {
                assert(b@.skip(0) =~= b@);
                assert(out@ =~= old(out)@ + spec_bytes_repr(b@));
            }
        },
        HeapData::List(items) => {
            push_char(out, '[');
            append_repr_items(heap, out, items, 0, fuel);
            push_char(out, ']');
            proof {
                assert(items@.skip(0) =~= items@);
                assert(out@ =~= old(out)@ + spec_repr_data(
                    heap.entries@,
                    *d,
                    (heap.entries@.len() + 1) as nat,
                ));
            }
        },
        HeapData::Tuple(items) => {
            if items.len() == 1 {
                push_char(out, '(');
                append_repr_value(heap, out, &items[0], fuel);
                out.append(",)");
                proof {
                    assert(out@ =~= old(out)@ + spec_repr_data(
                        heap.entries@,
                        *d,
                        (heap.entries@.len() + 1) as nat,
                    ));
                }
            } else {
                push_char(out, '(');
                append_repr_items(heap, out, items, 0, fuel);
                push_char(out, ')');
                proof {
                    assert(items@.skip(0) =~= items@);
                    assert(out@ =~= old(out)@ + spec_repr_data(
                        heap.entries@,
                        *d,
                        (heap.entries@.len() + 1) as nat,
                    ));
                }
            }
        },
        HeapData::Dict(pairs) => {
            push_char(out, '{');
            append_repr_pairs(heap, out, pairs, 0, fuel);
            push_char(out, '}');
            proof {
                assert(pairs@.skip(0) =~= pairs@);
                assert(out@ =~= old(out)@ + spec_repr_data(
                    heap.entries@,
                    *d,
                    (heap.entries@.len() + 1) as nat,
                ));
            }
        },
        HeapData::Exception(e) => {
            out.append(e.exc_type.str());
            out.append("(");
            append_args_reprs(out, &e.args);
            out.append(")");
            proof {
                reveal_strlit("(");
                reveal_strlit(")");
                assert(out@ =~= old(out)@ + spec_repr_data(
                    heap.entries@,
                    *d,
                    (heap.entries@.len() + 1) as nat,
                ));
            }
        },
    }
}

/// The repr of a value, at one more fuel than the heap's slot count
/// (see `append_repr_data_rooted`): complete for every acyclic
/// structure.
pub fn repr_value(heap: &Heap, v: &Value) -> (r: String)
    ensures
        r@ == spec_repr_value(heap.entries@, *v, (heap.entries@.len() + 1) as nat),
{
    let mut out = String::new();
    match v {
        Value::Ref(id) => {
            if *id < heap.entries.len() {
                match &heap.entries[*id] {
                    Some(entry) => match &entry.data {
                        Some(d) => append_repr_data_rooted(heap, &mut out, d),
                        None => {
                            out.append("<invalid>");
                        },
                    },
                    None => {
                        out.append("<invalid>");
                    },
                }
            } else {
                out.append("<invalid>");
            }
        },
        _ => append_repr_value(heap, &mut out, v, heap.entries.len()),
    }
    proof {
        assert(out@ =~= spec_repr_value(heap.entries@, *v, (heap.entries@.len() + 1) as nat));
    }
    out
}

/// The `str` form of a value, at the rooted fuel.
pub fn str_value(heap: &Heap, v: &Value) -> (r: String)
    ensures
        r@ == spec_str_value(heap.entries@, *v, (heap.entries@.len() + 1) as nat),
{
    match v {
        Value::Ref(id) => {
            if *id < heap.entries.len() {
                match &heap.entries[*id] {
                    Some(entry) => match &entry.data {
                        Some(d) => match d {
                            HeapData::Str(s) => {
                                let mut out = String::new();
                                out.append(s.as_str());
                                out
                            },
                            HeapData::Exception(e) => e.message(),
                            _ => repr_value(heap, v),
                        },
                        None => repr_value(heap, v),
                    },
                    None => repr_value(heap, v),
                }
            } else {
                repr_value(heap, v)
            }
        },
        _ => repr_value(heap, v),
    }
}

impl HeapData {
    /// The repr of this payload, complete for every acyclic structure
    /// (the fuel is one more than the heap's slot count; the root
    /// level is unrolled).  Round-trippable for lists of immediates
    /// and strings.
    pub fn py_repr(&self, heap: &Heap) -> (r: String)
        ensures
            r@ == spec_repr_data(heap.entries@, *self, (heap.entries@.len() + 1) as nat),
    {
        let mut out = String::new();
        append_repr_data_rooted(heap, &mut out, self);
        proof {
            assert(out@ =~= spec_repr_data(
                heap.entries@,
                *self,
                (heap.entries@.len() + 1) as nat,
            ));
        }
        out
    }

    /// The informal (`str`) form of this payload: raw text for
    /// strings, the message for exceptions, the repr otherwise.
    pub fn py_str(&self, heap: &Heap) -> (r: String)
        ensures
            r@ == (match *self {
                HeapData::Str(s) => s@,
                HeapData::Exception(e) => spec_exc_message(e.args@),
                _ => spec_repr_data(heap.entries@, *self, (heap.entries@.len() + 1) as nat),
            }),
    {
        match self {
            HeapData::Str(s) => {
                let mut out = String::new();
                out.append(s.as_str());
                out
            },
            HeapData::Exception(e) => e.message(),
            _ => self.py_repr(heap),
        }
    }
}

} // verus!
