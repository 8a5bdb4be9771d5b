//! The dispatch contract over heap payloads: type names, truthiness,
//! length, and structural equality.
//!
//! Every operation is total over the closed set of payload variants;
//! the spec functions here are the single source of truth for what
//! each operation returns.

use vstd::prelude::*;

use crate::heap::{Heap, HeapData, HeapEntry};
use crate::value::Value;

verus! {

/// The type name of a heap payload.
pub open spec fn spec_data_type_name(d: HeapData) -> Seq<char> {
    match d {
        HeapData::Str(_) => "str"@,
        HeapData::Bytes(_) => "bytes"@,
        HeapData::List(_) => "list"@,
        HeapData::Tuple(_) => "tuple"@,
        HeapData::Dict(_) => "dict"@,
        HeapData::Exception(_) => "Exception"@,
    }
}

/// Whether a reference points at a live entry whose payload is in
/// place.
pub open spec fn spec_present_in(entries: Seq<Option<HeapEntry>>, id: crate::value::HeapId) -> bool {
    id < entries.len() && entries[id as int] is Some && entries[id as int].unwrap().data is Some
}

/// The payload a reference points at (meaningful when present).
pub open spec fn spec_data_in(entries: Seq<Option<HeapEntry>>, id: crate::value::HeapId) -> HeapData {
    entries[id as int].unwrap().data.unwrap()
}

/// The type name of a value.  A reference whose slot is freed or
/// borrowed has no proper name; that case never arises in a healthy
/// run and renders as `<unknown>`.
pub open spec fn spec_value_type_name(entries: Seq<Option<HeapEntry>>, v: Value) -> Seq<char> {
    match v {
        Value::PyNone => "NoneType"@,
        Value::Undefined => "<unknown>"@,
        Value::Bool(_) => "bool"@,
        Value::Int(_) => "int"@,
        Value::Builtin(_) => "builtin_function_or_method"@,
        Value::Ref(id) => if spec_present_in(entries, id) {
            spec_data_type_name(spec_data_in(entries, id))
        } else {
            "<unknown>"@
        },
    }
}

/// The length of a payload: `None` for types without a length.
pub open spec fn spec_data_len(d: HeapData) -> Option<int> {
    match d {
        HeapData::Str(s) => Some(s@.len() as int),
        HeapData::Bytes(b) => Some(b@.len() as int),
        HeapData::List(items) => Some(items@.len() as int),
        HeapData::Tuple(items) => Some(items@.len() as int),
        HeapData::Dict(pairs) => Some(pairs@.len() as int),
        HeapData::Exception(_) => None,
    }
}

/// The truthiness of a payload: empty containers, strings and byte
/// strings are false.
pub open spec fn spec_data_bool(d: HeapData) -> bool {
    match spec_data_len(d) {
        Some(n) => n > 0,
        None => true,
    }
}

/// The truthiness of a value.
pub open spec fn spec_value_bool(entries: Seq<Option<HeapEntry>>, v: Value) -> bool {
    match v {
        Value::PyNone => false,
        Value::Undefined => false,
        Value::Bool(b) => b,
        Value::Int(i) => i != 0,
        Value::Builtin(_) => true,
        Value::Ref(id) => spec_present_in(entries, id) && spec_data_bool(
            spec_data_in(entries, id),
        ),
    }
}

/// The numeric content of a value: booleans count as 0 and 1, like
/// the source language's `bool` being a subtype of `int`.
pub open spec fn spec_numeric(v: Value) -> Option<int> {
    match v {
        Value::Int(i) => Some(i as int),
        Value::Bool(b) => Some(
            if b {
                1int
            } else {
                0int
            },
        ),
        _ => None,
    }
}

/// Structural equality of two values.  Numbers compare numerically
/// (`True == 1`), references compare their payloads, and values of
/// different kinds are never equal.  `fuel` bounds the recursion
/// through nested containers; a fuel of the heap's slot count covers
/// every acyclic structure.
pub open spec fn spec_eq_value(entries: Seq<Option<HeapEntry>>, a: Value, b: Value, fuel: nat)
    -> bool
    decreases fuel, 1nat, 0nat,
{
    if spec_numeric(a) is Some || spec_numeric(b) is Some {
        spec_numeric(a) is Some && spec_numeric(b) is Some && spec_numeric(a).unwrap()
            == spec_numeric(b).unwrap()
    } else {
        match (a, b) {
            (Value::PyNone, Value::PyNone) => true,
            (Value::Builtin(x), Value::Builtin(y)) => x == y,
            (Value::Ref(i), Value::Ref(j)) => if i == j {
                true
            } else if spec_present_in(entries, i) && spec_present_in(entries, j) {
                spec_eq_data(entries, spec_data_in(entries, i), spec_data_in(entries, j), fuel)
            } else {
                false
            },
            _ => false,
        }
    }
}

/// Structural equality of two payloads: byte-for-byte for strings and
/// byte strings, elementwise for lists and tuples (short-circuiting
/// on length), pairwise over the insertion sequences for dicts (see
/// `spec_eq_pairs`: insertion order counts), and kind plus arguments
/// for exceptions.  Payloads of different variants are never equal.
pub open spec fn spec_eq_data(entries: Seq<Option<HeapEntry>>, d1: HeapData, d2: HeapData, fuel: nat)
    -> bool
    decreases fuel, 0nat, 0nat,
{
    match (d1, d2) {
        (HeapData::Str(a), HeapData::Str(b)) => a@ == b@,
        (HeapData::Bytes(a), HeapData::Bytes(b)) => a@ == b@,
        (HeapData::List(a), HeapData::List(b)) => if fuel == 0 {
            false
        } else {
            spec_eq_items(entries, a@, b@, (fuel - 1) as nat)
        },
        (HeapData::Tuple(a), HeapData::Tuple(b)) => if fuel == 0 {
            false
        } else {
            spec_eq_items(entries, a@, b@, (fuel - 1) as nat)
        },
        (HeapData::Dict(a), HeapData::Dict(b)) => if fuel == 0 {
            false
        } else {
            spec_eq_pairs(entries, a@, b@, (fuel - 1) as nat)
        },
        (HeapData::Exception(a), HeapData::Exception(b)) => a.exc_type == b.exc_type
            && spec_eq_consts(a.args@, b.args@),
        _ => false,
    }
}

/// Elementwise equality of two value sequences.
pub open spec fn spec_eq_items(
    entries: Seq<Option<HeapEntry>>,
    a: Seq<Value>,
    b: Seq<Value>,
    fuel: nat,
) -> bool
    decreases fuel, 2nat, a.len(),
{
    if a.len() != b.len() {
        false
    } else if a.len() == 0 {
        true
    } else {
        spec_eq_value(entries, a[0], b[0], fuel) && spec_eq_items(
            entries,
            a.skip(1),
            b.skip(1),
            fuel,
        )
    }
}

/// Dict equality in this runtime is defined over the insertion
/// sequences: two dicts are equal exactly when their pairs match, key
/// and value, in the same order.  This is narrower than an
/// order-insensitive comparison: dicts holding the same bindings in
/// different insertion orders compare unequal here.
pub open spec fn spec_eq_pairs(
    entries: Seq<Option<HeapEntry>>,
    a: Seq<(Value, Value)>,
    b: Seq<(Value, Value)>,
    fuel: nat,
) -> bool
    decreases fuel, 2nat, a.len(),
{
    if a.len() != b.len() {
        false
    } else if a.len() == 0 {
        true
    } else {
        spec_eq_value(entries, a[0].0, b[0].0, fuel) && spec_eq_value(entries, a[0].1, b[0].1, fuel)
            && spec_eq_pairs(entries, a.skip(1), b.skip(1), fuel)
    }
}

/// Equality of constant sequences (exception arguments).
pub open spec fn spec_eq_consts(a: Seq<crate::value::Const>, b: Seq<crate::value::Const>) -> bool
    decreases a.len(),
{
    if a.len() != b.len() {
        false
    } else if a.len() == 0 {
        true
    } else {
        spec_eq_const(a[0], b[0]) && spec_eq_consts(a.skip(1), b.skip(1))
    }
}

/// Equality of two constants (strings by their text).
pub open spec fn spec_eq_const(a: crate::value::Const, b: crate::value::Const) -> bool {
    match (a, b) {
        (crate::value::Const::PyNone, crate::value::Const::PyNone) => true,
        (crate::value::Const::Bool(x), crate::value::Const::Bool(y)) => x == y,
        (crate::value::Const::Int(x), crate::value::Const::Int(y)) => x == y,
        (crate::value::Const::Str(x), crate::value::Const::Str(y)) => x@ == y@,
        _ => false,
    }
}

/// A copy of a literal constant that provably carries the same value.
pub fn clone_const(c: &crate::value::Const) -> (r: crate::value::Const)
    ensures
        spec_eq_const(r, *c),
{
    match c {
        crate::value::Const::PyNone => crate::value::Const::PyNone,
        crate::value::Const::Bool(b) => crate::value::Const::Bool(*b),
        crate::value::Const::Int(i) => crate::value::Const::Int(*i),
        crate::value::Const::Str(s) => crate::value::Const::Str(s.clone()),
    }
}

/// The truthiness of a value, executable form.
pub fn value_bool(heap: &Heap, v: &Value) -> (r: bool)
    ensures
        r == spec_value_bool(heap.entries@, *v),
{
    match v {
        Value::PyNone => false,
        Value::Undefined => false,
        Value::Bool(b) => *b,
        Value::Int(i) => *i != 0,
        Value::Builtin(_) => true,
        Value::Ref(id) => {
            if *id < heap.entries.len() {
                match &heap.entries[*id] {
                    Some(entry) => match &entry.data {
                        Some(d) => d.py_bool(heap),
                        None => false,
                    },
                    None => false,
                }
            } else {
                false
            }
        },
    }
}

/// The type name of a value, executable form.
pub fn value_type_name(heap: &Heap, v: &Value) -> (r: &'static str)
    ensures
        r@ == spec_value_type_name(heap.entries@, *v),
{
    match v {
        Value::PyNone => "NoneType",
        Value::Undefined => "<unknown>",
        Value::Bool(_) => "bool",
        Value::Int(_) => "int",
        Value::Builtin(_) => "builtin_function_or_method",
        Value::Ref(id) => {
            if *id < heap.entries.len() {
                match &heap.entries[*id] {
                    Some(entry) => match &entry.data {
                        Some(d) => d.py_type(heap),
                        None => "<unknown>",
                    },
                    None => "<unknown>",
                }
            } else {
                "<unknown>"
            }
        },
    }
}

/// Structural equality of two values, executable form.
pub fn eq_value(heap: &Heap, a: &Value, b: &Value, fuel: usize) -> (r: bool)
    ensures
        r == spec_eq_value(heap.entries@, *a, *b, fuel as nat),
    decreases fuel, 1nat, 0nat,
{
    match (a, b) {
        (Value::Int(x), Value::Int(y)) => *x == *y,
        (Value::Int(x), Value::Bool(y)) => *x == (if *y { 1i64 } else { 0i64 }),
        (Value::Bool(x), Value::Int(y)) => (if *x { 1i64 } else { 0i64 }) == *y,
        (Value::Bool(x), Value::Bool(y)) => *x == *y,
        (Value::PyNone, Value::PyNone) => true,
        (Value::Builtin(x), Value::Builtin(y)) => *x == *y,
        (Value::Ref(i), Value::Ref(j)) => {
            if *i == *j {
                true
            } else if *i < heap.entries.len() && *j < heap.entries.len() {
                let di = match &heap.entries[*i] {
                    Some(entry) => match &entry.data {
                        Some(d) => Some(d),
                        None => None,
                    },
                    None => None,
                };
                let dj = match &heap.entries[*j] {
                    Some(entry) => match &entry.data {
                        Some(d) => Some(d),
                        None => None,
                    },
                    None => None,
                };
                match (di, dj) {
                    (Some(d1), Some(d2)) => eq_data(heap, d1, d2, fuel),
                    _ => false,
                }
            } else {
                false
            }
        },
        _ => false,
    }
}

/// Structural equality of two payloads, executable form.
pub fn eq_data(heap: &Heap, d1: &HeapData, d2: &HeapData, fuel: usize) -> (r: bool)
    ensures
        r == spec_eq_data(heap.entries@, *d1, *d2, fuel as nat),
    decreases fuel, 0nat, 0nat,
{
    match (d1, d2) {
        (HeapData::Str(a), HeapData::Str(b)) => a.eq(b),
        (HeapData::Bytes(a), HeapData::Bytes(b)) => eq_bytes(a, b),
        (HeapData::List(a), HeapData::List(b)) => {
            if fuel == 0 {
                false
            } else {
                eq_items(heap, a, b, fuel - 1)
            }
        },
        (HeapData::Tuple(a), HeapData::Tuple(b)) => {
            if fuel == 0 {
                false
            } else {
                eq_items(heap, a, b, fuel - 1)
            }
        },
        (HeapData::Dict(a), HeapData::Dict(b)) => {
            if fuel == 0 {
                false
            } else {
                eq_pairs(heap, a, b, fuel - 1)
            }
        },
        (HeapData::Exception(a), HeapData::Exception(b)) => {
            let kinds = match (a.exc_type, b.exc_type) {
                (crate::exceptions::ExcType::ValueError, crate::exceptions::ExcType::ValueError) => true,
                (crate::exceptions::ExcType::TypeError, crate::exceptions::ExcType::TypeError) => true,
                (crate::exceptions::ExcType::NameError, crate::exceptions::ExcType::NameError) => true,
                (
                    crate::exceptions::ExcType::AttributeError,
                    crate::exceptions::ExcType::AttributeError,
                ) => true,
                (crate::exceptions::ExcType::IndexError, crate::exceptions::ExcType::IndexError) => true,
                (crate::exceptions::ExcType::KeyError, crate::exceptions::ExcType::KeyError) => true,
                _ => false,
            };
            kinds && eq_consts(&a.args, &b.args)
        },
        _ => false,
    }
}

/// Elementwise equality of two value vectors, executable form.
fn eq_items(heap: &Heap, a: &Vec<Value>, b: &Vec<Value>, fuel: usize) -> (r: bool)
    ensures
        r == spec_eq_items(heap.entries@, a@, b@, fuel as nat),
    decreases fuel, 2nat, 0nat,
{
    if a.len() != b.len() {
        return false;
    }
    let n = a.len();
    let mut i: usize = 0;
    proof {
        assert(a@.skip(0) =~= a@);
        assert(b@.skip(0) =~= b@);
    }
    while i < n
        invariant
            n == a@.len(),
            n == b@.len(),
            i <= n,
            spec_eq_items(heap.entries@, a@, b@, fuel as nat) == spec_eq_items(
                heap.entries@,
                a@.skip(i as int),
                b@.skip(i as int),
                fuel as nat,
            ),
        decreases n - i,
    {
        proof {
            assert(a@.skip(i as int)[0] == a@[i as int]);
            assert(b@.skip(i as int)[0] == b@[i as int]);
            assert(a@.skip(i as int).skip(1) =~= a@.skip(i + 1));
            assert(b@.skip(i as int).skip(1) =~= b@.skip(i + 1));
        }
        if !eq_value(heap, &a[i], &b[i], fuel) {
            return false;
        }
        i = i + 1;
    }
    proof {
        assert(a@.skip(n as int) =~= Seq::<Value>::empty());
        assert(b@.skip(n as int) =~= Seq::<Value>::empty());
    }
    true
}

/// Pairwise equality of two dict insertion sequences, executable form.
fn eq_pairs(heap: &Heap, a: &Vec<(Value, Value)>, b: &Vec<(Value, Value)>, fuel: usize) -> (r: bool)
    ensures
        r == spec_eq_pairs(heap.entries@, a@, b@, fuel as nat),
    decreases fuel, 2nat, 0nat,
{
    if a.len() != b.len() {
        return false;
    }
    let n = a.len();
    let mut i: usize = 0;
    proof {
        assert(a@.skip(0) =~= a@);
        assert(b@.skip(0) =~= b@);
    }
    while i < n
        invariant
            n == a@.len(),
            n == b@.len(),
            i <= n,
            spec_eq_pairs(heap.entries@, a@, b@, fuel as nat) == spec_eq_pairs(
                heap.entries@,
                a@.skip(i as int),
                b@.skip(i as int),
                fuel as nat,
            ),
        decreases n - i,
    {
        proof {
            assert(a@.skip(i as int)[0] == a@[i as int]);
            assert(b@.skip(i as int)[0] == b@[i as int]);
            assert(a@.skip(i as int).skip(1) =~= a@.skip(i + 1));
            assert(b@.skip(i as int).skip(1) =~= b@.skip(i + 1));
        }
        if !eq_value(heap, &a[i].0, &b[i].0, fuel) {
            return false;
        }
        if !eq_value(heap, &a[i].1, &b[i].1, fuel) {
            return false;
        }
        i = i + 1;
    }
    proof {
        assert(a@.skip(n as int) =~= Seq::<(Value, Value)>::empty());
        assert(b@.skip(n as int) =~= Seq::<(Value, Value)>::empty());
    }
    true
}

/// Byte-for-byte equality of two byte strings.
fn eq_bytes(a: &Vec<u8>, b: &Vec<u8>) -> (r: bool)
    ensures
        r == (a@ == b@),
{
    if a.len() != b.len() {
        proof {
            assert(a@.len() != b@.len());
        }
        return false;
    }
    let n = a.len();
    let mut i: usize = 0;
    while i < n
        invariant
            n == a@.len(),
            n == b@.len(),
            i <= n,
            forall|k: int| 0 <= k < i ==> a@[k] == b@[k],
        decreases n - i,
    {
        if a[i] != b[i] {
            return false;
        }
        i = i + 1;
    }
    proof {
        assert(a@ =~= b@);
    }
    true
}

/// Equality of two constant vectors, executable form.
pub fn eq_consts(a: &Vec<crate::value::Const>, b: &Vec<crate::value::Const>) -> (r: bool)
    ensures
        r == spec_eq_consts(a@, b@),
{
    if a.len() != b.len() {
        return false;
    }
    let n = a.len();
    let mut i: usize = 0;
    proof {
        assert(a@.skip(0) =~= a@);
        assert(b@.skip(0) =~= b@);
    }
    while i < n
        invariant
            n == a@.len(),
            n == b@.len(),
            i <= n,
            spec_eq_consts(a@, b@) == spec_eq_consts(a@.skip(i as int), b@.skip(i as int)),
        decreases n - i,
    {
        proof {
            assert(a@.skip(i as int)[0] == a@[i as int]);
            assert(b@.skip(i as int)[0] == b@[i as int]);
            assert(a@.skip(i as int).skip(1) =~= a@.skip(i + 1));
            assert(b@.skip(i as int).skip(1) =~= b@.skip(i + 1));
        }
        if !eq_const(&a[i], &b[i]) {
            return false;
        }
        i = i + 1;
    }
    proof {
        assert(a@.skip(n as int) =~= Seq::<crate::value::Const>::empty());
        assert(b@.skip(n as int) =~= Seq::<crate::value::Const>::empty());
    }
    true
}

/// Equality of two constants, executable form.
pub fn eq_const(a: &crate::value::Const, b: &crate::value::Const) -> (r: bool)
    ensures
        r == spec_eq_const(*a, *b),
{
    match (a, b) {
        (crate::value::Const::PyNone, crate::value::Const::PyNone) => true,
        (crate::value::Const::Bool(x), crate::value::Const::Bool(y)) => *x == *y,
        (crate::value::Const::Int(x), crate::value::Const::Int(y)) => *x == *y,
        (crate::value::Const::Str(x), crate::value::Const::Str(y)) => x.eq(y),
        _ => false,
    }
}

impl HeapData {
    /// The type name of this payload.  Infallible over the closed set
    /// of variants.
    pub fn py_type(&self, heap: &Heap) -> (r: &'static str)
        ensures
            r@ == spec_data_type_name(*self),
    {
        match self {
            HeapData::Str(_) => "str",
            HeapData::Bytes(_) => "bytes",
            HeapData::List(_) => "list",
            HeapData::Tuple(_) => "tuple",
            HeapData::Dict(_) => "dict",
            HeapData::Exception(_) => "Exception",
        }
    }

    /// The length of this payload; `None` for types without one.
    pub fn py_len(&self, heap: &Heap) -> (r: Option<usize>)
        ensures
            r is Some <==> spec_data_len(*self) is Some,
            r matches Some(n) ==> n as int == spec_data_len(*self).unwrap(),
    {
        match self {
            HeapData::Str(s) => Some(s.as_str().unicode_len()),
            HeapData::Bytes(b) => Some(b.len()),
            HeapData::List(items) => Some(items.len()),
            HeapData::Tuple(items) => Some(items.len()),
            HeapData::Dict(pairs) => Some(pairs.len()),
            HeapData::Exception(_) => None,
        }
    }

    /// The truthiness of this payload: false exactly for empty
    /// containers, strings and byte strings.
    pub fn py_bool(&self, heap: &Heap) -> (r: bool)
        ensures
            r == spec_data_bool(*self),
    {
        match self.py_len(heap) {
            Some(n) => n > 0,
            None => true,
        }
    }

    /// Structural equality with another payload; payloads of
    /// different variants are never equal.  The recursion fuel is one
    /// more than the heap's slot count — one level for the payloads
    /// themselves, one per slot a nested reference can pass through —
    /// which covers every acyclic structure, whether or not the
    /// payloads currently sit in a slot.  (The root level is unrolled
    /// here, so the count never needs to exceed the slot count.)
    pub fn py_eq(&self, other: &Self, heap: &Heap) -> (r: bool)
        ensures
            r == spec_eq_data(heap.entries@, *self, *other, (heap.entries@.len() + 1) as nat),
    {
        let fuel = heap.entries.len();
        match (self, other) {
            (HeapData::Str(a), HeapData::Str(b)) => a.eq(b),
            (HeapData::Bytes(a), HeapData::Bytes(b)) => eq_bytes(a, b),
            (HeapData::List(a), HeapData::List(b)) => eq_items(heap, a, b, fuel),
            (HeapData::Tuple(a), HeapData::Tuple(b)) => eq_items(heap, a, b, fuel),
            (HeapData::Dict(a), HeapData::Dict(b)) => eq_pairs(heap, a, b, fuel),
            (HeapData::Exception(a), HeapData::Exception(b)) => {
                let kinds = match (a.exc_type, b.exc_type) {
                    (crate::exceptions::ExcType::ValueError, crate::exceptions::ExcType::ValueError) => true,
                    (crate::exceptions::ExcType::TypeError, crate::exceptions::ExcType::TypeError) => true,
                    (crate::exceptions::ExcType::NameError, crate::exceptions::ExcType::NameError) => true,
                    (
                        crate::exceptions::ExcType::AttributeError,
                        crate::exceptions::ExcType::AttributeError,
                    ) => true,
                    (crate::exceptions::ExcType::IndexError, crate::exceptions::ExcType::IndexError) => true,
                    (crate::exceptions::ExcType::KeyError, crate::exceptions::ExcType::KeyError) => true,
                    _ => false,
                };
                kinds && eq_consts(&a.args, &b.args)
            },
            _ => false,
        }
    }
}


} // verus!
