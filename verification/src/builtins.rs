//! The statically known builtin callables and their implementations.
//!
//! `filter` and `map` return lists rather than lazy iterators — a
//! known simplification of the source language.  Iteration itself is
//! also materialised: an iterable's elements are fetched up front,
//! which is indistinguishable here because no builtin mutates the
//! iterable it walks.

use vstd::prelude::*;

use crate::args::ArgValues;
use crate::exceptions::{simple_exc, simple_exc_string, spec_simple_exc, ExcType, RunError};
use crate::heap::{Heap, HeapData};
use crate::ops::{clone_value, drop_value, drop_values, keeps_payloads, only_incs,
    preserves_live, releases_only};
use crate::pydata::{spec_data_in, spec_numeric, spec_present_in, spec_value_bool,
    spec_value_type_name, value_bool, value_type_name};
use crate::value::Value;

verus! {

/// Identifier of a builtin function.  `Value::Builtin` carries one of
/// these; the prepare stage resolves call targets to them by name.
#[derive(Clone, Copy, Debug, PartialEq, Eq, Structural)]
pub enum Builtins {
    Print,
    Range,
    Len,
    Any,
    Filter,
    MapFn,
    Sum,
}

impl Builtins {
    /// The builtin a name denotes, if any.
    pub open spec fn spec_find(name: Seq<char>) -> Option<Builtins> {
        if name == "print"@ {
            Some(Builtins::Print)
        } else if name == "range"@ {
            Some(Builtins::Range)
        } else if name == "len"@ {
            Some(Builtins::Len)
        } else if name == "any"@ {
            Some(Builtins::Any)
        } else if name == "filter"@ {
            Some(Builtins::Filter)
        } else if name == "map"@ {
            Some(Builtins::MapFn)
        } else if name == "sum"@ {
            Some(Builtins::Sum)
        } else {
            None
        }
    }

    /// Resolves a name to a builtin.
    pub fn find(name: &String) -> (r: Option<Builtins>)
        ensures
            r == Builtins::spec_find(name@),
    {
        let print_s: String = String::from_str("print");
        let range_s: String = String::from_str("range");
        let len_s: String = String::from_str("len");
        let any_s: String = String::from_str("any");
        let filter_s: String = String::from_str("filter");
        let map_s: String = String::from_str("map");
        let sum_s: String = String::from_str("sum");
        if name.eq(&print_s) {
            Some(Builtins::Print)
        } else if name.eq(&range_s) {
            Some(Builtins::Range)
        } else if name.eq(&len_s) {
            Some(Builtins::Len)
        } else if name.eq(&any_s) {
            Some(Builtins::Any)
        } else if name.eq(&filter_s) {
            Some(Builtins::Filter)
        } else if name.eq(&map_s) {
            Some(Builtins::MapFn)
        } else if name.eq(&sum_s) {
            Some(Builtins::Sum)
        } else {
            None
        }
    }
}

/// Whether a value can be iterated: a reference to a list, tuple,
/// string or byte string.
pub open spec fn spec_iterable(entries: Seq<Option<crate::heap::HeapEntry>>, v: Value) -> bool {
    v is Ref && spec_present_in(entries, v->Ref_0) && (match spec_data_in(entries, v->Ref_0) {
        HeapData::List(_) => true,
        HeapData::Tuple(_) => true,
        HeapData::Str(_) => true,
        HeapData::Bytes(_) => true,
        _ => false,
    })
}

/// Materialises an iterable's elements as owned values: list and
/// tuple elements gain one reference-count unit each, string
/// characters become fresh one-character strings, bytes become
/// integers.  A non-iterable raises `TypeError`.  The iterable itself
/// is not consumed.
pub fn iter_values(heap: &mut Heap, v: &Value) -> (r: Result<Vec<Value>, RunError>)
    requires
        old(heap).wf(),
    ensures
        final(heap).wf(),
        preserves_live(*old(heap), *final(heap)),
        !spec_iterable(old(heap).entries@, *v) ==> (r matches Err(e) && spec_simple_exc(
            e,
            ExcType::TypeError,
            seq!['\''] + spec_value_type_name(old(heap).entries@, *v)
                + "' object is not iterable"@,
        ) && *final(heap) == *old(heap)),
        spec_iterable(old(heap).entries@, *v) ==> (match spec_data_in(
            old(heap).entries@,
            v->Ref_0,
        ) {
            HeapData::List(items) => (r matches Ok(vs) && vs@ == items@ && only_incs(
                *old(heap),
                *final(heap),
            ) && ((forall|k: int| 0 <= k < items@.len() ==> !((#[trigger] items@[k]) is Ref))
                ==> *final(heap) == *old(heap))),
            HeapData::Tuple(items) => (r matches Ok(vs) && vs@ == items@ && only_incs(
                *old(heap),
                *final(heap),
            ) && ((forall|k: int| 0 <= k < items@.len() ==> !((#[trigger] items@[k]) is Ref))
                ==> *final(heap) == *old(heap))),
            HeapData::Str(s) => (r matches Ok(vs) && vs@.len() == s@.len() && (forall|k: int|
                0 <= k < vs@.len() ==> (#[trigger] vs@[k]) is Ref && final(heap).spec_present(
                    vs@[k]->Ref_0,
                ) && final(heap).spec_rc(vs@[k]->Ref_0) == 1 && (final(heap).spec_data(vs@[k]->Ref_0) matches
                    Some(HeapData::Str(c)) && c@ == seq![s@[k]]))),
            HeapData::Bytes(b) => (r matches Ok(vs) && vs@.len() == b@.len() && (forall|k: int|
                0 <= k < vs@.len() ==> vs@[k] == Value::Int(b@[k] as i64)) && *final(heap) == *old(
                heap,
            )),
            _ => false,
        }),
{
    let not_iterable = match v {
        Value::Ref(id) => {
            if *id < heap.entries.len() {
                match &heap.entries[*id] {
                    Some(entry) => match &entry.data {
                        Some(d) => match d {
                            HeapData::List(_) => false,
                            HeapData::Tuple(_) => false,
                            HeapData::Str(_) => false,
                            HeapData::Bytes(_) => false,
                            _ => true,
                        },
                        None => true,
                    },
                    None => true,
                }
            } else {
                true
            }
        },
        _ => true,
    };
    if not_iterable {
        let mut msg = String::new();
        msg.append("'");
        msg.append(value_type_name(heap, v));
        msg.append("' object is not iterable");
        proof {
            reveal_strlit("'");
            assert(msg@ =~= seq!['\''] + spec_value_type_name(old(heap).entries@, *v)
                + "' object is not iterable"@);
        }
        return Err(simple_exc_string(ExcType::TypeError, msg));
    }
    let id = match v {
        Value::Ref(id) => *id,
        _ => unreached(),
    };
    let kind: u8 = match heap.get(id) {
        HeapData::List(_) => 0,
        HeapData::Tuple(_) => 1,
        HeapData::Str(_) => 2,
        HeapData::Bytes(_) => 3,
        _ => unreached(),
    };
    let mut out: Vec<Value> = Vec::new();
    if kind == 0 || kind == 1 {
        let n = match heap.get(id) {
            HeapData::List(items) => items.len(),
            HeapData::Tuple(items) => items.len(),
            _ => unreached(),
        };
        let ghost items0 = (match old(heap).spec_data(id).unwrap() {
            HeapData::List(items) => items,
            HeapData::Tuple(items) => items,
            _ => old(heap).spec_data(id).unwrap()->List_0,
        })@;
        let mut i: usize = 0;
        while i < n
            invariant
                heap.wf(),
                only_incs(*old(heap), *heap),
                heap.spec_present(id),
                heap.spec_data(id) == old(heap).spec_data(id),
                (heap.spec_data(id).unwrap() is List || heap.spec_data(id).unwrap() is Tuple),
                items0 == (match heap.spec_data(id).unwrap() {
                    HeapData::List(items) => items,
                    HeapData::Tuple(items) => items,
                    _ => heap.spec_data(id).unwrap()->List_0,
                })@,
                n == items0.len(),
                i <= n,
                out@ == items0.take(i as int),
                (forall|k: int| 0 <= k < items0.len() ==> !((#[trigger] items0[k]) is Ref))
                    ==> *heap == *old(heap),
            decreases n - i,
        {
            let item = match heap.get(id) {
                HeapData::List(items) => items[i],
                HeapData::Tuple(items) => items[i],
                _ => unreached(),
            };
            let ghost mid = *heap;
            let c = clone_value(heap, &item);
            out.push(c);
            proof {
                crate::ops::lemma_only_incs_trans(*old(heap), mid, *heap);
                assert(out@ =~= items0.take(i + 1));
            }
            i = i + 1;
        }
        proof {
            assert(items0.take(n as int) =~= items0);
        }
        Ok(out)
    } else if kind == 2 {
        let n = match heap.get(id) {
            HeapData::Str(s) => s.as_str().unicode_len(),
            _ => unreached(),
        };
        let ghost s0 = old(heap).spec_data(id).unwrap()->Str_0@;
        let mut i: usize = 0;
        while i < n
            invariant
                heap.wf(),
                preserves_live(*old(heap), *heap),
                heap.spec_present(id),
                heap.spec_data(id) == old(heap).spec_data(id),
                heap.spec_data(id).unwrap() is Str,
                s0 == heap.spec_data(id).unwrap()->Str_0@,
                n == s0.len(),
                i <= n,
                out@.len() == i as int,
                forall|k: int|
                    0 <= k < i ==> (#[trigger] out@[k]) is Ref && heap.spec_present(
                        out@[k]->Ref_0,
                    ) && heap.spec_rc(out@[k]->Ref_0) == 1 && (heap.spec_data(out@[k]->Ref_0)
                        matches Some(HeapData::Str(c)) && c@ == seq![s0[k]]),
            decreases n - i,
        {
            let ch = match heap.get(id) {
                HeapData::Str(s) => s.as_str().get_char(i),
                _ => unreached(),
            };
            let mut one = String::new();
            crate::fmt::push_char(&mut one, ch);
            proof {
                assert(one@ =~= seq![s0[i as int]]);
            }
            let rid = heap.allocate(HeapData::Str(one));
            out.push(Value::Ref(rid));
            i = i + 1;
        }
        Ok(out)
    } else {
        let n = match heap.get(id) {
            HeapData::Bytes(b) => b.len(),
            _ => unreached(),
        };
        let ghost b0 = old(heap).spec_data(id).unwrap()->Bytes_0@;
        let mut i: usize = 0;
        while i < n
            invariant
                heap.wf(),
                *heap == *old(heap),
                heap.spec_present(id),
                heap.spec_data(id).unwrap() is Bytes,
                b0 == heap.spec_data(id).unwrap()->Bytes_0@,
                n == b0.len(),
                i <= n,
                out@.len() == i as int,
                forall|k: int| 0 <= k < i ==> out@[k] == Value::Int(b0[k] as i64),
            decreases n - i,
        {
            let by = match heap.get(id) {
                HeapData::Bytes(b) => b[i],
                _ => unreached(),
            };
            out.push(Value::Int(by as i64));
            i = i + 1;
        }
        Ok(out)
    }
}

/// The `len` builtin: the length of its single argument, or a
/// `TypeError` for a value without a length.
pub fn builtin_len(heap: &mut Heap, args: ArgValues) -> (r: Result<Value, RunError>)
    requires
        old(heap).wf(),
    ensures
        final(heap).wf(),
        releases_only(*old(heap), *final(heap)),
        (args.spec_args().len() == 1 && args.spec_kwargs().len() == 0) ==> (match args.spec_args()[0] {
            Value::Ref(id) => {
                if old(heap).spec_present(id) {
                    match crate::pydata::spec_data_len(old(heap).spec_data(id).unwrap()) {
                        Some(n) => n <= 0x7fff_ffff_ffff_ffff ==> r == Ok::<Value, RunError>(
                            Value::Int(n as i64),
                        ),
                        None => (r matches Err(e) && spec_simple_exc(
                            e,
                            ExcType::TypeError,
                            "object of type '"@ + spec_value_type_name(
                                old(heap).entries@,
                                args.spec_args()[0],
                            ) + "' has no len()"@,
                        )),
                    }
                } else {
                    r is Err
                }
            },
            _ => (r matches Err(e) && spec_simple_exc(
                e,
                ExcType::TypeError,
                "object of type '"@ + spec_value_type_name(
                    old(heap).entries@,
                    args.spec_args()[0],
                ) + "' has no len()"@,
            )),
        }),
{
    let v = match args.get_one_arg("len", heap) {
        Ok(v) => v,
        Err(e) => {
            return Err(e);
        },
    };
    let measured: Option<usize> = match &v {
        Value::Ref(id) => {
            if *id < heap.entries.len() {
                match &heap.entries[*id] {
                    Some(entry) => match &entry.data {
                        Some(d) => d.py_len(heap),
                        None => None,
                    },
                    None => None,
                }
            } else {
                None
            }
        },
        _ => None,
    };
    match measured {
        Some(n) => {
            if (n as u64) <= 0x7fff_ffff_ffff_ffffu64 {
                let ghost mid = *heap;
                drop_value(heap, &v);
                proof {
                    crate::ops::lemma_releases_only_trans(*old(heap), mid, *heap);
                }
                Ok(Value::Int(n as i64))
            } else {
                let ghost mid = *heap;
                drop_value(heap, &v);
                proof {
                    crate::ops::lemma_releases_only_trans(*old(heap), mid, *heap);
                }
                Err(crate::exceptions::simple_internal("length exceeds the integer range"))
            }
        },
        None => {
            let mut msg = String::new();
            msg.append("object of type '");
            msg.append(value_type_name(heap, &v));
            msg.append("' has no len()");
            proof {
                reveal_strlit("'");
            }
            let e = simple_exc_string(ExcType::TypeError, msg);
            let ghost mid = *heap;
            drop_value(heap, &v);
            proof {
                crate::ops::lemma_releases_only_trans(*old(heap), mid, *heap);
            }
            Err(e)
        },
    }
}

/// The index of the first non-numeric value of `vs` (meaningful when
/// one exists).
pub open spec fn spec_first_non_numeric(vs: Seq<Value>) -> int
    decreases vs.len(),
{
    if vs.len() == 0 {
        0
    } else if spec_numeric(vs[0]) is None {
        0
    } else {
        1 + spec_first_non_numeric(vs.skip(1))
    }
}

/// The elements of `range(start, stop)`: the integers from `start` up
/// to but excluding `stop`.
pub open spec fn spec_range_items(start: int, stop: int) -> Seq<Value> {
    Seq::new(
        (if stop > start {
            stop - start
        } else {
            0
        }) as nat,
        |i: int| Value::Int((start + i) as i64),
    )
}

/// The `range` builtin, materialised as a list of integers:
/// `range(stop)` or `range(start, stop)`.  A non-integer argument
/// raises `TypeError`.
pub fn builtin_range(heap: &mut Heap, args: ArgValues) -> (r: Result<Value, RunError>)
    requires
        old(heap).wf(),
    ensures
        final(heap).wf(),
        (1 <= args.spec_args().len() <= 2 && args.spec_kwargs().len() == 0 && (forall|k: int|
            0 <= k < args.spec_args().len() ==> spec_numeric(#[trigger] args.spec_args()[k])
                is Some)) ==> {
            let start = if args.spec_args().len() == 2 {
                spec_numeric(args.spec_args()[0]).unwrap()
            } else {
                0int
            };
            let stop = if args.spec_args().len() == 2 {
                spec_numeric(args.spec_args()[1]).unwrap()
            } else {
                spec_numeric(args.spec_args()[0]).unwrap()
            };
            &&& r matches Ok(Value::Ref(rid))
            &&& crate::ops::fresh_alloc_at(*old(heap), *final(heap), rid)
            &&& final(heap).spec_data(rid) matches Some(HeapData::List(items))
            &&& items@ == spec_range_items(start, stop)
        },
        // A non-integer argument is rejected with the exact message
        // (naming the first offending argument).
        ((1 <= args.spec_args().len() <= 2 && args.spec_kwargs().len() == 0) && (exists|k: int|
            0 <= k < args.spec_args().len() && spec_numeric(#[trigger] args.spec_args()[k])
                is None)) ==> (r matches Err(e) && spec_simple_exc(
            e,
            ExcType::TypeError,
            seq!['\''] + spec_value_type_name(
                old(heap).entries@,
                args.spec_args()[spec_first_non_numeric(args.spec_args())],
            ) + "' object cannot be interpreted as an integer"@,
        )),
{
    let (first, second) = match args.get_one_two_args("range", heap) {
        Ok(p) => p,
        Err(e) => {
            return Err(e);
        },
    };
    let (start, stop): (i64, i64) = match second {
        Some(s) => {
            match (crate::index::as_numeric(&first), crate::index::as_numeric(&s)) {
                (Some(a), Some(b)) => (a, b),
                _ => {
                    let e = if crate::index::as_numeric(&first).is_none() {
                        proof {
                            assert(spec_first_non_numeric(args.spec_args()) == 0);
                        }
                        range_type_error(heap, &first)
                    } else {
                        proof {
                            assert(args.spec_args().skip(1)[0] == args.spec_args()[1]);
                            assert(spec_first_non_numeric(args.spec_args().skip(1)) == 0);
                            assert(spec_first_non_numeric(args.spec_args()) == 1);
                        }
                        range_type_error(heap, &s)
                    };
                    drop_value(heap, &first);
                    let ghost mid = *heap;
                    drop_value(heap, &s);
                    return Err(e);
                },
            }
        },
        None => {
            match crate::index::as_numeric(&first) {
                Some(b) => (0, b),
                None => {
                    proof {
                        assert(spec_first_non_numeric(args.spec_args()) == 0);
                    }
                    let e = range_type_error(heap, &first);
                    drop_value(heap, &first);
                    return Err(e);
                },
            }
        },
    };
    let mut items: Vec<Value> = Vec::new();
    let mut cur: i64 = start;
    while cur < stop
        invariant
            start <= cur,
            cur <= stop || cur == start,
            items@ == spec_range_items(start as int, cur as int),
        decreases stop - cur,
    {
        items.push(Value::Int(cur));
        proof {
            assert(items@ =~= spec_range_items(start as int, (cur + 1) as int));
        }
        cur = cur + 1;
    }
    proof {
        if !(start < stop) {
            assert(items@ =~= spec_range_items(start as int, stop as int));
        }
    }
    let rid = heap.allocate(HeapData::List(items));
    Ok(Value::Ref(rid))
}

/// The `TypeError` for a non-integer `range` argument.
fn range_type_error(heap: &Heap, v: &Value) -> (e: RunError)
    ensures
        spec_simple_exc(
            e,
            ExcType::TypeError,
            seq!['\''] + spec_value_type_name(heap.entries@, *v)
                + "' object cannot be interpreted as an integer"@,
        ),
{
    let mut msg = String::new();
    msg.append("'");
    msg.append(value_type_name(heap, v));
    msg.append("' object cannot be interpreted as an integer");
    proof {
        reveal_strlit("'");
        assert(msg@ =~= seq!['\''] + spec_value_type_name(heap.entries@, *v)
            + "' object cannot be interpreted as an integer"@);
    }
    simple_exc_string(ExcType::TypeError, msg)
}

/// Whether some element of `items` is truthy.
pub open spec fn spec_any_items(
    entries: Seq<Option<crate::heap::HeapEntry>>,
    items: Seq<Value>,
) -> bool {
    exists|k: int| 0 <= k < items.len() && spec_value_bool(entries, #[trigger] items[k])
}

/// Truthiness only reads a value's payload, so a heap change that
/// keeps every payload keeps every truthiness.
proof fn lemma_value_bool_stable(pre: Heap, post: Heap, v: Value)
    requires
        only_incs(pre, post),
    ensures
        spec_value_bool(post.entries@, v) == spec_value_bool(pre.entries@, v),
{
    match v {
        Value::Ref(id) => {
            if id < pre.entries@.len() {
                assert(post.entries@[id as int] is Some <==> pre.entries@[id as int] is Some);
            }
        },
        _ => {},
    }
}

/// The `any` builtin: `True` when some element of the iterable is
/// truthy, `False` for an empty iterable; short-circuits on the first
/// truthy element, reading the iterable in place.
#[verifier::loop_isolation(false)]
pub fn builtin_any(heap: &mut Heap, args: ArgValues) -> (r: Result<Value, RunError>)
    requires
        old(heap).wf(),
    ensures
        final(heap).wf(),
        // `any` only reads: its single heap effect is releasing the
        // argument's ownership unit.
        releases_only(*old(heap), *final(heap)),
        (args.spec_args().len() == 1 && args.spec_kwargs().len() == 0 && spec_iterable(
            old(heap).entries@,
            args.spec_args()[0],
        )) ==> (match spec_data_in(old(heap).entries@, args.spec_args()[0]->Ref_0) {
            HeapData::List(items) => r == Ok::<Value, RunError>(
                Value::Bool(spec_any_items(old(heap).entries@, items@)),
            ),
            HeapData::Tuple(items) => r == Ok::<Value, RunError>(
                Value::Bool(spec_any_items(old(heap).entries@, items@)),
            ),
            HeapData::Str(s) => r == Ok::<Value, RunError>(Value::Bool(s@.len() > 0)),
            HeapData::Bytes(b) => r == Ok::<Value, RunError>(
                Value::Bool(exists|k: int| 0 <= k < b@.len() && b@[k] != 0),
            ),
            _ => true,
        }),
        (args.spec_args().len() == 1 && args.spec_kwargs().len() == 0 && !spec_iterable(
            old(heap).entries@,
            args.spec_args()[0],
        )) ==> r is Err,
{
    let v = match args.get_one_arg("any", heap) {
        Ok(v) => v,
        Err(e) => {
            return Err(e);
        },
    };
    let not_iterable = match &v {
        Value::Ref(id) => {
            if *id < heap.entries.len() {
                match &heap.entries[*id] {
                    Some(entry) => match &entry.data {
                        Some(d) => match d {
                            HeapData::List(_) => false,
                            HeapData::Tuple(_) => false,
                            HeapData::Str(_) => false,
                            HeapData::Bytes(_) => false,
                            _ => true,
                        },
                        None => true,
                    },
                    None => true,
                }
            } else {
                true
            }
        },
        _ => true,
    };
    if not_iterable {
        let mut msg = String::new();
        msg.append("'");
        msg.append(value_type_name(heap, &v));
        msg.append("' object is not iterable");
        proof {
            reveal_strlit("'");
        }
        let e = simple_exc_string(ExcType::TypeError, msg);
        let ghost mid = *heap;
        drop_value(heap, &v);
        proof {
            crate::ops::lemma_releases_only_trans(*old(heap), mid, *heap);
        }
        return Err(e);
    }
    let id = match &v {
        Value::Ref(id) => *id,
        _ => unreached(),
    };
    // Walk the payload in place, stopping at the first truthy
    // element: nothing here changes the heap.
    let found: bool = match heap.get(id) {
        HeapData::Str(s) => !s.as_str().is_empty(),
        HeapData::Bytes(b) => {
            let n = b.len();
            let mut i: usize = 0;
            let mut hit = false;
            while i < n && !hit
                invariant
                    n == b@.len(),
                    i <= n,
                    hit ==> i > 0 && b@[i - 1] != 0,
                    !hit ==> (forall|k: int| 0 <= k < i ==> b@[k] == 0),
                decreases n - i,
            {
                if b[i] != 0 {
                    hit = true;
                }
                i = i + 1;
            }
            hit
        },
        HeapData::List(items) => any_truthy(heap, items),
        HeapData::Tuple(items) => any_truthy(heap, items),
        _ => unreached(),
    };
    let ghost mid = *heap;
    drop_value(heap, &v);
    proof {
        crate::ops::lemma_releases_only_trans(*old(heap), mid, *heap);
    }
    Ok(Value::Bool(found))
}

/// Whether some element of `items` is truthy, stopping at the first
/// hit.
fn any_truthy(heap: &Heap, items: &Vec<Value>) -> (r: bool)
    ensures
        r == spec_any_items(heap.entries@, items@),
{
    let n = items.len();
    let mut i: usize = 0;
    let mut hit = false;
    while i < n && !hit
        invariant
            n == items@.len(),
            i <= n,
            hit ==> i > 0 && spec_value_bool(heap.entries@, items@[i - 1]),
            !hit ==> (forall|k: int|
                0 <= k < i ==> !spec_value_bool(heap.entries@, #[trigger] items@[k])),
        decreases n - i,
    {
        if value_bool(heap, &items[i]) {
            hit = true;
        }
        i = i + 1;
    }
    hit
}

/// The left fold of wrapping addition over numeric elements: `Err`
/// carries the first non-numeric element.
pub open spec fn spec_sum_fold(items: Seq<Value>, acc: i64) -> Result<i64, Value>
    decreases items.len(),
{
    if items.len() == 0 {
        Ok(acc)
    } else {
        match spec_numeric(items[0]) {
            Some(k) => spec_sum_fold(items.skip(1), acc.wrapping_add(k as i64)),
            None => Err(items[0]),
        }
    }
}

/// The message of the error `sum` raises for string elements.
pub open spec fn spec_cant_sum_strings() -> Seq<char> {
    "sum() can't sum strings [use ''.join(seq) instead]"@
}

/// The `sum` builtin: folds `+` over the iterable from the left,
/// starting from `start` (default 0).  A string start, or a string
/// element reached by the fold, is rejected with the dedicated
/// `TypeError`; any other element that does not add to the integer
/// accumulator reports the unsupported pairing.
pub fn builtin_sum(heap: &mut Heap, args: ArgValues) -> (r: Result<Value, RunError>)
    requires
        old(heap).wf(),
    ensures
        final(heap).wf(),
        // With the default start, the result over a list or tuple is
        // the fold itself (or the fold's error).
        (args.spec_args().len() == 1 && args.spec_kwargs().len() == 0 && spec_iterable(
            old(heap).entries@,
            args.spec_args()[0],
        )) ==> (match spec_data_in(old(heap).entries@, args.spec_args()[0]->Ref_0) {
            HeapData::List(items) => spec_sum_result_ok(old(heap).entries@, items@, r),
            HeapData::Tuple(items) => spec_sum_result_ok(old(heap).entries@, items@, r),
            _ => true,
        }),
        // An explicit integer start folds from that value.
        (args.spec_args().len() == 2 && args.spec_kwargs().len() == 0 && spec_iterable(
            old(heap).entries@,
            args.spec_args()[0],
        ) && args.spec_args()[1] is Int) ==> (match spec_data_in(
            old(heap).entries@,
            args.spec_args()[0]->Ref_0,
        ) {
            HeapData::List(items) => spec_sum_result_from(
                old(heap).entries@,
                items@,
                args.spec_args()[1]->Int_0,
                r,
            ),
            HeapData::Tuple(items) => spec_sum_result_from(
                old(heap).entries@,
                items@,
                args.spec_args()[1]->Int_0,
                r,
            ),
            _ => true,
        }),
        // A string start is rejected outright.
        (args.spec_args().len() == 2 && args.spec_kwargs().len() == 0 && args.spec_args()[1]
            is Ref && spec_present_in(old(heap).entries@, args.spec_args()[1]->Ref_0)
            && spec_data_in(old(heap).entries@, args.spec_args()[1]->Ref_0) is Str) ==> (r matches
            Err(e) && spec_simple_exc(e, ExcType::TypeError, spec_cant_sum_strings())),
        // A purely numeric sum only releases what it consumed: it
        // creates no payload and changes none.
        ((args.spec_args().len() == 1 || (args.spec_args().len() == 2 && args.spec_args()[1]
            is Int)) && args.spec_kwargs().len() == 0 && spec_iterable(
            old(heap).entries@,
            args.spec_args()[0],
        ) && (match spec_data_in(old(heap).entries@, args.spec_args()[0]->Ref_0) {
            HeapData::List(items) => forall|k: int|
                0 <= k < items@.len() ==> (#[trigger] items@[k]) is Int,
            HeapData::Tuple(items) => forall|k: int|
                0 <= k < items@.len() ==> (#[trigger] items@[k]) is Int,
            _ => false,
        })) ==> releases_only(*old(heap), *final(heap)),
{
    let (iterable, start) = match args.get_one_two_args("sum", heap) {
        Ok(p) => p,
        Err(e) => {
            return Err(e);
        },
    };
    // A string start value is rejected outright.
    let start_is_str = match &start {
        Some(Value::Ref(id)) => {
            if *id < heap.entries.len() {
                match &heap.entries[*id] {
                    Some(entry) => match &entry.data {
                        Some(HeapData::Str(_)) => true,
                        _ => false,
                    },
                    None => false,
                }
            } else {
                false
            }
        },
        _ => false,
    };
    if start_is_str {
        let e = simple_exc(ExcType::TypeError, "sum() can't sum strings [use ''.join(seq) instead]");
        drop_value(heap, &iterable);
        match start {
            Some(s) => drop_value(heap, &s),
            None => (),
        }
        return Err(e);
    }
    let vs = match iter_values(heap, &iterable) {
        Ok(vs) => vs,
        Err(e) => {
            drop_value(heap, &iterable);
            match start {
                Some(s) => drop_value(heap, &s),
                None => (),
            }
            return Err(e);
        },
    };
    let mut acc: Value = match start {
        Some(s) => s,
        None => Value::Int(0),
    };
    let ghost h1 = *heap;
    let ghost exact = acc is Int;
    let ghost a0: i64 = if acc is Int {
        acc->Int_0
    } else {
        0i64
    };
    let n = vs.len();
    let mut i: usize = 0;
    let mut failed: Option<RunError> = None;
    proof {
        assert(vs@.skip(0) =~= vs@);
    }
    while i < n
        invariant
            heap.wf(),
            n == vs@.len(),
            i <= n,
            exact && failed is None ==> {
                &&& *heap == h1
                &&& acc matches Value::Int(a)
                &&& spec_sum_fold(vs@, a0) == spec_sum_fold(vs@.skip(i as int), a)
            },
            exact && failed is Some ==> {
                &&& *heap == h1
                &&& spec_sum_fold(vs@, a0) matches Err(bad)
                &&& ((bad is Ref && spec_present_in(h1.entries@, bad->Ref_0) && spec_data_in(
                    h1.entries@,
                    bad->Ref_0,
                ) is Str) ==> spec_simple_exc(
                    failed.unwrap(),
                    ExcType::TypeError,
                    spec_cant_sum_strings(),
                ))
            },
        decreases n - i,
    {
        if failed.is_none() {
            let item = vs[i];
            proof {
                assert(vs@.skip(i as int)[0] == vs@[i as int]);
                assert(vs@.skip(i as int).skip(1) =~= vs@.skip(i + 1));
            }
            match (crate::index::as_numeric(&acc), crate::index::as_numeric(&item)) {
                (Some(a), Some(b)) => {
                    acc = Value::Int(a.wrapping_add(b));
                },
                _ => {
                    match crate::operators::value_add(heap, &acc, &item) {
                        Ok(Some(newv)) => {
                            drop_value(heap, &acc);
                            acc = newv;
                        },
                        Ok(None) => {
                            failed = Some(sum_add_error(heap, &acc, &item));
                        },
                        Err(e) => {
                            failed = Some(e);
                        },
                    }
                },
            }
        }
        i = i + 1;
    }
    proof {
        assert(vs@.skip(n as int) =~= Seq::<Value>::empty());
    }
    let ghost numeric = (args.spec_args().len() == 1 || (args.spec_args().len() == 2
        && args.spec_args()[1] is Int)) && args.spec_kwargs().len() == 0 && spec_iterable(
        old(heap).entries@,
        args.spec_args()[0],
    ) && (match spec_data_in(old(heap).entries@, args.spec_args()[0]->Ref_0) {
        HeapData::List(items) => forall|k: int|
            0 <= k < items@.len() ==> (#[trigger] items@[k]) is Int,
        HeapData::Tuple(items) => forall|k: int|
            0 <= k < items@.len() ==> (#[trigger] items@[k]) is Int,
        _ => false,
    });
    proof {
        if numeric {
            assert(*heap == *old(heap));
            crate::ops::lemma_releases_only_refl(*old(heap));
        }
    }
    let ghost hA = *heap;
    drop_values(heap, &vs);
    proof {
        if numeric {
            crate::ops::lemma_releases_only_trans(*old(heap), hA, *heap);
        }
    }
    let ghost hB = *heap;
    drop_value(heap, &iterable);
    proof {
        if numeric {
            crate::ops::lemma_releases_only_trans(*old(heap), hB, *heap);
        }
    }
    match failed {
        Some(e) => {
            let ghost hC = *heap;
            drop_value(heap, &acc);
            proof {
                if numeric {
                    crate::ops::lemma_releases_only_trans(*old(heap), hC, *heap);
                }
            }
            Err(e)
        },
        None => Ok(acc),
    }
}

/// What `sum` returns over the elements `items` folded from `start`:
/// the wrapped fold when every element is numeric, the dedicated
/// string error for a string element, and the unsupported-pairing
/// error otherwise.
pub open spec fn spec_sum_result_from(
    entries: Seq<Option<crate::heap::HeapEntry>>,
    items: Seq<Value>,
    start: i64,
    r: Result<Value, RunError>,
) -> bool {
    match spec_sum_fold(items, start) {
        Ok(v) => r == Ok::<Value, RunError>(Value::Int(v)),
        Err(bad) => {
            &&& r is Err
            &&& (bad is Ref && spec_present_in(entries, bad->Ref_0) && spec_data_in(
                entries,
                bad->Ref_0,
            ) is Str ==> (r matches Err(e) && spec_simple_exc(
                e,
                ExcType::TypeError,
                spec_cant_sum_strings(),
            )))
        },
    }
}

/// What `sum` returns over the elements `items` with the default
/// start of 0.
pub open spec fn spec_sum_result_ok(
    entries: Seq<Option<crate::heap::HeapEntry>>,
    items: Seq<Value>,
    r: Result<Value, RunError>,
) -> bool {
    spec_sum_result_from(entries, items, 0, r)
}

/// The error for an element `sum` cannot add: strings get the
/// dedicated message, everything else the unsupported-pairing text.
fn sum_add_error(heap: &Heap, acc: &Value, item: &Value) -> (e: RunError)
    ensures
        e matches RunError::Exc(_),
        (item.spec_is_ref() && spec_present_in(heap.entries@, item->Ref_0) && spec_data_in(
            heap.entries@,
            item->Ref_0,
        ) is Str) ==> spec_simple_exc(e, ExcType::TypeError, spec_cant_sum_strings()),
{
    let item_is_str = match item {
        Value::Ref(id) => {
            if *id < heap.entries.len() {
                match &heap.entries[*id] {
                    Some(entry) => match &entry.data {
                        Some(HeapData::Str(_)) => true,
                        _ => false,
                    },
                    None => false,
                }
            } else {
                false
            }
        },
        _ => false,
    };
    if item_is_str {
        simple_exc(ExcType::TypeError, "sum() can't sum strings [use ''.join(seq) instead]")
    } else {
        let ta = value_type_name(heap, acc);
        let tb = value_type_name(heap, item);
        RunError::Exc(
            crate::exceptions::ExceptionRaise {
                exc: crate::ops::operand_type_error("+", ta, tb),
                frame: None,
            },
        )
    }
}


/// The first value bound to keyword `name`.
pub open spec fn spec_kw_find(kwargs: Seq<(String, Value)>, name: Seq<char>) -> Option<Value>
    decreases kwargs.len(),
{
    if kwargs.len() == 0 {
        None
    } else if kwargs[0].0@ == name {
        Some(kwargs[0].1)
    } else {
        spec_kw_find(kwargs.skip(1), name)
    }
}

/// A value acceptable for `sep` or `end`: the default marker `None`
/// or a string.
pub open spec fn spec_none_or_str(entries: Seq<Option<crate::heap::HeapEntry>>, v: Value) -> bool {
    v is PyNone || (v is Ref && spec_present_in(entries, v->Ref_0) && spec_data_in(
        entries,
        v->Ref_0,
    ) is Str)
}

/// The keyword arguments `print` accepts, with acceptable values:
/// `sep` and `end` must be `None` or strings, `flush` may be
/// anything.
pub open spec fn spec_print_kwargs_valid(
    entries: Seq<Option<crate::heap::HeapEntry>>,
    kwargs: Seq<(String, Value)>,
) -> bool {
    &&& forall|k: int|
        0 <= k < kwargs.len() ==> ((#[trigger] kwargs[k].0)@ == "sep"@ || kwargs[k].0@ == "end"@
            || kwargs[k].0@ == "flush"@)
    &&& (match spec_kw_find(kwargs, "sep"@) {
        Some(v) => spec_none_or_str(entries, v),
        None => true,
    })
    &&& (match spec_kw_find(kwargs, "end"@) {
        Some(v) => spec_none_or_str(entries, v),
        None => true,
    })
}

/// The separator text: a space by default and for `sep=None`,
/// otherwise the given string.
pub open spec fn spec_sep_text(
    entries: Seq<Option<crate::heap::HeapEntry>>,
    kwargs: Seq<(String, Value)>,
) -> Seq<char> {
    match spec_kw_find(kwargs, "sep"@) {
        Some(v) => if v is Ref {
            spec_data_in(entries, v->Ref_0)->Str_0@
        } else {
            seq![' ']
        },
        None => seq![' '],
    }
}

/// The terminator text: a newline by default, nothing for
/// `end=None`, otherwise the given string.
pub open spec fn spec_end_text(
    entries: Seq<Option<crate::heap::HeapEntry>>,
    kwargs: Seq<(String, Value)>,
) -> Seq<char> {
    match spec_kw_find(kwargs, "end"@) {
        Some(v) => if v is Ref {
            spec_data_in(entries, v->Ref_0)->Str_0@
        } else {
            Seq::empty()
        },
        None => seq!['\n'],
    }
}

/// The argument texts joined with the separator.
pub open spec fn spec_print_joined(
    entries: Seq<Option<crate::heap::HeapEntry>>,
    args: Seq<Value>,
    sep: Seq<char>,
    fuel: nat,
) -> Seq<char>
    decreases args.len(),
{
    if args.len() == 0 {
        Seq::empty()
    } else if args.len() == 1 {
        crate::render::spec_str_value(entries, args[0], fuel)
    } else {
        crate::render::spec_str_value(entries, args[0], fuel) + sep + spec_print_joined(
            entries,
            args.skip(1),
            sep,
            fuel,
        )
    }
}

/// What one `print` call emits: the joined argument texts followed by
/// the terminator.
pub open spec fn spec_print_output(
    entries: Seq<Option<crate::heap::HeapEntry>>,
    args: Seq<Value>,
    kwargs: Seq<(String, Value)>,
) -> Seq<char> {
    spec_print_joined(entries, args, spec_sep_text(entries, kwargs), (entries.len() + 1) as nat)
        + spec_end_text(entries, kwargs)
}

/// The separator or terminator as the emit loop uses it.
enum PieceText {
    DefaultPiece,
    NoPiece,
    Text(String),
}

/// The first value bound to `name` among the keywords from index `i`
/// on.
fn kw_find_from(kwargs: &Vec<(String, Value)>, i: usize, name: &String) -> (r: Option<Value>)
    requires
        i <= kwargs@.len(),
    ensures
        r == spec_kw_find(kwargs@.skip(i as int), name@),
    decreases kwargs@.len() - i,
{
    if i < kwargs.len() {
        proof {
            assert(kwargs@.skip(i as int)[0] == kwargs@[i as int]);
            assert(kwargs@.skip(i as int).skip(1) =~= kwargs@.skip(i + 1));
        }
        if kwargs[i].0.eq(name) {
            Some(kwargs[i].1)
        } else {
            kw_find_from(kwargs, i + 1, name)
        }
    } else {
        None
    }
}

/// The index of the first keyword that `print` does not accept.
fn first_invalid_key(kwargs: &Vec<(String, Value)>) -> (r: Option<usize>)
    ensures
        r is None <==> (forall|k: int|
            0 <= k < kwargs@.len() ==> ((#[trigger] kwargs@[k].0)@ == "sep"@ || kwargs@[k].0@
                == "end"@ || kwargs@[k].0@ == "flush"@)),
        r matches Some(idx) ==> idx < kwargs@.len() && !(kwargs@[idx as int].0@ == "sep"@
            || kwargs@[idx as int].0@ == "end"@ || kwargs@[idx as int].0@ == "flush"@),
{
    let sep_name: String = String::from_str("sep");
    let end_name: String = String::from_str("end");
    let flush_name: String = String::from_str("flush");
    let n = kwargs.len();
    let mut k: usize = 0;
    while k < n
        invariant
            n == kwargs@.len(),
            k <= n,
            sep_name@ == "sep"@,
            end_name@ == "end"@,
            flush_name@ == "flush"@,
            forall|j: int|
                0 <= j < k ==> ((#[trigger] kwargs@[j].0)@ == "sep"@ || kwargs@[j].0@ == "end"@
                    || kwargs@[j].0@ == "flush"@),
        decreases n - k,
    {
        let key = &kwargs[k].0;
        if !(key.eq(&sep_name) || key.eq(&end_name) || key.eq(&flush_name)) {
            return Some(k);
        }
        k = k + 1;
    }
    None
}

/// Resolves `sep` or `end` to its text.  `Err` carries the offending
/// value for the caller's message.
fn resolve_piece(heap: &Heap, found: Option<Value>, treat_none_as_empty: bool) -> (r: Result<
    PieceText,
    (),
>)
    ensures
        (match found {
            None => r == Ok::<PieceText, ()>(PieceText::DefaultPiece),
            Some(v) => {
                if v is PyNone {
                    r == Ok::<PieceText, ()>(
                        if treat_none_as_empty {
                            PieceText::NoPiece
                        } else {
                            PieceText::DefaultPiece
                        },
                    )
                } else if v is Ref && spec_present_in(heap.entries@, v->Ref_0) && spec_data_in(
                    heap.entries@,
                    v->Ref_0,
                ) is Str {
                    r matches Ok(PieceText::Text(t)) && t@ == spec_data_in(
                        heap.entries@,
                        v->Ref_0,
                    )->Str_0@
                } else {
                    r is Err
                }
            },
        }),
{
    match found {
        None => Ok(PieceText::DefaultPiece),
        Some(v) => {
            match v {
                Value::PyNone => {
                    if treat_none_as_empty {
                        Ok(PieceText::NoPiece)
                    } else {
                        Ok(PieceText::DefaultPiece)
                    }
                },
                Value::Ref(id) => {
                    if id < heap.entries.len() {
                        match &heap.entries[id] {
                            Some(entry) => match &entry.data {
                                Some(HeapData::Str(st)) => Ok(PieceText::Text(st.clone())),
                                _ => Err(()),
                            },
                            None => Err(()),
                        }
                    } else {
                        Err(())
                    }
                },
                _ => Err(()),
            }
        },
    }
}

/// Emits the argument texts from index `i` on, separated by `sep`
/// (the default piece is a single space).  A callback sink's failure
/// ends the emission early.
fn print_parts(
    heap: &Heap,
    writer: &mut crate::io::PrintWriter,
    args: &Vec<Value>,
    i: usize,
    sep: &PieceText,
) -> (r: Result<(), RunError>)
    requires
        i <= args@.len(),
    ensures
        *old(writer) is Collect ==> r is Ok && (*final(writer) matches
            crate::io::PrintWriter::Collect(buf) && buf@ == (*old(writer))->Collect_0@
            + spec_print_joined(
            heap.entries@,
            args@.skip(i as int),
            (match *sep {
                PieceText::Text(t) => t@,
                _ => seq![' '],
            }),
            (heap.entries@.len() + 1) as nat,
        )),
        *old(writer) is Disabled || *old(writer) is Stdout ==> r is Ok && *final(writer) == *old(
            writer,
        ),
        *old(writer) is Callback ==> *final(writer) is Callback,
    decreases args@.len() - i,
{
    if i < args.len() {
        let text = crate::render::str_value(heap, &args[i]);
        match writer.stdout_write(text.as_str()) {
            Ok(_) => {},
            Err(e) => {
                return Err(e);
            },
        }
        proof {
            assert(args@.skip(i as int)[0] == args@[i as int]);
            assert(args@.skip(i as int).skip(1) =~= args@.skip(i + 1));
        }
        if i + 1 < args.len() {
            match sep {
                PieceText::Text(t) => {
                    match writer.stdout_write(t.as_str()) {
                        Ok(_) => {},
                        Err(e) => {
                            return Err(e);
                        },
                    }
                },
                _ => {
                    match writer.stdout_push(' ') {
                        Ok(_) => {},
                        Err(e) => {
                            return Err(e);
                        },
                    }
                },
            }
            let r = print_parts(heap, writer, args, i + 1, sep);
            proof {
                if *old(writer) is Collect {
                    assert((*final(writer))->Collect_0@ =~= (*old(writer))->Collect_0@
                        + spec_print_joined(
                        heap.entries@,
                        args@.skip(i as int),
                        (match *sep {
                            PieceText::Text(t) => t@,
                            _ => seq![' '],
                        }),
                        (heap.entries@.len() + 1) as nat,
                    ));
                }
            }
            r
        } else {
            proof {
                if *old(writer) is Collect {
                    assert((*final(writer))->Collect_0@ =~= (*old(writer))->Collect_0@
                        + spec_print_joined(
                        heap.entries@,
                        args@.skip(i as int),
                        (match *sep {
                            PieceText::Text(t) => t@,
                            _ => seq![' '],
                        }),
                        (heap.entries@.len() + 1) as nat,
                    ));
                }
            }
            Ok(())
        }
    } else {
        proof {
            if *old(writer) is Collect {
                assert((*final(writer))->Collect_0@ =~= (*old(writer))->Collect_0@
                    + spec_print_joined(
                    heap.entries@,
                    args@.skip(i as int),
                    (match *sep {
                        PieceText::Text(t) => t@,
                        _ => seq![' '],
                    }),
                    (heap.entries@.len() + 1) as nat,
                ));
            }
        }
        Ok(())
    }
}

/// The `print` builtin: emits each argument's `str` text separated by
/// `sep` (default one space) and followed by `end` (default one
/// newline).  `sep=None` means the default separator; `end=None`
/// means no terminator; `flush` is accepted and ignored; any other
/// keyword, or a non-string `sep` or `end`, raises `TypeError`.
/// Returns `None`.
pub fn builtin_print(
    heap: &mut Heap,
    args: ArgValues,
    writer: &mut crate::io::PrintWriter,
) -> (r: Result<Value, RunError>)
    requires
        old(heap).wf(),
    ensures
        final(heap).wf(),
        releases_only(*old(heap), *final(heap)),
        (spec_print_kwargs_valid(old(heap).entries@, args.spec_kwargs()) && !(*old(writer)
            is Callback)) ==> {
            &&& r == Ok::<Value, RunError>(Value::PyNone)
            &&& (*old(writer) is Collect ==> (*final(writer) matches
                crate::io::PrintWriter::Collect(buf) && buf@ == (*old(writer))->Collect_0@
                + spec_print_output(
                old(heap).entries@,
                args.spec_args(),
                args.spec_kwargs(),
            )))
            &&& (*old(writer) is Disabled || *old(writer) is Stdout ==> *final(writer) == *old(
                writer,
            ))
        },
        *old(writer) is Callback ==> *final(writer) is Callback,
        !spec_print_kwargs_valid(old(heap).entries@, args.spec_kwargs()) ==> r is Err
            && *final(writer) == *old(writer),
{
    let (pos, kwargs) = args.into_parts();
    proof {
        assert(kwargs@.skip(0) =~= kwargs@);
        assert(pos@.skip(0) =~= pos@);
    }
    // Validate and resolve the keywords before anything changes.
    match first_invalid_key(&kwargs) {
        Some(idx) => {
            let mut msg = String::new();
            msg.append("'");
            msg.append(kwargs[idx].0.as_str());
            msg.append("' is an invalid keyword argument for print()");
            let e = simple_exc_string(ExcType::TypeError, msg);
            drop_values(heap, &pos);
            let ghost mid = *heap;
            crate::args::drop_kwargs(heap, &kwargs);
            proof {
                crate::ops::lemma_releases_only_trans(*old(heap), mid, *heap);
            }
            return Err(e);
        },
        None => {},
    }
    let sep_name: String = String::from_str("sep");
    let end_name: String = String::from_str("end");
    let sep_v = kw_find_from(&kwargs, 0, &sep_name);
    let end_v = kw_find_from(&kwargs, 0, &end_name);
    let sep = match resolve_piece(heap, sep_v, false) {
        Ok(p) => p,
        Err(_) => {
            let e = piece_type_error(heap, "sep", &sep_v.unwrap());
            drop_values(heap, &pos);
            let ghost mid = *heap;
            crate::args::drop_kwargs(heap, &kwargs);
            proof {
                crate::ops::lemma_releases_only_trans(*old(heap), mid, *heap);
            }
            return Err(e);
        },
    };
    let end = match resolve_piece(heap, end_v, true) {
        Ok(p) => p,
        Err(_) => {
            let e = piece_type_error(heap, "end", &end_v.unwrap());
            drop_values(heap, &pos);
            let ghost mid = *heap;
            crate::args::drop_kwargs(heap, &kwargs);
            proof {
                crate::ops::lemma_releases_only_trans(*old(heap), mid, *heap);
            }
            return Err(e);
        },
    };
    // Emit: the heap is only read here.  A failing callback sink
    // ends the call; owned arguments are still released.
    let emitted = match print_parts(heap, writer, &pos, 0, &sep) {
        Ok(_) => {
            match &end {
                PieceText::DefaultPiece => writer.stdout_push('\n'),
                PieceText::NoPiece => Ok(()),
                PieceText::Text(t) => writer.stdout_write(t.as_str()),
            }
        },
        Err(e) => Err(e),
    };
    match emitted {
        Ok(_) => {},
        Err(e) => {
            drop_values(heap, &pos);
            let ghost mid = *heap;
            crate::args::drop_kwargs(heap, &kwargs);
            proof {
                crate::ops::lemma_releases_only_trans(*old(heap), mid, *heap);
            }
            return Err(e);
        },
    }
    proof {
        if spec_print_kwargs_valid(old(heap).entries@, kwargs@) && *old(writer) is Collect {
            assert((*final(writer))->Collect_0@ =~= (*old(writer))->Collect_0@
                + spec_print_output(old(heap).entries@, pos@, kwargs@));
        }
    }
    // Release the ownership of every argument.
    drop_values(heap, &pos);
    let ghost mid = *heap;
    crate::args::drop_kwargs(heap, &kwargs);
    proof {
        crate::ops::lemma_releases_only_trans(*old(heap), mid, *heap);
    }
    Ok(Value::PyNone)
}

/// The `TypeError` for a `sep` or `end` of the wrong type:
/// `<name> must be None or a string, not <type>`.
fn piece_type_error(heap: &Heap, name: &str, v: &Value) -> (e: RunError)
    ensures
        spec_simple_exc(
            e,
            ExcType::TypeError,
            name@ + " must be None or a string, not "@ + spec_value_type_name(heap.entries@, *v),
        ),
{
    let mut msg = String::new();
    msg.append(name);
    msg.append(" must be None or a string, not ");
    msg.append(value_type_name(heap, v));
    simple_exc_string(ExcType::TypeError, msg)
}

/// The writer after an operation: a collecting writer keeps what it
/// had (new text only appended), any other writer is unchanged.
pub open spec fn writer_extended(pre: crate::io::PrintWriter, post: crate::io::PrintWriter) -> bool {
    &&& (pre is Collect ==> (post matches crate::io::PrintWriter::Collect(b2) && b2@.len()
        >= pre->Collect_0@.len() && b2@.take(pre->Collect_0@.len() as int) == pre->Collect_0@))
    &&& (pre is Disabled || pre is Stdout ==> post == pre)
    &&& (pre is Callback ==> post is Callback)
}

/// A writer extends itself.
pub proof fn lemma_writer_extended_refl(w: crate::io::PrintWriter)
    ensures
        writer_extended(w, w),
{
    if w is Collect {
        assert(w->Collect_0@.take(w->Collect_0@.len() as int) =~= w->Collect_0@);
    }
}

/// Extension of a collecting writer is transitive.
pub proof fn lemma_writer_extended_trans(
    a: crate::io::PrintWriter,
    b: crate::io::PrintWriter,
    c: crate::io::PrintWriter,
)
    requires
        writer_extended(a, b),
        writer_extended(b, c),
    ensures
        writer_extended(a, c),
{
    if a is Collect {
        assert(c->Collect_0@.take(a->Collect_0@.len() as int) =~= b->Collect_0@.take(
            a->Collect_0@.len() as int,
        ));
    }
}

/// Releases the values of `vs` from index `from` on.
fn drop_tail(heap: &mut Heap, vs: &Vec<Value>, from: usize)
    requires
        old(heap).wf(),
    ensures
        final(heap).wf(),
        releases_only(*old(heap), *final(heap)),
{
    let n = vs.len();
    let mut i: usize = from;
    proof {
        crate::ops::lemma_releases_only_refl(*heap);
    }
    while i < n
        invariant
            heap.wf(),
            releases_only(*old(heap), *heap),
            n == vs@.len(),
        decreases n - i,
    {
        let ghost mid = *heap;
        drop_value(heap, &vs[i]);
        proof {
            crate::ops::lemma_releases_only_trans(*old(heap), mid, *heap);
        }
        i = i + 1;
    }
}

/// The `TypeError` for a call target that is not callable.
fn not_callable_error(heap: &Heap, v: &Value) -> (e: RunError)
    ensures
        spec_simple_exc(
            e,
            ExcType::TypeError,
            seq!['\''] + spec_value_type_name(heap.entries@, *v) + "' object is not callable"@,
        ),
{
    let mut msg = String::new();
    msg.append("'");
    msg.append(value_type_name(heap, v));
    msg.append("' object is not callable");
    proof {
        reveal_strlit("'");
        assert(msg@ =~= seq!['\''] + spec_value_type_name(heap.entries@, *v)
            + "' object is not callable"@);
    }
    simple_exc_string(ExcType::TypeError, msg)
}

/// The truthy elements of `items`, in order.
pub open spec fn spec_filtered(
    entries: Seq<Option<crate::heap::HeapEntry>>,
    items: Seq<Value>,
) -> Seq<Value>
    decreases items.len(),
{
    if items.len() == 0 {
        Seq::empty()
    } else {
        spec_filtered(entries, items.drop_last()) + (if spec_value_bool(entries, items.last()) {
            seq![items.last()]
        } else {
            Seq::empty()
        })
    }
}

/// The element count of an iterable value (meaningful when
/// `spec_iterable` holds).
pub open spec fn spec_iter_len(entries: Seq<Option<crate::heap::HeapEntry>>, v: Value) -> int {
    match spec_data_in(entries, v->Ref_0) {
        HeapData::List(items) => items@.len() as int,
        HeapData::Tuple(items) => items@.len() as int,
        HeapData::Str(s) => s@.len() as int,
        HeapData::Bytes(b) => b@.len() as int,
        _ => 0,
    }
}

/// Chaining two live-preserving steps is live-preserving.
pub proof fn lemma_preserves_live_trans(a: Heap, b: Heap, c: Heap)
    requires
        preserves_live(a, b),
        preserves_live(b, c),
    ensures
        preserves_live(a, c),
{
}

/// Filters an iterable by truthiness: the truthy elements, in order,
/// each gaining one ownership unit.  The iterable itself is not
/// consumed.
fn filter_truthy(heap: &mut Heap, v: &Value) -> (r: Result<Vec<Value>, RunError>)
    requires
        old(heap).wf(),
    ensures
        final(heap).wf(),
        !spec_iterable(old(heap).entries@, *v) ==> (r matches Err(e) && spec_simple_exc(
            e,
            ExcType::TypeError,
            seq!['\''] + spec_value_type_name(old(heap).entries@, *v)
                + "' object is not iterable"@,
        ) && *final(heap) == *old(heap)),
        // Over a list or tuple the kept elements are exactly the
        // truthy ones.
        (spec_iterable(old(heap).entries@, *v) && (spec_data_in(old(heap).entries@, v->Ref_0)
            is List || spec_data_in(old(heap).entries@, v->Ref_0) is Tuple)) ==> {
            let items = (match spec_data_in(old(heap).entries@, v->Ref_0) {
                HeapData::List(items) => items,
                HeapData::Tuple(items) => items,
                _ => spec_data_in(old(heap).entries@, v->Ref_0)->List_0,
            })@;
            &&& r matches Ok(out)
            &&& out@ == spec_filtered(old(heap).entries@, items)
            &&& keeps_payloads(*old(heap), *final(heap))
        },
{
    let vs = match iter_values(heap, v) {
        Ok(vs) => vs,
        Err(e) => {
            return Err(e);
        },
    };
    let ghost entries0 = old(heap).entries@;
    let ghost h1 = *heap;
    let ghost is_seq = spec_iterable(entries0, *v) && (spec_data_in(entries0, v->Ref_0) is List
        || spec_data_in(entries0, v->Ref_0) is Tuple);
    // Decide first: reading never changes the heap, so every
    // truthiness is judged against the same entries.
    let n = vs.len();
    let mut keep: Vec<bool> = Vec::new();
    let mut i: usize = 0;
    while i < n
        invariant
            *heap == h1,
            heap.wf(),
            n == vs@.len(),
            i <= n,
            keep@.len() == i as int,
            forall|k: int|
                0 <= k < i ==> keep@[k] == spec_value_bool(heap.entries@, #[trigger] vs@[k]),
        decreases n - i,
    {
        let truthy = value_bool(heap, &vs[i]);
        keep.push(truthy);
        i = i + 1;
    }
    proof {
        if is_seq {
            assert forall|k: int| 0 <= k < vs@.len() implies spec_value_bool(
                h1.entries@,
                #[trigger] vs@[k],
            ) == spec_value_bool(entries0, vs@[k]) by {
                lemma_value_bool_stable(*old(heap), h1, vs@[k]);
            }
        }
    }
    // Keep the chosen elements (their units move into the result) and
    // release the rest.
    proof {
        crate::ops::lemma_releases_only_refl(*heap);
    }
    let mut out: Vec<Value> = Vec::new();
    let mut j: usize = 0;
    while j < n
        invariant
            heap.wf(),
            releases_only(h1, *heap),
            n == vs@.len(),
            n == keep@.len(),
            j <= n,
            is_seq ==> out@ == spec_filtered(
                entries0,
                vs@.take(j as int),
            ) && (forall|k: int|
                0 <= k < n ==> keep@[k] == spec_value_bool(entries0, #[trigger] vs@[k])),
        decreases n - j,
    {
        proof {
            if is_seq {
                assert(vs@.take(j + 1).drop_last() =~= vs@.take(j as int));
                assert(vs@.take(j + 1).last() == vs@[j as int]);
            }
        }
        if keep[j] {
            out.push(vs[j]);
        } else {
            let ghost hm = *heap;
            drop_value(heap, &vs[j]);
            proof {
                crate::ops::lemma_releases_only_trans(h1, hm, *heap);
            }
        }
        j = j + 1;
    }
    proof {
        if is_seq {
            assert(vs@.take(n as int) =~= vs@);
            crate::ops::lemma_keeps_payloads_from_only_incs(*old(heap), h1);
            crate::ops::lemma_keeps_payloads_from_releases(h1, *heap);
            crate::ops::lemma_keeps_payloads_trans(*old(heap), h1, *heap);
        }
    }
    Ok(out)
}

/// The `filter` builtin: the elements of the iterable for which the
/// predicate returns a truthy value, as a list.  A predicate of
/// `None` keeps the truthy elements themselves.
#[verifier::loop_isolation(false)]
pub fn builtin_filter(
    heap: &mut Heap,
    args: ArgValues,
    writer: &mut crate::io::PrintWriter,
    depth: u64,
) -> (r: Result<Value, RunError>)
    requires
        old(heap).wf(),
    ensures
        final(heap).wf(),
        writer_extended(*old(writer), *final(writer)),
        // Wrong arity is reported as such.
        !(args.spec_args().len() == 2 && args.spec_kwargs().len() == 0) ==> (r matches Err(e)
            && spec_simple_exc(
            e,
            ExcType::TypeError,
            ArgValues::spec_arity_msg("filter"@, 2, args.spec_args().len() as nat),
        )),
        // A predicate that is neither `None` nor a builtin is not
        // callable.
        (args.spec_args().len() == 2 && args.spec_kwargs().len() == 0 && !(args.spec_args()[0]
            is PyNone || args.spec_args()[0] is Builtin)) ==> (r matches Err(e)
            && spec_simple_exc(
            e,
            ExcType::TypeError,
            seq!['\''] + spec_value_type_name(old(heap).entries@, args.spec_args()[0])
                + "' object is not callable"@,
        )),
        // With no predicate, a list or tuple filters to exactly its
        // truthy elements, in order, as a fresh list.
        (args.spec_args().len() == 2 && args.spec_kwargs().len() == 0 && args.spec_args()[0]
            is PyNone && spec_iterable(old(heap).entries@, args.spec_args()[1]) && (spec_data_in(
            old(heap).entries@,
            args.spec_args()[1]->Ref_0,
        ) is List || spec_data_in(old(heap).entries@, args.spec_args()[1]->Ref_0) is Tuple))
            ==> {
            let items = (match spec_data_in(old(heap).entries@, args.spec_args()[1]->Ref_0) {
                HeapData::List(items) => items,
                HeapData::Tuple(items) => items,
                _ => spec_data_in(old(heap).entries@, args.spec_args()[1]->Ref_0)->List_0,
            })@;
            &&& r matches Ok(Value::Ref(rid))
            &&& final(heap).spec_present(rid)
            &&& final(heap).spec_data(rid) matches Some(HeapData::List(out))
            &&& out@ == spec_filtered(old(heap).entries@, items)
            // Beyond the fresh result, no payload is created or
            // changed anywhere on the heap.
            &&& final(heap).entries@.len() >= old(heap).entries@.len()
            &&& (forall|j: int|
                0 <= j < final(heap).entries@.len() && j != rid && (
                #[trigger] final(heap).entries@[j]) is Some ==> j < old(heap).entries@.len()
                    && old(heap).entries@[j] is Some && final(heap).entries@[j].unwrap().data
                    == old(heap).entries@[j].unwrap().data
                    && final(heap).entries@[j].unwrap().hash_state == old(
                    heap,
                ).entries@[j].unwrap().hash_state)
        },
    decreases depth, 1nat,
{
    proof {
        lemma_writer_extended_refl(*writer);
    }
    let (function, iterable) = match args.get_two_args("filter", heap) {
        Ok(p) => p,
        Err(e) => {
            return Err(e);
        },
    };
    match &function {
        Value::PyNone => {
            // No predicate: keep the truthy elements themselves,
            // release the iterable, then seal the result.
            let kept = match filter_truthy(heap, &iterable) {
                Ok(kept) => kept,
                Err(e) => {
                    drop_value(heap, &iterable);
                    return Err(e);
                },
            };
            let ghost ha = *heap;
            drop_value(heap, &iterable);
            proof {
                crate::ops::lemma_keeps_payloads_from_releases(ha, *heap);
                if crate::ops::keeps_payloads(*old(heap), ha) {
                    crate::ops::lemma_keeps_payloads_trans(*old(heap), ha, *heap);
                }
            }
            let ghost hb = *heap;
            let rid = heap.allocate(HeapData::List(kept));
            proof {
                assert forall|j: int|
                    0 <= j < heap.entries@.len() && j != rid && (#[trigger] heap.entries@[j])
                        is Some implies heap.entries@[j] == hb.entries@[j] by {}
            }
            Ok(Value::Ref(rid))
        },
        Value::Builtin(b) => {
            let b = *b;
            let vs = match iter_values(heap, &iterable) {
                Ok(vs) => vs,
                Err(e) => {
                    drop_value(heap, &iterable);
                    return Err(e);
                },
            };
            let mut out: Vec<Value> = Vec::new();
            let n = vs.len();
            let mut i: usize = 0;
            while i < n
                invariant
                    heap.wf(),
                    writer_extended(*old(writer), *writer),
                    n == vs@.len(),
                decreases n - i,
            {
                let item = vs[i];
                let cloned = clone_value(heap, &item);
                let ghost w0 = *writer;
                let keep: bool = match call_builtin(
                    heap,
                    b,
                    ArgValues::One(cloned),
                    writer,
                    depth,
                ) {
                    Ok(res) => {
                        proof {
                            lemma_writer_extended_trans(*old(writer), w0, *writer);
                        }
                        let truthy = value_bool(heap, &res);
                        drop_value(heap, &res);
                        truthy
                    },
                    Err(e) => {
                        proof {
                            lemma_writer_extended_trans(*old(writer), w0, *writer);
                        }
                        drop_tail(heap, &vs, i);
                        drop_values(heap, &out);
                        drop_value(heap, &iterable);
                        return Err(e);
                    },
                };
                if keep {
                    out.push(item);
                } else {
                    drop_value(heap, &item);
                }
                i = i + 1;
            }
            drop_value(heap, &iterable);
            let rid = heap.allocate(HeapData::List(out));
            Ok(Value::Ref(rid))
        },
        _ => {
            let e = not_callable_error(heap, &function);
            drop_value(heap, &function);
            drop_value(heap, &iterable);
            Err(e)
        },
    }
}

/// The `map` builtin: applies a builtin function elementwise over one
/// or more iterables, stopping at the shortest, and returns the
/// results as a list.
#[verifier::loop_isolation(false)]
pub fn builtin_map(
    heap: &mut Heap,
    args: ArgValues,
    writer: &mut crate::io::PrintWriter,
    depth: u64,
) -> (r: Result<Value, RunError>)
    requires
        old(heap).wf(),
    ensures
        final(heap).wf(),
        writer_extended(*old(writer), *final(writer)),
        // Keyword arguments are rejected.
        args.spec_kwargs().len() > 0 ==> (r matches Err(e) && spec_simple_exc(
            e,
            ExcType::TypeError,
            "map() got an unexpected keyword argument"@,
        )),
        // At least a function and one iterable are required.
        (args.spec_kwargs().len() == 0 && args.spec_args().len() < 2) ==> (r matches Err(e)
            && spec_simple_exc(
            e,
            ExcType::TypeError,
            "map() must have at least two arguments."@,
        )),
        // The call target must be a builtin.
        (args.spec_kwargs().len() == 0 && args.spec_args().len() >= 2 && !(args.spec_args()[0]
            is Builtin)) ==> (r matches Err(e) && spec_simple_exc(
            e,
            ExcType::TypeError,
            seq!['\''] + spec_value_type_name(old(heap).entries@, args.spec_args()[0])
                + "' object is not callable"@,
        )),
        // Mapping `print` over iterables is owed success (for the
        // library's own writer modes, nothing can refuse): the result
        // is a fresh list of `None`s, one per element of the shortest
        // iterable.
        (args.spec_kwargs().len() == 0 && args.spec_args().len() >= 2 && args.spec_args()[0]
            == Value::Builtin(Builtins::Print) && !(*old(writer) is Callback) && (forall|c: int|
            1 <= c < args.spec_args().len() ==> spec_iterable(
                old(heap).entries@,
                #[trigger] args.spec_args()[c],
            ))) ==> {
            &&& r matches Ok(Value::Ref(rid))
            &&& final(heap).spec_present(rid)
            &&& final(heap).spec_data(rid) matches Some(HeapData::List(out))
            &&& (forall|j: int| 0 <= j < out@.len() ==> out@[j] == Value::PyNone)
        },
        // A successful map returns a fresh list with one result per
        // element of the shortest iterable.
        (args.spec_kwargs().len() == 0 && args.spec_args().len() >= 2 && args.spec_args()[0]
            is Builtin && (forall|c: int|
            1 <= c < args.spec_args().len() ==> spec_iterable(
                old(heap).entries@,
                #[trigger] args.spec_args()[c],
            ))) ==> (match r {
            Ok(v) => {
                &&& v matches Value::Ref(rid)
                &&& final(heap).spec_present(rid)
                &&& final(heap).spec_data(rid) matches Some(HeapData::List(out))
                &&& (forall|c: int|
                    1 <= c < args.spec_args().len() ==> out@.len() as int <= spec_iter_len(
                        old(heap).entries@,
                        #[trigger] args.spec_args()[c],
                    ))
                &&& (exists|c: int|
                    1 <= c < args.spec_args().len() && out@.len() as int == spec_iter_len(
                        old(heap).entries@,
                        #[trigger] args.spec_args()[c],
                    ))
            },
            Err(_) => true,
        }),
    decreases depth, 1nat,
{
    proof {
        lemma_writer_extended_refl(*writer);
    }
    let (pos, kwargs) = args.into_parts();
    if kwargs.len() > 0 {
        let e = simple_exc(ExcType::TypeError, "map() got an unexpected keyword argument");
        drop_values(heap, &pos);
        crate::args::drop_kwargs(heap, &kwargs);
        return Err(e);
    }
    if pos.len() < 2 {
        let e = simple_exc(ExcType::TypeError, "map() must have at least two arguments.");
        drop_values(heap, &pos);
        return Err(e);
    }
    let function = pos[0];
    let b = match &function {
        Value::Builtin(b) => *b,
        _ => {
            let e = not_callable_error(heap, &function);
            drop_values(heap, &pos);
            return Err(e);
        },
    };
    // Materialise every iterable.
    let ghost all_iterable = forall|c: int|
        1 <= c < pos@.len() ==> spec_iterable(old(heap).entries@, #[trigger] pos@[c]);
    let ghost print_map = b == Builtins::Print && !(*old(writer) is Callback) && all_iterable;
    let mut columns: Vec<Vec<Value>> = Vec::new();
    let mut shortest: usize = usize::MAX;
    let mut i: usize = 1;
    let np = pos.len();
    while i < np
        invariant
            heap.wf(),
            preserves_live(*old(heap), *heap),
            writer_extended(*old(writer), *writer),
            np == pos@.len(),
            1 <= i <= np,
            columns@.len() == i - 1,
            forall|c: int|
                0 <= c < columns@.len() ==> shortest as int <= (#[trigger] columns@[c])@.len(),
            all_iterable ==> (forall|c: int|
                0 <= c < columns@.len() ==> (#[trigger] columns@[c])@.len() as int
                    == spec_iter_len(old(heap).entries@, pos@[c + 1])),
            i == 1 ==> shortest == usize::MAX,
            all_iterable && i > 1 ==> (exists|c: int|
                0 <= c < columns@.len() && shortest as int == (#[trigger] columns@[c])@.len()),
        decreases np - i,
    {
        let ghost h_pre = *heap;
        match iter_values(heap, &pos[i]) {
            Ok(vs) => {
                proof {
                    lemma_preserves_live_trans(*old(heap), h_pre, *heap);
                    if all_iterable {
                        // The iterable's payload is the one it had at
                        // entry, so its length is too.
                        let vref = pos@[i as int];
                        assert(spec_iterable(old(heap).entries@, vref));
                        let id0 = vref->Ref_0;
                        assert(old(heap).entries@[id0 as int] is Some);
                        assert(h_pre.entries@[id0 as int].unwrap().data == old(
                            heap,
                        ).entries@[id0 as int].unwrap().data);
                        assert(spec_data_in(h_pre.entries@, id0) == spec_data_in(
                            old(heap).entries@,
                            id0,
                        ));
                        assert(spec_iterable(h_pre.entries@, vref));
                        assert(vs@.len() as int == spec_iter_len(old(heap).entries@, vref));
                    }
                }
                let ghost gvs = vs@;
                let ghost old_shortest = shortest;
                let ghost pre_columns = columns@;
                let new_min = vs.len() < shortest;
                if new_min {
                    shortest = vs.len();
                }
                columns.push(vs);
                proof {
                    if all_iterable {
                        assert(columns@.last()@ == gvs);
                        assert forall|c: int|
                            0 <= c < columns@.len() implies (#[trigger] columns@[c])@.len() as int
                            == spec_iter_len(old(heap).entries@, pos@[c + 1]) by {
                            if c < columns@.len() - 1 {
                            } else {
                                assert(columns@[c]@ == gvs);
                            }
                        }
                        assert(exists|c: int|
                            0 <= c < columns@.len() && shortest as int == (
                            #[trigger] columns@[c])@.len()) by {
                            if new_min {
                                assert(columns@[columns@.len() - 1]@ == gvs);
                                assert(columns@[columns@.len() - 1]@.len() == shortest);
                            } else if i > 1 {
                                let ghost w = choose|c: int|
                                    0 <= c < pre_columns.len() && old_shortest as int == (
                                    #[trigger] pre_columns[c])@.len();
                                assert(columns@[w] == pre_columns[w]);
                                assert(columns@[w]@.len() == shortest);
                            } else {
                                assert(gvs.len() >= old_shortest);
                                assert(old_shortest == usize::MAX);
                                assert(gvs.len() <= usize::MAX);
                                assert(columns@[0]@ == gvs);
                                assert(columns@[0]@.len() == shortest);
                            }
                        }
                    }
                }
            },
            Err(e) => {
                proof {
                    lemma_preserves_live_trans(*old(heap), h_pre, *heap);
                }
                drop_columns(heap, &columns, 0);
                drop_values(heap, &pos);
                return Err(e);
            },
        }
    i = i + 1;
    }
    // Apply the function elementwise up to the shortest column.
    let mut out: Vec<Value> = Vec::new();
    let nc = columns.len();
    let mut j: usize = 0;
    while j < shortest
        invariant
            heap.wf(),
            writer_extended(*old(writer), *writer),
            nc == columns@.len(),
            j <= shortest,
            out@.len() == j as int,
            forall|c: int| 0 <= c < nc ==> shortest <= (#[trigger] columns@[c])@.len(),
            print_map ==> (forall|q: int| 0 <= q < out@.len() ==> out@[q] == Value::PyNone),
        decreases shortest - j,
    {
        let call_args = if nc == 1 {
            ArgValues::One(columns[0][j])
        } else {
            let mut row: Vec<Value> = Vec::new();
            let mut c: usize = 0;
            while c < nc
                invariant
                    nc == columns@.len(),
                    c <= nc,
                    j < shortest,
                    forall|c2: int| 0 <= c2 < nc ==> shortest <= (#[trigger] columns@[c2])@.len(),
                decreases nc - c,
            {
                row.push(columns[c][j]);
                c = c + 1;
            }
            ArgValues::ArgsKargs { args: row, kwargs: Vec::new() }
        };
        let ghost w0 = *writer;
        proof {
            if print_map {
                // A print call with no keywords and a library writer
                // cannot refuse.
                assert(call_args.spec_kwargs().len() == 0);
                assert(spec_print_kwargs_valid(heap.entries@, call_args.spec_kwargs()));
                assert(!(*writer is Callback));
            }
        }
        match call_builtin(heap, b, call_args, writer, depth) {
            Ok(res) => {
                proof {
                    lemma_writer_extended_trans(*old(writer), w0, *writer);
                    if print_map {
                        assert(res == Value::PyNone);
                    }
                }
                out.push(res);
            },
            Err(e) => {
                proof {
                    lemma_writer_extended_trans(*old(writer), w0, *writer);
                    if print_map {
                        assert(false);
                    }
                }
                drop_columns(heap, &columns, j + 1);
                drop_values(heap, &out);
                drop_values(heap, &pos);
                return Err(e);
            },
        }
        j = j + 1;
    }
    proof {
        if all_iterable {
            assert forall|c: int|
                1 <= c < pos@.len() implies out@.len() as int <= spec_iter_len(
                old(heap).entries@,
                #[trigger] pos@[c],
            ) by {
                assert(columns@[c - 1]@.len() as int == spec_iter_len(
                    old(heap).entries@,
                    pos@[c],
                ));
            }
        }
    }
    drop_columns(heap, &columns, shortest);
    drop_values(heap, &pos);
    let rid = heap.allocate(HeapData::List(out));
    Ok(Value::Ref(rid))
}

/// Releases the values of every column from row `from` on.
fn drop_columns(heap: &mut Heap, columns: &Vec<Vec<Value>>, from: usize)
    requires
        old(heap).wf(),
    ensures
        final(heap).wf(),
{
    let n = columns.len();
    let mut c: usize = 0;
    while c < n
        invariant
            heap.wf(),
            n == columns@.len(),
        decreases n - c,
    {
        drop_tail(heap, &columns[c], from);
        c = c + 1;
    }
}

/// Dispatches a builtin call.  `depth` bounds the nesting of builtins
/// called through `filter` and `map`, so the dispatcher always
/// terminates; the executor starts with a depth no chain of builtins
/// reaches.
pub fn call_builtin(
    heap: &mut Heap,
    b: Builtins,
    args: ArgValues,
    writer: &mut crate::io::PrintWriter,
    depth: u64,
) -> (r: Result<Value, RunError>)
    requires
        old(heap).wf(),
    ensures
        final(heap).wf(),
        writer_extended(*old(writer), *final(writer)),
        // The dispatcher returns exactly what the named builtin's own
        // contract promises; the headline clause of each is restated
        // here, case by case.
        (match b {
            Builtins::Print => {
                &&& (spec_print_kwargs_valid(old(heap).entries@, args.spec_kwargs()) && !(*old(
                    writer,
                ) is Callback)) ==> r == Ok::<Value, RunError>(Value::PyNone) && (*old(writer)
                    is Collect ==> (*final(writer) matches crate::io::PrintWriter::Collect(buf)
                    && buf@ == (*old(writer))->Collect_0@ + spec_print_output(
                    old(heap).entries@,
                    args.spec_args(),
                    args.spec_kwargs(),
                )))
                &&& (!spec_print_kwargs_valid(old(heap).entries@, args.spec_kwargs()) ==> r is Err)
            },
            Builtins::Range => (1 <= args.spec_args().len() <= 2 && args.spec_kwargs().len() == 0
                && (forall|k: int|
                0 <= k < args.spec_args().len() ==> spec_numeric(#[trigger] args.spec_args()[k])
                    is Some)) ==> {
                let start = if args.spec_args().len() == 2 {
                    spec_numeric(args.spec_args()[0]).unwrap()
                } else {
                    0int
                };
                let stop = if args.spec_args().len() == 2 {
                    spec_numeric(args.spec_args()[1]).unwrap()
                } else {
                    spec_numeric(args.spec_args()[0]).unwrap()
                };
                &&& r matches Ok(Value::Ref(rid))
                &&& final(heap).spec_data(rid) matches Some(HeapData::List(items))
                &&& items@ == spec_range_items(start, stop)
            },
            Builtins::Len => (args.spec_args().len() == 1 && args.spec_kwargs().len() == 0
                && args.spec_args()[0] is Ref && old(heap).spec_present(
                args.spec_args()[0]->Ref_0,
            )) ==> (match crate::pydata::spec_data_len(
                old(heap).spec_data(args.spec_args()[0]->Ref_0).unwrap(),
            ) {
                Some(n) => n <= 0x7fff_ffff_ffff_ffff ==> r == Ok::<Value, RunError>(
                    Value::Int(n as i64),
                ),
                None => r is Err,
            }),
            Builtins::Any => (args.spec_args().len() == 1 && args.spec_kwargs().len() == 0
                && spec_iterable(old(heap).entries@, args.spec_args()[0])) ==> (match spec_data_in(
                old(heap).entries@,
                args.spec_args()[0]->Ref_0,
            ) {
                HeapData::List(items) => r == Ok::<Value, RunError>(
                    Value::Bool(spec_any_items(old(heap).entries@, items@)),
                ),
                HeapData::Tuple(items) => r == Ok::<Value, RunError>(
                    Value::Bool(spec_any_items(old(heap).entries@, items@)),
                ),
                HeapData::Str(st) => r == Ok::<Value, RunError>(Value::Bool(st@.len() > 0)),
                HeapData::Bytes(by) => r == Ok::<Value, RunError>(
                    Value::Bool(exists|k: int| 0 <= k < by@.len() && by@[k] != 0),
                ),
                _ => true,
            }),
            Builtins::Sum => (args.spec_args().len() == 1 && args.spec_kwargs().len() == 0
                && spec_iterable(old(heap).entries@, args.spec_args()[0])) ==> (match spec_data_in(
                old(heap).entries@,
                args.spec_args()[0]->Ref_0,
            ) {
                HeapData::List(items) => spec_sum_result_ok(old(heap).entries@, items@, r),
                HeapData::Tuple(items) => spec_sum_result_ok(old(heap).entries@, items@, r),
                _ => true,
            }),
            Builtins::Filter => (depth > 0 && args.spec_args().len() == 2
                && args.spec_kwargs().len() == 0 && args.spec_args()[0] is PyNone
                && spec_iterable(old(heap).entries@, args.spec_args()[1]) && (spec_data_in(
                old(heap).entries@,
                args.spec_args()[1]->Ref_0,
            ) is List || spec_data_in(old(heap).entries@, args.spec_args()[1]->Ref_0) is Tuple))
                ==> {
                let items = (match spec_data_in(old(heap).entries@, args.spec_args()[1]->Ref_0) {
                    HeapData::List(items) => items,
                    HeapData::Tuple(items) => items,
                    _ => spec_data_in(old(heap).entries@, args.spec_args()[1]->Ref_0)->List_0,
                })@;
                &&& r matches Ok(Value::Ref(rid))
                &&& final(heap).spec_data(rid) matches Some(HeapData::List(out))
                &&& out@ == spec_filtered(old(heap).entries@, items)
            },
            Builtins::MapFn => (depth > 0 && args.spec_kwargs().len() == 0
                && args.spec_args().len() >= 2 && args.spec_args()[0] is Builtin && (forall|
                c: int,
            |
                1 <= c < args.spec_args().len() ==> spec_iterable(
                    old(heap).entries@,
                    #[trigger] args.spec_args()[c],
                ))) ==> (match r {
                Ok(v) => {
                    &&& v matches Value::Ref(rid)
                    &&& final(heap).spec_data(rid) matches Some(HeapData::List(out))
                    &&& (forall|c: int|
                        1 <= c < args.spec_args().len() ==> out@.len() as int <= spec_iter_len(
                            old(heap).entries@,
                            #[trigger] args.spec_args()[c],
                        ))
                },
                Err(_) => true,
            }),
        }),
    decreases depth, 0nat,
{
    match b {
        Builtins::Print => {
            let r = builtin_print(heap, args, writer);
            proof {
                if *old(writer) is Collect {
                    assert((*writer)->Collect_0@.take((*old(writer))->Collect_0@.len() as int)
                        =~= (*old(writer))->Collect_0@);
                }
            }
            r
        },
        Builtins::Range => {
            proof {
                lemma_writer_extended_refl(*writer);
            }
            builtin_range(heap, args)
        },
        Builtins::Len => {
            proof {
                lemma_writer_extended_refl(*writer);
            }
            builtin_len(heap, args)
        },
        Builtins::Any => {
            proof {
                lemma_writer_extended_refl(*writer);
            }
            builtin_any(heap, args)
        },
        Builtins::Sum => {
            proof {
                lemma_writer_extended_refl(*writer);
            }
            builtin_sum(heap, args)
        },
        Builtins::Filter => {
            if depth == 0 {
                proof {
                    lemma_writer_extended_refl(*writer);
                }
                let (vs, ks) = args.into_parts();
                drop_values(heap, &vs);
                crate::args::drop_kwargs(heap, &ks);
                Err(crate::exceptions::simple_internal("builtin call nesting too deep"))
            } else {
                builtin_filter(heap, args, writer, depth - 1)
            }
        },
        Builtins::MapFn => {
            if depth == 0 {
                proof {
                    lemma_writer_extended_refl(*writer);
                }
                let (vs, ks) = args.into_parts();
                drop_values(heap, &vs);
                crate::args::drop_kwargs(heap, &ks);
                Err(crate::exceptions::simple_internal("builtin call nesting too deep"))
            } else {
                builtin_map(heap, args, writer, depth - 1)
            }
        },
    }
}

} // verus!
