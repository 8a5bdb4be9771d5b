//! Indexing (`x[k]`, `x[k] = v`) and attribute calls on heap
//! payloads.
//!
//! Integer indices count from the end when negative; out-of-range
//! indices raise `IndexError`, wrongly typed ones `TypeError`.  Dict
//! keys must be hashable; lookup compares keys structurally, first
//! match wins.

use vstd::prelude::*;

use crate::args::ArgValues;
use crate::exceptions::{simple_exc, simple_exc_string, spec_simple_exc, ExcType, RunError};
use crate::hash::{hash_value, spec_hash_value};
use crate::heap::{Heap, HeapData, HeapEntry, HashState};
use crate::ops::{clone_value, drop_value, fresh_alloc_at, only_incs, releases_only};
use crate::pydata::{eq_value, spec_eq_value, spec_numeric, spec_value_type_name, value_type_name};
use crate::render::{repr_value, spec_repr_value};
use crate::value::Value;

verus! {

/// An interned attribute name.  The closed set of attributes the
/// runtime dispatches on; looking one up on a type that lacks it
/// raises `AttributeError`.
#[derive(Clone, Copy, Debug, PartialEq, Eq, Structural)]
pub enum Attr {
    Append,
}

impl Attr {
    /// The attribute's name.
    pub open spec fn spec_str(self) -> Seq<char> {
        match self {
            Attr::Append => "append"@,
        }
    }

    /// The attribute's name.
    pub fn str(self) -> (r: &'static str)
        ensures
            r@ == self.spec_str(),
    {
        match self {
            Attr::Append => "append",
        }
    }
}

/// The normalised form of an integer index: negative indices count
/// from the end.
pub open spec fn spec_norm_index(k: int, len: int) -> int {
    if k < 0 {
        k + len
    } else {
        k
    }
}

/// The index of the first pair of `pairs` whose key equals `key`.
pub open spec fn spec_dict_find_idx(
    entries: Seq<Option<HeapEntry>>,
    pairs: Seq<(Value, Value)>,
    key: Value,
    fuel: nat,
) -> Option<int>
    decreases pairs.len(),
{
    if pairs.len() == 0 {
        None
    } else if spec_eq_value(entries, pairs[0].0, key, fuel) {
        Some(0)
    } else {
        match spec_dict_find_idx(entries, pairs.skip(1), key, fuel) {
            Some(j) => Some(j + 1),
            None => None,
        }
    }
}

/// The numeric content of a value, executable form.
pub fn as_numeric(v: &Value) -> (r: Option<i64>)
    ensures
        r is Some <==> spec_numeric(*v) is Some,
        r matches Some(k) ==> k as int == spec_numeric(*v).unwrap(),
{
    match v {
        Value::Int(i) => Some(*i),
        Value::Bool(b) => Some(
            if *b {
                1
            } else {
                0
            },
        ),
        _ => None,
    }
}

/// Finds the first pair of `pairs` whose key equals `key`,
/// executable form.  Keys are filtered by hash before the structural
/// comparison; by hash consistency no equal key is ever skipped.
pub fn dict_find(heap: &Heap, pairs: &Vec<(Value, Value)>, key: &Value, fuel: usize) -> (r: Option<
    usize,
>)
    ensures
        (r is Some <==> spec_dict_find_idx(heap.entries@, pairs@, *key, fuel as nat) is Some),
        r matches Some(i) ==> i < pairs@.len() && i as int == spec_dict_find_idx(
            heap.entries@,
            pairs@,
            *key,
            fuel as nat,
        ).unwrap(),
{
    let kh = hash_value(heap, key, fuel);
    let n = pairs.len();
    let mut i: usize = 0;
    proof {
        assert(pairs@.skip(0) =~= pairs@);
    }
    while i < n
        invariant
            n == pairs@.len(),
            i <= n,
            kh == spec_hash_value(heap.entries@, *key, fuel as nat),
            spec_dict_find_idx(heap.entries@, pairs@, *key, fuel as nat) == (match
                spec_dict_find_idx(heap.entries@, pairs@.skip(i as int), *key, fuel as nat) {
                Some(j) => Some(j + i),
                None => None::<int>,
            }),
        decreases n - i,
    {
        proof {
            assert(pairs@.skip(i as int)[0] == pairs@[i as int]);
            assert(pairs@.skip(i as int).skip(1) =~= pairs@.skip(i + 1));
        }
        let ph = hash_value(heap, &pairs[i].0, fuel);
        let same_hash = match (ph, kh) {
            (Some(a), Some(b)) => a == b,
            (None, None) => true,
            _ => false,
        };
        if same_hash {
            if eq_value(heap, &pairs[i].0, key, fuel) {
                return Some(i);
            }
        } else {
            proof {
                // Equal keys hash equally, so a hash mismatch rules
                // the pair out.
                if crate::pydata::spec_eq_value(heap.entries@, pairs@[i as int].0, *key, fuel as nat) {
                    crate::hash::lemma_hash_consistency(
                        heap.entries@,
                        pairs@[i as int].0,
                        *key,
                        fuel as nat,
                    );
                }
            }
        }
        i = i + 1;
    }
    proof {
        assert(pairs@.skip(n as int) =~= Seq::<(Value, Value)>::empty());
    }
    None
}

/// The `TypeError` for an index of the wrong type:
/// `<name> indices must be integers, not <keytype>`.
fn index_type_error(heap: &Heap, name: &str, key: &Value) -> (e: RunError)
    ensures
        spec_simple_exc(
            e,
            ExcType::TypeError,
            name@ + " indices must be integers, not "@ + spec_value_type_name(heap.entries@, *key),
        ),
{
    let mut msg = String::new();
    msg.append(name);
    msg.append(" indices must be integers, not ");
    msg.append(value_type_name(heap, key));
    simple_exc_string(ExcType::TypeError, msg)
}

/// The `TypeError` for an unhashable dict key:
/// `unhashable type: '<keytype>'`.
fn unhashable_error(heap: &Heap, key: &Value) -> (e: RunError)
    ensures
        spec_simple_exc(
            e,
            ExcType::TypeError,
            "unhashable type: '"@ + spec_value_type_name(heap.entries@, *key) + seq!['\''],
        ),
{
    let mut msg = String::new();
    msg.append("unhashable type: '");
    msg.append(value_type_name(heap, key));
    msg.append("'");
    proof {
        reveal_strlit("'");
        assert(msg@ =~= "unhashable type: '"@ + spec_value_type_name(heap.entries@, *key)
            + seq!['\'']);
    }
    simple_exc_string(ExcType::TypeError, msg)
}

impl HeapData {
    /// Reads `self[key]`.
    ///
    /// Lists and tuples take integer indices (negative counting from
    /// the end) and hand out the element with one fresh ownership
    /// unit; byte strings yield the byte as an integer; strings yield
    /// a fresh one-character string; dicts look the key up by
    /// structural equality, first match wins.  Out-of-range indices
    /// raise `IndexError`, wrongly typed indices `TypeError`, an
    /// unhashable dict key `TypeError`, and a missing dict key
    /// `KeyError` carrying the key's repr.
    pub fn py_getitem(&self, key: &Value, heap: &mut Heap) -> (r: Result<Value, RunError>)
        requires
            old(heap).wf(),
        ensures
            final(heap).wf(),
            (match *self {
                HeapData::List(items) => (match spec_numeric(*key) {
                    Some(k) => {
                        let norm = spec_norm_index(k, items@.len() as int);
                        if 0 <= norm < items@.len() {
                            &&& r == Ok::<Value, RunError>(items@[norm])
                            &&& only_incs(*old(heap), *final(heap))
                        } else {
                            &&& r matches Err(e)
                            &&& spec_simple_exc(
                                e,
                                ExcType::IndexError,
                                "list index out of range"@,
                            )
                            &&& *final(heap) == *old(heap)
                        }
                    },
                    None => {
                        &&& r matches Err(e)
                        &&& spec_simple_exc(
                            e,
                            ExcType::TypeError,
                            "list"@ + " indices must be integers, not "@ + spec_value_type_name(
                                old(heap).entries@,
                                *key,
                            ),
                        )
                        &&& *final(heap) == *old(heap)
                    },
                }),
                HeapData::Tuple(items) => (match spec_numeric(*key) {
                    Some(k) => {
                        let norm = spec_norm_index(k, items@.len() as int);
                        if 0 <= norm < items@.len() {
                            &&& r == Ok::<Value, RunError>(items@[norm])
                            &&& only_incs(*old(heap), *final(heap))
                        } else {
                            &&& r matches Err(e)
                            &&& spec_simple_exc(
                                e,
                                ExcType::IndexError,
                                "tuple index out of range"@,
                            )
                            &&& *final(heap) == *old(heap)
                        }
                    },
                    None => {
                        &&& r matches Err(e)
                        &&& spec_simple_exc(
                            e,
                            ExcType::TypeError,
                            "tuple"@ + " indices must be integers, not "@ + spec_value_type_name(
                                old(heap).entries@,
                                *key,
                            ),
                        )
                        &&& *final(heap) == *old(heap)
                    },
                }),
                HeapData::Bytes(b) => (match spec_numeric(*key) {
                    Some(k) => {
                        let norm = spec_norm_index(k, b@.len() as int);
                        if 0 <= norm < b@.len() {
                            &&& r == Ok::<Value, RunError>(Value::Int(b@[norm] as i64))
                            &&& *final(heap) == *old(heap)
                        } else {
                            &&& r matches Err(e)
                            &&& spec_simple_exc(e, ExcType::IndexError, "index out of range"@)
                            &&& *final(heap) == *old(heap)
                        }
                    },
                    None => {
                        &&& r matches Err(e)
                        &&& spec_simple_exc(
                            e,
                            ExcType::TypeError,
                            "bytes"@ + " indices must be integers, not "@ + spec_value_type_name(
                                old(heap).entries@,
                                *key,
                            ),
                        )
                        &&& *final(heap) == *old(heap)
                    },
                }),
                HeapData::Str(s) => (match spec_numeric(*key) {
                    Some(k) => {
                        let norm = spec_norm_index(k, s@.len() as int);
                        if 0 <= norm < s@.len() {
                            &&& r matches Ok(Value::Ref(rid))
                            &&& fresh_alloc_at(*old(heap), *final(heap), rid)
                            &&& final(heap).spec_data(rid) matches Some(HeapData::Str(c))
                            &&& c@ == seq![s@[norm]]
                        } else {
                            &&& r matches Err(e)
                            &&& spec_simple_exc(
                                e,
                                ExcType::IndexError,
                                "string index out of range"@,
                            )
                            &&& *final(heap) == *old(heap)
                        }
                    },
                    None => {
                        &&& r matches Err(e)
                        &&& spec_simple_exc(
                            e,
                            ExcType::TypeError,
                            "string"@ + " indices must be integers, not "@ + spec_value_type_name(
                                old(heap).entries@,
                                *key,
                            ),
                        )
                        &&& *final(heap) == *old(heap)
                    },
                }),
                HeapData::Dict(pairs) => {
                    if spec_hash_value(old(heap).entries@, *key, old(heap).entries@.len() as nat)
                        is None {
                        &&& r matches Err(e)
                        &&& spec_simple_exc(
                            e,
                            ExcType::TypeError,
                            "unhashable type: '"@ + spec_value_type_name(
                                old(heap).entries@,
                                *key,
                            ) + seq!['\''],
                        )
                        &&& *final(heap) == *old(heap)
                    } else {
                        match spec_dict_find_idx(
                            old(heap).entries@,
                            pairs@,
                            *key,
                            old(heap).entries@.len() as nat,
                        ) {
                            Some(i) => {
                                &&& r == Ok::<Value, RunError>(pairs@[i].1)
                                &&& only_incs(*old(heap), *final(heap))
                            },
                            None => {
                                &&& r matches Err(e)
                                &&& spec_simple_exc(
                                    e,
                                    ExcType::KeyError,
                                    spec_repr_value(
                                        old(heap).entries@,
                                        *key,
                                        (old(heap).entries@.len() + 1) as nat,
                                    ),
                                )
                                &&& *final(heap) == *old(heap)
                            },
                        }
                    }
                },
                HeapData::Exception(_) => {
                    &&& r matches Err(e)
                    &&& spec_simple_exc(
                        e,
                        ExcType::TypeError,
                        "'Exception' object is not subscriptable"@,
                    )
                    &&& *final(heap) == *old(heap)
                },
            }),
    {
        match self {
            HeapData::List(items) => {
                match as_numeric(key) {
                    Some(k) => {
                        let norm: i128 = if k < 0 {
                            k as i128 + items.len() as i128
                        } else {
                            k as i128
                        };
                        if 0 <= norm && norm < items.len() as i128 {
                            let idx = norm as usize;
                            let v = clone_value(heap, &items[idx]);
                            Ok(v)
                        } else {
                            Err(simple_exc(ExcType::IndexError, "list index out of range"))
                        }
                    },
                    None => Err(index_type_error(heap, "list", key)),
                }
            },
            HeapData::Tuple(items) => {
                match as_numeric(key) {
                    Some(k) => {
                        let norm: i128 = if k < 0 {
                            k as i128 + items.len() as i128
                        } else {
                            k as i128
                        };
                        if 0 <= norm && norm < items.len() as i128 {
                            let idx = norm as usize;
                            let v = clone_value(heap, &items[idx]);
                            Ok(v)
                        } else {
                            Err(simple_exc(ExcType::IndexError, "tuple index out of range"))
                        }
                    },
                    None => Err(index_type_error(heap, "tuple", key)),
                }
            },
            HeapData::Bytes(b) => {
                match as_numeric(key) {
                    Some(k) => {
                        let norm: i128 = if k < 0 {
                            k as i128 + b.len() as i128
                        } else {
                            k as i128
                        };
                        if 0 <= norm && norm < b.len() as i128 {
                            let idx = norm as usize;
                            Ok(Value::Int(b[idx] as i64))
                        } else {
                            Err(simple_exc(ExcType::IndexError, "index out of range"))
                        }
                    },
                    None => Err(index_type_error(heap, "bytes", key)),
                }
            },
            HeapData::Str(s) => {
                match as_numeric(key) {
                    Some(k) => {
                        let n = s.as_str().unicode_len();
                        let norm: i128 = if k < 0 {
                            k as i128 + n as i128
                        } else {
                            k as i128
                        };
                        if 0 <= norm && norm < n as i128 {
                            let idx = norm as usize;
                            let mut c = String::new();
                            let ch = s.as_str().get_char(idx);
                            crate::fmt::push_char(&mut c, ch);
                            proof {
                                assert(c@ =~= seq![s@[spec_norm_index(
                                    k as int,
                                    s@.len() as int,
                                )]]);
                            }
                            let rid = heap.allocate(HeapData::Str(c));
                            Ok(Value::Ref(rid))
                        } else {
                            Err(simple_exc(ExcType::IndexError, "string index out of range"))
                        }
                    },
                    None => Err(index_type_error(heap, "string", key)),
                }
            },
            HeapData::Dict(pairs) => {
                let fuel = heap.entries.len();
                match hash_value(heap, key, fuel) {
                    None => Err(unhashable_error(heap, key)),
                    Some(_) => {
                        match dict_find(heap, pairs, key, fuel) {
                            Some(i) => {
                                let v = clone_value(heap, &pairs[i].1);
                                Ok(v)
                            },
                            None => {
                                let msg = repr_value(heap, key);
                                Err(simple_exc_string(ExcType::KeyError, msg))
                            },
                        }
                    },
                }
            },
            HeapData::Exception(_) => Err(
                simple_exc(ExcType::TypeError, "'Exception' object is not subscriptable"),
            ),
        }
    }

    /// Writes `self[key] = value`, consuming the ownership of both
    /// `key` and `value`.
    ///
    /// Lists replace the element at an integer index, releasing the
    /// replaced element; dicts replace the value of an equal key
    /// (releasing the old value and the redundant key copy) or append
    /// a new pair.  Out-of-range indices raise `IndexError`, wrongly
    /// typed ones `TypeError`; every owned value is released on the
    /// error paths.
    pub fn py_setitem(&mut self, key: Value, value: Value, heap: &mut Heap) -> (r: Result<
        (),
        RunError,
    >)
        requires
            old(heap).wf(),
        ensures
            final(heap).wf(),
            releases_only(*old(heap), *final(heap)),
            (match *old(self) {
                HeapData::List(items) => (match spec_numeric(key) {
                    Some(k) => {
                        let norm = spec_norm_index(k, items@.len() as int);
                        if 0 <= norm < items@.len() {
                            &&& r is Ok
                            &&& *final(self) matches HeapData::List(items2)
                            &&& items2@ == items@.update(norm, value)
                        } else {
                            &&& r matches Err(e)
                            &&& spec_simple_exc(
                                e,
                                ExcType::IndexError,
                                "list assignment index out of range"@,
                            )
                            &&& *final(self) == *old(self)
                        }
                    },
                    None => {
                        &&& r matches Err(e)
                        &&& spec_simple_exc(
                            e,
                            ExcType::TypeError,
                            "list"@ + " indices must be integers, not "@ + spec_value_type_name(
                                old(heap).entries@,
                                key,
                            ),
                        )
                        &&& *final(self) == *old(self)
                    },
                }),
                HeapData::Dict(pairs) => {
                    if spec_hash_value(old(heap).entries@, key, old(heap).entries@.len() as nat)
                        is None {
                        &&& r matches Err(e)
                        &&& spec_simple_exc(
                            e,
                            ExcType::TypeError,
                            "unhashable type: '"@ + spec_value_type_name(old(heap).entries@, key)
                                + seq!['\''],
                        )
                        &&& *final(self) == *old(self)
                    } else {
                        match spec_dict_find_idx(
                            old(heap).entries@,
                            pairs@,
                            key,
                            old(heap).entries@.len() as nat,
                        ) {
                            Some(i) => {
                                &&& r is Ok
                                &&& *final(self) matches HeapData::Dict(pairs2)
                                &&& pairs2@ == pairs@.update(i, (pairs@[i].0, value))
                            },
                            None => {
                                &&& r is Ok
                                &&& *final(self) matches HeapData::Dict(pairs2)
                                &&& pairs2@ == pairs@.push((key, value))
                                &&& *final(heap) == *old(heap)
                            },
                        }
                    }
                },
                _ => {
                    &&& r matches Err(e)
                    &&& spec_simple_exc(
                        e,
                        ExcType::TypeError,
                        seq!['\''] + crate::pydata::spec_data_type_name(*old(self))
                            + "' object does not support item assignment"@,
                    )
                    &&& *final(self) == *old(self)
                },
            }),
    {
        match self {
            HeapData::List(items) => {
                match as_numeric(&key) {
                    Some(k) => {
                        let norm: i128 = if k < 0 {
                            k as i128 + items.len() as i128
                        } else {
                            k as i128
                        };
                        if 0 <= norm && norm < items.len() as i128 {
                            let idx = norm as usize;
                            let replaced = items[idx];
                            drop_value(heap, &replaced);
                            items[idx] = value;
                            Ok(())
                        } else {
                            drop_value(heap, &value);
                            Err(simple_exc(ExcType::IndexError, "list assignment index out of range"))
                        }
                    },
                    None => {
                        let e = index_type_error(heap, "list", &key);
                        drop_value(heap, &value);
                        let ghost mid = *heap;
                        drop_value(heap, &key);
                        proof {
                            crate::ops::lemma_releases_only_trans(*old(heap), mid, *heap);
                        }
                        Err(e)
                    },
                }
            },
            HeapData::Dict(pairs) => {
                let fuel = heap.entries.len();
                match hash_value(heap, &key, fuel) {
                    None => {
                        let e = unhashable_error(heap, &key);
                        drop_value(heap, &value);
                        let ghost mid = *heap;
                        drop_value(heap, &key);
                        proof {
                            crate::ops::lemma_releases_only_trans(*old(heap), mid, *heap);
                        }
                        Err(e)
                    },
                    Some(_) => {
                        match dict_find(heap, pairs, &key, fuel) {
                            Some(i) => {
                                let replaced = pairs[i].1;
                                let kept_key = pairs[i].0;
                                drop_value(heap, &replaced);
                                let ghost mid = *heap;
                                drop_value(heap, &key);
                                proof {
                                    crate::ops::lemma_releases_only_trans(*old(heap), mid, *heap);
                                }
                                pairs[i] = (kept_key, value);
                                Ok(())
                            },
                            None => {
                                pairs.push((key, value));
                                proof {
                                    crate::ops::lemma_releases_only_refl(*heap);
                                }
                                Ok(())
                            },
                        }
                    },
                }
            },
            _ => {
                let mut msg = String::new();
                msg.append("'");
                msg.append(self.py_type(heap));
                msg.append("' object does not support item assignment");
                proof {
                    reveal_strlit("'");
                    assert(msg@ =~= seq!['\''] + crate::pydata::spec_data_type_name(*self)
                        + "' object does not support item assignment"@);
                }
                let e = simple_exc_string(ExcType::TypeError, msg);
                drop_value(heap, &value);
                let ghost mid = *heap;
                drop_value(heap, &key);
                proof {
                    crate::ops::lemma_releases_only_trans(*old(heap), mid, *heap);
                }
                Err(e)
            },
        }
    }

    /// Calls the method `attr` on this payload.  Lists support
    /// `append`, which takes exactly one argument, consumes its
    /// ownership and returns `None`; every other payload raises
    /// `AttributeError`, and a wrong arity raises `TypeError`.  On
    /// the error paths the owned arguments are released.
    pub fn py_call_attr(&mut self, heap: &mut Heap, attr: &Attr, args: ArgValues) -> (r: Result<
        Value,
        RunError,
    >)
        requires
            old(heap).wf(),
        ensures
            final(heap).wf(),
            releases_only(*old(heap), *final(heap)),
            (match *old(self) {
                HeapData::List(items) => {
                    if args.spec_args().len() == 1 && args.spec_kwargs().len() == 0 {
                        &&& r == Ok::<Value, RunError>(Value::PyNone)
                        &&& *final(self) matches HeapData::List(items2)
                        &&& items2@ == items@.push(args.spec_args()[0])
                        &&& *final(heap) == *old(heap)
                    } else {
                        &&& r matches Err(e)
                        &&& spec_simple_exc(
                            e,
                            ExcType::TypeError,
                            ArgValues::spec_arity_msg(
                                "append"@,
                                1,
                                args.spec_args().len() as nat,
                            ),
                        )
                        &&& *final(self) == *old(self)
                    }
                },
                _ => {
                    &&& r matches Err(e)
                    &&& spec_simple_exc(
                        e,
                        ExcType::AttributeError,
                        seq!['\''] + crate::pydata::spec_data_type_name(*old(self))
                            + "' object has no attribute '"@ + attr.spec_str() + seq!['\''],
                    )
                    &&& *final(self) == *old(self)
                },
            }),
    {
        match self {
            HeapData::List(items) => {
                match args.get_one_arg("append", heap) {
                    Ok(v) => {
                        items.push(v);
                        Ok(Value::PyNone)
                    },
                    Err(e) => Err(e),
                }
            },
            _ => {
                let mut msg = String::new();
                msg.append("'");
                msg.append(self.py_type(heap));
                msg.append("' object has no attribute '");
                msg.append(attr.str());
                msg.append("'");
                proof {
                    reveal_strlit("'");
                    assert(msg@ =~= seq!['\''] + crate::pydata::spec_data_type_name(*self)
                        + "' object has no attribute '"@ + attr.spec_str() + seq!['\'']);
                }
                let e = simple_exc_string(ExcType::AttributeError, msg);
                let (vs, ks) = args.into_parts();
                crate::ops::drop_values(heap, &vs);
                let ghost mid = *heap;
                crate::args::drop_kwargs(heap, &ks);
                proof {
                    crate::ops::lemma_releases_only_trans(*old(heap), mid, *heap);
                }
                Err(e)
            },
        }
    }
}

} // verus!
