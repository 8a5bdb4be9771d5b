//! The hash function behind the lazy hash cache.
//!
//! Hashing folds 64-bit tokens with the FNV-1a step, so the hash of a
//! value is a pure function of its structure: equal contents hash
//! equally, on every run.  Strings hash their characters, byte strings
//! their bytes, and tuples the hashes of their elements; a tuple
//! holding an unhashable element is itself unhashable.

use vstd::prelude::*;

use crate::heap::{Heap, HeapData, HeapEntry, HashState, lemma_count_some_update};
use crate::value::Value;

verus! {

/// The FNV-1a offset basis.
pub const FNV_OFFSET: u64 = 0xcbf2_9ce4_8422_2325;

/// The FNV-1a prime.
pub const FNV_PRIME: u64 = 0x0000_0100_0000_01b3;

/// Seed that distinguishes string hashes.
pub const STR_SEED: u64 = 0x5374_7268_6173_6831;

/// Seed that distinguishes byte-string hashes.
pub const BYTES_SEED: u64 = 0x4279_7468_6173_6832;

/// Seed that distinguishes tuple hashes.
pub const TUPLE_SEED: u64 = 0x5475_7068_6173_6833;

/// The hash of `None`.
pub const NONE_HASH: u64 = 0x4e6f_6e65_4e6f_6e65;

/// Seed that distinguishes builtin-function hashes.
pub const BUILTIN_SEED: u64 = 0x4275_696c_7469_6e73;

/// One FNV-1a step over a 64-bit token: xor, then multiply by the
/// prime, modulo 2^64.
pub open spec fn spec_mix(h: u64, t: u64) -> u64 {
    ((((h ^ t) as int) * (FNV_PRIME as int)) % 0x1_0000_0000_0000_0000int) as u64
}

/// One FNV-1a step, executable form.
pub fn mix(h: u64, t: u64) -> (r: u64)
    ensures
        r == spec_mix(h, t),
{
    let x: u128 = (h ^ t) as u128;
    let p: u128 = FNV_PRIME as u128;
    assert(x * p <= 0xffff_ffff_ffff_ffffu128 * 0x0000_0100_0000_01b3u128) by (nonlinear_arith)
        requires
            x <= 0xffff_ffff_ffff_ffffu128,
            p == 0x0000_0100_0000_01b3u128,
    ;
    let m: u128 = (x * p) % 0x1_0000_0000_0000_0000u128;
    m as u64
}

/// Folding the FNV-1a step over a sequence of characters.
pub open spec fn spec_mix_chars(h: u64, s: Seq<char>) -> u64
    decreases s.len(),
{
    if s.len() == 0 {
        h
    } else {
        spec_mix(spec_mix_chars(h, s.drop_last()), s.last() as u64)
    }
}

/// Folding the FNV-1a step over a sequence of bytes.
pub open spec fn spec_mix_bytes(h: u64, s: Seq<u8>) -> u64
    decreases s.len(),
{
    if s.len() == 0 {
        h
    } else {
        spec_mix(spec_mix_bytes(h, s.drop_last()), s.last() as u64)
    }
}

/// The hash of a builtin callable: a distinct constant per builtin.
pub open spec fn spec_builtin_hash(b: crate::builtins::Builtins) -> u64 {
    match b {
        crate::builtins::Builtins::Print => spec_mix(BUILTIN_SEED, 1),
        crate::builtins::Builtins::Range => spec_mix(BUILTIN_SEED, 2),
        crate::builtins::Builtins::Len => spec_mix(BUILTIN_SEED, 3),
        crate::builtins::Builtins::Any => spec_mix(BUILTIN_SEED, 4),
        crate::builtins::Builtins::Filter => spec_mix(BUILTIN_SEED, 5),
        crate::builtins::Builtins::MapFn => spec_mix(BUILTIN_SEED, 6),
        crate::builtins::Builtins::Sum => spec_mix(BUILTIN_SEED, 7),
    }
}

/// The hash of a value, or `None` when it is unhashable.
///
/// Numbers hash to their two's-complement bits, so `True` hashes like
/// `1` and `False` like `0`, matching their equality.  A reference
/// hashes its payload; `fuel` bounds the recursion through nested
/// tuples (any acyclic structure is fully covered by a fuel of the
/// heap's slot count).
pub open spec fn spec_hash_value(entries: Seq<Option<HeapEntry>>, v: Value, fuel: nat) -> Option<
    u64,
>
    decreases fuel, 1nat, 0nat,
{
    match v {
        Value::PyNone => Some(NONE_HASH),
        Value::Undefined => None,
        Value::Bool(b) => Some(
            if b {
                1u64
            } else {
                0u64
            },
        ),
        Value::Int(i) => Some(i as u64),
        Value::Builtin(b) => Some(spec_builtin_hash(b)),
        Value::Ref(id) => if id < entries.len() && entries[id as int] is Some
            && entries[id as int].unwrap().data is Some {
            spec_hash_data(entries, entries[id as int].unwrap().data.unwrap(), fuel)
        } else {
            None
        },
    }
}

/// The hash of a heap payload, or `None` when it is unhashable
/// (mutable variants, exceptions, and tuples holding an unhashable
/// element).
pub open spec fn spec_hash_data(entries: Seq<Option<HeapEntry>>, d: HeapData, fuel: nat) -> Option<
    u64,
>
    decreases fuel, 0nat, 0nat,
{
    match d {
        HeapData::Str(s) => Some(spec_mix_chars(STR_SEED, s@)),
        HeapData::Bytes(b) => Some(spec_mix_bytes(BYTES_SEED, b@)),
        HeapData::Tuple(items) => if fuel == 0 {
            None
        } else {
            spec_hash_tuple(entries, items@, TUPLE_SEED, (fuel - 1) as nat)
        },
        HeapData::List(_) => None,
        HeapData::Dict(_) => None,
        HeapData::Exception(_) => None,
    }
}

/// Folds the hashes of tuple elements into the accumulator `h`;
/// `None` as soon as one element is unhashable.
pub open spec fn spec_hash_tuple(
    entries: Seq<Option<HeapEntry>>,
    items: Seq<Value>,
    h: u64,
    fuel: nat,
) -> Option<u64>
    decreases fuel, 2nat, items.len(),
{
    if items.len() == 0 {
        Some(h)
    } else {
        match spec_hash_value(entries, items[0], fuel) {
            Some(eh) => spec_hash_tuple(entries, items.skip(1), spec_mix(h, eh), fuel),
            None => None,
        }
    }
}

/// The hash that `get_or_compute_hash` computes for a payload: the
/// payload's hash at one more than the heap's slot count (one level
/// for the payload itself, one per slot a nested reference can pass
/// through), which covers every acyclic structure.
pub open spec fn spec_entry_hash(heap: Heap, id: crate::value::HeapId) -> Option<u64> {
    spec_hash_data(heap.entries@, heap.spec_data(id).unwrap(), (heap.entries@.len() + 1) as nat)
}

/// The hash of a value, executable form.
pub fn hash_value(heap: &Heap, v: &Value, fuel: usize) -> (r: Option<u64>)
    ensures
        r == spec_hash_value(heap.entries@, *v, fuel as nat),
    decreases fuel, 1nat, 0nat,
{
    match v {
        Value::PyNone => Some(NONE_HASH),
        Value::Undefined => None,
        Value::Bool(b) => Some(
            if *b {
                1u64
            } else {
                0u64
            },
        ),
        Value::Int(i) => Some(*i as u64),
        Value::Builtin(b) => {
            let idx: u64 = match b {
                crate::builtins::Builtins::Print => 1,
                crate::builtins::Builtins::Range => 2,
                crate::builtins::Builtins::Len => 3,
                crate::builtins::Builtins::Any => 4,
                crate::builtins::Builtins::Filter => 5,
                crate::builtins::Builtins::MapFn => 6,
                crate::builtins::Builtins::Sum => 7,
            };
            Some(mix(BUILTIN_SEED, idx))
        },
        Value::Ref(id) => {
            if *id < heap.entries.len() {
                match &heap.entries[*id] {
                    Some(entry) => match &entry.data {
                        Some(d) => hash_data(heap, d, fuel),
                        None => None,
                    },
                    None => None,
                }
            } else {
                None
            }
        },
    }
}

/// The hash of a heap payload, executable form.
pub fn hash_data(heap: &Heap, d: &HeapData, fuel: usize) -> (r: Option<u64>)
    ensures
        r == spec_hash_data(heap.entries@, *d, fuel as nat),
    decreases fuel, 0nat, 0nat,
{
    match d {
        HeapData::Str(s) => Some(hash_str(s)),
        HeapData::Bytes(b) => Some(hash_bytes(b)),
        HeapData::Tuple(items) => {
            if fuel == 0 {
                None
            } else {
                hash_tuple(heap, items, TUPLE_SEED, fuel - 1)
            }
        },
        HeapData::List(_) => None,
        HeapData::Dict(_) => None,
        HeapData::Exception(_) => None,
    }
}

/// Folds the hashes of tuple elements, executable form.
fn hash_tuple(heap: &Heap, items: &Vec<Value>, h: u64, fuel: usize) -> (r: Option<u64>)
    ensures
        r == spec_hash_tuple(heap.entries@, items@, h, fuel as nat),
    decreases fuel, 2nat, 0nat,
{
    let n = items.len();
    let mut acc: u64 = h;
    let mut i: usize = 0;
    let mut failed = false;
    proof {
        assert(items@.skip(0) =~= items@);
    }
    while i < n
        invariant
            n == items@.len(),
            i <= n,
            !failed ==> spec_hash_tuple(heap.entries@, items@, h, fuel as nat) == spec_hash_tuple(
                heap.entries@,
                items@.skip(i as int),
                acc,
                fuel as nat,
            ),
            failed ==> spec_hash_tuple(heap.entries@, items@, h, fuel as nat) is None,
        decreases n - i,
    {
        proof {
            assert(items@.skip(i as int)[0] == items@[i as int]);
            assert(items@.skip(i as int).skip(1) =~= items@.skip(i + 1));
        }
        if !failed {
            match hash_value(heap, &items[i], fuel) {
                Some(eh) => {
                    acc = mix(acc, eh);
                },
                None => {
                    failed = true;
                },
            }
        }
        i = i + 1;
    }
    proof {
        assert(items@.skip(n as int) =~= Seq::<Value>::empty());
    }
    if failed {
        None
    } else {
        Some(acc)
    }
}

/// The hash of a string's characters.
fn hash_str(s: &String) -> (r: u64)
    ensures
        r == spec_mix_chars(STR_SEED, s@),
{
    let n = s.as_str().unicode_len();
    let mut acc: u64 = STR_SEED;
    let mut i: usize = 0;
    while i < n
        invariant
            n == s@.len(),
            i <= n,
            acc == spec_mix_chars(STR_SEED, s@.take(i as int)),
        decreases n - i,
    {
        let c = s.as_str().get_char(i);
        acc = mix(acc, c as u64);
        proof {
            assert(s@.take(i + 1).drop_last() =~= s@.take(i as int));
            assert(s@.take(i + 1).last() == s@[i as int]);
        }
        i = i + 1;
    }
    proof {
        assert(s@.take(n as int) =~= s@);
    }
    acc
}

/// The hash of a byte string's bytes.
fn hash_bytes(b: &Vec<u8>) -> (r: u64)
    ensures
        r == spec_mix_bytes(BYTES_SEED, b@),
{
    let n = b.len();
    let mut acc: u64 = BYTES_SEED;
    let mut i: usize = 0;
    while i < n
        invariant
            n == b@.len(),
            i <= n,
            acc == spec_mix_bytes(BYTES_SEED, b@.take(i as int)),
        decreases n - i,
    {
        acc = mix(acc, b[i] as u64);
        proof {
            assert(b@.take(i + 1).drop_last() =~= b@.take(i as int));
            assert(b@.take(i + 1).last() == b@[i as int]);
        }
        i = i + 1;
    }
    proof {
        assert(b@.take(n as int) =~= b@);
    }
    acc
}

impl HeapData {
    /// Computes the hash of an immutable payload (strings, byte
    /// strings, and tuples of hashable elements); `None` for mutable
    /// payloads, which can never be dict keys.  Called lazily the
    /// first time a value is used as a key.  The recursion fuel is one
    /// more than the heap's slot count, covering every acyclic
    /// structure whether or not the payload currently sits in a slot;
    /// the root level is unrolled here, so the count itself never
    /// overflows.
    pub fn compute_hash_if_immutable(&self, heap: &Heap) -> (r: Option<u64>)
        ensures
            r == spec_hash_data(heap.entries@, *self, (heap.entries@.len() + 1) as nat),
    {
        match self {
            HeapData::Str(s) => Some(hash_str(s)),
            HeapData::Bytes(b) => Some(hash_bytes(b)),
            HeapData::Tuple(items) => hash_tuple(heap, items, TUPLE_SEED, heap.entries.len()),
            HeapData::List(_) => None,
            HeapData::Dict(_) => None,
            HeapData::Exception(_) => None,
        }
    }
}

/// Hash consistency: structurally equal values hash equally (and are
/// equally unhashable).  Together with the cache's idempotence this
/// is what lets a dict look keys up by hash.
pub proof fn lemma_hash_consistency(
    entries: Seq<Option<HeapEntry>>,
    a: Value,
    b: Value,
    fuel: nat,
)
    requires
        crate::pydata::spec_eq_value(entries, a, b, fuel),
    ensures
        spec_hash_value(entries, a, fuel) == spec_hash_value(entries, b, fuel),
    decreases fuel, 1nat, 0nat,
{
    if crate::pydata::spec_numeric(a) is Some || crate::pydata::spec_numeric(b) is Some {
    } else {
        match (a, b) {
            (Value::Ref(i), Value::Ref(j)) => {
                if i != j {
                    lemma_hash_consistency_data(
                        entries,
                        entries[i as int].unwrap().data.unwrap(),
                        entries[j as int].unwrap().data.unwrap(),
                        fuel,
                    );
                }
            },
            _ => {},
        }
    }
}

/// Hash consistency over payloads.
pub proof fn lemma_hash_consistency_data(
    entries: Seq<Option<HeapEntry>>,
    d1: HeapData,
    d2: HeapData,
    fuel: nat,
)
    requires
        crate::pydata::spec_eq_data(entries, d1, d2, fuel),
    ensures
        spec_hash_data(entries, d1, fuel) == spec_hash_data(entries, d2, fuel),
    decreases fuel, 0nat, 0nat,
{
    match (d1, d2) {
        (HeapData::Tuple(ta), HeapData::Tuple(tb)) => {
            if fuel > 0 {
                lemma_hash_consistency_tuple(
                    entries,
                    ta@,
                    tb@,
                    TUPLE_SEED,
                    (fuel - 1) as nat,
                );
            }
        },
        _ => {},
    }
}

/// Hash consistency over the elementwise fold of a tuple's hashes.
pub proof fn lemma_hash_consistency_tuple(
    entries: Seq<Option<HeapEntry>>,
    a: Seq<Value>,
    b: Seq<Value>,
    h: u64,
    fuel: nat,
)
    requires
        crate::pydata::spec_eq_items(entries, a, b, fuel),
    ensures
        spec_hash_tuple(entries, a, h, fuel) == spec_hash_tuple(entries, b, h, fuel),
    decreases fuel, 2nat, a.len(),
{
    if a.len() > 0 {
        lemma_hash_consistency(entries, a[0], b[0], fuel);
        match spec_hash_value(entries, a[0], fuel) {
            Some(eh) => {
                lemma_hash_consistency_tuple(
                    entries,
                    a.skip(1),
                    b.skip(1),
                    spec_mix(h, eh),
                    fuel,
                );
            },
            None => {},
        }
    }
}

impl Heap {
    /// Returns the hash of the entry at `id`, computing and caching it
    /// on first use.
    ///
    /// Immutable payloads (strings, byte strings, tuples of hashable
    /// elements) yield `Some`; mutable payloads yield `None`, and stay
    /// `Unhashable` forever, which keeps a cached hash stable.  The
    /// cache makes repeated calls return the same value: the first
    /// call fixes the hash state, and later calls only read it.
    pub fn get_or_compute_hash(&mut self, id: crate::value::HeapId) -> (r: Option<u64>)
        requires
            old(self).wf(),
            old(self).spec_present(id),
        ensures
            final(self).wf(),
            final(self).free_list@ == old(self).free_list@,
            final(self).spec_entry_count() == old(self).spec_entry_count(),
            // Only this entry's hash state changes.
            final(self).entries@ == old(self).entries@.update(
                id as int,
                Some(
                    (HeapEntry {
                        refcount: old(self).spec_rc(id) as usize,
                        data: old(self).spec_data(id),
                        hash_state: final(self).spec_hash_state(id),
                    }),
                ),
            ),
            // The result honours a previous decision...
            old(self).spec_hash_state(id) matches HashState::Cached(h) ==> r == Some(h),
            old(self).spec_hash_state(id) is Unhashable ==> r is None,
            // ...or is the structural hash of the payload.
            old(self).spec_hash_state(id) is Unknown ==> r == spec_entry_hash(*old(self), id),
            // The decision is recorded, so every later call returns
            // the same value.
            final(self).spec_hash_state(id) == (match r {
                Some(h) => HashState::Cached(h),
                None => HashState::Unhashable,
            }),
    {
        let state = match &self.entries[id] {
            Some(entry) => entry.hash_state,
            None => unreached(),
        };
        match state {
            HashState::Cached(h) => {
                proof {
                    assert(self.entries@ =~= old(self).entries@.update(
                        id as int,
                        old(self).entries@[id as int],
                    ));
                }
                Some(h)
            },
            HashState::Unhashable => {
                proof {
                    assert(self.entries@ =~= old(self).entries@.update(
                        id as int,
                        old(self).entries@[id as int],
                    ));
                }
                None
            },
            HashState::Unknown => {
                let r = {
                    let heap_ref: &Heap = &*self;
                    let d = heap_ref.get(id);
                    d.compute_hash_if_immutable(heap_ref)
                };
                let new_state = match r {
                    Some(h) => HashState::Cached(h),
                    None => HashState::Unhashable,
                };
                proof {
                    lemma_count_some_update(
                        self.entries@,
                        id as int,
                        Some(
                            HeapEntry {
                                refcount: self.spec_rc(id) as usize,
                                data: self.spec_data(id),
                                hash_state: new_state,
                            },
                        ),
                    );
                }
                let slot = &mut self.entries[id];
                match slot {
                    Some(entry) => {
                        entry.hash_state = new_state;
                    },
                    None => {
                        proof {
                            assert(false);
                        }
                    },
                }
                proof {
                    assert(self.entries@ =~= old(self).entries@.update(
                        id as int,
                        self.entries@[id as int],
                    ));
                }
                r
            },
        }
    }
}

} // verus!
