//! The reference-counted arena that backs all heap-resident runtime
//! values.
//!
//! Slots are reused through a free list, so long-running loops that
//! repeatedly allocate and free keep the maximum slot index bounded.
//! Each entry carries a reference count, a payload that can be taken
//! out temporarily (the reentrant-borrow idiom), and a lazily cached
//! hash state.

use vstd::prelude::*;

use crate::exceptions::Exception;
use crate::value::{HeapId, Value};

verus! {

/// Every runtime value that must live in the arena.
#[derive(Debug)]
pub enum HeapData {
    Str(String),
    Bytes(Vec<u8>),
    List(Vec<Value>),
    Tuple(Vec<Value>),
    Dict(Vec<(Value, Value)>),
    Exception(Exception),
}

/// The heap references a single value owns: one for a `Ref`, none
/// otherwise.
pub open spec fn value_refs(v: Value) -> Seq<HeapId> {
    if v is Ref {
        seq![v->Ref_0]
    } else {
        Seq::empty()
    }
}

/// The heap references owned by a sequence of values, in order.
pub open spec fn refs_of(items: Seq<Value>) -> Seq<HeapId>
    decreases items.len(),
{
    if items.len() == 0 {
        Seq::empty()
    } else {
        refs_of(items.drop_last()) + value_refs(items.last())
    }
}

/// The heap references owned by a sequence of key/value pairs: for
/// each pair the key's references, then the value's.
pub open spec fn refs_of_pairs(pairs: Seq<(Value, Value)>) -> Seq<HeapId>
    decreases pairs.len(),
{
    if pairs.len() == 0 {
        Seq::empty()
    } else {
        refs_of_pairs(pairs.drop_last()) + value_refs(pairs.last().0) + value_refs(pairs.last().1)
    }
}

impl HeapData {
    /// The child heap references owned by this payload, each exactly
    /// once per owning position.
    pub open spec fn spec_child_ids(self) -> Seq<HeapId> {
        match self {
            HeapData::Str(_) => Seq::empty(),
            HeapData::Bytes(_) => Seq::empty(),
            HeapData::List(items) => refs_of(items@),
            HeapData::Tuple(items) => refs_of(items@),
            HeapData::Dict(pairs) => refs_of_pairs(pairs@),
            HeapData::Exception(_) => Seq::empty(),
        }
    }

    /// Reports every child `Ref` of this payload to the heap's
    /// decrement worker, exactly once per owning position.
    pub fn py_dec_ref_ids(&mut self, stack: &mut Vec<HeapId>)
        ensures
            *final(self) == *old(self),
            final(stack)@ == old(stack)@ + old(self).spec_child_ids(),
    {
        match self {
            HeapData::Str(_) => {},
            HeapData::Bytes(_) => {},
            HeapData::List(items) => push_refs_of(stack, items),
            HeapData::Tuple(items) => push_refs_of(stack, items),
            HeapData::Dict(pairs) => push_refs_of_pairs(stack, pairs),
            HeapData::Exception(_) => {},
        }
        proof {
            assert(final(stack)@ =~= old(stack)@ + old(self).spec_child_ids());
        }
    }
}

/// Pushes the reference (if any) owned by one value.
fn push_value_refs(stack: &mut Vec<HeapId>, v: &Value)
    ensures
        final(stack)@ == old(stack)@ + value_refs(*v),
{
    match v {
        Value::Ref(id) => {
            stack.push(*id);
            proof {
                assert(final(stack)@ =~= old(stack)@ + value_refs(*v));
            }
        },
        _ => {
            proof {
                assert(final(stack)@ =~= old(stack)@ + value_refs(*v));
            }
        },
    }
}

/// Pushes the references owned by all values of `items`, in order.
fn push_refs_of(stack: &mut Vec<HeapId>, items: &Vec<Value>)
    ensures
        final(stack)@ == old(stack)@ + refs_of(items@),
{
    let n = items.len();
    let mut i: usize = 0;
    while i < n
        invariant
            n == items@.len(),
            i <= n,
            stack@ == old(stack)@ + refs_of(items@.take(i as int)),
        decreases n - i,
    {
        push_value_refs(stack, &items[i]);
        proof {
            assert(items@.take(i + 1).drop_last() =~= items@.take(i as int));
            assert(items@.take(i + 1).last() == items@[i as int]);
            assert(stack@ =~= old(stack)@ + refs_of(items@.take(i + 1)));
        }
        i = i + 1;
    }
    proof {
        assert(items@.take(n as int) =~= items@);
    }
}

/// Pushes the references owned by all pairs of `pairs`, in order.
fn push_refs_of_pairs(stack: &mut Vec<HeapId>, pairs: &Vec<(Value, Value)>)
    ensures
        final(stack)@ == old(stack)@ + refs_of_pairs(pairs@),
{
    let n = pairs.len();
    let mut i: usize = 0;
    while i < n
        invariant
            n == pairs@.len(),
            i <= n,
            stack@ == old(stack)@ + refs_of_pairs(pairs@.take(i as int)),
        decreases n - i,
    {
        push_value_refs(stack, &pairs[i].0);
        push_value_refs(stack, &pairs[i].1);
        proof {
            assert(pairs@.take(i + 1).drop_last() =~= pairs@.take(i as int));
            assert(pairs@.take(i + 1).last() == pairs@[i as int]);
            assert(stack@ =~= old(stack)@ + refs_of_pairs(pairs@.take(i + 1)));
        }
        i = i + 1;
    }
    proof {
        assert(pairs@.take(n as int) =~= pairs@);
    }
}

/// One step of the reference sequence of a prefix.
pub proof fn lemma_refs_of_take_step(items: Seq<Value>, i: int)
    requires
        0 <= i < items.len(),
    ensures
        refs_of(items.take(i + 1)) == refs_of(items.take(i)) + value_refs(items[i]),
{
    assert(items.take(i + 1).drop_last() =~= items.take(i));
    assert(items.take(i + 1).last() == items[i]);
}

/// A prefix owns no more references to any slot than the whole
/// sequence.
pub proof fn lemma_refs_of_take_prefix_bound(items: Seq<Value>, k: int)
    requires
        0 <= k <= items.len(),
    ensures
        forall|j: HeapId|
            #[trigger] refs_of(items.take(k)).to_multiset().count(j) <= refs_of(
                items,
            ).to_multiset().count(j),
    decreases items.len() - k,
{
    broadcast use vstd::seq_lib::group_to_multiset_ensures;

    if k == items.len() {
        assert(items.take(k) =~= items);
    } else {
        lemma_refs_of_take_prefix_bound(items, k + 1);
        lemma_refs_of_take_step(items, k);
        vstd::seq_lib::lemma_multiset_commutative(refs_of(items.take(k)), value_refs(items[k]));
        assert(forall|j: HeapId|
            #[trigger] refs_of(items.take(k)).to_multiset().count(j) <= refs_of(
                items.take(k + 1),
            ).to_multiset().count(j));
    }
}

/// Hash caching state stored alongside each heap entry.
#[derive(Clone, Copy, Debug, PartialEq, Eq, Structural)]
pub enum HashState {
    /// Hash not yet computed, but the value might be hashable.
    Unknown,
    /// The value can never be a dict key (mutable variants, and
    /// tuples holding an unhashable element).
    Unhashable,
    /// Cached hash for an immutable value hashed at least once.
    Cached(u64),
}

impl HashState {
    /// The initial hash state of a payload: immutable variants might
    /// be hashable, mutable variants never are.
    pub open spec fn spec_for_data(d: HeapData) -> HashState {
        match d {
            HeapData::Str(_) => HashState::Unknown,
            HeapData::Bytes(_) => HashState::Unknown,
            HeapData::Tuple(_) => HashState::Unknown,
            HeapData::List(_) => HashState::Unhashable,
            HeapData::Dict(_) => HashState::Unhashable,
            HeapData::Exception(_) => HashState::Unhashable,
        }
    }

    /// The initial hash state of a payload.
    pub fn for_data(d: &HeapData) -> (h: HashState)
        ensures
            h == HashState::spec_for_data(*d),
    {
        match d {
            HeapData::Str(_) => HashState::Unknown,
            HeapData::Bytes(_) => HashState::Unknown,
            HeapData::Tuple(_) => HashState::Unknown,
            HeapData::List(_) => HashState::Unhashable,
            HeapData::Dict(_) => HashState::Unhashable,
            HeapData::Exception(_) => HashState::Unhashable,
        }
    }
}

/// One slot of the arena: the reference count, the payload (absent
/// while a reentrant helper has taken it out), and the hash state.
#[derive(Debug)]
pub struct HeapEntry {
    pub refcount: usize,
    /// The payload; `None` while temporarily borrowed out.
    pub data: Option<HeapData>,
    pub hash_state: HashState,
}

/// Whether a (possibly absent) payload owns no child references.
pub open spec fn spec_childless(d: Option<HeapData>) -> bool {
    match d {
        Some(dd) => dd.spec_child_ids().len() == 0,
        None => true,
    }
}

/// Releasing `k` units from a slot (meaningful when the slot holds at
/// least `k`).
pub open spec fn spec_after_release(e: Option<HeapEntry>, k: nat) -> Option<HeapEntry> {
    match e {
        Some(en) => Some(
            HeapEntry {
                refcount: (en.refcount - k) as usize,
                data: en.data,
                hash_state: en.hash_state,
            },
        ),
        None => None,
    }
}

/// Releasing a payload's children cannot cascade: every child is live
/// with more units than the payload owns of it.
pub open spec fn spec_no_cascade(h: Heap, d: HeapData) -> bool {
    forall|c: HeapId|
        #[trigger] d.spec_child_ids().to_multiset().count(c) > 0 ==> h.spec_live(c) && h.spec_rc(c)
            > d.spec_child_ids().to_multiset().count(c)
}

/// The reference count a slot contributes: zero for a freed slot.
pub open spec fn rc_of(e: Option<HeapEntry>) -> nat {
    match e {
        Some(entry) => entry.refcount as nat,
        None => 0,
    }
}

/// The total reference count over all slots.
pub open spec fn sum_rc(s: Seq<Option<HeapEntry>>) -> nat
    decreases s.len(),
{
    if s.len() == 0 {
        0
    } else {
        sum_rc(s.drop_last()) + rc_of(s.last())
    }
}

/// How a point update changes the total reference count.
pub proof fn lemma_sum_rc_update(s: Seq<Option<HeapEntry>>, i: int, v: Option<HeapEntry>)
    requires
        0 <= i < s.len(),
    ensures
        sum_rc(s.update(i, v)) + rc_of(s[i]) == sum_rc(s) + rc_of(v),
    decreases s.len(),
{
    if i == s.len() - 1 {
        assert(s.update(i, v).drop_last() =~= s.drop_last());
    } else {
        assert(s.update(i, v).drop_last() =~= s.drop_last().update(i, v));
        lemma_sum_rc_update(s.drop_last(), i, v);
    }
}

/// The number of live (non-freed) slots.
pub open spec fn count_some(s: Seq<Option<HeapEntry>>) -> nat
    decreases s.len(),
{
    if s.len() == 0 {
        0
    } else {
        count_some(s.drop_last()) + (if s.last() is Some {
            1nat
        } else {
            0nat
        })
    }
}

/// How a point update changes the live-slot count.
pub proof fn lemma_count_some_update(s: Seq<Option<HeapEntry>>, i: int, v: Option<HeapEntry>)
    requires
        0 <= i < s.len(),
    ensures
        count_some(s.update(i, v)) + (if s[i] is Some {
            1nat
        } else {
            0nat
        }) == count_some(s) + (if v is Some {
            1nat
        } else {
            0nat
        }),
    decreases s.len(),
{
    if i == s.len() - 1 {
        assert(s.update(i, v).drop_last() =~= s.drop_last());
    } else {
        assert(s.update(i, v).drop_last() =~= s.drop_last().update(i, v));
        lemma_count_some_update(s.drop_last(), i, v);
    }
}

/// How a push changes the live-slot count.
pub proof fn lemma_count_some_push(s: Seq<Option<HeapEntry>>, v: Option<HeapEntry>)
    ensures
        count_some(s.push(v)) == count_some(s) + (if v is Some {
            1nat
        } else {
            0nat
        }),
{
    assert(s.push(v).drop_last() =~= s);
}

/// Sequences that agree pointwise on which slots are live have the
/// same live-slot count.
pub proof fn lemma_count_some_pointwise(s1: Seq<Option<HeapEntry>>, s2: Seq<Option<HeapEntry>>)
    requires
        s1.len() == s2.len(),
        forall|j: int| 0 <= j < s1.len() ==> ((#[trigger] s1[j]) is Some <==> s2[j] is Some),
    ensures
        count_some(s1) == count_some(s2),
    decreases s1.len(),
{
    if s1.len() > 0 {
        assert(forall|j: int|
            0 <= j < s1.drop_last().len() ==> ((#[trigger] s1.drop_last()[j]) is Some
                <==> s2.drop_last()[j] is Some));
        lemma_count_some_pointwise(s1.drop_last(), s2.drop_last());
        assert(s1.last() == s1[s1.len() - 1]);
        assert(s2.last() == s2[s2.len() - 1]);
    }
}

/// Reference-counted arena that backs all heap-only runtime values.
#[derive(Debug)]
#[verifier::ext_equal]
pub struct Heap {
    pub entries: Vec<Option<HeapEntry>>,
    /// Identifiers of freed slots available for reuse; filled by
    /// `dec_ref`, consumed by `allocate`.
    pub free_list: Vec<HeapId>,
}

impl Heap {
    /// The slot exists and has not been freed.
    pub open spec fn spec_live(self, id: HeapId) -> bool {
        id < self.entries@.len() && self.entries@[id as int] is Some
    }

    /// The slot is live and its payload is in place (not taken out by
    /// a reentrant helper).
    pub open spec fn spec_present(self, id: HeapId) -> bool {
        self.spec_live(id) && self.entries@[id as int].unwrap().data is Some
    }

    /// The reference count of a live slot.
    pub open spec fn spec_rc(self, id: HeapId) -> nat {
        rc_of(self.entries@[id as int])
    }

    /// The payload of a live slot (`None` while borrowed out).
    pub open spec fn spec_data(self, id: HeapId) -> Option<HeapData> {
        self.entries@[id as int].unwrap().data
    }

    /// The hash state of a live slot.
    pub open spec fn spec_hash_state(self, id: HeapId) -> HashState {
        self.entries@[id as int].unwrap().hash_state
    }

    /// The number of live (non-freed) slots.
    pub open spec fn spec_entry_count(self) -> nat {
        count_some(self.entries@)
    }

    /// Well-formedness: the free list names valid, freed, distinct
    /// slots, and every live slot holds at least one reference.
    pub open spec fn wf(self) -> bool {
        &&& forall|i: int|
            0 <= i < self.free_list@.len() ==> (#[trigger] self.free_list@[i]) < self.entries@.len()
                && self.entries@[self.free_list@[i] as int] is None
        &&& forall|i: int, j: int|
            0 <= i < j < self.free_list@.len() ==> self.free_list@[i] != self.free_list@[j]
        &&& forall|j: int|
            0 <= j < self.entries@.len() && self.entries@[j] is Some ==> rc_of(
                #[trigger] self.entries@[j],
            ) >= 1
    }

    /// A fresh, empty heap with room for `capacity` slots.
    pub fn new(capacity: usize) -> (h: Heap)
        ensures
            h.wf(),
            h.entries@.len() == 0,
            h.free_list@.len() == 0,
    {
        Heap { entries: Vec::with_capacity(capacity), free_list: Vec::new() }
    }

    /// Allocates a new entry with reference count 1, reusing a freed
    /// slot when one is available and appending otherwise.
    ///
    /// The hash state starts `Unknown` for immutable payloads and
    /// `Unhashable` for mutable ones; hashes are computed lazily by
    /// `get_or_compute_hash`.
    pub fn allocate(&mut self, data: HeapData) -> (id: HeapId)
        requires
            old(self).wf(),
        ensures
            final(self).wf(),
            final(self).spec_live(id),
            final(self).spec_rc(id) == 1,
            final(self).spec_data(id) == Some(data),
            final(self).spec_hash_state(id) == HashState::spec_for_data(data),
            old(self).free_list@.len() == 0 ==> id == old(self).entries@.len() && final(self).entries@
                == old(self).entries@.push(
                Some(
                    (HeapEntry {
                        refcount: 1,
                        data: Some(data),
                        hash_state: HashState::spec_for_data(data),
                    }),
                ),
            ) && final(self).free_list@ == old(self).free_list@,
            old(self).free_list@.len() > 0 ==> id == old(self).free_list@.last() && !old(
                self,
            ).spec_live(id) && final(self).entries@ == old(self).entries@.update(
                id as int,
                Some(
                    (HeapEntry {
                        refcount: 1,
                        data: Some(data),
                        hash_state: HashState::spec_for_data(data),
                    }),
                ),
            ) && final(self).free_list@ == old(self).free_list@.drop_last() && final(self).entries@.len() == old(
                self,
            ).entries@.len(),
            final(self).spec_entry_count() == old(self).spec_entry_count() + 1,
    {
        let hash_state = HashState::for_data(&data);
        let new_entry = HeapEntry { refcount: 1, data: Some(data), hash_state };
        match self.free_list.pop() {
            Some(id) => {
                proof {
                    assert(old(self).free_list@.last() == id);
                    assert(self.entries@[id as int] is None);
                    lemma_count_some_update(self.entries@, id as int, Some(new_entry));
                }
                self.entries[id] = Some(new_entry);
                proof {
                    assert forall|i: int| 0 <= i < self.free_list@.len() implies (
                    #[trigger] self.free_list@[i]) < self.entries@.len()
                        && self.entries@[self.free_list@[i] as int] is None by {
                        assert(old(self).free_list@[i] == self.free_list@[i]);
                        assert(self.free_list@[i] != id);
                    }
                }
                id
            },
            None => {
                let id = self.entries.len();
                proof {
                    lemma_count_some_push(self.entries@, Some(new_entry));
                }
                self.entries.push(Some(new_entry));
                id
            },
        }
    }

    /// Increments the reference count of a live entry.
    pub fn inc_ref(&mut self, id: HeapId)
        requires
            old(self).wf(),
            old(self).spec_live(id),
            old(self).spec_rc(id) < usize::MAX,
        ensures
            final(self).wf(),
            final(self).free_list@ == old(self).free_list@,
            final(self).entries@ == old(self).entries@.update(
                id as int,
                Some(
                    (HeapEntry {
                        refcount: (old(self).spec_rc(id) + 1) as usize,
                        data: old(self).spec_data(id),
                        hash_state: old(self).spec_hash_state(id),
                    }),
                ),
            ),
            final(self).spec_entry_count() == old(self).spec_entry_count(),
    {
        let slot = &mut self.entries[id];
        match slot {
            Some(entry) => {
                entry.refcount = entry.refcount + 1;
            },
            None => {
                proof {
                    assert(false);
                }
            },
        }
        proof {
            lemma_count_some_update(
                old(self).entries@,
                id as int,
                self.entries@[id as int],
            );
            assert(self.entries@ =~= old(self).entries@.update(
                id as int,
                self.entries@[id as int],
            ));
        }
    }

    /// Returns the reference count of a live entry (primarily for
    /// tests of the reference-counting behaviour).
    pub fn get_refcount(&self, id: HeapId) -> (rc: usize)
        requires
            self.spec_live(id),
        ensures
            rc == self.spec_rc(id),
    {
        match &self.entries[id] {
            Some(entry) => entry.refcount,
            None => unreached(),
        }
    }

    /// The number of live (non-freed) entries on the heap.
    pub fn entry_count(&self) -> (n: usize)
        ensures
            n == self.spec_entry_count(),
    {
        let len = self.entries.len();
        let mut n: usize = 0;
        let mut i: usize = 0;
        while i < len
            invariant
                len == self.entries@.len(),
                i <= len,
                n == count_some(self.entries@.take(i as int)),
                n <= i,
            decreases len - i,
        {
            proof {
                assert(self.entries@.take(i + 1).drop_last() =~= self.entries@.take(i as int));
                assert(self.entries@.take(i + 1).last() == self.entries@[i as int]);
            }
            match &self.entries[i] {
                Some(_) => {
                    n = n + 1;
                },
                None => {},
            }
            i = i + 1;
        }
        proof {
            assert(self.entries@.take(len as int) =~= self.entries@);
        }
        n
    }

    /// An immutable view of the payload of a live, present entry.
    pub fn get(&self, id: HeapId) -> (r: &HeapData)
        requires
            self.spec_present(id),
        ensures
            *r == self.spec_data(id).unwrap(),
    {
        match &self.entries[id] {
            Some(entry) => match &entry.data {
                Some(d) => d,
                None => unreached(),
            },
            None => unreached(),
        }
    }

    /// A mutable view of the payload of a live, present entry.  The
    /// heap afterwards is the old heap with this entry's payload
    /// replaced by whatever the caller leaves behind.
    pub fn get_mut(&mut self, id: HeapId) -> (r: &mut HeapData)
        requires
            old(self).wf(),
            old(self).spec_present(id),
        ensures
            *r == old(self).spec_data(id).unwrap(),
            final(self).entries@ == old(self).entries@.update(
                id as int,
                Some(
                    (HeapEntry {
                        refcount: old(self).spec_rc(id) as usize,
                        data: Some(*final(r)),
                        hash_state: old(self).spec_hash_state(id),
                    }),
                ),
            ),
            final(self).free_list@ == old(self).free_list@,
            final(self).wf(),
    {
        let slot = &mut self.entries[id];
        match slot {
            Some(entry) => match &mut entry.data {
                Some(d) => d,
                None => unreached(),
            },
            None => unreached(),
        }
    }

    /// Takes the payload out of a live, present entry, leaving the
    /// reference count and hash state in place.  `restore_entry` puts
    /// it back.  This is the reentrant-borrow idiom: while taken, the
    /// heap can be borrowed again.
    pub fn take_entry(&mut self, id: HeapId) -> (data: HeapData)
        requires
            old(self).wf(),
            old(self).spec_present(id),
        ensures
            final(self).wf(),
            data == old(self).spec_data(id).unwrap(),
            final(self).entries@ == old(self).entries@.update(
                id as int,
                Some(
                    (HeapEntry {
                        refcount: old(self).spec_rc(id) as usize,
                        data: None,
                        hash_state: old(self).spec_hash_state(id),
                    }),
                ),
            ),
            final(self).free_list@ == old(self).free_list@,
            final(self).spec_entry_count() == old(self).spec_entry_count(),
    {
        proof {
            lemma_count_some_update(
                old(self).entries@,
                id as int,
                Some(
                    HeapEntry {
                        refcount: old(self).spec_rc(id) as usize,
                        data: None,
                        hash_state: old(self).spec_hash_state(id),
                    },
                ),
            );
        }
        let slot = &mut self.entries[id];
        match slot {
            Some(entry) => match entry.data.take() {
                Some(d) => d,
                None => unreached(),
            },
            None => unreached(),
        }
    }

    /// Restores a payload taken out by `take_entry`.
    pub fn restore_entry(&mut self, id: HeapId, data: HeapData)
        requires
            old(self).wf(),
            old(self).spec_live(id),
            old(self).spec_data(id) is None,
        ensures
            final(self).wf(),
            final(self).entries@ == old(self).entries@.update(
                id as int,
                Some(
                    (HeapEntry {
                        refcount: old(self).spec_rc(id) as usize,
                        data: Some(data),
                        hash_state: old(self).spec_hash_state(id),
                    }),
                ),
            ),
            final(self).free_list@ == old(self).free_list@,
            final(self).spec_entry_count() == old(self).spec_entry_count(),
    {
        proof {
            lemma_count_some_update(
                old(self).entries@,
                id as int,
                Some(
                    HeapEntry {
                        refcount: old(self).spec_rc(id) as usize,
                        data: Some(data),
                        hash_state: old(self).spec_hash_state(id),
                    },
                ),
            );
        }
        let slot = &mut self.entries[id];
        match slot {
            Some(entry) => {
                entry.data = Some(data);
            },
            None => {
                proof {
                    assert(false);
                }
            },
        }
        proof {
            assert(self.entries@ =~= old(self).entries@.update(
                id as int,
                self.entries@[id as int],
            ));
        }
    }

    /// Decrements the reference count of a live entry; on the
    /// transition 1 to 0 the slot joins the free list and the
    /// payload's child references are released in turn (iteratively,
    /// so the call stack stays bounded whatever the nesting depth).
    #[verifier::loop_isolation(false)]
    #[verifier::rlimit(60)]
    pub fn dec_ref(&mut self, id: HeapId)
        requires
            old(self).wf(),
            old(self).spec_live(id),
        ensures
            final(self).wf(),
            final(self).entries@.len() == old(self).entries@.len(),
            old(self).spec_rc(id) > 1 ==> final(self).entries@ == old(self).entries@.update(
                id as int,
                Some(
                    (HeapEntry {
                        refcount: (old(self).spec_rc(id) - 1) as usize,
                        data: old(self).spec_data(id),
                        hash_state: old(self).spec_hash_state(id),
                    }),
                ),
            ) && final(self).free_list@ == old(self).free_list@ && final(self).spec_entry_count() == old(
                self,
            ).spec_entry_count(),
            old(self).spec_rc(id) == 1 ==> !final(self).spec_live(id) && final(self).free_list@.len() > old(
                self,
            ).free_list@.len() && final(self).free_list@[old(self).free_list@.len() as int] == id
                && final(self).spec_entry_count() < old(self).spec_entry_count(),
            forall|j: int|
                0 <= j < final(self).entries@.len() && (#[trigger] final(self).entries@[j]) is Some ==> old(
                    self,
                ).entries@[j] is Some && final(self).entries@[j].unwrap().data
                == old(self).entries@[j].unwrap().data && final(self).entries@[j].unwrap().hash_state
                == old(self).entries@[j].unwrap().hash_state
                && final(self).entries@[j].unwrap().refcount <= old(self).entries@[j].unwrap().refcount,
            final(self).free_list@.len() >= old(self).free_list@.len() && final(self).free_list@.take(
                old(self).free_list@.len() as int,
            ) == old(self).free_list@,
            (old(self).spec_rc(id) == 1 && (match old(self).spec_data(id) {
                Some(d) => d.spec_child_ids().len() == 0,
                None => true,
            })) ==> final(self).entries@ == old(self).entries@.update(id as int, None) && final(self).free_list@
                == old(self).free_list@.push(id),
            // Exact child accounting: when no child's count can reach
            // zero, the freed payload releases exactly one unit per
            // owning position, and nothing else moves.
            (old(self).spec_rc(id) == 1 && (old(self).spec_data(id) matches Some(d))
                && spec_no_cascade(*old(self), old(self).spec_data(id).unwrap())) ==> {
                let m = old(self).spec_data(id).unwrap().spec_child_ids().to_multiset();
                &&& final(self).free_list@ == old(self).free_list@.push(id)
                &&& (forall|j: int|
                    0 <= j < old(self).entries@.len() ==> final(self).entries@[j] == (if j
                        == id as int {
                        None
                    } else {
                        spec_after_release(#[trigger] old(self).entries@[j], m.count(j as usize))
                    }))
            },
    {
        let rc = match &self.entries[id] {
            Some(entry) => entry.refcount,
            None => unreached(),
        };
        if rc > 1 {
            let slot = &mut self.entries[id];
            match slot {
                Some(entry) => {
                    entry.refcount = entry.refcount - 1;
                },
                None => {},
            }
            proof {
                lemma_count_some_update(
                    old(self).entries@,
                    id as int,
                    self.entries@[id as int],
                );
                assert(self.entries@ =~= old(self).entries@.update(
                    id as int,
                    self.entries@[id as int],
                ));
                assert(self.free_list@.take(old(self).free_list@.len() as int) =~= old(
                    self,
                ).free_list@);
            }
        } else {
            // The last reference: free the slot and release children.
            let slot = &mut self.entries[id];
            let entry_opt = slot.take();
            self.free_list.push(id);
            let ghost childless = match old(self).spec_data(id) {
                Some(d) => d.spec_child_ids().len() == 0,
                None => true,
            };
            let ghost exact_case = old(self).spec_data(id) is Some && spec_no_cascade(
                *old(self),
                old(self).spec_data(id).unwrap(),
            );
            let ghost m = (match old(self).spec_data(id) {
                Some(d) => d.spec_child_ids(),
                None => Seq::empty(),
            }).to_multiset();
            let mut work: Vec<HeapId> = Vec::new();
            match entry_opt {
                Some(entry) => match entry.data {
                    Some(mut data) => {
                        data.py_dec_ref_ids(&mut work);
                    },
                    None => {},
                },
                None => {},
            }
            proof {
                lemma_count_some_update(old(self).entries@, id as int, None);
                assert(self.entries@ =~= old(self).entries@.update(id as int, None));
                assert(self.free_list@.take(old(self).free_list@.len() as int) =~= old(
                    self,
                ).free_list@);
                broadcast use vstd::seq_lib::group_to_multiset_ensures;

                if exact_case {
                    // Initially nothing has been released: the counts
                    // still owed are the whole multiset.
                    assert(work@.to_multiset() =~= m);
                    assert(m.count(id) == 0 || old(self).spec_live(id));
                    assert forall|j: int| 0 <= j < old(self).entries@.len() implies
                        self.entries@[j] == (if j == id as int {
                        None
                    } else {
                        spec_after_release(
                            #[trigger] old(self).entries@[j],
                            (m.count(j as usize) - work@.to_multiset().count(j as usize)) as nat,
                        )
                    }) by {
                        if j != id as int {
                            match old(self).entries@[j] {
                                Some(e) => {
                                    assert(spec_after_release(old(self).entries@[j], 0nat)
                                        == Some(e));
                                },
                                None => {},
                            }
                        }
                    }
                }
            }
            while work.len() > 0
                invariant
                    self.wf(),
                    self.entries@.len() == old(self).entries@.len(),
                    !self.spec_live(id),
                    self.spec_entry_count() < old(self).spec_entry_count(),
                    forall|j: int|
                        0 <= j < self.entries@.len() && (#[trigger] self.entries@[j]) is Some
                            ==> old(self).entries@[j] is Some && self.entries@[j].unwrap().data
                            == old(self).entries@[j].unwrap().data
                            && self.entries@[j].unwrap().hash_state
                            == old(self).entries@[j].unwrap().hash_state
                            && self.entries@[j].unwrap().refcount <= old(
                            self,
                        ).entries@[j].unwrap().refcount,
                    self.free_list@.len() > old(self).free_list@.len(),
                    self.free_list@.take(old(self).free_list@.len() as int) == old(
                        self,
                    ).free_list@,
                    self.free_list@[old(self).free_list@.len() as int] == id,
                    childless ==> work@.len() == 0 && self.entries@ == old(self).entries@.update(
                        id as int,
                        None,
                    ) && self.free_list@ == old(self).free_list@.push(id),
                    exact_case ==> {
                        &&& (forall|c: HeapId|
                            #[trigger] work@.to_multiset().count(c) <= m.count(c))
                        &&& self.free_list@ == old(self).free_list@.push(id)
                        &&& (forall|j: int|
                            0 <= j < old(self).entries@.len() ==> self.entries@[j] == (if j
                                == id as int {
                                None
                            } else {
                                spec_after_release(
                                    #[trigger] old(self).entries@[j],
                                    (m.count(j as usize) - work@.to_multiset().count(
                                        j as usize,
                                    )) as nat,
                                )
                            }))
                    },
                decreases sum_rc(self.entries@), work@.len(),
            {
                let ghost pre = *self;
                let ghost work0 = work@;
                let c = match work.pop() {
                    Some(c) => c,
                    None => unreached(),
                };
                proof {
                    broadcast use vstd::seq_lib::group_to_multiset_ensures;

                    assert(work0.drop_last() =~= work0.remove(work0.len() - 1));
                    assert(work@.to_multiset() =~= work0.to_multiset().remove(c));
                    if exact_case {
                        assert(work0.contains(c));
                        assert(work0.to_multiset().count(c) >= 1);
                        assert(m.count(c) >= 1);
                        assert(old(self).spec_live(c) && old(self).spec_rc(c) > m.count(c));
                        assert(self.entries@[c as int] == spec_after_release(
                            old(self).entries@[c as int],
                            (m.count(c) - work0.to_multiset().count(c)) as nat,
                        ));
                        assert(rc_of(self.entries@[c as int]) >= 2);
                    }
                }
                if c < self.entries.len() {
                    let crc = match &self.entries[c] {
                        Some(entry) => entry.refcount,
                        None => 0,
                    };
                    proof {
                        if exact_case {
                            assert(crc as nat == rc_of(self.entries@[c as int]));
                            assert(crc >= 2);
                        }
                    }
                    if crc == 0 {
                        // Already freed: a stale identifier reported by a
                        // payload; nothing to release.
                    } else if crc > 1 {
                        let slot = &mut self.entries[c];
                        match slot {
                            Some(entry) => {
                                entry.refcount = entry.refcount - 1;
                            },
                            None => {},
                        }
                        proof {
                            broadcast use vstd::seq_lib::group_to_multiset_ensures;

                            assert(self.entries@ =~= pre.entries@.update(
                                c as int,
                                self.entries@[c as int],
                            ));
                            lemma_sum_rc_update(pre.entries@, c as int, self.entries@[c as int]);
                            lemma_count_some_update(
                                pre.entries@,
                                c as int,
                                self.entries@[c as int],
                            );
                            assert(sum_rc(self.entries@) < sum_rc(pre.entries@));
                            if exact_case {
                                assert forall|j: int|
                                    0 <= j < old(self).entries@.len() implies self.entries@[j] == (
                                if j == id as int {
                                    None
                                } else {
                                    spec_after_release(
                                        #[trigger] old(self).entries@[j],
                                        (m.count(j as usize) - work@.to_multiset().count(
                                            j as usize,
                                        )) as nat,
                                    )
                                }) by {
                                    if j == c as int {
                                        assert(work@.to_multiset().count(c)
                                            == work0.to_multiset().count(c) - 1);
                                    } else {
                                        assert(self.entries@[j] == pre.entries@[j]);
                                        assert(work@.to_multiset().count(j as usize)
                                            == work0.to_multiset().count(j as usize));
                                    }
                                }
                            }
                        }
                    } else {
                        // crc == 1: free this child too.
                        let slot = &mut self.entries[c];
                        let entry_opt = slot.take();
                        self.free_list.push(c);
                        match entry_opt {
                            Some(entry) => match entry.data {
                                Some(mut data) => {
                                    data.py_dec_ref_ids(&mut work);
                                },
                                None => {},
                            },
                            None => {},
                        }
                        proof {
                            assert(self.entries@ =~= pre.entries@.update(c as int, None));
                            lemma_sum_rc_update(pre.entries@, c as int, None);
                            lemma_count_some_update(pre.entries@, c as int, None);
                            assert(sum_rc(self.entries@) < sum_rc(pre.entries@));
                            assert(self.free_list@.take(old(self).free_list@.len() as int) =~= old(
                                self,
                            ).free_list@);
                        }
                    }
                }
            }
        }
    }

    /// Removes all entries and empties the free list; every
    /// identifier becomes invalid.  Used between executor runs.
    pub fn clear(&mut self)
        ensures
            final(self).wf(),
            final(self).entries@.len() == 0,
            final(self).free_list@.len() == 0,
            final(self).spec_entry_count() == 0,
    {
        self.entries.clear();
        self.free_list.clear();
    }
}

} // verus!
