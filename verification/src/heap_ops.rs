//! The reentrant-borrow helpers of the heap: running code that needs
//! a payload and the heap at the same time, and the in-place list
//! extension used by `+=`.
//!
//! The idiom is take-and-restore: the payload moves out of its slot
//! (the slot keeps its reference count, with the payload marked
//! absent), the callback runs with both the payload and the heap, and
//! the payload is put back afterwards.

use vstd::prelude::*;

use crate::args::ArgValues;
use crate::exceptions::{spec_simple_exc, ExcType, RunError};
use crate::heap::{refs_of, Heap, HeapData, HeapEntry};
use crate::index::Attr;
use crate::ops::{clone_value, only_incs};
use crate::value::{HeapId, Value};

verus! {

/// The slot array with the payloads of `left` and `right` taken out
/// (once, when they are the same slot).
pub open spec fn spec_two_taken(h: Heap, left: HeapId, right: HeapId) -> Seq<Option<HeapEntry>> {
    h.entries@.update(
        left as int,
        Some(
            HeapEntry {
                refcount: h.spec_rc(left) as usize,
                data: None,
                hash_state: h.spec_hash_state(left),
            },
        ),
    ).update(
        right as int,
        Some(
            HeapEntry {
                refcount: h.spec_rc(right) as usize,
                data: None,
                hash_state: h.spec_hash_state(right),
            },
        ),
    )
}

impl Heap {
    /// Runs `f` with the payload of `id` taken out, so that `f` can
    /// use the heap (for example to allocate results) while it holds
    /// the payload, and restores whatever payload `f` returns.
    ///
    /// Should `f` free or take the slot itself (through references it
    /// already held), the returned payload has no place to go back to
    /// and is discarded.
    pub fn with_entry_mut<F, R>(&mut self, id: HeapId, f: F) -> (r: R) where F: FnOnce(
        Heap,
        HeapData,
    ) -> (Heap, HeapData, R)
        requires
            old(self).wf(),
            old(self).spec_present(id),
            forall|h: Heap, d: HeapData|
                h.entries@ == old(self).entries@.update(
                    id as int,
                    Some(
                        (HeapEntry {
                            refcount: old(self).spec_rc(id) as usize,
                            data: None,
                            hash_state: old(self).spec_hash_state(id),
                        }),
                    ),
                ) && h.free_list@ == old(self).free_list@ && d == old(self).spec_data(id).unwrap()
                    ==> call_requires(f, (h, d)),
        ensures
            exists|taken: Heap, mid: Heap, d2: HeapData|
                {
                    &&& taken.entries@ == old(self).entries@.update(
                        id as int,
                        Some(
                            (HeapEntry {
                                refcount: old(self).spec_rc(id) as usize,
                                data: None,
                                hash_state: old(self).spec_hash_state(id),
                            }),
                        ),
                    )
                    &&& taken.free_list@ == old(self).free_list@
                    &&& call_ensures(f, (taken, old(self).spec_data(id).unwrap()), (mid, d2, r))
                    &&& (mid.spec_live(id) && mid.spec_data(id) is None ==> final(self).entries@
                        == mid.entries@.update(
                        id as int,
                        Some(
                            (HeapEntry {
                                refcount: mid.spec_rc(id) as usize,
                                data: Some(d2),
                                hash_state: mid.spec_hash_state(id),
                            }),
                        ),
                    ) && final(self).free_list@ == mid.free_list@)
                    &&& (!(mid.spec_live(id) && mid.spec_data(id) is None) ==> *final(self) == mid)
                },
    {
        let data = self.take_entry(id);
        let mut owned = Heap { entries: Vec::new(), free_list: Vec::new() };
        core::mem::swap(&mut owned, self);
        let (mut h2, d2, r) = f(owned, data);
        core::mem::swap(&mut h2, self);
        // Put the payload back, if its slot is still there to receive
        // it.
        let can_restore = if id < self.entries.len() {
            match &self.entries[id] {
                Some(entry) => match &entry.data {
                    Some(_) => false,
                    None => true,
                },
                None => false,
            }
        } else {
            false
        };
        if can_restore {
            let slot = &mut self.entries[id];
            match slot {
                Some(entry) => {
                    entry.data = Some(d2);
                },
                None => {},
            }
        }
        r
    }

    /// Runs `f` with the payloads of two slots taken out and lent to
    /// it by shared reference, so `f` can read both while it uses the
    /// heap.  Equal identifiers are detected: the payload is taken
    /// once and passed as both references.  The payloads are restored
    /// afterwards (the right slot first, then the left, mirroring the
    /// take order), whenever `f` left their slots in place.
    pub fn with_two<F, R>(&mut self, left: HeapId, right: HeapId, f: F) -> (r: R) where F: FnOnce(
        Heap,
        &HeapData,
        &HeapData,
    ) -> (Heap, R)
        requires
            old(self).wf(),
            old(self).spec_present(left),
            old(self).spec_present(right),
            forall|h: Heap, dl: &HeapData, dr: &HeapData|
                h.entries@ == spec_two_taken(*old(self), left, right) && h.free_list@ == old(
                    self,
                ).free_list@ && *dl == old(self).spec_data(left).unwrap() && *dr == old(
                    self,
                ).spec_data(right).unwrap() ==> call_requires(f, (h, dl, dr)),
        ensures
            exists|taken: Heap, mid: Heap, dl: &HeapData, dr: &HeapData|
                {
                    &&& taken.entries@ == spec_two_taken(*old(self), left, right)
                    &&& taken.free_list@ == old(self).free_list@
                    &&& *dl == old(self).spec_data(left).unwrap()
                    &&& *dr == old(self).spec_data(right).unwrap()
                    &&& #[trigger] call_ensures(f, (taken, dl, dr), (mid, r))
                    &&& ((left == right && mid.spec_live(left) && mid.spec_data(left) is None)
                        ==> final(self).entries@ == mid.entries@.update(
                        left as int,
                        Some(
                            (HeapEntry {
                                refcount: mid.spec_rc(left) as usize,
                                data: old(self).spec_data(left),
                                hash_state: mid.spec_hash_state(left),
                            }),
                        ),
                    ) && final(self).free_list@ == mid.free_list@)
                    &&& ((left != right && mid.spec_live(left) && mid.spec_data(left) is None
                        && mid.spec_live(right) && mid.spec_data(right) is None)
                        ==> final(self).entries@ == mid.entries@.update(
                        right as int,
                        Some(
                            (HeapEntry {
                                refcount: mid.spec_rc(right) as usize,
                                data: old(self).spec_data(right),
                                hash_state: mid.spec_hash_state(right),
                            }),
                        ),
                    ).update(
                        left as int,
                        Some(
                            (HeapEntry {
                                refcount: mid.spec_rc(left) as usize,
                                data: old(self).spec_data(left),
                                hash_state: mid.spec_hash_state(left),
                            }),
                        ),
                    ) && final(self).free_list@ == mid.free_list@)
                },
    {
        if left == right {
            let d = self.take_entry(left);
            let mut owned = Heap { entries: Vec::new(), free_list: Vec::new() };
            core::mem::swap(&mut owned, self);
            proof {
                assert(owned.entries@ =~= spec_two_taken(*old(self), left, right));
            }
            let (mut h2, r) = f(owned, &d, &d);
            core::mem::swap(&mut h2, self);
            restore_if_possible(self, left, d);
            r
        } else {
            let dl = self.take_entry(left);
            let dr = self.take_entry(right);
            let mut owned = Heap { entries: Vec::new(), free_list: Vec::new() };
            core::mem::swap(&mut owned, self);
            proof {
                assert(owned.entries@ =~= spec_two_taken(*old(self), left, right));
            }
            let (mut h2, r) = f(owned, &dl, &dr);
            core::mem::swap(&mut h2, self);
            restore_if_possible(self, right, dr);
            restore_if_possible(self, left, dl);
            r
        }
    }

    /// Calls the method `attr` on the entry at `id`, with the payload
    /// taken out so the method can use the heap.  Used when a heap
    /// object's method must mutate the object while also allocating.
    pub fn call_attr(&mut self, id: HeapId, attr: &Attr, args: ArgValues) -> (r: Result<
        Value,
        RunError,
    >)
        requires
            old(self).wf(),
            old(self).spec_present(id),
        ensures
            final(self).wf(),
            final(self).entries@.len() == old(self).entries@.len(),
            // A one-argument append on a list entry: the element is
            // pushed, nothing else changes.
            (old(self).spec_data(id) matches Some(HeapData::List(items)) && attr == Attr::Append
                && args.spec_args().len() == 1 && args.spec_kwargs().len() == 0) ==> {
                &&& r == Ok::<Value, RunError>(Value::PyNone)
                &&& final(self).spec_data(id) matches Some(HeapData::List(items2))
                &&& items2@ == (old(self).spec_data(id).unwrap()->List_0)@.push(
                    args.spec_args()[0],
                )
                &&& final(self).entries@ == old(self).entries@.update(
                    id as int,
                    Some(
                        (HeapEntry {
                            refcount: old(self).spec_rc(id) as usize,
                            data: final(self).spec_data(id),
                            hash_state: old(self).spec_hash_state(id),
                        }),
                    ),
                )
                &&& final(self).free_list@ == old(self).free_list@
            },
            // On the error paths the payload goes back into its slot
            // unchanged, whenever the slot survives releasing the
            // arguments.
            (r is Err && final(self).spec_live(id)) ==> final(self).spec_data(id) == old(
                self,
            ).spec_data(id) && final(self).spec_hash_state(id) == old(self).spec_hash_state(id),
            // On any other payload the attribute is missing.
            !(old(self).spec_data(id).unwrap() is List) ==> (r matches Err(e) && spec_simple_exc(
                e,
                ExcType::AttributeError,
                seq!['\''] + crate::pydata::spec_data_type_name(old(self).spec_data(id).unwrap())
                    + "' object has no attribute '"@ + attr.spec_str() + seq!['\''],
            )),
            // A wrong arity on a list is reported as such.
            (old(self).spec_data(id).unwrap() is List && !(args.spec_args().len() == 1
                && args.spec_kwargs().len() == 0)) ==> (r matches Err(e) && spec_simple_exc(
                e,
                ExcType::TypeError,
                ArgValues::spec_arity_msg("append"@, 1, args.spec_args().len() as nat),
            )),
    {
        let mut data = self.take_entry(id);
        let result = data.py_call_attr(self, attr, args);
        restore_if_possible(self, id, data);
        result
    }
}

impl Heap {
    /// Extends `dest` with the items of the list at `source_id`,
    /// raising the reference count of every copied child: the helper
    /// behind in-place list concatenation (`+=`).  Returns `false`,
    /// changing nothing, when the source entry is not a list.
    pub fn iadd_extend_list(&mut self, source_id: HeapId, dest: &mut Vec<Value>) -> (r: bool)
        requires
            old(self).wf(),
            old(self).spec_present(source_id),
        ensures
            final(self).wf(),
            (match old(self).spec_data(source_id) {
                Some(HeapData::List(items)) => {
                    &&& r == true
                    &&& final(dest)@ == old(dest)@ + items@
                    &&& only_incs(*old(self), *final(self))
                    // Exact accounting: each copied child gains one
                    // unit per owning position (short of count
                    // saturation, which no real heap reaches).
                    &&& (forall|j: HeapId|
                        old(self).spec_live(j) && old(self).spec_rc(j) + crate::heap::refs_of(
                            items@,
                        ).to_multiset().count(j) < usize::MAX ==> final(self).spec_rc(j) == old(
                            self,
                        ).spec_rc(j) + #[trigger] crate::heap::refs_of(items@).to_multiset().count(
                            j,
                        ))
                },
                _ => r == false && *final(self) == *old(self) && final(dest)@ == old(dest)@,
            }),
    {
        let is_list = match self.get(source_id) {
            HeapData::List(_) => true,
            _ => false,
        };
        if !is_list {
            return false;
        }
        let n = match self.get(source_id) {
            HeapData::List(items) => items.len(),
            _ => unreached(),
        };
        let ghost items0 = (old(self).spec_data(source_id).unwrap()->List_0)@;
        let mut i: usize = 0;
        proof {
            broadcast use vstd::seq_lib::group_to_multiset_ensures;

            assert(items0.take(0) =~= Seq::empty());
            assert(refs_of(items0.take(0)) =~= Seq::empty());
            assert(forall|j: HeapId|
                #[trigger] refs_of(items0.take(0)).to_multiset().count(j) == 0);
        }
        while i < n
            invariant
                self.wf(),
                only_incs(*old(self), *self),
                self.spec_present(source_id),
                self.spec_data(source_id) == old(self).spec_data(source_id),
                old(self).spec_data(source_id) matches Some(HeapData::List(items)) && n
                    == items@.len() && dest@ == old(dest)@ + items@.take(i as int),
                items0 == (old(self).spec_data(source_id).unwrap()->List_0)@,
                i <= n,
                forall|j: HeapId|
                    old(self).spec_live(j) && old(self).spec_rc(j) + crate::heap::refs_of(
                        items0,
                    ).to_multiset().count(j) < usize::MAX ==> self.spec_rc(j) == old(
                        self,
                    ).spec_rc(j) + #[trigger] crate::heap::refs_of(items0.take(i as int)).to_multiset().count(
                        j,
                    ),
            decreases n - i,
        {
            let v = match self.get(source_id) {
                HeapData::List(items) => items[i],
                _ => unreached(),
            };
            let ghost mid = *self;
            let c = clone_value(self, &v);
            dest.push(c);
            proof {
                broadcast use vstd::seq_lib::group_to_multiset_ensures;

                crate::ops::lemma_only_incs_trans(*old(self), mid, *self);
                assert(items0.take(i + 1) =~= items0.take(i as int).push(v));
                crate::heap::lemma_refs_of_take_step(items0, i as int);
                assert forall|j: HeapId|
                    old(self).spec_live(j) && old(self).spec_rc(j) + crate::heap::refs_of(
                        items0,
                    ).to_multiset().count(j) < usize::MAX implies self.spec_rc(j) == old(
                    self,
                ).spec_rc(j) + #[trigger] crate::heap::refs_of(items0.take(i + 1)).to_multiset().count(
                    j,
                ) by {
                    crate::heap::lemma_refs_of_take_prefix_bound(items0, i as int);
                    crate::heap::lemma_refs_of_take_prefix_bound(items0, i + 1);
                    vstd::seq_lib::lemma_multiset_commutative(
                        crate::heap::refs_of(items0.take(i as int)),
                        crate::heap::value_refs(v),
                    );
                    if v is Ref && j == v->Ref_0 {
                        assert(crate::heap::value_refs(v) =~= Seq::empty().push(j));
                        assert(crate::heap::value_refs(v).to_multiset() =~= vstd::multiset::Multiset::empty().insert(
                            j,
                        ));
                        assert(crate::heap::refs_of(items0.take(i + 1)).to_multiset().count(j)
                            == crate::heap::refs_of(items0.take(i as int)).to_multiset().count(j)
                            + 1);
                    } else {
                        if v is Ref {
                            assert(crate::heap::value_refs(v) =~= Seq::empty().push(v->Ref_0));
                            assert(crate::heap::value_refs(v).to_multiset()
                                =~= vstd::multiset::Multiset::empty().insert(v->Ref_0));
                            assert(crate::heap::value_refs(v).to_multiset().count(j) == 0);
                        } else {
                            assert(crate::heap::value_refs(v).to_multiset().count(j) == 0);
                        }
                        assert(crate::heap::refs_of(items0.take(i + 1)).to_multiset().count(j)
                            == crate::heap::refs_of(items0.take(i as int)).to_multiset().count(
                            j,
                        ));
                    }
                }
            }
            i = i + 1;
        }
        proof {
            assert(items0.take(n as int) =~= items0);
        }
        true
    }
}

/// Puts a payload back into its slot if the slot is still live with
/// its payload absent; otherwise the payload is discarded.
fn restore_if_possible(heap: &mut Heap, id: HeapId, data: HeapData)
    ensures
        (id < old(heap).entries@.len() && old(heap).entries@[id as int] is Some && old(
            heap,
        ).entries@[id as int].unwrap().data is None) ==> final(heap).entries@ == old(
            heap,
        ).entries@.update(
            id as int,
            Some(
                (HeapEntry {
                    refcount: old(heap).entries@[id as int].unwrap().refcount,
                    data: Some(data),
                    hash_state: old(heap).entries@[id as int].unwrap().hash_state,
                }),
            ),
        ) && final(heap).free_list@ == old(heap).free_list@,
        !(id < old(heap).entries@.len() && old(heap).entries@[id as int] is Some && old(
            heap,
        ).entries@[id as int].unwrap().data is None) ==> *final(heap) == *old(heap),
{
    if id < heap.entries.len() {
        let can = match &heap.entries[id] {
            Some(entry) => match &entry.data {
                Some(_) => false,
                None => true,
            },
            None => false,
        };
        if can {
            let slot = &mut heap.entries[id];
            match slot {
                Some(entry) => {
                    entry.data = Some(data);
                },
                None => {},
            }
            proof {
                assert(heap.entries@ =~= old(heap).entries@.update(
                    id as int,
                    heap.entries@[id as int],
                ));
            }
        }
    }
}

} // verus!
