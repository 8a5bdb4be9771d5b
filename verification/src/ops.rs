//! Value-level operations over the heap: the clone/drop discipline
//! for owning references, binary operators on payloads, indexing, and
//! attribute calls.
//!
//! The heap-effect spec predicates (`fresh_alloc`, `only_incs`,
//! `releases_only`) name the three ways an operation may touch slots
//! it does not own: add one fresh entry, raise reference counts, or
//! lower/free them.

use vstd::prelude::*;

use crate::exceptions::{Exception, ExcType};
use crate::heap::{Heap, HeapData, HashState};
use crate::value::{HeapId, Value};

verus! {

/// `post` is `pre` plus exactly one fresh live entry `rid` with
/// reference count 1; every pre-existing slot is unchanged.
pub open spec fn fresh_alloc_at(pre: Heap, post: Heap, rid: HeapId) -> bool {
    &&& post.wf()
    &&& !pre.spec_live(rid)
    &&& post.spec_live(rid)
    &&& post.spec_rc(rid) == 1
    &&& post.spec_entry_count() == pre.spec_entry_count() + 1
    &&& forall|j: int|
        0 <= j < pre.entries@.len() && j != rid ==> post.entries@[j] == #[trigger] pre.entries@[j]
    &&& pre.entries@.len() <= post.entries@.len() <= pre.entries@.len() + 1
    &&& rid < post.entries@.len()
}

/// `post` is `pre` plus one fresh live entry `rid` with reference
/// count 1, where pre-existing slots may additionally have gained
/// reference-count units (children shared into the new entry).
pub open spec fn alloc_with_incs(pre: Heap, post: Heap, rid: HeapId) -> bool {
    &&& post.wf()
    &&& !pre.spec_live(rid)
    &&& post.spec_live(rid)
    &&& post.spec_rc(rid) == 1
    &&& post.spec_entry_count() == pre.spec_entry_count() + 1
    &&& forall|j: int|
        0 <= j < pre.entries@.len() && j != rid ==> (((#[trigger] post.entries@[j]) is Some <==>
        pre.entries@[j] is Some) && (pre.entries@[j] is Some ==> post.entries@[j].unwrap().data
            == pre.entries@[j].unwrap().data && post.entries@[j].unwrap().hash_state
            == pre.entries@[j].unwrap().hash_state && post.entries@[j].unwrap().refcount
            >= pre.entries@[j].unwrap().refcount))
    &&& pre.entries@.len() <= post.entries@.len() <= pre.entries@.len() + 1
    &&& rid < post.entries@.len()
}

/// `post` differs from `pre` at most by higher reference counts: the
/// same slots are live, with the same payloads and hash states.
pub open spec fn only_incs(pre: Heap, post: Heap) -> bool {
    &&& post.wf()
    &&& post.entries@.len() == pre.entries@.len()
    &&& post.free_list@ == pre.free_list@
    &&& forall|j: int|
        0 <= j < pre.entries@.len() ==> ((#[trigger] post.entries@[j]) is Some <==> pre.entries@[j]
            is Some) && (pre.entries@[j] is Some ==> post.entries@[j].unwrap().data
            == pre.entries@[j].unwrap().data && post.entries@[j].unwrap().hash_state
            == pre.entries@[j].unwrap().hash_state && post.entries@[j].unwrap().refcount
            >= pre.entries@[j].unwrap().refcount)
}

/// `post` differs from `pre` at most by released references: live
/// slots of `post` were live in `pre` with the same payload and hash
/// state and at least the same reference count, and the free list
/// only grew.
pub open spec fn releases_only(pre: Heap, post: Heap) -> bool {
    &&& post.wf()
    &&& post.entries@.len() == pre.entries@.len()
    &&& forall|j: int|
        0 <= j < post.entries@.len() && (#[trigger] post.entries@[j]) is Some ==> pre.entries@[j]
            is Some && post.entries@[j].unwrap().data == pre.entries@[j].unwrap().data
            && post.entries@[j].unwrap().hash_state == pre.entries@[j].unwrap().hash_state
            && post.entries@[j].unwrap().refcount <= pre.entries@[j].unwrap().refcount
    &&& post.free_list@.len() >= pre.free_list@.len()
    &&& post.free_list@.take(pre.free_list@.len() as int) == pre.free_list@
}

/// Every slot live in `pre` is still live in `post`, with the same
/// payload and hash state and at least the same reference count; new
/// slots may have appeared.
pub open spec fn preserves_live(pre: Heap, post: Heap) -> bool {
    &&& post.wf()
    &&& post.entries@.len() >= pre.entries@.len()
    &&& forall|j: int|
        0 <= j < pre.entries@.len() && (#[trigger] pre.entries@[j]) is Some ==> post.entries@[j]
            is Some && post.entries@[j].unwrap().data == pre.entries@[j].unwrap().data
            && post.entries@[j].unwrap().hash_state == pre.entries@[j].unwrap().hash_state
            && post.entries@[j].unwrap().refcount >= pre.entries@[j].unwrap().refcount
}

/// Duplicates a value's ownership: for a live reference this raises
/// the target's reference count by one; immediates, and references
/// whose slot is not live or whose count is saturated, are returned
/// unchanged.  (The strict discipline is `Value::clone_with_heap`;
/// this form is total so the executor can call it on any value.)
pub fn clone_value(heap: &mut Heap, v: &Value) -> (r: Value)
    requires
        old(heap).wf(),
    ensures
        r == *v,
        final(heap).wf(),
        only_incs(*old(heap), *final(heap)),
        (match *v {
            Value::Ref(id) => old(heap).spec_live(id) && old(heap).spec_rc(id) < usize::MAX
                ==> final(heap).spec_rc(id) == old(heap).spec_rc(id) + 1,
            _ => *final(heap) == *old(heap),
        }),
        // Only the target slot is touched.
        (match *v {
            Value::Ref(id) => forall|j: int|
                0 <= j < old(heap).entries@.len() && j != id ==> final(heap).entries@[j] == (
                #[trigger] old(heap).entries@[j]),
            _ => true,
        }),
        !(*v is Ref) ==> *final(heap) == *old(heap),
{
    match v {
        Value::Ref(id) => {
            if *id < heap.entries.len() {
                let live = match &heap.entries[*id] {
                    Some(entry) => entry.refcount < usize::MAX,
                    None => false,
                };
                if live {
                    heap.inc_ref(*id);
                    proof {
                        assert forall|j: int|
                            0 <= j < old(heap).entries@.len() implies ((
                        #[trigger] heap.entries@[j]) is Some <==> old(heap).entries@[j] is Some)
                            && (old(heap).entries@[j] is Some ==> heap.entries@[j].unwrap().data
                            == old(heap).entries@[j].unwrap().data
                            && heap.entries@[j].unwrap().hash_state == old(
                            heap,
                        ).entries@[j].unwrap().hash_state && heap.entries@[j].unwrap().refcount
                            >= old(heap).entries@[j].unwrap().refcount) by {
                            assert(heap.entries@ == old(heap).entries@.update(
                                *id as int,
                                heap.entries@[*id as int],
                            ));
                        }
                    }
                }
            }
            Value::Ref(*id)
        },
        Value::PyNone => Value::PyNone,
        Value::Undefined => Value::Undefined,
        Value::Bool(b) => Value::Bool(*b),
        Value::Int(i) => Value::Int(*i),
        Value::Builtin(b) => Value::Builtin(*b),
    }
}

/// Releases a value's ownership: for a live reference this is
/// `dec_ref`; immediates, and references whose slot is not live, do
/// nothing.  (The strict discipline is `Value::drop_with_heap`; this
/// form is total so the executor can call it on any value.)
pub fn drop_value(heap: &mut Heap, v: &Value)
    requires
        old(heap).wf(),
    ensures
        final(heap).wf(),
        releases_only(*old(heap), *final(heap)),
        (match *v {
            Value::Ref(id) => old(heap).spec_live(id) && old(heap).spec_rc(id) > 1
                ==> final(heap).spec_rc(id) == old(heap).spec_rc(id) - 1 && final(heap).spec_entry_count()
                == old(heap).spec_entry_count(),
            _ => *final(heap) == *old(heap),
        }),
        (match *v {
            Value::Ref(id) => old(heap).spec_live(id) && old(heap).spec_rc(id) == 1 ==> !final(heap).spec_live(
                id,
            ) && final(heap).spec_entry_count() < old(heap).spec_entry_count(),
            _ => *final(heap) == *old(heap),
        }),
        // A release above one unit, or of a childless payload's last
        // unit, is exact.
        (match *v {
            Value::Ref(id) => {
                &&& (old(heap).spec_live(id) && old(heap).spec_rc(id) > 1 ==> final(heap).entries@
                    == old(heap).entries@.update(
                    id as int,
                    Some(
                        (crate::heap::HeapEntry {
                            refcount: (old(heap).spec_rc(id) - 1) as usize,
                            data: old(heap).spec_data(id),
                            hash_state: old(heap).spec_hash_state(id),
                        }),
                    ),
                ) && final(heap).free_list@ == old(heap).free_list@)
                &&& ((old(heap).spec_live(id) && old(heap).spec_rc(id) == 1
                    && crate::heap::spec_childless(old(heap).spec_data(id)))
                    ==> final(heap).entries@ == old(heap).entries@.update(id as int, None)
                        && final(heap).free_list@ == old(heap).free_list@.push(id))
            },
            _ => true,
        }),
        !(*v is Ref) ==> *final(heap) == *old(heap),
{
    match v {
        Value::Ref(id) => {
            if *id < heap.entries.len() {
                let live = match &heap.entries[*id] {
                    Some(_) => true,
                    None => false,
                };
                if live {
                    heap.dec_ref(*id);
                    proof {
                        if old(heap).spec_rc(*id) > 1 {
                            crate::heap::lemma_count_some_update(
                                old(heap).entries@,
                                *id as int,
                                heap.entries@[*id as int],
                            );
                        }
                        assert(heap.free_list@.take(old(heap).free_list@.len() as int) =~= old(
                            heap,
                        ).free_list@);
                    }
                } else {
                    proof {
                        assert(heap.free_list@.take(old(heap).free_list@.len() as int) =~= old(
                            heap,
                        ).free_list@);
                    }
                }
            } else {
                proof {
                    assert(heap.free_list@.take(old(heap).free_list@.len() as int) =~= old(
                        heap,
                    ).free_list@);
                }
            }
        },
        _ => {
            proof {
                assert(heap.free_list@.take(old(heap).free_list@.len() as int) =~= old(
                    heap,
                ).free_list@);
            }
        },
    }
}

/// Releases every value of a vector, in order.
pub fn drop_values(heap: &mut Heap, vs: &Vec<Value>)
    requires
        old(heap).wf(),
    ensures
        final(heap).wf(),
        releases_only(*old(heap), *final(heap)),
        vs@.len() == 0 ==> *final(heap) == *old(heap),
{
    let n = vs.len();
    if n == 0 {
        proof {
            lemma_releases_only_refl(*heap);
        }
        return;
    }
    let mut i: usize = 0;
    proof {
        assert(heap.free_list@.take(heap.free_list@.len() as int) =~= heap.free_list@);
    }
    while i < n
        invariant
            heap.wf(),
            releases_only(*old(heap), *heap),
            i <= n,
            n == vs@.len(),
        decreases n - i,
    {
        let ghost mid = *heap;
        drop_value(heap, &vs[i]);
        proof {
            lemma_releases_only_trans(*old(heap), mid, *heap);
        }
        i = i + 1;
    }
}

/// A well-formed heap releases nothing relative to itself.
pub proof fn lemma_releases_only_refl(h: Heap)
    requires
        h.wf(),
    ensures
        releases_only(h, h),
{
    assert(h.free_list@.take(h.free_list@.len() as int) =~= h.free_list@);
}

/// Chaining two release-only steps is release-only.
pub proof fn lemma_releases_only_trans(a: Heap, b: Heap, c: Heap)
    requires
        releases_only(a, b),
        releases_only(b, c),
    ensures
        releases_only(a, c),
{
    assert(c.free_list@.take(a.free_list@.len() as int) =~= b.free_list@.take(
        a.free_list@.len() as int,
    ));
}

/// Entries keep their payloads: every slot live afterwards was live
/// before, with the same data and hash state.  Reference counts may
/// move either way and slots may be freed, but no payload is created
/// or changed anywhere.
pub open spec fn keeps_payloads(pre: Heap, post: Heap) -> bool {
    &&& post.wf()
    &&& post.entries@.len() == pre.entries@.len()
    &&& post.free_list@.len() >= pre.free_list@.len()
    &&& post.free_list@.take(pre.free_list@.len() as int) == pre.free_list@
    &&& forall|j: int|
        0 <= j < post.entries@.len() && (#[trigger] post.entries@[j]) is Some ==> pre.entries@[j]
            is Some && post.entries@[j].unwrap().data == pre.entries@[j].unwrap().data
            && post.entries@[j].unwrap().hash_state == pre.entries@[j].unwrap().hash_state
}

/// A step that only raises reference counts keeps every payload.
pub proof fn lemma_keeps_payloads_from_only_incs(a: Heap, b: Heap)
    requires
        only_incs(a, b),
    ensures
        keeps_payloads(a, b),
{
    assert(b.free_list@.take(a.free_list@.len() as int) =~= a.free_list@);
}

/// A step that only releases references keeps every payload.
pub proof fn lemma_keeps_payloads_from_releases(a: Heap, b: Heap)
    requires
        releases_only(a, b),
    ensures
        keeps_payloads(a, b),
{
}

/// Chaining two payload-keeping steps keeps every payload.
pub proof fn lemma_keeps_payloads_trans(a: Heap, b: Heap, c: Heap)
    requires
        keeps_payloads(a, b),
        keeps_payloads(b, c),
    ensures
        keeps_payloads(a, c),
{
    assert(c.free_list@.take(a.free_list@.len() as int) =~= b.free_list@.take(
        a.free_list@.len() as int,
    ));
}

impl Value {
    /// Duplicates this value under the ownership discipline: a `Ref`
    /// gains one reference-count unit on its target, which must be
    /// live.  This and `drop_with_heap` are the sanctioned ways to
    /// copy and discard values.
    pub fn clone_with_heap(&self, heap: &mut Heap) -> (r: Value)
        requires
            old(heap).wf(),
            *self is Ref ==> old(heap).spec_live(self->Ref_0) && old(heap).spec_rc(self->Ref_0)
                < usize::MAX,
        ensures
            r == *self,
            final(heap).wf(),
            only_incs(*old(heap), *final(heap)),
            *self is Ref ==> final(heap).spec_rc(self->Ref_0) == old(heap).spec_rc(self->Ref_0) + 1,
            !(*self is Ref) ==> *final(heap) == *old(heap),
    {
        clone_value(heap, self)
    }

    /// Discards this value under the ownership discipline: a `Ref`
    /// gives up its reference-count unit, freeing the target when it
    /// was the last one.
    pub fn drop_with_heap(self, heap: &mut Heap)
        requires
            old(heap).wf(),
            self is Ref ==> old(heap).spec_live(self->Ref_0),
        ensures
            final(heap).wf(),
            releases_only(*old(heap), *final(heap)),
            self is Ref && old(heap).spec_rc(self->Ref_0) > 1 ==> final(heap).spec_rc(self->Ref_0)
                == old(heap).spec_rc(self->Ref_0) - 1,
            self is Ref && old(heap).spec_rc(self->Ref_0) == 1 ==> !final(heap).spec_live(self->Ref_0),
            !(self is Ref) ==> *final(heap) == *old(heap),
    {
        drop_value(heap, &self)
    }
}

/// A `TypeError` whose message is `unsupported operand type(s) for
/// <op>: '<left>' and '<right>'`, as raised for a binary operator on
/// operands that do not support it.
pub fn operand_type_error(op: &str, left_type: &str, right_type: &str) -> (e: Exception)
    ensures
        e.exc_type == ExcType::TypeError,
        e.args@.len() == 1,
        e.args@[0] matches crate::value::Const::Str(s) && s@ == "unsupported operand type(s) for "@
            + op@ + ": '"@ + left_type@ + "' and '"@ + right_type@ + seq!['\''],
{
    let mut msg = String::new();
    msg.append("unsupported operand type(s) for ");
    msg.append(op);
    msg.append(": '");
    msg.append(left_type);
    msg.append("' and '");
    msg.append(right_type);
    msg.append("'");
    proof {
        reveal_strlit("'");
        assert(msg@ =~= "unsupported operand type(s) for "@ + op@ + ": '"@ + left_type@
            + "' and '"@ + right_type@ + seq!['\'']);
    }
    Exception::new(msg, ExcType::TypeError)
}

/// Copies the values of `items` into a fresh vector, raising the
/// reference count of every live reference among them.
fn clone_items(heap: &mut Heap, items: &Vec<Value>, out: &mut Vec<Value>)
    requires
        old(heap).wf(),
    ensures
        final(heap).wf(),
        only_incs(*old(heap), *final(heap)),
        final(out)@ == old(out)@ + items@,
{
    let n = items.len();
    let mut i: usize = 0;
    while i < n
        invariant
            heap.wf(),
            only_incs(*old(heap), *heap),
            i <= n,
            n == items@.len(),
            out@ == old(out)@ + items@.take(i as int),
        decreases n - i,
    {
        let ghost mid = *heap;
        let c = clone_value(heap, &items[i]);
        out.push(c);
        proof {
            assert(out@ =~= old(out)@ + items@.take(i + 1));
        }
        i = i + 1;
    }
    proof {
        assert(items@.take(n as int) =~= items@);
    }
}

/// Appends the bytes of `b` to `out`.
fn extend_bytes(out: &mut Vec<u8>, b: &Vec<u8>)
    ensures
        final(out)@ == old(out)@ + b@,
{
    let n = b.len();
    let mut i: usize = 0;
    while i < n
        invariant
            i <= n,
            n == b@.len(),
            out@ == old(out)@ + b@.take(i as int),
        decreases n - i,
    {
        out.push(b[i]);
        proof {
            assert(out@ =~= old(out)@ + b@.take(i + 1));
        }
        i = i + 1;
    }
    proof {
        assert(b@.take(n as int) =~= b@);
    }
}

impl HeapData {
    /// The `+` operator on two payloads of the same variant: strings,
    /// byte strings, lists and tuples concatenate into a fresh
    /// allocation (raising the reference counts of copied children);
    /// `None` signals an unsupported pairing, and the caller raises
    /// `TypeError`.
    pub fn py_add(&self, other: &Self, heap: &mut Heap) -> (r: Option<Value>)
        requires
            old(heap).wf(),
        ensures
            final(heap).wf(),
            // Concatenations produce a fresh allocation whose content
            // is pinned; list and tuple concatenation first raises the
            // reference counts of the shared children.
            (match (*self, *other) {
                (HeapData::Str(a), HeapData::Str(b)) => {
                    &&& r matches Some(Value::Ref(rid))
                    &&& fresh_alloc_at(*old(heap), *final(heap), rid)
                    &&& final(heap).spec_data(rid) matches Some(HeapData::Str(s))
                    &&& s@ == a@ + b@
                    &&& final(heap).spec_hash_state(rid) == HashState::Unknown
                },
                (HeapData::Bytes(a), HeapData::Bytes(b)) => {
                    &&& r matches Some(Value::Ref(rid))
                    &&& fresh_alloc_at(*old(heap), *final(heap), rid)
                    &&& final(heap).spec_data(rid) matches Some(HeapData::Bytes(v))
                    &&& v@ == a@ + b@
                    &&& final(heap).spec_hash_state(rid) == HashState::Unknown
                },
                (HeapData::List(a), HeapData::List(b)) => {
                    &&& r matches Some(Value::Ref(rid))
                    &&& alloc_with_incs(*old(heap), *final(heap), rid)
                    &&& final(heap).spec_data(rid) matches Some(HeapData::List(v))
                    &&& v@ == a@ + b@
                    &&& final(heap).spec_hash_state(rid) == HashState::Unhashable
                },
                (HeapData::Tuple(a), HeapData::Tuple(b)) => {
                    &&& r matches Some(Value::Ref(rid))
                    &&& alloc_with_incs(*old(heap), *final(heap), rid)
                    &&& final(heap).spec_data(rid) matches Some(HeapData::Tuple(v))
                    &&& v@ == a@ + b@
                    &&& final(heap).spec_hash_state(rid) == HashState::Unknown
                },
                _ => r is None && *final(heap) == *old(heap),
            }),
            r is None <==> !spec_addable(*self, *other),
    {
        match (self, other) {
            (HeapData::Str(a), HeapData::Str(b)) => {
                let mut s = String::new();
                s.append(a.as_str());
                s.append(b.as_str());
                proof {
                    assert(s@ =~= a@ + b@);
                }
                let rid = heap.allocate(HeapData::Str(s));
                Some(Value::Ref(rid))
            },
            (HeapData::Bytes(a), HeapData::Bytes(b)) => {
                let mut v: Vec<u8> = Vec::new();
                extend_bytes(&mut v, a);
                extend_bytes(&mut v, b);
                proof {
                    assert(v@ =~= a@ + b@);
                }
                let rid = heap.allocate(HeapData::Bytes(v));
                Some(Value::Ref(rid))
            },
            (HeapData::List(a), HeapData::List(b)) => {
                let mut v: Vec<Value> = Vec::new();
                clone_items(heap, a, &mut v);
                let ghost mid1 = *heap;
                clone_items(heap, b, &mut v);
                proof {
                    lemma_only_incs_trans(*old(heap), mid1, *heap);
                }
                proof {
                    assert(v@ =~= a@ + b@);
                }
                let ghost mid = *heap;
                let rid = heap.allocate(HeapData::List(v));
                proof {
                    crate::heap::lemma_count_some_pointwise(old(heap).entries@, mid.entries@);
                }
                Some(Value::Ref(rid))
            },
            (HeapData::Tuple(a), HeapData::Tuple(b)) => {
                let mut v: Vec<Value> = Vec::new();
                clone_items(heap, a, &mut v);
                let ghost mid1 = *heap;
                clone_items(heap, b, &mut v);
                proof {
                    lemma_only_incs_trans(*old(heap), mid1, *heap);
                }
                proof {
                    assert(v@ =~= a@ + b@);
                }
                let ghost mid = *heap;
                let rid = heap.allocate(HeapData::Tuple(v));
                proof {
                    crate::heap::lemma_count_some_pointwise(old(heap).entries@, mid.entries@);
                }
                Some(Value::Ref(rid))
            },
            _ => None,
        }
    }

    /// The `-` operator: no heap-resident variant supports it.
    pub fn py_sub(&self, other: &Self, heap: &mut Heap) -> (r: Option<Value>)
        requires
            old(heap).wf(),
        ensures
            final(heap).wf(),
            r is None,
            *final(heap) == *old(heap),
    {
        None
    }

    /// The `%` operator: no heap-resident variant supports it.
    pub fn py_mod(&self, other: &Self) -> (r: Option<Value>)
        ensures
            r is None,
    {
        None
    }

    /// The combined `% ... == n` fast path: no heap-resident variant
    /// supports it.
    pub fn py_mod_eq(&self, other: &Self, right_value: i64) -> (r: Option<bool>)
        ensures
            r is None,
    {
        None
    }
}

/// Which payload pairings support `+`.
pub open spec fn spec_addable(d1: HeapData, d2: HeapData) -> bool {
    ||| (d1 is Str && d2 is Str)
    ||| (d1 is Bytes && d2 is Bytes)
    ||| (d1 is List && d2 is List)
    ||| (d1 is Tuple && d2 is Tuple)
}

/// Chaining two increase-only steps is increase-only.
pub proof fn lemma_only_incs_trans(a: Heap, b: Heap, c: Heap)
    requires
        only_incs(a, b),
        only_incs(b, c),
    ensures
        only_incs(a, c),
{
}

} // verus!
