//! The arena observed directly: reference counting, slot reuse, the
//! lazy hash cache, and the reentrant borrow helpers.

use monty::heap::{HashState, Heap, HeapData};
use monty::ops::{clone_value, drop_value};
use monty::value::Value;

#[test]
fn allocate_starts_with_one_reference() {
    let mut heap = Heap::new(4);
    let id = heap.allocate(HeapData::Str("x".to_string()));
    assert_eq!(heap.get_refcount(id), 1);
    assert_eq!(heap.entry_count(), 1);
}

#[test]
fn inc_and_dec_balance() {
    let mut heap = Heap::new(4);
    let id = heap.allocate(HeapData::Str("x".to_string()));
    heap.inc_ref(id);
    assert_eq!(heap.get_refcount(id), 2);
    heap.dec_ref(id);
    assert_eq!(heap.get_refcount(id), 1);
    heap.dec_ref(id);
    assert_eq!(heap.entry_count(), 0);
}

#[test]
fn dec_ref_releases_children() {
    let mut heap = Heap::new(8);
    let a = heap.allocate(HeapData::Str("a".to_string()));
    let b = heap.allocate(HeapData::Str("b".to_string()));
    let list = heap.allocate(HeapData::List(vec![Value::Ref(a), Value::Ref(b)]));
    assert_eq!(heap.entry_count(), 3);
    heap.dec_ref(list);
    // The list owned the only reference to each child.
    assert_eq!(heap.entry_count(), 0);
}

#[test]
fn dec_ref_keeps_shared_children() {
    let mut heap = Heap::new(8);
    let a = heap.allocate(HeapData::Str("a".to_string()));
    heap.inc_ref(a);
    let list = heap.allocate(HeapData::List(vec![Value::Ref(a)]));
    heap.dec_ref(list);
    assert_eq!(heap.entry_count(), 1);
    assert_eq!(heap.get_refcount(a), 1);
}

#[test]
fn free_list_reuses_slots() {
    let mut heap = Heap::new(4);
    let first = heap.allocate(HeapData::Str("x".to_string()));
    heap.dec_ref(first);
    // A steady stream of allocate/release pairs never grows the
    // arena beyond one slot.
    for i in 0..1000u64 {
        let id = heap.allocate(HeapData::Str(format!("s{}", i)));
        assert_eq!(id, first);
        assert_eq!(heap.entries.len(), 1);
        heap.dec_ref(id);
    }
}

#[test]
fn clear_empties_everything() {
    let mut heap = Heap::new(4);
    heap.allocate(HeapData::Str("x".to_string()));
    heap.allocate(HeapData::Bytes(vec![1, 2]));
    heap.clear();
    assert_eq!(heap.entry_count(), 0);
    assert_eq!(heap.entries.len(), 0);
    assert_eq!(heap.free_list.len(), 0);
}

#[test]
fn hash_is_cached_and_stable() {
    let mut heap = Heap::new(4);
    let id = heap.allocate(HeapData::Str("hello".to_string()));
    let first = heap.get_or_compute_hash(id).unwrap();
    let second = heap.get_or_compute_hash(id).unwrap();
    assert_eq!(first, second);
    match heap.entries[id].as_ref().unwrap().hash_state {
        HashState::Cached(h) => assert_eq!(h, first),
        _ => panic!("hash should be cached after the first call"),
    }
}

#[test]
fn equal_strings_hash_equally() {
    let mut heap = Heap::new(4);
    let a = heap.allocate(HeapData::Str("same text".to_string()));
    let b = heap.allocate(HeapData::Str("same text".to_string()));
    assert_eq!(heap.get_or_compute_hash(a), heap.get_or_compute_hash(b));
}

#[test]
fn mutable_values_are_unhashable() {
    let mut heap = Heap::new(4);
    let l = heap.allocate(HeapData::List(vec![Value::Int(1)]));
    assert_eq!(heap.get_or_compute_hash(l), None);
    let d = heap.allocate(HeapData::Dict(vec![]));
    assert_eq!(heap.get_or_compute_hash(d), None);
}

#[test]
fn tuple_hash_follows_elements() {
    let mut heap = Heap::new(8);
    let t1 = heap.allocate(HeapData::Tuple(vec![Value::Int(1), Value::Bool(true)]));
    let t2 = heap.allocate(HeapData::Tuple(vec![Value::Int(1), Value::Int(1)]));
    // True equals 1, so the tuples are structurally equal and hash
    // equally.
    assert_eq!(heap.get_or_compute_hash(t1), heap.get_or_compute_hash(t2));
}

#[test]
fn tuple_with_list_is_unhashable() {
    let mut heap = Heap::new(8);
    let l = heap.allocate(HeapData::List(vec![]));
    let t = heap.allocate(HeapData::Tuple(vec![Value::Ref(l)]));
    assert_eq!(heap.get_or_compute_hash(t), None);
}

#[test]
fn clone_and_drop_account_for_references() {
    let mut heap = Heap::new(4);
    let id = heap.allocate(HeapData::Str("x".to_string()));
    let v = Value::Ref(id);
    let copy = clone_value(&mut heap, &v);
    assert_eq!(heap.get_refcount(id), 2);
    drop_value(&mut heap, &copy);
    assert_eq!(heap.get_refcount(id), 1);
    drop_value(&mut heap, &v);
    assert_eq!(heap.entry_count(), 0);
}

#[test]
fn with_entry_mut_restores_payload() {
    let mut heap = Heap::new(4);
    let id = heap.allocate(HeapData::List(vec![Value::Int(1)]));
    let pushed = heap.with_entry_mut(id, |h: Heap, d: HeapData| -> (Heap, HeapData, usize) {
        match d {
            HeapData::List(mut items) => {
                items.push(Value::Int(2));
                let n = items.len();
                (h, HeapData::List(items), n)
            }
            other => (h, other, 0),
        }
    });
    assert_eq!(pushed, 2);
    match heap.get(id) {
        HeapData::List(items) => assert_eq!(items.len(), 2),
        _ => panic!("expected the list back"),
    }
}

#[test]
fn with_two_reads_both_payloads() {
    let mut heap = Heap::new(4);
    let a = heap.allocate(HeapData::Str("left".to_string()));
    let b = heap.allocate(HeapData::Str("right".to_string()));
    let lens = heap.with_two(a, b, |h: Heap, da: &HeapData, db: &HeapData| {
        let la = match da {
            HeapData::Str(s) => s.len(),
            _ => 0,
        };
        let lb = match db {
            HeapData::Str(s) => s.len(),
            _ => 0,
        };
        (h, (la, lb))
    });
    assert_eq!(lens, (4, 5));
    assert_eq!(heap.entry_count(), 2);
}

#[test]
fn with_two_detects_aliasing() {
    // The same slot on both sides: the payload is taken once and
    // passed twice, and comes back afterwards.
    let mut heap = Heap::new(4);
    let a = heap.allocate(HeapData::Str("same".to_string()));
    let both = heap.with_two(a, a, |h: Heap, da: &HeapData, db: &HeapData| {
        let la = match da {
            HeapData::Str(s) => s.len(),
            _ => 0,
        };
        let lb = match db {
            HeapData::Str(s) => s.len(),
            _ => 0,
        };
        (h, (la, lb))
    });
    assert_eq!(both, (4, 4));
    match heap.get(a) {
        HeapData::Str(s) => assert_eq!(s, "same"),
        _ => panic!("expected the string back"),
    }
}

#[test]
fn iadd_extend_list_shares_children() {
    let mut heap = Heap::new(8);
    let shared = heap.allocate(HeapData::Str("s".to_string()));
    let src = heap.allocate(HeapData::List(vec![Value::Ref(shared), Value::Int(7)]));
    let mut dest = vec![Value::Int(0)];
    assert!(heap.iadd_extend_list(src, &mut dest));
    assert_eq!(dest.len(), 3);
    // The shared child gained one reference for its new owner.
    assert_eq!(heap.get_refcount(shared), 2);
}

#[test]
fn iadd_extend_list_rejects_non_lists() {
    let mut heap = Heap::new(4);
    let s = heap.allocate(HeapData::Str("x".to_string()));
    let mut dest: Vec<Value> = vec![];
    assert!(!heap.iadd_extend_list(s, &mut dest));
    assert!(dest.is_empty());
}

#[test]
fn call_attr_appends_to_lists() {
    let mut heap = Heap::new(4);
    let id = heap.allocate(HeapData::List(vec![]));
    let r = heap
        .call_attr(id, &monty::index::Attr::Append, monty::args::ArgValues::One(Value::Int(5)))
        .unwrap();
    assert_eq!(r, Value::PyNone);
    match heap.get(id) {
        HeapData::List(items) => assert_eq!(items, &vec![Value::Int(5)]),
        _ => panic!("expected the list back"),
    }
}

#[test]
fn call_attr_unknown_attribute() {
    let mut heap = Heap::new(4);
    let id = heap.allocate(HeapData::Str("x".to_string()));
    let e = heap
        .call_attr(id, &monty::index::Attr::Append, monty::args::ArgValues::Empty)
        .err()
        .unwrap();
    assert_eq!(e.message(), "AttributeError: 'str' object has no attribute 'append'");
}
