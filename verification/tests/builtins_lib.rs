//! The builtin library observed directly.

use monty::args::ArgValues;
use monty::builtins::{builtin_any, builtin_filter, builtin_len, builtin_map, builtin_print,
    builtin_range, builtin_sum, Builtins};
use monty::heap::{Heap, HeapData};
use monty::io::PrintWriter;
use monty::value::Value;

#[test]
fn any_short_circuits_to_true() {
    let mut heap = Heap::new(16);
    let l = heap.allocate(HeapData::List(vec![Value::Int(0), Value::Int(2), Value::Int(0)]));
    let r = builtin_any(&mut heap, ArgValues::One(Value::Ref(l))).unwrap();
    assert_eq!(r, Value::Bool(true));
}

#[test]
fn any_of_empty_is_false() {
    let mut heap = Heap::new(16);
    let l = heap.allocate(HeapData::List(vec![]));
    let r = builtin_any(&mut heap, ArgValues::One(Value::Ref(l))).unwrap();
    assert_eq!(r, Value::Bool(false));
}

#[test]
fn any_rejects_non_iterables() {
    let mut heap = Heap::new(16);
    let e = builtin_any(&mut heap, ArgValues::One(Value::Int(3))).err().unwrap();
    assert_eq!(e.message(), "TypeError: 'int' object is not iterable");
}

#[test]
fn any_arity_error() {
    let mut heap = Heap::new(16);
    let e = builtin_any(&mut heap, ArgValues::Empty).err().unwrap();
    assert_eq!(e.message(), "TypeError: any() takes exactly 1 argument (0 given)");
}

#[test]
fn len_of_string_counts_characters() {
    let mut heap = Heap::new(16);
    let s = heap.allocate(HeapData::Str("hello".to_string()));
    heap.inc_ref(s);
    let r = builtin_len(&mut heap, ArgValues::One(Value::Ref(s))).unwrap();
    assert_eq!(r, Value::Int(5));
}

#[test]
fn len_of_int_is_an_error() {
    let mut heap = Heap::new(16);
    let e = builtin_len(&mut heap, ArgValues::One(Value::Int(3))).err().unwrap();
    assert_eq!(e.message(), "TypeError: object of type 'int' has no len()");
}

#[test]
fn range_builds_the_integers() {
    let mut heap = Heap::new(16);
    let r = builtin_range(&mut heap, ArgValues::One(Value::Int(4))).unwrap();
    match r {
        Value::Ref(id) => match heap.get(id) {
            HeapData::List(items) => assert_eq!(
                items,
                &vec![Value::Int(0), Value::Int(1), Value::Int(2), Value::Int(3)]
            ),
            _ => panic!("expected a list"),
        },
        _ => panic!("expected a heap reference"),
    }
}

#[test]
fn range_with_start_and_stop() {
    let mut heap = Heap::new(16);
    let r = builtin_range(&mut heap, ArgValues::Two(Value::Int(2), Value::Int(5))).unwrap();
    match r {
        Value::Ref(id) => match heap.get(id) {
            HeapData::List(items) => {
                assert_eq!(items, &vec![Value::Int(2), Value::Int(3), Value::Int(4)])
            }
            _ => panic!("expected a list"),
        },
        _ => panic!("expected a heap reference"),
    }
}

#[test]
fn range_rejects_strings() {
    let mut heap = Heap::new(16);
    let s = heap.allocate(HeapData::Str("x".to_string()));
    let e = builtin_range(&mut heap, ArgValues::One(Value::Ref(s))).err().unwrap();
    assert_eq!(
        e.message(),
        "TypeError: 'str' object cannot be interpreted as an integer"
    );
}

#[test]
fn sum_with_start_value() {
    let mut heap = Heap::new(16);
    let l = heap.allocate(HeapData::List(vec![Value::Int(1), Value::Int(2)]));
    let r = builtin_sum(&mut heap, ArgValues::Two(Value::Ref(l), Value::Int(10))).unwrap();
    assert_eq!(r, Value::Int(13));
}

#[test]
fn sum_rejects_a_string_start() {
    let mut heap = Heap::new(16);
    let l = heap.allocate(HeapData::List(vec![Value::Int(1)]));
    let s = heap.allocate(HeapData::Str("seed".to_string()));
    let e = builtin_sum(&mut heap, ArgValues::Two(Value::Ref(l), Value::Ref(s)))
        .err()
        .unwrap();
    assert_eq!(
        e.message(),
        "TypeError: sum() can't sum strings [use ''.join(seq) instead]"
    );
}

#[test]
fn sum_reports_unsupported_elements() {
    let mut heap = Heap::new(16);
    let inner = heap.allocate(HeapData::List(vec![]));
    let l = heap.allocate(HeapData::List(vec![Value::Ref(inner)]));
    heap.inc_ref(inner);
    let e = builtin_sum(&mut heap, ArgValues::One(Value::Ref(l))).err().unwrap();
    assert_eq!(
        e.message(),
        "TypeError: unsupported operand type(s) for +: 'int' and 'list'"
    );
}

#[test]
fn filter_with_none_keeps_truthy_elements() {
    let mut heap = Heap::new(16);
    let empty = heap.allocate(HeapData::Str(String::new()));
    let l = heap.allocate(HeapData::List(vec![
        Value::Int(0),
        Value::Int(1),
        Value::Bool(false),
        Value::Bool(true),
        Value::Ref(empty),
    ]));
    let mut writer = PrintWriter::Disabled;
    let r = builtin_filter(
        &mut heap,
        ArgValues::Two(Value::PyNone, Value::Ref(l)),
        &mut writer,
        4,
    )
    .unwrap();
    match r {
        Value::Ref(id) => match heap.get(id) {
            HeapData::List(items) => {
                assert_eq!(items, &vec![Value::Int(1), Value::Bool(true)])
            }
            _ => panic!("expected a list"),
        },
        _ => panic!("expected a heap reference"),
    }
}

#[test]
fn map_applies_a_builtin_elementwise() {
    let mut heap = Heap::new(16);
    let a = heap.allocate(HeapData::Str("xy".to_string()));
    let b = heap.allocate(HeapData::Str("pqr".to_string()));
    let l = heap.allocate(HeapData::List(vec![Value::Ref(a), Value::Ref(b)]));
    heap.inc_ref(a);
    heap.inc_ref(b);
    let mut writer = PrintWriter::Disabled;
    let r = builtin_map(
        &mut heap,
        ArgValues::Two(Value::Builtin(Builtins::Len), Value::Ref(l)),
        &mut writer,
        4,
    )
    .unwrap();
    match r {
        Value::Ref(id) => match heap.get(id) {
            HeapData::List(items) => assert_eq!(items, &vec![Value::Int(2), Value::Int(3)]),
            _ => panic!("expected a list"),
        },
        _ => panic!("expected a heap reference"),
    }
}

#[test]
fn map_needs_two_arguments() {
    let mut heap = Heap::new(16);
    let mut writer = PrintWriter::Disabled;
    let e = builtin_map(
        &mut heap,
        ArgValues::One(Value::Builtin(Builtins::Len)),
        &mut writer,
        4,
    )
    .err()
    .unwrap();
    assert_eq!(e.message(), "TypeError: map() must have at least two arguments.");
}

#[test]
fn print_writes_through_the_collecting_writer() {
    let mut heap = Heap::new(16);
    let s = heap.allocate(HeapData::Str("direct".to_string()));
    let mut writer = PrintWriter::Collect(String::new());
    let r = builtin_print(&mut heap, ArgValues::One(Value::Ref(s)), &mut writer).unwrap();
    assert_eq!(r, Value::PyNone);
    assert_eq!(writer.collected_output().unwrap(), "direct\n");
}

#[test]
fn iterating_bytes_yields_integers() {
    let mut heap = Heap::new(16);
    let b = heap.allocate(HeapData::Bytes(vec![0, 7, 255]));
    let r = builtin_any(&mut heap, ArgValues::One(Value::Ref(b))).unwrap();
    assert_eq!(r, Value::Bool(true));
    let b2 = heap.allocate(HeapData::Bytes(vec![0, 0]));
    let r2 = builtin_any(&mut heap, ArgValues::One(Value::Ref(b2))).unwrap();
    assert_eq!(r2, Value::Bool(false));
}

/// A sink that refuses everything, to observe error propagation.
struct FailingSink;

impl monty::io::PrintWriterCallback for FailingSink {
    fn stdout_write(&mut self, _output: &str) -> Result<(), monty::exceptions::RunError> {
        Err(monty::exceptions::RunError::Internal(
            monty::exceptions::InternalRunError::Error("sink failed".to_string()),
        ))
    }

    fn stdout_push(&mut self, _end: char) -> Result<(), monty::exceptions::RunError> {
        Err(monty::exceptions::RunError::Internal(
            monty::exceptions::InternalRunError::Error("sink failed".to_string()),
        ))
    }
}

#[test]
fn print_propagates_a_callback_failure() {
    let mut heap = Heap::new(16);
    let a = heap.allocate(HeapData::Str("x".to_string()));
    let mut writer = PrintWriter::Callback(Box::new(FailingSink));
    let e = builtin_print(&mut heap, ArgValues::One(Value::Ref(a)), &mut writer)
        .err()
        .unwrap();
    assert_eq!(e.message(), "Internal Error: sink failed");
    // The arguments were still released.
    assert_eq!(heap.entry_count(), 0);
}
