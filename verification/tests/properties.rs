//! End-to-end properties of the runtime: reference-count
//! conservation across statements, bounded slot reuse, determinism,
//! the sum fold, and the operator error texts.

use monty::builtins::Builtins;
use monty::heap::{Heap, HeapData};
use monty::io::PrintWriter;
use monty::exceptions::CodeRange;
use monty::program::{Expr, Node, Op, RunExpr, RunNode, RunStmt, Stmt};
use monty::resource::{LimitedTracker, NoLimitTracker};
use monty::value::{Const, Value};
use monty::vm::{run_program, VmError};

fn st(node: RunNode) -> RunStmt {
    Stmt {
        pos: CodeRange { file: "test.py".to_string(), start_line: 1, start_col: 0, end_line: 1, end_col: 7 },
        node,
    }
}

fn cs(s: &str) -> RunExpr {
    Expr::Constant(Const::Str(s.to_string()))
}

fn ci(i: i64) -> RunExpr {
    Expr::Constant(Const::Int(i))
}

fn call(func: Builtins, args: Vec<RunExpr>) -> RunExpr {
    Expr::Call { func, args, kwargs: vec![] }
}

fn run_once(nodes: &Vec<RunStmt>, nlocals: usize) -> (Result<Value, VmError>, String, usize) {
    let mut heap = Heap::new(16);
    let mut writer = PrintWriter::Collect(String::new());
    let mut tracker = NoLimitTracker;
    let namespace = vec![Value::Undefined; nlocals];
    let r = run_program(nodes, namespace, &mut heap, &mut tracker, &mut writer);
    let out = match &writer {
        PrintWriter::Collect(buf) => buf.clone(),
        _ => String::new(),
    };
    (r, out, heap.entry_count())
}

#[test]
fn ref_counts_are_conserved_across_statements() {
    // Statements whose temporaries do not leak into a local leave the
    // live-entry count where it was.
    let mut heap = Heap::new(16);
    let before = heap.entry_count();
    let nodes = vec![
        st(Node::Expr(Expr::Op {
            left: Box::new(cs("a")),
            op: Op::Add,
            right: Box::new(cs("b")),
        })),
        st(Node::Expr(call(Builtins::Len, vec![cs("xyz")]))),
    ];
    let mut writer = PrintWriter::Disabled;
    let mut tracker = NoLimitTracker;
    run_program(&nodes, vec![], &mut heap, &mut tracker, &mut writer).unwrap();
    assert_eq!(heap.entry_count(), before);
}

#[test]
fn ref_count_matches_live_copies() {
    let mut heap = Heap::new(16);
    let id = heap.allocate(HeapData::Str("shared".to_string()));
    let v = Value::Ref(id);
    let c1 = monty::ops::clone_value(&mut heap, &v);
    let c2 = monty::ops::clone_value(&mut heap, &v);
    // Three live copies, count three.
    assert_eq!(heap.get_refcount(id), 3);
    monty::ops::drop_value(&mut heap, &c1);
    monty::ops::drop_value(&mut heap, &c2);
    assert_eq!(heap.get_refcount(id), 1);
}

#[test]
fn slot_indices_stay_bounded_under_reuse() {
    // A loop that allocates and releases a string every iteration
    // keeps the arena at a constant size: P2 observed end to end.
    // v = ''  (then repeatedly) x = 'tmp' ... with x rebound each
    // iteration, the freed slot is reused.
    let nodes = vec![st(Node::For {
        target: 0,
        iter: call(Builtins::Range, vec![ci(500)]),
        body: vec![st(Node::Assign { target: 1, object: Box::new(cs("temporary")) })],
        or_else: vec![],
    })];
    let mut heap = Heap::new(16);
    let mut writer = PrintWriter::Disabled;
    let mut tracker = NoLimitTracker;
    run_program(&nodes, vec![Value::Undefined, Value::Undefined], &mut heap, &mut tracker, &mut writer)
        .unwrap();
    // One slot for the range list, one or two for the strings in
    // flight: far below the 500 allocations made.
    assert!(heap.entries.len() <= 4);
}

#[test]
fn same_program_same_output() {
    // P5: byte-identical collected output and equal result on every
    // run.
    let nodes = vec![
        st(Node::For {
            target: 0,
            iter: call(Builtins::Range, vec![ci(5)]),
            body: vec![st(Node::Expr(Expr::Call {
                func: Builtins::Print,
                args: vec![Expr::Name(0), cs("!")],
                kwargs: vec![(Some("sep".to_string()), cs(""))],
            }))],
            or_else: vec![],
        }),
        st(Node::Expr(call(Builtins::Sum, vec![Expr::List(vec![ci(1), ci(2), ci(3)])]))),
    ];
    let (r1, out1, _) = run_once(&nodes, 1);
    let (r2, out2, _) = run_once(&nodes, 1);
    assert_eq!(out1, out2);
    assert_eq!(r1.unwrap(), r2.unwrap());
    assert_eq!(out1, "0!\n1!\n2!\n3!\n4!\n");
}

#[test]
fn sum_equals_left_fold() {
    // P8: sum(list, 0) is the left fold of addition.
    let items = vec![3i64, -7, 20, 11, 0, 5];
    let exprs: Vec<RunExpr> = items.iter().map(|i| ci(*i)).collect();
    let nodes = vec![st(Node::Expr(call(Builtins::Sum, vec![Expr::List(exprs)])))];
    let (r, _, _) = run_once(&nodes, 0);
    let folded = items.iter().fold(0i64, |acc, x| acc.wrapping_add(*x));
    assert_eq!(r.unwrap(), Value::Int(folded));
}

#[test]
fn sum_rejects_strings() {
    // sum(['a', 'b'])
    let nodes = vec![st(Node::Expr(call(
        Builtins::Sum,
        vec![Expr::List(vec![cs("a"), cs("b")])],
    )))];
    let (r, _, _) = run_once(&nodes, 0);
    match r {
        Err(VmError::Run(e)) => assert_eq!(
            e.message(),
            "Traceback (most recent call last):\n  File \"test.py\", line 1, in <module>\nTypeError: sum() can't sum strings [use ''.join(seq) instead]"
        ),
        _ => panic!("expected the dedicated string error"),
    }
}

#[test]
fn add_int_and_string_is_a_type_error() {
    // 1 + '1'
    let nodes = vec![st(Node::Expr(Expr::Op {
        left: Box::new(ci(1)),
        op: Op::Add,
        right: Box::new(cs("1")),
    }))];
    let (r, _, _) = run_once(&nodes, 0);
    match r {
        Err(VmError::Run(e)) => assert_eq!(
            e.message(),
            "Traceback (most recent call last):\n  File \"test.py\", line 1, in <module>\nTypeError: unsupported operand type(s) for +: 'int' and 'str'"
        ),
        _ => panic!("expected a type error"),
    }
}

#[test]
fn add_ints() {
    // 1 + 1
    let nodes = vec![st(Node::Expr(Expr::Op {
        left: Box::new(ci(1)),
        op: Op::Add,
        right: Box::new(ci(1)),
    }))];
    let (r, _, _) = run_once(&nodes, 0);
    assert_eq!(r.unwrap(), Value::Int(2));
}

#[test]
fn add_strs() {
    // 'a' + 'b'
    let nodes = vec![st(Node::Expr(Expr::Op {
        left: Box::new(cs("a")),
        op: Op::Add,
        right: Box::new(cs("b")),
    }))];
    let mut heap = Heap::new(16);
    let mut writer = PrintWriter::Disabled;
    let mut tracker = NoLimitTracker;
    let r = run_program(&nodes, vec![], &mut heap, &mut tracker, &mut writer).unwrap();
    match r {
        Value::Ref(id) => match heap.get(id) {
            HeapData::Str(s) => assert_eq!(s, "ab"),
            _ => panic!("expected a string"),
        },
        _ => panic!("expected a heap reference"),
    }
}

#[test]
fn for_loop_str_append() {
    // v = ''
    // for i in range(1000):
    //     if i % 13 == 0:
    //         v += 'x'
    // len(v)
    let nodes = vec![
        st(Node::Assign { target: 0, object: Box::new(cs("")) }),
        st(Node::For {
            target: 1,
            iter: call(Builtins::Range, vec![ci(1000)]),
            body: vec![st(Node::If {
                test: Expr::CmpOp {
                    left: Box::new(Expr::Op {
                        left: Box::new(Expr::Name(1)),
                        op: Op::Mod,
                        right: Box::new(ci(13)),
                    }),
                    op: monty::operators::CmpOp::Eq,
                    right: Box::new(ci(0)),
                },
                body: vec![st(Node::OpAssign { target: 0, op: Op::Add, object: Box::new(cs("x")) })],
                or_else: vec![],
            })],
            or_else: vec![],
        }),
        st(Node::Expr(call(Builtins::Len, vec![Expr::Name(0)]))),
    ];
    let (r, _, _) = run_once(&nodes, 2);
    assert_eq!(r.unwrap(), Value::Int(77));
}

#[test]
fn step_limit_clears_the_heap() {
    // The tracker denies the loop's back-edge; the run ends with the
    // distinct resource outcome and an empty heap.
    let nodes = vec![st(Node::For {
        target: 0,
        iter: call(Builtins::Range, vec![ci(100)]),
        body: vec![st(Node::Expr(Expr::Name(0)))],
        or_else: vec![],
    })];
    let mut heap = Heap::new(16);
    let mut writer = PrintWriter::Disabled;
    let mut tracker = LimitedTracker::new(10, 1000);
    let r = run_program(&nodes, vec![Value::Undefined], &mut heap, &mut tracker, &mut writer);
    match r {
        Err(VmError::Resource(monty::resource::ResourceError::StepLimit)) => {}
        _ => panic!("expected the step limit to end the run"),
    }
    assert_eq!(heap.entry_count(), 0);
}

#[test]
fn allocation_limit_is_reported() {
    let nodes = vec![
        st(Node::Expr(cs("one"))),
        st(Node::Expr(cs("two"))),
        st(Node::Expr(cs("three"))),
    ];
    let mut heap = Heap::new(16);
    let mut writer = PrintWriter::Disabled;
    let mut tracker = LimitedTracker::new(1000, 2);
    let r = run_program(&nodes, vec![], &mut heap, &mut tracker, &mut writer);
    match r {
        Err(VmError::Resource(monty::resource::ResourceError::AllocationLimit)) => {}
        _ => panic!("expected the allocation limit to end the run"),
    }
}

#[test]
fn list_concat_and_repr() {
    // repr([1, 'a', True] + [None]) over the library API.
    let mut heap = Heap::new(16);
    let a = heap.allocate(HeapData::Str("a".to_string()));
    let l1 = heap.allocate(HeapData::List(vec![
        Value::Int(1),
        Value::Ref(a),
        Value::Bool(true),
    ]));
    let l2 = heap.allocate(HeapData::List(vec![Value::PyNone]));
    let d1 = heap.take_entry(l1);
    let d2 = heap.take_entry(l2);
    let r = d1.py_add(&d2, &mut heap).unwrap();
    heap.restore_entry(l2, d2);
    heap.restore_entry(l1, d1);
    match r {
        Value::Ref(id) => {
            let repr = heap.get(id).py_repr(&heap);
            assert_eq!(repr, "[1, 'a', True, None]");
        }
        _ => panic!("expected a heap reference"),
    }
}

#[test]
fn modulo_follows_the_divisor_sign() {
    // -1 % 13 == 12 in the source language.
    let nodes = vec![st(Node::Expr(Expr::Op {
        left: Box::new(ci(-1)),
        op: Op::Mod,
        right: Box::new(ci(13)),
    }))];
    let (r, _, _) = run_once(&nodes, 0);
    assert_eq!(r.unwrap(), Value::Int(12));

    let nodes = vec![st(Node::Expr(Expr::Op {
        left: Box::new(ci(7)),
        op: Op::Mod,
        right: Box::new(ci(-3)),
    }))];
    let (r, _, _) = run_once(&nodes, 0);
    assert_eq!(r.unwrap(), Value::Int(-2));
}

#[test]
fn modulo_by_zero_is_a_value_error() {
    let nodes = vec![st(Node::Expr(Expr::Op {
        left: Box::new(ci(5)),
        op: Op::Mod,
        right: Box::new(ci(0)),
    }))];
    let (r, _, _) = run_once(&nodes, 0);
    match r {
        Err(VmError::Run(e)) => {
            assert_eq!(e.message(), "Traceback (most recent call last):\n  File \"test.py\", line 1, in <module>\nValueError: integer division or modulo by zero")
        }
        _ => panic!("expected a value error"),
    }
}

#[test]
fn reading_an_unassigned_name_raises() {
    let nodes = vec![st(Node::Expr(Expr::Name(0)))];
    let (r, _, _) = run_once(&nodes, 1);
    match r {
        Err(VmError::Run(e)) => assert_eq!(e.message(), "Traceback (most recent call last):\n  File \"test.py\", line 1, in <module>\nNameError: name is not defined"),
        _ => panic!("expected a name error"),
    }
}

#[test]
fn comparisons_produce_booleans() {
    let nodes = vec![st(Node::Expr(Expr::CmpOp {
        left: Box::new(ci(2)),
        op: monty::operators::CmpOp::Lt,
        right: Box::new(ci(5)),
    }))];
    let (r, _, _) = run_once(&nodes, 0);
    assert_eq!(r.unwrap(), Value::Bool(true));

    let nodes = vec![st(Node::Expr(Expr::CmpOp {
        left: Box::new(cs("a")),
        op: monty::operators::CmpOp::Eq,
        right: Box::new(cs("a")),
    }))];
    let (r, _, _) = run_once(&nodes, 0);
    assert_eq!(r.unwrap(), Value::Bool(true));
}

#[test]
fn order_comparison_of_strings_is_rejected() {
    let nodes = vec![st(Node::Expr(Expr::CmpOp {
        left: Box::new(cs("a")),
        op: monty::operators::CmpOp::Lt,
        right: Box::new(cs("b")),
    }))];
    let (r, _, _) = run_once(&nodes, 0);
    match r {
        Err(VmError::Run(e)) => assert_eq!(
            e.message(),
            "Traceback (most recent call last):\n  File \"test.py\", line 1, in <module>\nTypeError: '<' not supported between instances of 'str' and 'str'"
        ),
        _ => panic!("expected a type error"),
    }
}

#[test]
fn list_iadd_extends_in_place_preserving_aliases() {
    // x = [1]; x += [2]  keeps the same heap slot.
    let mut heap = Heap::new(16);
    let nodes = vec![
        st(Node::Assign { target: 0, object: Box::new(Expr::List(vec![ci(1)])) }),
        st(Node::OpAssign {
            target: 0,
            op: Op::Add,
            object: Box::new(Expr::List(vec![ci(2)])),
        }),
        st(Node::Expr(monty::program::Expr::Call {
            func: Builtins::Len,
            args: vec![Expr::Name(0)],
            kwargs: vec![],
        })),
    ];
    let mut writer = PrintWriter::Disabled;
    let mut tracker = NoLimitTracker;
    let r = run_program(&nodes, vec![Value::Undefined], &mut heap, &mut tracker, &mut writer)
        .unwrap();
    assert_eq!(r, Value::Int(2));
}
