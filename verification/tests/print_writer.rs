//! The print sink observed end to end: prepared programs run against
//! a collecting writer.

use monty::builtins::Builtins;
use monty::exceptions::CodeRange;
use monty::heap::{Heap, HeapData};
use monty::io::PrintWriter;
use monty::program::{Expr, Node, RunExpr, RunNode, RunStmt, Stmt};
use monty::resource::NoLimitTracker;
use monty::value::{Const, Value};
use monty::vm::run_program;

fn st(node: RunNode) -> RunStmt {
    Stmt {
        pos: CodeRange { file: "test.py".to_string(), start_line: 1, start_col: 0, end_line: 1, end_col: 0 },
        node,
    }
}

fn cs(s: &str) -> RunExpr {
    Expr::Constant(Const::Str(s.to_string()))
}

fn ci(i: i64) -> RunExpr {
    Expr::Constant(Const::Int(i))
}

fn print_call(args: Vec<RunExpr>, kwargs: Vec<(Option<String>, RunExpr)>) -> RunStmt {
    st(Node::Expr(Expr::Call { func: Builtins::Print, args, kwargs }))
}

fn kw(name: &str, e: RunExpr) -> (Option<String>, RunExpr) {
    (Some(name.to_string()), e)
}

fn run_collect(nodes: Vec<RunStmt>, namespace: Vec<Value>, heap: &mut Heap) -> String {
    let mut writer = PrintWriter::Collect(String::new());
    let mut tracker = NoLimitTracker;
    run_program(&nodes, namespace, heap, &mut tracker, &mut writer).unwrap();
    match writer {
        PrintWriter::Collect(buf) => buf,
        _ => panic!("expected Collect variant"),
    }
}

#[test]
fn print_single_string() {
    let mut heap = Heap::new(16);
    let out = run_collect(vec![print_call(vec![cs("hello")], vec![])], vec![], &mut heap);
    assert_eq!(out, "hello\n");
}

#[test]
fn print_multiple_args() {
    let mut heap = Heap::new(16);
    let out = run_collect(
        vec![print_call(vec![cs("hello"), cs("world")], vec![])],
        vec![],
        &mut heap,
    );
    assert_eq!(out, "hello world\n");
}

#[test]
fn print_multiple_statements() {
    let mut heap = Heap::new(16);
    let out = run_collect(
        vec![
            print_call(vec![cs("one")], vec![]),
            print_call(vec![cs("two")], vec![]),
            print_call(vec![cs("three")], vec![]),
        ],
        vec![],
        &mut heap,
    );
    assert_eq!(out, "one\ntwo\nthree\n");
}

#[test]
fn print_empty() {
    let mut heap = Heap::new(16);
    let out = run_collect(vec![print_call(vec![], vec![])], vec![], &mut heap);
    assert_eq!(out, "\n");
}

#[test]
fn print_integers() {
    let mut heap = Heap::new(16);
    let out = run_collect(vec![print_call(vec![ci(1), ci(2), ci(3)], vec![])], vec![], &mut heap);
    assert_eq!(out, "1 2 3\n");
}

#[test]
fn print_mixed_types() {
    let mut heap = Heap::new(16);
    let out = run_collect(
        vec![print_call(
            vec![cs("count:"), ci(42), Expr::Constant(Const::Bool(true))],
            vec![],
        )],
        vec![],
        &mut heap,
    );
    assert_eq!(out, "count: 42 True\n");
}

#[test]
fn print_in_loop() {
    // for i in range(3): print(i)
    let mut heap = Heap::new(16);
    let body = vec![print_call(vec![Expr::Name(0)], vec![])];
    let nodes = vec![st(Node::For {
        target: 0,
        iter: Expr::Call { func: Builtins::Range, args: vec![ci(3)], kwargs: vec![] },
        body,
        or_else: vec![],
    })];
    let out = run_collect(nodes, vec![Value::Undefined], &mut heap);
    assert_eq!(out, "0\n1\n2\n");
}

#[test]
fn collect_into_inner() {
    let mut heap = Heap::new(16);
    let nodes = vec![print_call(vec![cs("test")], vec![])];
    let mut writer = PrintWriter::Collect(String::new());
    let mut tracker = NoLimitTracker;
    run_program(&nodes, vec![], &mut heap, &mut tracker, &mut writer).unwrap();
    let PrintWriter::Collect(output) = writer else {
        panic!("expected Collect variant");
    };
    assert_eq!(output, "test\n");
}

#[test]
fn writer_reuse_accumulates() {
    let mut writer = PrintWriter::Collect(String::new());
    let mut tracker = NoLimitTracker;

    let mut heap1 = Heap::new(16);
    let nodes1 = vec![print_call(vec![cs("first")], vec![])];
    run_program(&nodes1, vec![], &mut heap1, &mut tracker, &mut writer).unwrap();

    let mut heap2 = Heap::new(16);
    let nodes2 = vec![print_call(vec![cs("second")], vec![])];
    run_program(&nodes2, vec![], &mut heap2, &mut tracker, &mut writer).unwrap();

    assert_eq!(writer.collected_output().unwrap(), "first\nsecond\n");
}

#[test]
fn disabled_suppresses_output() {
    // for i in range(100): print('this should be suppressed', i)
    let mut heap = Heap::new(16);
    let nodes = vec![st(Node::For {
        target: 0,
        iter: Expr::Call { func: Builtins::Range, args: vec![ci(100)], kwargs: vec![] },
        body: vec![print_call(vec![cs("this should be suppressed"), Expr::Name(0)], vec![])],
        or_else: vec![],
    })];
    let mut writer = PrintWriter::Disabled;
    let mut tracker = NoLimitTracker;
    let result = run_program(&nodes, vec![Value::Undefined], &mut heap, &mut tracker, &mut writer);
    assert!(result.is_ok());
}

#[test]
fn print_custom_sep() {
    let mut heap = Heap::new(16);
    let out = run_collect(
        vec![print_call(vec![cs("a"), cs("b"), cs("c")], vec![kw("sep", cs("-"))])],
        vec![],
        &mut heap,
    );
    assert_eq!(out, "a-b-c\n");
}

#[test]
fn print_custom_end() {
    let mut heap = Heap::new(16);
    let out = run_collect(
        vec![print_call(vec![cs("hello")], vec![kw("end", cs("!"))])],
        vec![],
        &mut heap,
    );
    assert_eq!(out, "hello!");
}

#[test]
fn print_custom_sep_and_end() {
    let mut heap = Heap::new(16);
    let out = run_collect(
        vec![print_call(
            vec![cs("x"), cs("y"), cs("z")],
            vec![kw("sep", cs(", ")), kw("end", cs("\n---\n"))],
        )],
        vec![],
        &mut heap,
    );
    assert_eq!(out, "x, y, z\n---\n");
}

#[test]
fn print_empty_sep() {
    let mut heap = Heap::new(16);
    let out = run_collect(
        vec![print_call(vec![cs("a"), cs("b"), cs("c")], vec![kw("sep", cs(""))])],
        vec![],
        &mut heap,
    );
    assert_eq!(out, "abc\n");
}

#[test]
fn print_empty_end() {
    // print('first', end='') then print('second')
    let mut heap = Heap::new(16);
    let out = run_collect(
        vec![
            print_call(vec![cs("first")], vec![kw("end", cs(""))]),
            print_call(vec![cs("second")], vec![]),
        ],
        vec![],
        &mut heap,
    );
    assert_eq!(out, "firstsecond\n");
}

#[test]
fn print_sep_none() {
    // sep=None means the default space.
    let mut heap = Heap::new(16);
    let out = run_collect(
        vec![print_call(
            vec![cs("a"), cs("b")],
            vec![kw("sep", Expr::Constant(Const::PyNone))],
        )],
        vec![],
        &mut heap,
    );
    assert_eq!(out, "a b\n");
}

#[test]
fn print_end_none() {
    // end=None means no terminator at all.
    let mut heap = Heap::new(16);
    let out = run_collect(
        vec![print_call(vec![cs("hello")], vec![kw("end", Expr::Constant(Const::PyNone))])],
        vec![],
        &mut heap,
    );
    assert_eq!(out, "hello");
}

#[test]
fn print_flush_ignored() {
    let mut heap = Heap::new(16);
    let out = run_collect(
        vec![print_call(
            vec![cs("test")],
            vec![kw("flush", Expr::Constant(Const::Bool(true)))],
        )],
        vec![],
        &mut heap,
    );
    assert_eq!(out, "test\n");
}

#[test]
fn print_kwargs_dict() {
    // print('a', 'b', **{'sep': '-'}), with the mapping delivered as
    // an input value.
    let mut heap = Heap::new(16);
    let key = heap.allocate(HeapData::Str("sep".to_string()));
    let val = heap.allocate(HeapData::Str("-".to_string()));
    let dict = heap.allocate(HeapData::Dict(vec![(Value::Ref(key), Value::Ref(val))]));
    let nodes = vec![print_call(vec![cs("a"), cs("b")], vec![(None, Expr::Name(0))])];
    let out = run_collect(nodes, vec![Value::Ref(dict)], &mut heap);
    assert_eq!(out, "a-b\n");
}

#[test]
fn print_only_kwargs_no_args() {
    let mut heap = Heap::new(16);
    let out = run_collect(
        vec![print_call(vec![], vec![kw("sep", cs("-")), kw("end", cs("!"))])],
        vec![],
        &mut heap,
    );
    assert_eq!(out, "!");
}

#[test]
fn print_multiline_sep() {
    let mut heap = Heap::new(16);
    let out = run_collect(
        vec![print_call(vec![ci(1), ci(2), ci(3)], vec![kw("sep", cs("\n"))])],
        vec![],
        &mut heap,
    );
    assert_eq!(out, "1\n2\n3\n");
}

#[test]
fn print_invalid_keyword() {
    let mut heap = Heap::new(16);
    let nodes = vec![print_call(vec![cs("x")], vec![kw("file", cs("-"))])];
    let mut writer = PrintWriter::Collect(String::new());
    let mut tracker = NoLimitTracker;
    let err = run_program(&nodes, vec![], &mut heap, &mut tracker, &mut writer).err().unwrap();
    match err {
        monty::vm::VmError::Run(e) => {
            assert_eq!(e.message(), "Traceback (most recent call last):\n  File \"test.py\", line 1, in <module>\nTypeError: 'file' is an invalid keyword argument for print()");
        }
        _ => panic!("expected a run error"),
    }
}

#[test]
fn print_sep_wrong_type() {
    let mut heap = Heap::new(16);
    let nodes = vec![print_call(vec![cs("x")], vec![kw("sep", ci(7))])];
    let mut writer = PrintWriter::Collect(String::new());
    let mut tracker = NoLimitTracker;
    let err = run_program(&nodes, vec![], &mut heap, &mut tracker, &mut writer).err().unwrap();
    match err {
        monty::vm::VmError::Run(e) => {
            assert_eq!(e.message(), "Traceback (most recent call last):\n  File \"test.py\", line 1, in <module>\nTypeError: sep must be None or a string, not int");
        }
        _ => panic!("expected a run error"),
    }
}

#[test]
fn kwargs_spread_requires_string_keys() {
    // print('x', **{1: '-'}) is rejected.
    let mut heap = Heap::new(16);
    let val = heap.allocate(HeapData::Str("-".to_string()));
    let dict = heap.allocate(HeapData::Dict(vec![(Value::Int(1), Value::Ref(val))]));
    let nodes = vec![print_call(vec![cs("x")], vec![(None, Expr::Name(0))])];
    let mut writer = PrintWriter::Collect(String::new());
    let mut tracker = NoLimitTracker;
    let err = run_program(&nodes, vec![Value::Ref(dict)], &mut heap, &mut tracker, &mut writer)
        .err()
        .unwrap();
    match err {
        monty::vm::VmError::Run(e) => {
            assert_eq!(
                e.message(),
                "Traceback (most recent call last):\n  File \"test.py\", line 1, in <module>\nTypeError: keywords must be strings"
            );
        }
        _ => panic!("expected a run error"),
    }
}

#[test]
fn kwargs_spread_requires_a_mapping() {
    let mut heap = Heap::new(16);
    let nodes = vec![print_call(vec![cs("x")], vec![(None, ci(3))])];
    let mut writer = PrintWriter::Collect(String::new());
    let mut tracker = NoLimitTracker;
    let err = run_program(&nodes, vec![], &mut heap, &mut tracker, &mut writer).err().unwrap();
    match err {
        monty::vm::VmError::Run(e) => {
            assert_eq!(
                e.message(),
                "Traceback (most recent call last):\n  File \"test.py\", line 1, in <module>\nTypeError: argument after ** must be a mapping"
            );
        }
        _ => panic!("expected a run error"),
    }
}
