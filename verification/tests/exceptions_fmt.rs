//! Exceptions, tracebacks, rendering, indexing errors, and the
//! prepare stage.

use monty::exceptions::{CodeRange, ExcType, Exception, ExceptionRaise, StackFrame};
use monty::heap::{Heap, HeapData};
use monty::index::Attr;
use monty::program::{Expr, Node, SourceNode, SourceStmt, Stmt};
use monty::value::{Const, Value};

fn span() -> CodeRange {
    CodeRange { file: "test.py".to_string(), start_line: 1, start_col: 0, end_line: 1, end_col: 7 }
}

#[test]
fn exception_message_forms() {
    let none_args = Exception::call(vec![], ExcType::ValueError);
    assert_eq!(none_args.str_with_type(), "ValueError: ");

    let one = Exception::new("boom".to_string(), ExcType::TypeError);
    assert_eq!(one.str_with_type(), "TypeError: boom");

    let two = Exception::call(
        vec![Const::Str("a".to_string()), Const::Int(2)],
        ExcType::KeyError,
    );
    assert_eq!(two.str_with_type(), "KeyError: ('a', 2)");
}

#[test]
fn exception_repr_quotes_arguments() {
    let e = Exception::new("bad value".to_string(), ExcType::ValueError);
    assert_eq!(e.repr(), "ValueError('bad value')");
}

#[test]
fn traceback_lists_frames_outermost_first() {
    let outer = StackFrame::new(&span(), "<module>", None);
    let inner = StackFrame::new(
        &CodeRange {
            file: "test.py".to_string(),
            start_line: 3,
            start_col: 4,
            end_line: 3,
            end_col: 9,
        },
        "greet",
        Some(&outer),
    );
    let raise = Exception::new("nope".to_string(), ExcType::NameError).with_frame(inner);
    assert_eq!(
        raise.traceback_string(),
        "Traceback (most recent call last):\n  File \"test.py\", line 1, in <module>\n  File \"test.py\", line 3, in greet\nNameError: nope"
    );
}

#[test]
fn summary_shows_the_position() {
    let raise = Exception::new("oops".to_string(), ExcType::ValueError).with_position(span());
    assert_eq!(raise.summary(), "(1:0 - 1:7) ValueError: oops");
    let bare: ExceptionRaise = Exception::new("oops".to_string(), ExcType::ValueError).into();
    assert_eq!(bare.summary(), "(<no-tb>) ValueError: oops");
}

#[test]
fn repr_escapes_strings() {
    let mut heap = Heap::new(8);
    let id = heap.allocate(HeapData::Str("a'b\\c\nd".to_string()));
    assert_eq!(heap.get(id).py_repr(&heap), "'a\\'b\\\\c\\nd'");
}

#[test]
fn repr_of_numbers_and_none() {
    let heap = Heap::new(1);
    assert_eq!(monty::render::repr_value(&heap, &Value::Int(i64::MIN)), "-9223372036854775808");
    assert_eq!(monty::render::repr_value(&heap, &Value::Int(0)), "0");
    assert_eq!(monty::render::repr_value(&heap, &Value::Bool(false)), "False");
    assert_eq!(monty::render::repr_value(&heap, &Value::PyNone), "None");
}

#[test]
fn repr_of_nested_structures() {
    let mut heap = Heap::new(8);
    let s = heap.allocate(HeapData::Str("k".to_string()));
    let tup = heap.allocate(HeapData::Tuple(vec![Value::Int(1)]));
    let d = heap.allocate(HeapData::Dict(vec![(Value::Ref(s), Value::Ref(tup))]));
    assert_eq!(heap.get(d).py_repr(&heap), "{'k': (1,)}");
    let b = heap.allocate(HeapData::Bytes(vec![65, 0, 10]));
    assert_eq!(heap.get(b).py_repr(&heap), "b'A\\x00\\n'");
}

#[test]
fn getitem_indexes_from_both_ends() {
    let mut heap = Heap::new(8);
    let l = heap.allocate(HeapData::List(vec![Value::Int(10), Value::Int(20), Value::Int(30)]));
    let d = heap.take_entry(l);
    assert_eq!(d.py_getitem(&Value::Int(0), &mut heap).unwrap(), Value::Int(10));
    assert_eq!(d.py_getitem(&Value::Int(-1), &mut heap).unwrap(), Value::Int(30));
    let e = d.py_getitem(&Value::Int(3), &mut heap).err().unwrap();
    assert_eq!(e.message(), "IndexError: list index out of range");
    heap.restore_entry(l, d);
}

#[test]
fn dict_lookup_and_missing_key() {
    let mut heap = Heap::new(8);
    let k = heap.allocate(HeapData::Str("key".to_string()));
    let dict = heap.allocate(HeapData::Dict(vec![(Value::Ref(k), Value::Int(9))]));
    let d = heap.take_entry(dict);
    let probe = heap.allocate(HeapData::Str("key".to_string()));
    assert_eq!(d.py_getitem(&Value::Ref(probe), &mut heap).unwrap(), Value::Int(9));
    let missing = heap.allocate(HeapData::Str("other".to_string()));
    let e = d.py_getitem(&Value::Ref(missing), &mut heap).err().unwrap();
    assert_eq!(e.message(), "KeyError: 'other'");
    heap.restore_entry(dict, d);
}

#[test]
fn dict_rejects_unhashable_keys() {
    let mut heap = Heap::new(8);
    let dict = heap.allocate(HeapData::Dict(vec![]));
    let mut d = heap.take_entry(dict);
    let badkey = heap.allocate(HeapData::List(vec![]));
    let e = d.py_setitem(Value::Ref(badkey), Value::Int(1), &mut heap).err().unwrap();
    assert_eq!(e.message(), "TypeError: unhashable type: 'list'");
    heap.restore_entry(dict, d);
}

#[test]
fn setitem_replaces_and_appends() {
    let mut heap = Heap::new(8);
    let dict = heap.allocate(HeapData::Dict(vec![]));
    let mut d = heap.take_entry(dict);
    let k1 = heap.allocate(HeapData::Str("a".to_string()));
    d.py_setitem(Value::Ref(k1), Value::Int(1), &mut heap).unwrap();
    let k2 = heap.allocate(HeapData::Str("a".to_string()));
    d.py_setitem(Value::Ref(k2), Value::Int(2), &mut heap).unwrap();
    assert_eq!(
        d.py_getitem(&Value::Ref(k1), &mut heap).unwrap(),
        Value::Int(2),
    );
    match &d {
        HeapData::Dict(pairs) => assert_eq!(pairs.len(), 1),
        _ => panic!("expected a dict"),
    }
    heap.restore_entry(dict, d);
}

#[test]
fn string_indexing_allocates_a_character() {
    let mut heap = Heap::new(8);
    let s = heap.allocate(HeapData::Str("abc".to_string()));
    let d = heap.take_entry(s);
    let c = d.py_getitem(&Value::Int(1), &mut heap).unwrap();
    match c {
        Value::Ref(id) => match heap.get(id) {
            HeapData::Str(t) => assert_eq!(t, "b"),
            _ => panic!("expected a string"),
        },
        _ => panic!("expected a heap reference"),
    }
    heap.restore_entry(s, d);
}

#[test]
fn attr_names_are_rendered() {
    assert_eq!(Attr::Append.str(), "append");
}

#[test]
fn structural_equality_crosses_numbers() {
    let mut heap = Heap::new(8);
    let a = heap.allocate(HeapData::List(vec![Value::Int(1), Value::Int(2)]));
    let b = heap.allocate(HeapData::List(vec![Value::Bool(true), Value::Int(2)]));
    let da = heap.take_entry(a);
    let db = heap.take_entry(b);
    assert!(da.py_eq(&db, &heap));
    heap.restore_entry(b, db);
    heap.restore_entry(a, da);
}

fn src(line: u32, node: SourceNode) -> SourceStmt {
    Stmt {
        pos: CodeRange { file: "test.py".to_string(), start_line: line, start_col: 0, end_line: line, end_col: 0 },
        node,
    }
}

#[test]
fn prepare_resolves_names_to_slots() {
    let nodes: Vec<SourceStmt> = vec![
        src(1, Node::Assign {
            target: "x".to_string(),
            object: Box::new(Expr::Constant(Const::Int(1))),
        }),
        src(2, Node::Expr(Expr::Op {
            left: Box::new(Expr::Name("x".to_string())),
            op: monty::program::Op::Add,
            right: Box::new(Expr::Name("y".to_string())),
        })),
    ];
    let input_names = vec!["y".to_string()];
    let (namespace, prepared) = monty::prepare::prepare(&nodes, &input_names).unwrap();
    assert_eq!(namespace.len(), 2);
    assert!(namespace.iter().all(|v| *v == Value::Undefined));
    match &prepared[0].node {
        Node::Assign { target, .. } => assert_eq!(*target, 1),
        _ => panic!("expected the assignment"),
    }
    match &prepared[1].node {
        Node::Expr(Expr::Op { left, right, .. }) => {
            match &**left {
                Expr::Name(i) => assert_eq!(*i, 1),
                _ => panic!("expected a name"),
            }
            match &**right {
                Expr::Name(i) => assert_eq!(*i, 0),
                _ => panic!("expected a name"),
            }
        }
        _ => panic!("expected the expression statement"),
    }
    // Positions ride along for tracebacks.
    assert_eq!(prepared[1].pos.start_line, 2);
}

#[test]
fn prepare_binds_distinct_inputs_positionally() {
    // Distinct input names occupy slots 0..n in their given order, so
    // an embedder can hand input values over positionally.
    let nodes: Vec<SourceStmt> = vec![src(1, Node::Expr(Expr::Op {
        left: Box::new(Expr::Name("b".to_string())),
        op: monty::program::Op::Add,
        right: Box::new(Expr::Name("a".to_string())),
    }))];
    let input_names = vec!["a".to_string(), "b".to_string(), "c".to_string()];
    let (namespace, prepared) = monty::prepare::prepare(&nodes, &input_names).unwrap();
    assert_eq!(namespace.len(), 3);
    match &prepared[0].node {
        Node::Expr(Expr::Op { left, right, .. }) => {
            match &**left {
                Expr::Name(i) => assert_eq!(*i, 1),
                _ => panic!("expected a name"),
            }
            match &**right {
                Expr::Name(i) => assert_eq!(*i, 0),
                _ => panic!("expected a name"),
            }
        }
        _ => panic!("expected the expression statement"),
    }
}

#[test]
fn prepare_rejects_unknown_functions() {
    let nodes: Vec<SourceStmt> = vec![src(1, Node::Expr(Expr::Call {
        func: "frobnicate".to_string(),
        args: vec![],
        kwargs: vec![],
    }))];
    let e = monty::prepare::prepare(&nodes, &vec![]).err().unwrap();
    assert_eq!(e, "unknown function 'frobnicate'");
}

#[test]
fn parse_error_messages() {
    let e = monty::parse_error::ParseError::pre_eval("cannot apply".to_string());
    assert_eq!(e.message(), "Pre eval error: cannot apply");
    let t = monty::parse_error::ParseError::Todo("complex constants".to_string());
    assert_eq!(t.message(), "TODO: complex constants");
}

#[test]
fn internal_errors_render_distinctly() {
    let e = monty::exceptions::InternalRunError::Undefined(String::new());
    assert_eq!(e.message(), "Internal Error: accessing undefined object");
    let n = monty::exceptions::InternalRunError::Undefined("v".to_string());
    assert_eq!(n.message(), "Internal Error: accessing undefined object `v`");
}
