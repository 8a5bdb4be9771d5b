//! The frame executor: drives a prepared program to completion.
//!
//! Locals live in an indexed vector sized by the prepare stage; a slot
//! not yet assigned holds the `Undefined` sentinel, and reading it
//! raises `NameError`.  Expression evaluation produces owned values;
//! the executor releases temporaries at statement boundaries and
//! replaced values on assignment.  A user exception gains a traceback
//! frame for the statement that raised it, so it reaches the embedder
//! with a position.  The resource tracker is consulted at loop
//! back-edges and before the allocations the executor makes itself;
//! on denial the run is abandoned, temporaries are released, the heap
//! is cleared, and a `ResourceError` (never catchable by the program)
//! is returned.

use vstd::prelude::*;

use crate::args::ArgValues;
use crate::builtins::{call_builtin, iter_values, lemma_writer_extended_refl,
    lemma_writer_extended_trans, spec_kw_find, spec_print_kwargs_valid, spec_print_output,
    writer_extended, Builtins};
use crate::exceptions::{simple_exc, simple_internal, ExcType, ExceptionRaise, RunError, StackFrame};
use crate::heap::{Heap, HeapData};
use crate::io::PrintWriter;
use crate::operators::{value_add, value_compare, value_mod, value_sub};
use crate::ops::{clone_value, drop_value, drop_values, operand_type_error};
use crate::program::{Op, RunExpr, RunNode, RunStmt};
use crate::resource::{ResourceError, ResourceTracker};
use crate::value::Value;

verus! {

/// How a run ends when it does not return a value: a user exception
/// or internal error, or a resource denial (distinct, and never
/// catchable inside the program).
#[derive(Debug)]
pub enum VmError {
    Run(RunError),
    Resource(ResourceError),
}

/// The numeric content of an immediate constant.
pub open spec fn spec_const_numeric(c: crate::value::Const) -> Option<int> {
    match c {
        crate::value::Const::Int(i) => Some(i as int),
        crate::value::Const::Bool(b) => Some(
            if b {
                1int
            } else {
                0int
            },
        ),
        _ => None,
    }
}

/// A call whose arguments are all literal constants.
pub open spec fn spec_const_args(args: Seq<RunExpr>) -> bool {
    forall|k: int| 0 <= k < args.len() ==> (#[trigger] args[k]) is Constant
}

/// Keyword arguments that are all named literal constants (no
/// spreads).
pub open spec fn spec_const_kwargs(kwargs: Seq<(Option<String>, RunExpr)>) -> bool {
    forall|k: int|
        0 <= k < kwargs.len() ==> (#[trigger] kwargs[k]).0 is Some && kwargs[k].1 is Constant
}

/// The first constant bound to keyword `name` in a constant keyword
/// list.
pub open spec fn spec_ckw_find(kwargs: Seq<(Option<String>, RunExpr)>, name: Seq<char>) -> Option<
    crate::value::Const,
>
    decreases kwargs.len(),
{
    if kwargs.len() == 0 {
        None
    } else if kwargs[0].0 is Some && kwargs[0].0.unwrap()@ == name && kwargs[0].1 is Constant {
        Some(kwargs[0].1->Constant_0)
    } else {
        spec_ckw_find(kwargs.skip(1), name)
    }
}

/// A constant acceptable for `sep` or `end`: the default marker
/// `None` or a string literal.
pub open spec fn spec_const_none_or_str(c: crate::value::Const) -> bool {
    c is PyNone || c is Str
}

/// Whether a constant keyword list is one `print` accepts.
pub open spec fn spec_cprint_kwargs_valid(kwargs: Seq<(Option<String>, RunExpr)>) -> bool {
    &&& spec_const_kwargs(kwargs)
    &&& (forall|k: int|
        0 <= k < kwargs.len() ==> ((#[trigger] kwargs[k]).0.unwrap()@ == "sep"@
            || kwargs[k].0.unwrap()@ == "end"@ || kwargs[k].0.unwrap()@ == "flush"@))
    &&& (match spec_ckw_find(kwargs, "sep"@) {
        Some(c) => spec_const_none_or_str(c),
        None => true,
    })
    &&& (match spec_ckw_find(kwargs, "end"@) {
        Some(c) => spec_const_none_or_str(c),
        None => true,
    })
}

/// The separator text of a constant print call.
pub open spec fn spec_csep(kwargs: Seq<(Option<String>, RunExpr)>) -> Seq<char> {
    match spec_ckw_find(kwargs, "sep"@) {
        Some(c) => if c is Str {
            c->Str_0@
        } else {
            seq![' ']
        },
        None => seq![' '],
    }
}

/// The terminator text of a constant print call.
pub open spec fn spec_cend(kwargs: Seq<(Option<String>, RunExpr)>) -> Seq<char> {
    match spec_ckw_find(kwargs, "end"@) {
        Some(c) => if c is Str {
            c->Str_0@
        } else {
            Seq::empty()
        },
        None => seq!['\n'],
    }
}

/// The texts of constant arguments, joined with the separator.
pub open spec fn spec_cjoin(args: Seq<RunExpr>, sep: Seq<char>) -> Seq<char>
    decreases args.len(),
{
    if args.len() == 0 {
        Seq::empty()
    } else if args.len() == 1 {
        crate::exceptions::spec_const_str(args[0]->Constant_0)
    } else {
        crate::exceptions::spec_const_str(args[0]->Constant_0) + sep + spec_cjoin(
            args.skip(1),
            sep,
        )
    }
}

/// What one constant print statement emits.
pub open spec fn spec_cprint_text(
    args: Seq<RunExpr>,
    kwargs: Seq<(Option<String>, RunExpr)>,
) -> Seq<char> {
    spec_cjoin(args, spec_csep(kwargs)) + spec_cend(kwargs)
}

/// Whether a statement is a print of literal constants with
/// acceptable keywords, and what it emits.
pub open spec fn spec_stmt_print_text(nd: RunNode) -> Option<Seq<char>> {
    match nd {
        RunNode::Expr(e) => match e {
            RunExpr::Call { func, args, kwargs } => if func == Builtins::Print && spec_const_args(
                args@,
            ) && spec_cprint_kwargs_valid(kwargs@) {
                Some(spec_cprint_text(args@, kwargs@))
            } else {
                None
            },
            _ => None,
        },
        _ => None,
    }
}

/// Whether a whole program is straight-line constant prints, and the
/// text it emits: the statements' texts in order.
pub open spec fn spec_program_print_text(stmts: Seq<RunStmt>) -> Option<Seq<char>>
    decreases stmts.len(),
{
    if stmts.len() == 0 {
        Some(Seq::empty())
    } else {
        match spec_stmt_print_text(stmts[0].node) {
            Some(head) => match spec_program_print_text(stmts.skip(1)) {
                Some(tail) => Some(head + tail),
                None => None,
            },
            None => None,
        }
    }
}

/// The concatenated texts of the first `k` statements of a print
/// program.
pub open spec fn spec_print_prefix(stmts: Seq<RunStmt>, k: int) -> Seq<char>
    decreases k,
{
    if k <= 0 {
        Seq::empty()
    } else {
        spec_print_prefix(stmts, k - 1) + (match spec_stmt_print_text(stmts[k - 1].node) {
            Some(t) => t,
            None => Seq::empty(),
        })
    }
}

/// A print program's text splits at any point into the prefix
/// emitted so far and the text of the remaining statements.
proof fn lemma_print_text_split(stmts: Seq<RunStmt>, k: int)
    requires
        0 <= k <= stmts.len(),
        spec_program_print_text(stmts) is Some,
    ensures
        spec_program_print_text(stmts.skip(k)) matches Some(tail) && spec_program_print_text(
            stmts,
        ).unwrap() == spec_print_prefix(stmts, k) + tail,
    decreases k,
{
    if k == 0 {
        assert(stmts.skip(0) =~= stmts);
        assert(spec_print_prefix(stmts, 0) + spec_program_print_text(stmts).unwrap()
            =~= spec_program_print_text(stmts).unwrap());
    } else {
        lemma_print_text_split(stmts, k - 1);
        let sk1 = stmts.skip(k - 1);
        assert(sk1[0] == stmts[k - 1]);
        assert(sk1.skip(1) =~= stmts.skip(k));
        let head = spec_stmt_print_text(stmts[k - 1].node).unwrap();
        let tail = spec_program_print_text(stmts.skip(k)).unwrap();
        assert(spec_program_print_text(stmts).unwrap() =~= spec_print_prefix(stmts, k) + tail) by {
            assert(spec_program_print_text(stmts).unwrap() == spec_print_prefix(stmts, k - 1) + (
            head + tail));
            assert(spec_print_prefix(stmts, k - 1) + (head + tail) =~= (spec_print_prefix(
                stmts,
                k - 1,
            ) + head) + tail);
        }
    }
}

/// How an evaluated literal constant relates to its constant: the
/// immediates are themselves, a string literal is a present heap
/// entry with the literal's text.
pub open spec fn spec_cval_ok(
    entries: Seq<Option<crate::heap::HeapEntry>>,
    v: Value,
    c: crate::value::Const,
) -> bool {
    match c {
        crate::value::Const::PyNone => v == Value::PyNone,
        crate::value::Const::Bool(b) => v == Value::Bool(b),
        crate::value::Const::Int(i) => v == Value::Int(i),
        crate::value::Const::Str(st) => v is Ref && crate::pydata::spec_present_in(
            entries,
            v->Ref_0,
        ) && (crate::pydata::spec_data_in(entries, v->Ref_0) matches HeapData::Str(s) && s@
            == st@),
    }
}

/// An evaluated constant's printed text is the constant's text, at
/// any fuel.
proof fn lemma_cval_text(
    entries: Seq<Option<crate::heap::HeapEntry>>,
    v: Value,
    c: crate::value::Const,
    fuel: nat,
)
    requires
        spec_cval_ok(entries, v, c),
    ensures
        crate::render::spec_str_value(entries, v, fuel) == crate::exceptions::spec_const_str(c),
{
}

/// Joining evaluated constants equals joining the constants' texts.
proof fn lemma_cjoin_vals(
    entries: Seq<Option<crate::heap::HeapEntry>>,
    vals: Seq<Value>,
    args: Seq<RunExpr>,
    sep: Seq<char>,
    fuel: nat,
)
    requires
        vals.len() == args.len(),
        forall|k: int| 0 <= k < args.len() ==> (#[trigger] args[k]) is Constant,
        forall|k: int|
            0 <= k < args.len() ==> spec_cval_ok(entries, #[trigger] vals[k], args[k]->Constant_0),
    ensures
        crate::builtins::spec_print_joined(entries, vals, sep, fuel) == spec_cjoin(args, sep),
    decreases args.len(),
{
    if args.len() > 0 {
        lemma_cval_text(entries, vals[0], args[0]->Constant_0, fuel);
        if args.len() > 1 {
            lemma_cjoin_vals(entries, vals.skip(1), args.skip(1), sep, fuel);
            assert(vals.skip(1).len() == args.skip(1).len());
        }
    }
}

/// Keyword lookup over evaluated constant keywords mirrors lookup
/// over the constants.
proof fn lemma_ckw_find(
    entries: Seq<Option<crate::heap::HeapEntry>>,
    kw_vals: Seq<(String, Value)>,
    kwargs: Seq<(Option<String>, RunExpr)>,
    name: Seq<char>,
)
    requires
        kw_vals.len() == kwargs.len(),
        forall|k: int|
            0 <= k < kwargs.len() ==> (#[trigger] kwargs[k]).0 is Some && kwargs[k].1 is Constant,
        forall|k: int|
            0 <= k < kwargs.len() ==> (#[trigger] kw_vals[k]).0@ == kwargs[k].0.unwrap()@
                && spec_cval_ok(entries, kw_vals[k].1, kwargs[k].1->Constant_0),
    ensures
        (match spec_ckw_find(kwargs, name) {
            Some(c) => spec_kw_find(kw_vals, name) matches Some(v) && spec_cval_ok(entries, v, c),
            None => spec_kw_find(kw_vals, name) is None,
        }),
    decreases kwargs.len(),
{
    if kwargs.len() > 0 {
        if kw_vals[0].0@ == name {
        } else {
            lemma_ckw_find(entries, kw_vals.skip(1), kwargs.skip(1), name);
        }
    }
}

/// Evaluated constant keywords that `print` accepts resolve to the
/// same separator and terminator as the constants do.
proof fn lemma_ckw_resolution(
    entries: Seq<Option<crate::heap::HeapEntry>>,
    kw_vals: Seq<(String, Value)>,
    kwargs: Seq<(Option<String>, RunExpr)>,
)
    requires
        kw_vals.len() == kwargs.len(),
        spec_cprint_kwargs_valid(kwargs),
        forall|k: int|
            0 <= k < kwargs.len() ==> (#[trigger] kw_vals[k]).0@ == kwargs[k].0.unwrap()@
                && spec_cval_ok(entries, kw_vals[k].1, kwargs[k].1->Constant_0),
    ensures
        spec_print_kwargs_valid(entries, kw_vals),
        crate::builtins::spec_sep_text(entries, kw_vals) == spec_csep(kwargs),
        crate::builtins::spec_end_text(entries, kw_vals) == spec_cend(kwargs),
{
    lemma_ckw_find(entries, kw_vals, kwargs, "sep"@);
    lemma_ckw_find(entries, kw_vals, kwargs, "end"@);
    assert forall|k: int|
        0 <= k < kw_vals.len() implies ((#[trigger] kw_vals[k].0)@ == "sep"@ || kw_vals[k].0@
        == "end"@ || kw_vals[k].0@ == "flush"@) by {
        assert(kwargs[k].0.unwrap()@ == "sep"@ || kwargs[k].0.unwrap()@ == "end"@
            || kwargs[k].0.unwrap()@ == "flush"@);
    }
}

/// How deep builtins may nest through `filter` and `map` predicates.
/// No chain of builtins reaches this depth: only `filter` and `map`
/// call other builtins, and they reject themselves as predicates by
/// arity.
const BUILTIN_DEPTH: u64 = 8;

/// Evaluates one expression to an owned value.
#[verifier::loop_isolation(false)]
pub fn exec_expr<T: ResourceTracker>(
    expr: &RunExpr,
    heap: &mut Heap,
    locals: &mut Vec<Value>,
    writer: &mut PrintWriter,
    tracker: &mut T,
) -> (r: Result<Value, VmError>)
    requires
        old(heap).wf(),
    ensures
        final(heap).wf(),
        *final(locals) == *old(locals),
        writer_extended(*old(writer), *final(writer)),
        // Immediate constants evaluate to themselves and touch
        // nothing.
        (match *expr {
            RunExpr::Constant(c) => match c {
                crate::value::Const::PyNone => r == Ok::<Value, VmError>(Value::PyNone)
                    && *final(heap) == *old(heap) && *final(locals) == *old(locals)
                    && *final(writer) == *old(writer),
                crate::value::Const::Bool(b) => r == Ok::<Value, VmError>(Value::Bool(b))
                    && *final(heap) == *old(heap) && *final(locals) == *old(locals)
                    && *final(writer) == *old(writer),
                crate::value::Const::Int(i) => r == Ok::<Value, VmError>(Value::Int(i))
                    && *final(heap) == *old(heap) && *final(locals) == *old(locals)
                    && *final(writer) == *old(writer),
                crate::value::Const::Str(st) => *final(writer) == *old(writer) && (match r {
                    Ok(v) => {
                        &&& v matches Value::Ref(rid)
                        &&& crate::ops::fresh_alloc_at(*old(heap), *final(heap), rid)
                        &&& final(heap).spec_data(rid) matches Some(HeapData::Str(s2))
                        &&& s2@ == st@
                        &&& spec_cval_ok(final(heap).entries@, v, crate::value::Const::Str(st))
                    },
                    // Only the resource tracker can refuse a literal.
                    Err(e2) => e2 is Resource && *final(heap) == *old(heap),
                }),
            },
            // A name reads its local slot: `Undefined` raises
            // `NameError`, anything else is handed out with one fresh
            // ownership unit.
            RunExpr::Name(i) => {
                if (i as int) >= old(locals)@.len() {
                    r is Err
                } else if old(locals)@[i as int] == Value::Undefined {
                    &&& r matches Err(VmError::Run(e))
                    &&& crate::exceptions::spec_simple_exc(
                        e,
                        ExcType::NameError,
                        "name is not defined"@,
                    )
                    &&& *final(heap) == *old(heap)
                    &&& *final(locals) == *old(locals)
                } else {
                    &&& r == Ok::<Value, VmError>(old(locals)@[i as int])
                    &&& crate::ops::only_incs(*old(heap), *final(heap))
                    &&& *final(locals) == *old(locals)
                }
            },
            // Arithmetic on immediate constants computes end to end.
            RunExpr::Op { left, op, right } => (match (*left, *right) {
                (RunExpr::Constant(ca), RunExpr::Constant(cb)) => (match (
                    spec_const_numeric(ca),
                    spec_const_numeric(cb),
                ) {
                    (Some(x), Some(y)) => match op {
                        Op::Add => r == Ok::<Value, VmError>(
                            Value::Int((x as i64).wrapping_add(y as i64)),
                        ),
                        Op::Sub => r == Ok::<Value, VmError>(
                            Value::Int((x as i64).wrapping_sub(y as i64)),
                        ),
                        Op::Mod => if y == 0 {
                            r is Err
                        } else {
                            &&& r matches Ok(Value::Int(m))
                            &&& crate::operators::spec_py_mod_ok(x, y, m as int)
                        },
                    },
                    _ => true,
                }),
                _ => true,
            }),
            // A print of literal constants emits its text end to end
            // (for the library's own writer modes); the one other
            // outcome is a resource denial before anything was
            // emitted.
            RunExpr::Call { func, args, kwargs } => (func == Builtins::Print && spec_const_args(
                args@,
            ) && spec_cprint_kwargs_valid(kwargs@) && !(*old(writer) is Callback)) ==> ({
                &&& r == Ok::<Value, VmError>(Value::PyNone)
                &&& (*old(writer) is Collect ==> (*final(writer) matches
                    crate::io::PrintWriter::Collect(buf) && buf@ == (*old(writer))->Collect_0@
                    + spec_cprint_text(args@, kwargs@)))
                &&& (*old(writer) is Disabled || *old(writer) is Stdout ==> *final(writer) == *old(
                    writer,
                ))
            } || (r matches Err(VmError::Resource(_)) && *final(writer) == *old(writer))),
            // Comparisons of immediate constants compute end to end.
            RunExpr::CmpOp { left, op, right } => (match (*left, *right) {
                (RunExpr::Constant(ca), RunExpr::Constant(cb)) => (match (
                    spec_const_numeric(ca),
                    spec_const_numeric(cb),
                ) {
                    (Some(x), Some(y)) => r == Ok::<Value, VmError>(
                        Value::Bool(
                            match op {
                                crate::operators::CmpOp::Eq => x == y,
                                crate::operators::CmpOp::NotEq => x != y,
                                crate::operators::CmpOp::Lt => x < y,
                                crate::operators::CmpOp::LtE => x <= y,
                                crate::operators::CmpOp::Gt => x > y,
                                crate::operators::CmpOp::GtE => x >= y,
                            },
                        ),
                    ),
                    _ => true,
                }),
                _ => true,
            }),
            _ => true,
        }),
    decreases *expr,
{
    proof {
        lemma_writer_extended_refl(*writer);
    }
    match expr {
        RunExpr::Constant(c) => {
            match c {
                crate::value::Const::PyNone => Ok(Value::PyNone),
                crate::value::Const::Bool(b) => Ok(Value::Bool(*b)),
                crate::value::Const::Int(i) => Ok(Value::Int(*i)),
                crate::value::Const::Str(s) => {
                    match tracker.check_alloc() {
                        Ok(_) => {},
                        Err(e) => {
                            return Err(VmError::Resource(e));
                        },
                    }
                    let rid = heap.allocate(HeapData::Str(s.clone()));
                    Ok(Value::Ref(rid))
                },
            }
        },
        RunExpr::Name(i) => {
            if *i < locals.len() {
                let v = locals[*i];
                match v {
                    Value::Undefined => Err(
                        VmError::Run(simple_exc(ExcType::NameError, "name is not defined")),
                    ),
                    _ => Ok(clone_value(heap, &v)),
                }
            } else {
                Err(VmError::Run(simple_internal("name index out of range")))
            }
        },
        RunExpr::Op { left, op, right } => {
            let a = match exec_expr(left, heap, locals, writer, tracker) {
                Ok(v) => v,
                Err(e) => {
                    return Err(e);
                },
            };
            let ghost w1 = *writer;
            let b = match exec_expr(right, heap, locals, writer, tracker) {
                Ok(v) => v,
                Err(e) => {
                    drop_value(heap, &a);
                    proof {
                        lemma_writer_extended_trans(*old(writer), w1, *writer);
                    }
                    return Err(e);
                },
            };
            proof {
                lemma_writer_extended_trans(*old(writer), w1, *writer);
            }
            let res = apply_op(heap, *op, &a, &b);
            drop_value(heap, &a);
            drop_value(heap, &b);
            match res {
                Ok(v) => Ok(v),
                Err(e) => Err(VmError::Run(e)),
            }
        },
        RunExpr::CmpOp { left, op, right } => {
            let a = match exec_expr(left, heap, locals, writer, tracker) {
                Ok(v) => v,
                Err(e) => {
                    return Err(e);
                },
            };
            let ghost w1 = *writer;
            let b = match exec_expr(right, heap, locals, writer, tracker) {
                Ok(v) => v,
                Err(e) => {
                    drop_value(heap, &a);
                    proof {
                        lemma_writer_extended_trans(*old(writer), w1, *writer);
                    }
                    return Err(e);
                },
            };
            proof {
                lemma_writer_extended_trans(*old(writer), w1, *writer);
            }
            let res = value_compare(heap, *op, &a, &b);
            drop_value(heap, &a);
            drop_value(heap, &b);
            match res {
                Ok(t) => Ok(Value::Bool(t)),
                Err(e) => Err(VmError::Run(e)),
            }
        },
        RunExpr::Call { func, args, kwargs } => {
            let ghost print_shape = *func == Builtins::Print && spec_const_args(args@)
                && spec_cprint_kwargs_valid(kwargs@) && !(*old(writer) is Callback);
            // Positional arguments.
            let mut arg_vals: Vec<Value> = Vec::new();
            let n = args.len();
            let mut i: usize = 0;
            while i < n
                invariant
                    heap.wf(),
                    *locals == *old(locals),
                    writer_extended(*old(writer), *writer),
                    n == args@.len(),
                    i <= n,
                    print_shape ==> {
                        &&& *writer == *old(writer)
                        &&& arg_vals@.len() == i as int
                        &&& (forall|j: int|
                            0 <= j < i ==> spec_cval_ok(
                                heap.entries@,
                                #[trigger] arg_vals@[j],
                                args@[j]->Constant_0,
                            ))
                    },
                decreases n - i,
            {
                let ghost w1 = *writer;
                let ghost h1 = *heap;
                match exec_expr(&args[i], heap, locals, writer, tracker) {
                    Ok(v) => {
                        proof {
                            if print_shape {
                                assert forall|j: int|
                                    0 <= j < i implies spec_cval_ok(
                                    heap.entries@,
                                    #[trigger] arg_vals@[j],
                                    args@[j]->Constant_0,
                                ) by {
                                    assert(spec_cval_ok(
                                        h1.entries@,
                                        arg_vals@[j],
                                        args@[j]->Constant_0,
                                    ));
                                }
                            }
                        }
                        arg_vals.push(v);
                    },
                    Err(e) => {
                        proof {
                            lemma_writer_extended_trans(*old(writer), w1, *writer);
                        }
                        drop_values(heap, &arg_vals);
                        return Err(e);
                    },
                }
                proof {
                    lemma_writer_extended_trans(*old(writer), w1, *writer);
                }
                i = i + 1;
            }
            // Keyword arguments, expanding `**mapping` spreads.
            let mut kw_vals: Vec<(String, Value)> = Vec::new();
            let nk = kwargs.len();
            let mut k: usize = 0;
            while k < nk
                invariant
                    heap.wf(),
                    *locals == *old(locals),
                    writer_extended(*old(writer), *writer),
                    nk == kwargs@.len(),
                    k <= nk,
                    n == args@.len(),
                    print_shape ==> {
                        &&& *writer == *old(writer)
                        &&& arg_vals@.len() == n as int
                        &&& (forall|j: int|
                            0 <= j < n ==> spec_cval_ok(
                                heap.entries@,
                                #[trigger] arg_vals@[j],
                                args@[j]->Constant_0,
                            ))
                        &&& kw_vals@.len() == k as int
                        &&& (forall|j: int|
                            0 <= j < k ==> (#[trigger] kw_vals@[j]).0@ == kwargs@[j].0.unwrap()@
                                && spec_cval_ok(
                                heap.entries@,
                                kw_vals@[j].1,
                                kwargs@[j].1->Constant_0,
                            ))
                    },
                decreases nk - k,
            {
                let ghost w1 = *writer;
                let ghost h1 = *heap;
                let v = match exec_expr(&kwargs[k].1, heap, locals, writer, tracker) {
                    Ok(v) => v,
                    Err(e) => {
                        proof {
                            lemma_writer_extended_trans(*old(writer), w1, *writer);
                        }
                        drop_values(heap, &arg_vals);
                        crate::args::drop_kwargs(heap, &kw_vals);
                        return Err(e);
                    },
                };
                proof {
                    lemma_writer_extended_trans(*old(writer), w1, *writer);
                    if print_shape {
                        assert forall|j: int|
                            0 <= j < n implies spec_cval_ok(
                            heap.entries@,
                            #[trigger] arg_vals@[j],
                            args@[j]->Constant_0,
                        ) by {
                            assert(spec_cval_ok(h1.entries@, arg_vals@[j], args@[j]->Constant_0));
                        }
                        assert forall|j: int|
                            0 <= j < k implies spec_cval_ok(
                            heap.entries@,
                            (#[trigger] kw_vals@[j]).1,
                            kwargs@[j].1->Constant_0,
                        ) by {
                            assert(spec_cval_ok(h1.entries@, kw_vals@[j].1, kwargs@[j].1->Constant_0));
                        }
                    }
                }
                match &kwargs[k].0 {
                    Some(name) => {
                        kw_vals.push((name.clone(), v));
                    },
                    None => {
                        match expand_kwargs_mapping(heap, &v, &mut kw_vals) {
                            Ok(_) => {},
                            Err(e) => {
                                drop_value(heap, &v);
                                drop_values(heap, &arg_vals);
                                crate::args::drop_kwargs(heap, &kw_vals);
                                return Err(VmError::Run(e));
                            },
                        }
                        drop_value(heap, &v);
                    },
                }
                k = k + 1;
            }
            let ghost w2 = *writer;
            proof {
                if print_shape {
                    lemma_ckw_resolution(heap.entries@, kw_vals@, kwargs@);
                    lemma_cjoin_vals(
                        heap.entries@,
                        arg_vals@,
                        args@,
                        spec_csep(kwargs@),
                        (heap.entries@.len() + 1) as nat,
                    );
                }
            }
            let call_args = ArgValues::ArgsKargs { args: arg_vals, kwargs: kw_vals };
            match call_builtin(heap, *func, call_args, writer, BUILTIN_DEPTH) {
                Ok(v) => {
                    proof {
                        lemma_writer_extended_trans(*old(writer), w2, *writer);
                    }
                    Ok(v)
                },
                Err(e) => {
                    proof {
                        lemma_writer_extended_trans(*old(writer), w2, *writer);
                    }
                    Err(VmError::Run(e))
                },
            }
        },
        RunExpr::List(elems) => {
            let mut items: Vec<Value> = Vec::new();
            let n = elems.len();
            let mut i: usize = 0;
            while i < n
                invariant
                    heap.wf(),
                    *locals == *old(locals),
                    writer_extended(*old(writer), *writer),
                    n == elems@.len(),
                    i <= n,
                decreases n - i,
            {
                let ghost w1 = *writer;
                match exec_expr(&elems[i], heap, locals, writer, tracker) {
                    Ok(v) => {
                        items.push(v);
                    },
                    Err(e) => {
                        proof {
                            lemma_writer_extended_trans(*old(writer), w1, *writer);
                        }
                        drop_values(heap, &items);
                        return Err(e);
                    },
                }
                proof {
                    lemma_writer_extended_trans(*old(writer), w1, *writer);
                }
                i = i + 1;
            }
            match tracker.check_alloc() {
                Ok(_) => {},
                Err(e) => {
                    drop_values(heap, &items);
                    return Err(VmError::Resource(e));
                },
            }
            let rid = heap.allocate(HeapData::List(items));
            Ok(Value::Ref(rid))
        },
    }
}

/// Which operand pairings an operator rejects with the `unsupported
/// operand type(s)` error: `-` and `%` are defined for numbers only,
/// `+` also for two present references whose payloads concatenate.
pub open spec fn spec_op_unsupported(
    entries: Seq<Option<crate::heap::HeapEntry>>,
    op: Op,
    a: Value,
    b: Value,
) -> bool {
    let numeric = crate::pydata::spec_numeric(a) is Some && crate::pydata::spec_numeric(b)
        is Some;
    match op {
        Op::Add => if numeric {
            false
        } else if a is Ref && b is Ref {
            crate::pydata::spec_present_in(entries, a->Ref_0) && crate::pydata::spec_present_in(
                entries,
                b->Ref_0,
            ) && !crate::ops::spec_addable(
                crate::pydata::spec_data_in(entries, a->Ref_0),
                crate::pydata::spec_data_in(entries, b->Ref_0),
            )
        } else {
            true
        },
        Op::Sub => !numeric,
        Op::Mod => !numeric,
    }
}

/// Dispatches one arithmetic operator over two values (not consuming
/// either), raising the `unsupported operand type(s)` error exactly
/// when the pairing is undefined.
fn apply_op(heap: &mut Heap, op: Op, a: &Value, b: &Value) -> (r: Result<Value, RunError>)
    requires
        old(heap).wf(),
    ensures
        final(heap).wf(),
        // Numbers compute immediately (wrapping; `%` takes the
        // divisor's sign and rejects a zero divisor).
        (match (crate::pydata::spec_numeric(*a), crate::pydata::spec_numeric(*b)) {
            (Some(x), Some(y)) => match op {
                Op::Add => r == Ok::<Value, RunError>(
                    Value::Int((x as i64).wrapping_add(y as i64)),
                ) && *final(heap) == *old(heap),
                Op::Sub => r == Ok::<Value, RunError>(
                    Value::Int((x as i64).wrapping_sub(y as i64)),
                ) && *final(heap) == *old(heap),
                Op::Mod => if y == 0 {
                    &&& r matches Err(e)
                    &&& crate::exceptions::spec_simple_exc(
                        e,
                        ExcType::ValueError,
                        "integer division or modulo by zero"@,
                    )
                } else {
                    &&& r matches Ok(Value::Int(m))
                    &&& crate::operators::spec_py_mod_ok(x, y, m as int)
                    &&& *final(heap) == *old(heap)
                },
            },
            _ => true,
        }),
        // A supported `+` on references concatenates into a fresh
        // entry.
        (op == Op::Add && *a is Ref && *b is Ref && old(heap).spec_present(a->Ref_0) && old(
            heap,
        ).spec_present(b->Ref_0) && crate::ops::spec_addable(
            old(heap).spec_data(a->Ref_0).unwrap(),
            old(heap).spec_data(b->Ref_0).unwrap(),
        )) ==> {
            &&& r matches Ok(v)
            &&& crate::operators::spec_concat_post(
                *old(heap),
                *final(heap),
                a->Ref_0,
                b->Ref_0,
                v,
            )
        },
        // Undefined pairings raise the exact operand error.
        spec_op_unsupported(old(heap).entries@, op, *a, *b) ==> (r matches Err(e)
            && crate::exceptions::spec_simple_exc(
            e,
            ExcType::TypeError,
            "unsupported operand type(s) for "@ + op.spec_str() + ": '"@
                + crate::pydata::spec_value_type_name(old(heap).entries@, *a) + "' and '"@
                + crate::pydata::spec_value_type_name(old(heap).entries@, *b) + seq!['\''],
        )),
{
    let res: Option<Value> = match op {
        Op::Add => {
            match value_add(heap, a, b) {
                Ok(o) => o,
                Err(e) => {
                    return Err(e);
                },
            }
        },
        Op::Sub => value_sub(heap, a, b),
        Op::Mod => {
            match value_mod(heap, a, b) {
                Ok(o) => o,
                Err(e) => {
                    return Err(e);
                },
            }
        },
    };
    match res {
        Some(v) => Ok(v),
        None => {
            let ta = crate::pydata::value_type_name(heap, a);
            let tb = crate::pydata::value_type_name(heap, b);
            Err(
                RunError::Exc(
                    crate::exceptions::ExceptionRaise {
                        exc: operand_type_error(op.str(), ta, tb),
                        frame: None,
                    },
                ),
            )
        },
    }
}

/// Whether a value can stand as a `**mapping` spread: a reference to
/// a present dict.
pub open spec fn spec_spread_ok(pre: Heap, v: Value) -> bool {
    v is Ref && pre.spec_present(v->Ref_0) && pre.spec_data(v->Ref_0).unwrap() is Dict
}

/// Whether a dict key can name a keyword: a present string entry.
pub open spec fn spec_kw_key_ok(pre: Heap, k: Value) -> bool {
    k is Ref && pre.spec_present(k->Ref_0) && pre.spec_data(k->Ref_0).unwrap() is Str
}

/// Expands a `**mapping` spread into keyword pairs: the mapping must
/// be a dict whose keys are strings.  On success the pairs join
/// `kw_vals` in insertion order, each value with one fresh ownership
/// unit; a non-mapping or a non-string key raises `TypeError` (on the
/// key error the pairs expanded so far remain, for the caller to
/// release).
fn expand_kwargs_mapping(heap: &mut Heap, v: &Value, kw_vals: &mut Vec<(String, Value)>) -> (r:
    Result<(), RunError>)
    requires
        old(heap).wf(),
    ensures
        final(heap).wf(),
        final(kw_vals)@.len() >= old(kw_vals)@.len(),
        !spec_spread_ok(*old(heap), *v) ==> (r matches Err(e)
            && crate::exceptions::spec_simple_exc(
            e,
            ExcType::TypeError,
            "argument after ** must be a mapping"@,
        ) && *final(heap) == *old(heap) && *final(kw_vals) == *old(kw_vals)),
        (spec_spread_ok(*old(heap), *v) && (forall|k: int|
            0 <= k < (old(heap).spec_data(v->Ref_0).unwrap()->Dict_0)@.len()
                ==> spec_kw_key_ok(
                *old(heap),
                (#[trigger] (old(heap).spec_data(v->Ref_0).unwrap()->Dict_0)@[k]).0,
            ))) ==> {
            let pairs = (old(heap).spec_data(v->Ref_0).unwrap()->Dict_0)@;
            &&& r is Ok
            &&& crate::ops::only_incs(*old(heap), *final(heap))
            &&& final(kw_vals)@.len() == old(kw_vals)@.len() + pairs.len()
            &&& (forall|k: int|
                0 <= k < pairs.len() ==> (#[trigger] final(kw_vals)@[old(kw_vals)@.len() + k]).0@
                    == (old(heap).spec_data((pairs[k].0)->Ref_0).unwrap()->Str_0)@
                    && final(kw_vals)@[old(kw_vals)@.len() + k].1 == pairs[k].1)
        },
        (spec_spread_ok(*old(heap), *v) && (exists|k: int|
            0 <= k < (old(heap).spec_data(v->Ref_0).unwrap()->Dict_0)@.len()
                && !spec_kw_key_ok(
                *old(heap),
                (#[trigger] (old(heap).spec_data(v->Ref_0).unwrap()->Dict_0)@[k]).0,
            ))) ==> (r matches Err(e) && crate::exceptions::spec_simple_exc(
            e,
            ExcType::TypeError,
            "keywords must be strings"@,
        )),
{
    let id = match v {
        Value::Ref(id) => *id,
        _ => {
            return Err(
                simple_exc(ExcType::TypeError, "argument after ** must be a mapping"),
            );
        },
    };
    let present = id < heap.entries.len() && {
        match &heap.entries[id] {
            Some(entry) => match &entry.data {
                Some(HeapData::Dict(_)) => true,
                _ => false,
            },
            None => false,
        }
    };
    if !present {
        return Err(simple_exc(ExcType::TypeError, "argument after ** must be a mapping"));
    }
    let n = match heap.get(id) {
        HeapData::Dict(pairs) => pairs.len(),
        _ => unreached(),
    };
    let ghost pairs0 = (old(heap).spec_data(id).unwrap()->Dict_0)@;
    let mut i: usize = 0;
    while i < n
        invariant
            heap.wf(),
            crate::ops::only_incs(*old(heap), *heap),
            spec_spread_ok(*old(heap), *v),
            *v is Ref && v->Ref_0 == id,
            heap.spec_present(id),
            heap.spec_data(id) == old(heap).spec_data(id),
            heap.spec_data(id).unwrap() is Dict,
            pairs0 == (old(heap).spec_data(id).unwrap()->Dict_0)@,
            n == pairs0.len(),
            i <= n,
            kw_vals@.len() == old(kw_vals)@.len() + i,
            forall|k: int|
                0 <= k < i ==> spec_kw_key_ok(*old(heap), (#[trigger] pairs0[k]).0) && (
                kw_vals@[old(kw_vals)@.len() + k]).0@ == (old(heap).spec_data(
                    (pairs0[k].0)->Ref_0,
                ).unwrap()->Str_0)@ && kw_vals@[old(kw_vals)@.len() + k].1 == pairs0[k].1,
        decreases n - i,
    {
        let (key, val) = match heap.get(id) {
            HeapData::Dict(pairs) => pairs[i],
            _ => unreached(),
        };
        proof {
            assert(pairs0[i as int] == (heap.spec_data(id).unwrap()->Dict_0)@[i as int]);
        }
        let key_text: String = match key {
            Value::Ref(kid) => {
                let k_ok = kid < heap.entries.len() && {
                    match &heap.entries[kid] {
                        Some(entry) => match &entry.data {
                            Some(HeapData::Str(_)) => true,
                            _ => false,
                        },
                        None => false,
                    }
                };
                if !k_ok {
                    proof {
                        if kid < old(heap).entries@.len() {
                            assert(old(heap).entries@[kid as int] is Some ==> heap.entries@[
                                kid as int] is Some && heap.entries@[kid as int].unwrap().data
                                == old(heap).entries@[kid as int].unwrap().data);
                        }
                        assert(!spec_kw_key_ok(*old(heap), pairs0[i as int].0));
                    }
                    return Err(simple_exc(ExcType::TypeError, "keywords must be strings"));
                }
                proof {
                    if kid < old(heap).entries@.len() {
                        assert(old(heap).entries@[kid as int] is Some ==> heap.entries@[
                            kid as int] is Some && heap.entries@[kid as int].unwrap().data == old(
                            heap,
                        ).entries@[kid as int].unwrap().data);
                    }
                    assert(spec_kw_key_ok(*old(heap), pairs0[i as int].0));
                }
                match heap.get(kid) {
                    HeapData::Str(s) => s.clone(),
                    _ => unreached(),
                }
            },
            _ => {
                proof {
                    assert(!spec_kw_key_ok(*old(heap), pairs0[i as int].0));
                }
                return Err(simple_exc(ExcType::TypeError, "keywords must be strings"));
            },
        };
        let ghost mid = *heap;
        let owned = clone_value(heap, &val);
        proof {
            crate::ops::lemma_only_incs_trans(*old(heap), mid, *heap);
        }
        kw_vals.push((key_text, owned));
        i = i + 1;
    }
    Ok(())
}

/// Executes one statement.  `last` carries the value of the most
/// recent expression statement, which becomes the program's result.
#[verifier::loop_isolation(false)]
pub fn exec_node<T: ResourceTracker>(
    node: &RunNode,
    heap: &mut Heap,
    locals: &mut Vec<Value>,
    last: &mut Value,
    writer: &mut PrintWriter,
    tracker: &mut T,
) -> (r: Result<(), VmError>)
    requires
        old(heap).wf(),
    ensures
        final(heap).wf(),
        final(locals)@.len() == old(locals)@.len(),
        writer_extended(*old(writer), *final(writer)),
        // `Pass` does nothing at all.
        *node is Pass ==> r is Ok && *final(heap) == *old(heap) && *final(locals) == *old(locals)
            && *final(writer) == *old(writer) && *final(last) == *old(last),
        // A successful assignment binds exactly its target slot.
        (match *node {
            RunNode::Assign { target, object } => r is Ok ==> (target as int) < old(
                locals,
            )@.len() && (exists|v: Value|
                final(locals)@ == old(locals)@.update(target as int, v)),
            _ => true,
        }),
        // A constant print statement emits its text (or is denied by
        // the resource tracker before emitting anything) and leaves
        // `None` as the candidate result.
        spec_stmt_print_text(*node) matches Some(text) ==> (!(*old(writer) is Callback) ==> ({
            &&& r is Ok
            &&& *final(last) == Value::PyNone
            &&& (*old(writer) is Collect ==> (*final(writer) matches
                crate::io::PrintWriter::Collect(buf) && buf@ == (*old(writer))->Collect_0@
                + text))
            &&& (*old(writer) is Disabled || *old(writer) is Stdout ==> *final(writer) == *old(
                writer,
            ))
        } || (r matches Err(VmError::Resource(_)) && *final(writer) == *old(writer)
            && *final(last) == *old(last)))),
        // An expression statement's value becomes the candidate
        // program result: pinned here for constant arithmetic.
        (match *node {
            RunNode::Expr(e) => (match e {
                RunExpr::Op { left, op, right } => (match (*left, *right) {
                    (RunExpr::Constant(ca), RunExpr::Constant(cb)) => (match (
                        spec_const_numeric(ca),
                        spec_const_numeric(cb),
                    ) {
                        (Some(x), Some(y)) => match op {
                            Op::Add => r is Ok && *final(last) == Value::Int(
                                (x as i64).wrapping_add(y as i64),
                            ),
                            Op::Sub => r is Ok && *final(last) == Value::Int(
                                (x as i64).wrapping_sub(y as i64),
                            ),
                            Op::Mod => true,
                        },
                        _ => true,
                    }),
                    _ => true,
                }),
                _ => true,
            }),
            _ => true,
        }),
    decreases *node,
{
    proof {
        lemma_writer_extended_refl(*writer);
    }
    match node {
        RunNode::Pass => Ok(()),
        RunNode::Expr(e) => {
            let v = match exec_expr(e, heap, locals, writer, tracker) {
                Ok(v) => v,
                Err(err) => {
                    return Err(err);
                },
            };
            let mut prev = v;
            core::mem::swap(last, &mut prev);
            drop_value(heap, &prev);
            Ok(())
        },
        RunNode::Assign { target, object } => {
            let v = match exec_expr(object, heap, locals, writer, tracker) {
                Ok(v) => v,
                Err(err) => {
                    return Err(err);
                },
            };
            if *target < locals.len() {
                let prev = locals[*target];
                locals[*target] = v;
                proof {
                    assert(exists|w: Value|
                        locals@ == old(locals)@.update(*target as int, w)) by {
                        assert(locals@ == old(locals)@.update(*target as int, v));
                    }
                }
                drop_value(heap, &prev);
                Ok(())
            } else {
                drop_value(heap, &v);
                Err(VmError::Run(simple_internal("assignment target out of range")))
            }
        },
        RunNode::OpAssign { target, op, object } => {
            let rhs = match exec_expr(object, heap, locals, writer, tracker) {
                Ok(v) => v,
                Err(err) => {
                    return Err(err);
                },
            };
            if *target >= locals.len() {
                drop_value(heap, &rhs);
                return Err(VmError::Run(simple_internal("assignment target out of range")));
            }
            let current = locals[*target];
            match current {
                Value::Undefined => {
                    drop_value(heap, &rhs);
                    Err(VmError::Run(simple_exc(ExcType::NameError, "name is not defined")))
                },
                _ => {
                    match exec_op_assign(heap, *op, current, rhs) {
                        Ok(newv) => {
                            locals[*target] = newv;
                            Ok(())
                        },
                        Err(e) => Err(VmError::Run(e)),
                    }
                },
            }
        },
        RunNode::For { target, iter, body, or_else } => {
            let itv = match exec_expr(iter, heap, locals, writer, tracker) {
                Ok(v) => v,
                Err(err) => {
                    return Err(err);
                },
            };
            let ghost w1 = *writer;
            let vs = match iter_values(heap, &itv) {
                Ok(vs) => vs,
                Err(e) => {
                    drop_value(heap, &itv);
                    return Err(VmError::Run(e));
                },
            };
            drop_value(heap, &itv);
            if *target >= locals.len() {
                drop_values(heap, &vs);
                return Err(VmError::Run(simple_internal("loop target out of range")));
            }
            let n = vs.len();
            let mut j: usize = 0;
            while j < n
                invariant
                    heap.wf(),
                    locals@.len() == old(locals)@.len(),
                    writer_extended(*old(writer), *writer),
                    n == vs@.len(),
                    j <= n,
                    *target < locals@.len(),
                decreases n - j,
            {
                match tracker.check_step() {
                    Ok(_) => {},
                    Err(e) => {
                        drop_tail_from(heap, &vs, j);
                        return Err(VmError::Resource(e));
                    },
                }
                let prev = locals[*target];
                locals[*target] = vs[j];
                drop_value(heap, &prev);
                let ghost w2 = *writer;
                match exec_block(body, heap, locals, last, writer, tracker) {
                    Ok(_) => {},
                    Err(e) => {
                        proof {
                            lemma_writer_extended_trans(*old(writer), w2, *writer);
                        }
                        drop_tail_from(heap, &vs, j + 1);
                        return Err(e);
                    },
                }
                proof {
                    lemma_writer_extended_trans(*old(writer), w2, *writer);
                }
                j = j + 1;
            }
            let ghost w3 = *writer;
            let r = exec_block(or_else, heap, locals, last, writer, tracker);
            proof {
                lemma_writer_extended_trans(*old(writer), w3, *writer);
            }
            r
        },
        RunNode::If { test, body, or_else } => {
            let t = match exec_expr(test, heap, locals, writer, tracker) {
                Ok(v) => v,
                Err(err) => {
                    return Err(err);
                },
            };
            let truthy = crate::pydata::value_bool(heap, &t);
            drop_value(heap, &t);
            let ghost w1 = *writer;
            let r = if truthy {
                exec_block(body, heap, locals, last, writer, tracker)
            } else {
                exec_block(or_else, heap, locals, last, writer, tracker)
            };
            proof {
                lemma_writer_extended_trans(*old(writer), w1, *writer);
            }
            r
        },
    }
}

/// Releases the values of `vs` from index `from` on.
fn drop_tail_from(heap: &mut Heap, vs: &Vec<Value>, from: usize)
    requires
        old(heap).wf(),
    ensures
        final(heap).wf(),
{
    let n = vs.len();
    let mut i: usize = from;
    while i < n
        invariant
            heap.wf(),
            n == vs@.len(),
        decreases n - i,
    {
        drop_value(heap, &vs[i]);
        i = i + 1;
    }
}

/// Whether `target op= rhs` takes the in-place unique-string path:
/// `+=` where the target holds the sole reference to a string and the
/// right side is a different string entry.
pub open spec fn spec_iadd_str_inplace(pre: Heap, op: Op, current: Value, rhs: Value) -> bool {
    &&& op == Op::Add
    &&& current is Ref
    &&& rhs is Ref
    &&& current->Ref_0 != rhs->Ref_0
    &&& pre.spec_present(current->Ref_0)
    &&& pre.spec_rc(current->Ref_0) == 1
    &&& pre.spec_data(current->Ref_0).unwrap() is Str
    &&& pre.spec_present(rhs->Ref_0)
    &&& pre.spec_data(rhs->Ref_0).unwrap() is Str
}

/// Whether `target op= rhs` takes the in-place list-extension path:
/// `+=` on two distinct list entries, whatever their sharing.
pub open spec fn spec_iadd_list_inplace(pre: Heap, op: Op, current: Value, rhs: Value) -> bool {
    &&& op == Op::Add
    &&& current is Ref
    &&& rhs is Ref
    &&& current->Ref_0 != rhs->Ref_0
    &&& pre.spec_present(current->Ref_0)
    &&& pre.spec_data(current->Ref_0).unwrap() is List
    &&& pre.spec_present(rhs->Ref_0)
    &&& pre.spec_data(rhs->Ref_0).unwrap() is List
}

/// Applies `target op= rhs`: a unique string extends in place, lists
/// extend in place through the heap's helper, and everything else
/// falls back to the plain operator, releasing the replaced value.
/// Consumes both `current` (the target's old value) and `rhs`; the
/// result is the target's new value.
fn exec_op_assign(heap: &mut Heap, op: Op, current: Value, rhs: Value) -> (r: Result<
    Value,
    RunError,
>)
    requires
        old(heap).wf(),
    ensures
        final(heap).wf(),
        // Numbers compute immediately and leave the heap alone.
        (match (crate::pydata::spec_numeric(current), crate::pydata::spec_numeric(rhs)) {
            (Some(x), Some(y)) => match op {
                Op::Add => r == Ok::<Value, RunError>(
                    Value::Int((x as i64).wrapping_add(y as i64)),
                ) && *final(heap) == *old(heap),
                Op::Sub => r == Ok::<Value, RunError>(
                    Value::Int((x as i64).wrapping_sub(y as i64)),
                ) && *final(heap) == *old(heap),
                Op::Mod => if y == 0 {
                    r is Err
                } else {
                    &&& r matches Ok(Value::Int(m))
                    &&& crate::operators::spec_py_mod_ok(x, y, m as int)
                    &&& *final(heap) == *old(heap)
                },
            },
            _ => true,
        }),
        // `+=` on a uniquely held string appends in place: the target
        // keeps its slot, whose payload becomes the concatenation.
        spec_iadd_str_inplace(*old(heap), op, current, rhs) ==> {
            &&& r == Ok::<Value, RunError>(current)
            &&& final(heap).spec_present(current->Ref_0)
            &&& final(heap).spec_rc(current->Ref_0) == 1
            &&& final(heap).spec_data(current->Ref_0) matches Some(HeapData::Str(s))
            &&& s@ == (old(heap).spec_data(current->Ref_0).unwrap()->Str_0)@ + (old(
                heap,
            ).spec_data(rhs->Ref_0).unwrap()->Str_0)@
        },
        // `+=` on lists extends the target's payload in place, sharing
        // the source's elements (exact whenever releasing the source
        // cannot cascade).
        (spec_iadd_list_inplace(*old(heap), op, current, rhs) && (old(heap).spec_rc(rhs->Ref_0)
            > 1 || crate::heap::refs_of(
            (old(heap).spec_data(rhs->Ref_0).unwrap()->List_0)@,
        ).len() == 0)) ==> {
            &&& r == Ok::<Value, RunError>(current)
            &&& final(heap).spec_present(current->Ref_0)
            &&& final(heap).spec_data(current->Ref_0) matches Some(HeapData::List(v))
            &&& v@ == (old(heap).spec_data(current->Ref_0).unwrap()->List_0)@ + (old(
                heap,
            ).spec_data(rhs->Ref_0).unwrap()->List_0)@
        },
{
    if (op == Op::Add) {
        // In-place string append: only when the target holds the sole
        // reference and both sides are strings.
        let both_refs = match (&current, &rhs) {
            (Value::Ref(_), Value::Ref(_)) => true,
            _ => false,
        };
        let (cur_id, rhs_id) = match (&current, &rhs) {
            (Value::Ref(a), Value::Ref(b)) => (*a, *b),
            _ => (0, 0),
        };
        if both_refs && cur_id != rhs_id && cur_id < heap.entries.len()
            && rhs_id < heap.entries.len() {
            let cur_str_unique = match &heap.entries[cur_id] {
                Some(entry) => entry.refcount == 1 && (match &entry.data {
                    Some(HeapData::Str(_)) => true,
                    _ => false,
                }),
                None => false,
            };
            let rhs_str = match &heap.entries[rhs_id] {
                Some(entry) => match &entry.data {
                    Some(HeapData::Str(_)) => true,
                    _ => false,
                },
                None => false,
            };
            if cur_str_unique && rhs_str {
                let mut s = match heap.take_entry(cur_id) {
                    HeapData::Str(s) => s,
                    _ => unreached(),
                };
                match heap.get(rhs_id) {
                    HeapData::Str(other) => {
                        s.append(other.as_str());
                    },
                    _ => {},
                }
                heap.restore_entry(cur_id, HeapData::Str(s));
                drop_value(heap, &rhs);
                return Ok(current);
            }
            // In-place list extension.
            let cur_list = match &heap.entries[cur_id] {
                Some(entry) => match &entry.data {
                    Some(HeapData::List(_)) => true,
                    _ => false,
                },
                None => false,
            };
            let rhs_list = match &heap.entries[rhs_id] {
                Some(entry) => match &entry.data {
                    Some(HeapData::List(_)) => true,
                    _ => false,
                },
                None => false,
            };
            if cur_list && rhs_list {
                let mut items = match heap.take_entry(cur_id) {
                    HeapData::List(items) => items,
                    _ => unreached(),
                };
                let ok = heap.iadd_extend_list(rhs_id, &mut items);
                heap.restore_entry(cur_id, HeapData::List(items));
                drop_value(heap, &rhs);
                if ok {
                    return Ok(current);
                } else {
                    return Err(simple_internal("list extension on a non-list source"));
                }
            }
        }
    }
    // General path: apply the operator, then release both operands.
    let res = apply_op(heap, op, &current, &rhs);
    drop_value(heap, &current);
    drop_value(heap, &rhs);
    res
}

/// Executes a block of statements in order.  A user exception raised
/// while a statement runs gains a traceback frame for that statement's
/// source position (the innermost statement wins: an exception that
/// already carries a frame keeps it).
#[verifier::loop_isolation(false)]
pub fn exec_block<T: ResourceTracker>(
    stmts: &Vec<RunStmt>,
    heap: &mut Heap,
    locals: &mut Vec<Value>,
    last: &mut Value,
    writer: &mut PrintWriter,
    tracker: &mut T,
) -> (r: Result<(), VmError>)
    requires
        old(heap).wf(),
    ensures
        final(heap).wf(),
        final(locals)@.len() == old(locals)@.len(),
        writer_extended(*old(writer), *final(writer)),
        // Every user exception leaves with a traceback frame.
        r matches Err(VmError::Run(RunError::Exc(raise))) ==> raise.frame is Some,
        // An empty block does nothing at all.
        stmts@.len() == 0 ==> r is Ok && *final(heap) == *old(heap) && *final(locals) == *old(
            locals,
        ) && *final(writer) == *old(writer) && *final(last) == *old(last),
        // A straight-line constant print program emits exactly its
        // text (or is cut off by a resource denial).
        spec_program_print_text(stmts@) matches Some(text) ==> (!(*old(writer) is Callback) ==> ({
            &&& r is Ok
            &&& (*old(writer) is Collect ==> (*final(writer) matches
                crate::io::PrintWriter::Collect(buf) && buf@ == (*old(writer))->Collect_0@
                + text))
            &&& (*old(writer) is Disabled || *old(writer) is Stdout ==> *final(writer) == *old(
                writer,
            ))
            &&& (stmts@.len() > 0 ==> *final(last) == Value::PyNone)
            &&& (stmts@.len() == 0 ==> *final(last) == *old(last))
        } || r matches Err(VmError::Resource(_)))),
    decreases *stmts,
{
    proof {
        lemma_writer_extended_refl(*writer);
    }
    let n = stmts.len();
    if n == 0 {
        return Ok(());
    }
    let ghost print_prog = spec_program_print_text(stmts@) is Some && !(*old(writer) is Callback);
    let mut i: usize = 0;
    while i < n
        invariant
            heap.wf(),
            locals@.len() == old(locals)@.len(),
            writer_extended(*old(writer), *writer),
            n == stmts@.len(),
            i <= n,
            print_prog ==> {
                &&& (*old(writer) is Collect ==> (*writer matches
                    crate::io::PrintWriter::Collect(buf) && buf@ == (*old(writer))->Collect_0@
                    + spec_print_prefix(stmts@, i as int)))
                &&& (*old(writer) is Disabled || *old(writer) is Stdout ==> *writer == *old(
                    writer,
                ))
                &&& (i > 0 ==> *last == Value::PyNone)
                &&& (i == 0 ==> *last == *old(last))
            },
        decreases n - i,
    {
        let ghost w1 = *writer;
        proof {
            if print_prog {
                lemma_print_text_split(stmts@, i as int);
                lemma_print_text_split(stmts@, i + 1);
            }
        }
        match exec_node(&stmts[i].node, heap, locals, last, writer, tracker) {
            Ok(_) => {
                proof {
                    if print_prog {
                        assert(stmts@.skip(i as int)[0] == stmts@[i as int]);
                    }
                }
            },
            Err(e) => {
                proof {
                    lemma_writer_extended_trans(*old(writer), w1, *writer);
                }
                return Err(attach_frame(e, &stmts[i].pos));
            },
        }
        proof {
            lemma_writer_extended_trans(*old(writer), w1, *writer);
        }
        i = i + 1;
    }
    proof {
        if print_prog {
            lemma_print_text_split(stmts@, n as int);
            assert(stmts@.skip(n as int) =~= Seq::<RunStmt>::empty());
        }
    }
    Ok(())
}

/// Attaches a traceback frame at the raise site: a user exception
/// that has no frame yet gains one for `pos`; one that already has a
/// frame, and every other outcome, passes through unchanged.
fn attach_frame(e: VmError, pos: &crate::exceptions::CodeRange) -> (r: VmError)
    ensures
        r matches VmError::Run(RunError::Exc(raise)) ==> raise.frame is Some || !(e matches
            VmError::Run(RunError::Exc(_))),
        e matches VmError::Run(RunError::Exc(raise)) ==> (r matches VmError::Run(
            RunError::Exc(raise2),
        ) && raise2.exc == raise.exc && raise2.frame is Some),
        // A frameless exception gains exactly this span, with no
        // parent chain; one already framed passes through unchanged.
        (e matches VmError::Run(RunError::Exc(raise)) && raise.frame is None) ==> (r matches
            VmError::Run(RunError::Exc(raise2)) && raise2.frame matches Some(f)
            && crate::exceptions::code_range_eqv(f.position, *pos) && f.frame_name is None
            && f.parent is None),
        (e matches VmError::Run(RunError::Exc(raise)) && raise.frame is Some) ==> r == e,
        !(e matches VmError::Run(RunError::Exc(_))) ==> r == e,
{
    match e {
        VmError::Run(RunError::Exc(raise)) => {
            match raise.frame {
                Some(f) => VmError::Run(RunError::Exc(ExceptionRaise { exc: raise.exc, frame: Some(f) })),
                None => VmError::Run(
                    RunError::Exc(
                        ExceptionRaise {
                            exc: raise.exc,
                            frame: Some(StackFrame::from_position(pos.clone())),
                        },
                    ),
                ),
            }
        },
        other => other,
    }
}

/// Runs a prepared program: executes its statements over a fresh set
/// of locals, and returns the value of the last expression statement
/// (or `None` if there was none).
///
/// On a user exception or internal error the locals are released and
/// the error is returned.  On a resource denial the locals are
/// released, the whole heap is cleared, and the denial is returned as
/// a distinct, uncatchable outcome.
pub fn run_program<T: ResourceTracker>(
    nodes: &Vec<RunStmt>,
    namespace: Vec<Value>,
    heap: &mut Heap,
    tracker: &mut T,
    writer: &mut PrintWriter,
) -> (r: Result<Value, VmError>)
    requires
        old(heap).wf(),
    ensures
        final(heap).wf(),
        writer_extended(*old(writer), *final(writer)),
        (r matches Err(VmError::Resource(_))) ==> final(heap).spec_entry_count() == 0,
        // Every user exception reaches the embedder with a traceback
        // frame for the statement that raised it.
        r matches Err(VmError::Run(RunError::Exc(raise))) ==> raise.frame is Some,
        // The empty program returns `None` and touches nothing.
        (nodes@.len() == 0 && namespace@.len() == 0) ==> r == Ok::<Value, VmError>(Value::PyNone)
            && *final(heap) == *old(heap) && *final(writer) == *old(writer),
        // A straight-line constant print program returns `None` and
        // emits exactly its text (or is cut off by a resource
        // denial).
        spec_program_print_text(nodes@) matches Some(text) ==> (!(*old(writer) is Callback) ==> ({
            &&& r == Ok::<Value, VmError>(Value::PyNone)
            &&& (*old(writer) is Collect ==> (*final(writer) matches
                crate::io::PrintWriter::Collect(buf) && buf@ == (*old(writer))->Collect_0@
                + text))
            &&& (*old(writer) is Disabled || *old(writer) is Stdout ==> *final(writer) == *old(
                writer,
            ))
        } || r matches Err(VmError::Resource(_)))),
{
    let mut locals = namespace;
    let mut last = Value::PyNone;
    match exec_block(nodes, heap, &mut locals, &mut last, writer, tracker) {
        Ok(_) => {
            drop_values(heap, &locals);
            Ok(last)
        },
        Err(VmError::Run(e)) => {
            drop_value(heap, &last);
            drop_values(heap, &locals);
            Err(VmError::Run(e))
        },
        Err(VmError::Resource(e)) => {
            drop_value(heap, &last);
            drop_values(heap, &locals);
            heap.clear();
            Err(VmError::Resource(e))
        },
    }
}

} // verus!
