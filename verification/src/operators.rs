//! Binary operators over values, as the executor evaluates them.
//!
//! Numeric operands (integers and booleans) short-circuit to
//! immediate arithmetic; reference operands dispatch to the payloads'
//! operations.  `None` from an arithmetic operator means the pairing
//! is unsupported, and the executor raises the `unsupported operand
//! type(s)` error.

use vstd::prelude::*;

use crate::exceptions::{simple_exc_string, spec_simple_exc, ExcType, RunError};
use crate::heap::{Heap, HeapData, HashState};
use crate::ops::{alloc_with_incs, fresh_alloc_at, only_incs};
use crate::pydata::{eq_value, spec_eq_value, spec_numeric};
use crate::value::{HeapId, Value};

verus! {

/// What the source language's `%` returns for `a % b`: the unique
/// remainder `m` of a division of `a` by `b` that lies on the
/// divisor's side of zero.
pub open spec fn spec_py_mod_ok(a: int, b: int, m: int) -> bool {
    &&& exists|q: int| a == #[trigger] (q * b) + m
    &&& b > 0 ==> 0 <= m < b
    &&& b < 0 ==> b < m <= 0
}

/// The two heaps hold the same slots and free list.
pub open spec fn heap_eq_view(a: Heap, b: Heap) -> bool {
    a.entries@ == b.entries@ && a.free_list@ == b.free_list@
}

/// The result slot of a concatenation: a fresh entry (not live
/// before) holding one reference-count unit.  Both operand slots
/// survive with their payloads intact; the full frame over the other
/// slots is in `HeapData::py_add`'s own contract.
pub open spec fn concat_result(pre: Heap, post: Heap, rid: HeapId, a_id: HeapId, b_id: HeapId)
    -> bool {
    &&& post.wf()
    &&& !pre.spec_live(rid)
    &&& post.spec_live(rid)
    &&& post.spec_rc(rid) == 1
    &&& rid < post.entries@.len()
    &&& post.entries@.len() >= pre.entries@.len()
    &&& post.spec_present(a_id)
    &&& post.spec_data(a_id) == pre.spec_data(a_id)
    &&& post.spec_present(b_id)
    &&& post.spec_data(b_id) == pre.spec_data(b_id)
}

/// What a supported `+` on two present references produces: `out`
/// is a reference to the fresh concatenation of the operands'
/// payloads.
pub open spec fn spec_concat_post(pre: Heap, post: Heap, a_id: HeapId, b_id: HeapId, out: Value)
    -> bool {
    match (pre.spec_data(a_id).unwrap(), pre.spec_data(b_id).unwrap()) {
        (HeapData::Str(sa), HeapData::Str(sb)) => {
            &&& out matches Value::Ref(rid)
            &&& concat_result(pre, post, rid, a_id, b_id)
            &&& post.spec_data(rid) matches Some(HeapData::Str(s))
            &&& s@ == sa@ + sb@
        },
        (HeapData::Bytes(ba), HeapData::Bytes(bb)) => {
            &&& out matches Value::Ref(rid)
            &&& concat_result(pre, post, rid, a_id, b_id)
            &&& post.spec_data(rid) matches Some(HeapData::Bytes(v))
            &&& v@ == ba@ + bb@
        },
        (HeapData::List(la), HeapData::List(lb)) => {
            &&& out matches Value::Ref(rid)
            &&& concat_result(pre, post, rid, a_id, b_id)
            &&& post.spec_data(rid) matches Some(HeapData::List(v))
            &&& v@ == la@ + lb@
        },
        (HeapData::Tuple(ta), HeapData::Tuple(tb)) => {
            &&& out matches Value::Ref(rid)
            &&& concat_result(pre, post, rid, a_id, b_id)
            &&& post.spec_data(rid) matches Some(HeapData::Tuple(v))
            &&& v@ == ta@ + tb@
        },
        _ => false,
    }
}

/// The `+` operator on two values.
///
/// `Ok(Some(v))` is the sum; `Ok(None)` means the pairing is
/// unsupported (the caller raises `TypeError`); `Err` reports an
/// internal error for a reference whose slot is gone, which a correct
/// executor never produces.  Integer addition wraps on overflow.
pub fn value_add(heap: &mut Heap, a: &Value, b: &Value) -> (r: Result<Option<Value>, RunError>)
    requires
        old(heap).wf(),
    ensures
        final(heap).wf(),
        (match (spec_numeric(*a), spec_numeric(*b)) {
            (Some(x), Some(y)) => r == Ok::<Option<Value>, RunError>(
                Some(Value::Int((x as i64).wrapping_add(y as i64))),
            ) && *final(heap) == *old(heap),
            _ => true,
        }),
        // Two present references add by their payloads: every
        // supported pairing yields a reference to a fresh entry whose
        // content is the concatenation; the operands' slots survive
        // with their payloads intact.
        (a.spec_is_ref() && b.spec_is_ref() && old(heap).spec_present(a->Ref_0) && old(
            heap,
        ).spec_present(b->Ref_0)) ==> {
            let da = old(heap).spec_data(a->Ref_0).unwrap();
            let db = old(heap).spec_data(b->Ref_0).unwrap();
            if crate::ops::spec_addable(da, db) {
                &&& r matches Ok(Some(v))
                &&& spec_concat_post(*old(heap), *final(heap), a->Ref_0, b->Ref_0, v)
            } else {
                &&& r == Ok::<Option<Value>, RunError>(None)
                &&& heap_eq_view(*final(heap), *old(heap))
            }
        },
        // A number never adds to a reference, nor `None` or a builtin
        // to anything.
        (!(spec_numeric(*a) is Some && spec_numeric(*b) is Some) && !(a.spec_is_ref()
            && b.spec_is_ref())) ==> r == Ok::<Option<Value>, RunError>(None) && *final(heap)
            == *old(heap),
{
    match (a, b) {
        (Value::Int(x), Value::Int(y)) => Ok(Some(Value::Int((*x).wrapping_add(*y)))),
        (Value::Int(x), Value::Bool(y)) => Ok(
            Some(
                Value::Int(
                    (*x).wrapping_add(
                        if *y {
                            1
                        } else {
                            0
                        },
                    ),
                ),
            ),
        ),
        (Value::Bool(x), Value::Int(y)) => Ok(
            Some(
                Value::Int(
                    (if *x {
                        1i64
                    } else {
                        0i64
                    }).wrapping_add(*y),
                ),
            ),
        ),
        (Value::Bool(x), Value::Bool(y)) => Ok(
            Some(
                Value::Int(
                    (if *x {
                        1i64
                    } else {
                        0i64
                    }) + (if *y {
                        1i64
                    } else {
                        0i64
                    }),
                ),
            ),
        ),
        (Value::Ref(i), Value::Ref(j)) => {
            let i = *i;
            let j = *j;
            let i_ok = i < heap.entries.len() && {
                match &heap.entries[i] {
                    Some(entry) => match &entry.data {
                        Some(_) => true,
                        None => false,
                    },
                    None => false,
                }
            };
            let j_ok = j < heap.entries.len() && {
                match &heap.entries[j] {
                    Some(entry) => match &entry.data {
                        Some(_) => true,
                        None => false,
                    },
                    None => false,
                }
            };
            if !i_ok || !j_ok {
                Err(
                    crate::exceptions::simple_internal(
                        "binary operator on a freed or borrowed heap slot",
                    ),
                )
            } else if i == j {
                let da = heap.take_entry(i);
                let ghost taken = *heap;
                let res = da.py_add(&da, heap);
                proof {
                    assert(taken.entries@[i as int] is Some);
                    assert(heap.entries@[i as int] is Some && heap.entries@[i as int].unwrap().data
                        is None);
                }
                heap.restore_entry(i, da);
                proof {
                    if res is None {
                        assert(heap.entries@ =~= old(heap).entries@);
                        assert(heap.free_list@ =~= old(heap).free_list@);
                    }
                }
                Ok(res)
            } else {
                let da = heap.take_entry(i);
                let db = heap.take_entry(j);
                let ghost taken = *heap;
                let res = da.py_add(&db, heap);
                proof {
                    assert(taken.entries@[i as int] is Some);
                    assert(taken.entries@[j as int] is Some);
                    assert(heap.entries@[i as int] is Some && heap.entries@[i as int].unwrap().data
                        is None);
                    assert(heap.entries@[j as int] is Some && heap.entries@[j as int].unwrap().data
                        is None);
                }
                heap.restore_entry(j, db);
                heap.restore_entry(i, da);
                proof {
                    if res is None {
                        assert(heap.entries@ =~= old(heap).entries@);
                        assert(heap.free_list@ =~= old(heap).free_list@);
                    }
                }
                Ok(res)
            }
        },
        _ => Ok(None),
    }
}

/// The `-` operator on two values: defined for numbers only.
pub fn value_sub(heap: &Heap, a: &Value, b: &Value) -> (r: Option<Value>)
    ensures
        (match (spec_numeric(*a), spec_numeric(*b)) {
            (Some(x), Some(y)) => r == Some(Value::Int((x as i64).wrapping_sub(y as i64))),
            _ => r is None,
        }),
{
    match (crate::index::as_numeric(a), crate::index::as_numeric(b)) {
        (Some(x), Some(y)) => Some(Value::Int(x.wrapping_sub(y))),
        _ => None,
    }
}

/// The `%` operator on two values: defined for numbers only; the
/// remainder takes the sign of the divisor, and a zero divisor raises
/// `ValueError`.
pub fn value_mod(heap: &Heap, a: &Value, b: &Value) -> (r: Result<Option<Value>, RunError>)
    ensures
        (match (spec_numeric(*a), spec_numeric(*b)) {
            (Some(x), Some(y)) => {
                if y == 0 {
                    r matches Err(e) && spec_simple_exc(
                        e,
                        ExcType::ValueError,
                        "integer division or modulo by zero"@,
                    )
                } else {
                    &&& r matches Ok(Some(Value::Int(m)))
                    &&& spec_py_mod_ok(x, y, m as int)
                }
            },
            _ => r == Ok::<Option<Value>, RunError>(None),
        }),
{
    match (crate::index::as_numeric(a), crate::index::as_numeric(b)) {
        (Some(x), Some(y)) => {
            if y == 0 {
                Err(
                    crate::exceptions::simple_exc(
                        ExcType::ValueError,
                        "integer division or modulo by zero",
                    ),
                )
            } else {
                let ua: u128 = if x >= 0 {
                    x as u128
                } else {
                    (-(x as i128)) as u128
                };
                let ub: u128 = if y >= 0 {
                    y as u128
                } else {
                    (-(y as i128)) as u128
                };
                let qa: u128 = ua / ub;
                let ma: u128 = ua % ub;
                proof {
                    assert(ua == ub * qa + ma) by (nonlinear_arith)
                        requires
                            ub > 0,
                            qa == ua / ub,
                            ma == ua % ub,
                    ;
                }
                let m: i128 = if x >= 0 && y > 0 {
                    ma as i128
                } else if x < 0 && y > 0 {
                    if ma == 0 {
                        0
                    } else {
                        y as i128 - ma as i128
                    }
                } else if x >= 0 {
                    // y < 0
                    if ma == 0 {
                        0
                    } else {
                        ma as i128 + y as i128
                    }
                } else {
                    // x < 0, y < 0
                    -(ma as i128)
                };
                proof {
                    lemma_py_mod_witness(x as int, y as int, qa as int, ma as int, m as int);
                }
                Ok(Some(Value::Int(m as i64)))
            }
        },
        _ => Ok(None),
    }
}

/// The sign adjustment of the remainder is a witness for
/// `spec_py_mod_ok`.
proof fn lemma_py_mod_witness(x: int, y: int, qa: int, ma: int, m: int)
    requires
        y != 0,
        qa >= 0,
        ma >= 0,
        (if x >= 0 {
            x
        } else {
            -x
        }) == (if y >= 0 {
            y
        } else {
            -y
        }) * qa + ma,
        ma < (if y >= 0 {
            y
        } else {
            -y
        }),
        m == (if x >= 0 && y > 0 {
            ma
        } else if x < 0 && y > 0 {
            if ma == 0 {
                0int
            } else {
                y - ma
            }
        } else if x >= 0 {
            if ma == 0 {
                0int
            } else {
                ma + y
            }
        } else {
            -ma
        }),
    ensures
        spec_py_mod_ok(x, y, m),
{
    if x >= 0 && y > 0 {
        assert(x == qa * y + m) by (nonlinear_arith)
            requires
                x == y * qa + ma,
                m == ma,
        ;
    } else if x < 0 && y > 0 {
        if ma == 0 {
            assert(x == (-qa) * y + m) by (nonlinear_arith)
                requires
                    -x == y * qa + ma,
                    ma == 0,
                    m == 0,
            ;
        } else {
            assert(x == (-qa - 1) * y + m) by (nonlinear_arith)
                requires
                    -x == y * qa + ma,
                    m == y - ma,
            ;
        }
    } else if x >= 0 {
        if ma == 0 {
            assert(x == (-qa) * y + m) by (nonlinear_arith)
                requires
                    x == (-y) * qa + ma,
                    ma == 0,
                    m == 0,
            ;
        } else {
            assert(x == (-qa - 1) * y + m) by (nonlinear_arith)
                requires
                    x == (-y) * qa + ma,
                    m == ma + y,
            ;
        }
    } else {
        assert(x == qa * y + m) by (nonlinear_arith)
            requires
                -x == (-y) * qa + ma,
                m == -ma,
        ;
    }
}

/// The comparison operators of expressions.
#[derive(Clone, Copy, Debug, PartialEq, Eq, Structural)]
pub enum CmpOp {
    Eq,
    NotEq,
    Lt,
    LtE,
    Gt,
    GtE,
}

impl CmpOp {
    /// The operator's surface syntax.
    pub open spec fn spec_str(self) -> Seq<char> {
        match self {
            CmpOp::Eq => "=="@,
            CmpOp::NotEq => "!="@,
            CmpOp::Lt => "<"@,
            CmpOp::LtE => "<="@,
            CmpOp::Gt => ">"@,
            CmpOp::GtE => ">="@,
        }
    }

    /// The operator's surface syntax.
    pub fn str(self) -> (r: &'static str)
        ensures
            r@ == self.spec_str(),
    {
        match self {
            CmpOp::Eq => "==",
            CmpOp::NotEq => "!=",
            CmpOp::Lt => "<",
            CmpOp::LtE => "<=",
            CmpOp::Gt => ">",
            CmpOp::GtE => ">=",
        }
    }
}

/// A comparison of two values.  Equality is structural and total;
/// the order comparisons are defined for numbers and raise
/// `TypeError` otherwise.
pub fn value_compare(heap: &Heap, op: CmpOp, a: &Value, b: &Value) -> (r: Result<bool, RunError>)
    ensures
        op == CmpOp::Eq ==> r == Ok::<bool, RunError>(
            spec_eq_value(heap.entries@, *a, *b, heap.entries@.len() as nat),
        ),
        op == CmpOp::NotEq ==> r == Ok::<bool, RunError>(
            !spec_eq_value(heap.entries@, *a, *b, heap.entries@.len() as nat),
        ),
        (op != CmpOp::Eq && op != CmpOp::NotEq) ==> (match (spec_numeric(*a), spec_numeric(*b)) {
            (Some(x), Some(y)) => r == Ok::<bool, RunError>(
                match op {
                    CmpOp::Lt => x < y,
                    CmpOp::LtE => x <= y,
                    CmpOp::Gt => x > y,
                    CmpOp::GtE => x >= y,
                    _ => false,
                },
            ),
            _ => (r matches Err(e) && spec_simple_exc(
                e,
                ExcType::TypeError,
                seq!['\''] + op.spec_str() + "' not supported between instances of '"@
                    + crate::pydata::spec_value_type_name(heap.entries@, *a) + "' and '"@
                    + crate::pydata::spec_value_type_name(heap.entries@, *b) + seq!['\''],
            )),
        }),
{
    match op {
        CmpOp::Eq => Ok(eq_value(heap, a, b, heap.entries.len())),
        CmpOp::NotEq => Ok(!eq_value(heap, a, b, heap.entries.len())),
        _ => {
            match (crate::index::as_numeric(a), crate::index::as_numeric(b)) {
                (Some(x), Some(y)) => Ok(
                    match op {
                        CmpOp::Lt => x < y,
                        CmpOp::LtE => x <= y,
                        CmpOp::Gt => x > y,
                        CmpOp::GtE => x >= y,
                        _ => false,
                    },
                ),
                _ => {
                    let mut msg = String::new();
                    msg.append("'");
                    msg.append(op.str());
                    msg.append("' not supported between instances of '");
                    msg.append(crate::pydata::value_type_name(heap, a));
                    msg.append("' and '");
                    msg.append(crate::pydata::value_type_name(heap, b));
                    msg.append("'");
                    proof {
                        reveal_strlit("'");
                        assert(msg@ =~= seq!['\''] + op.spec_str()
                            + "' not supported between instances of '"@
                            + crate::pydata::spec_value_type_name(heap.entries@, *a) + "' and '"@
                            + crate::pydata::spec_value_type_name(heap.entries@, *b)
                            + seq!['\'']);
                    }
                    Err(simple_exc_string(ExcType::TypeError, msg))
                },
            }
        },
    }
}

} // verus!
