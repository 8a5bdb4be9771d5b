//! The prepared-program contract: the statement and expression nodes
//! that the external parse-and-prepare stage delivers to the
//! executor.
//!
//! The node types are generic in how names and call targets are
//! written: the parser produces them with textual names (`SourceNode`)
//! and the prepare stage resolves names to local-slot indices and
//! call targets to builtins (`RunNode`).

use vstd::prelude::*;

use crate::builtins::Builtins;
use crate::exceptions::CodeRange;
use crate::operators::CmpOp;
use crate::value::Const;

verus! {

/// An arithmetic operator of expressions and of `x op= e` statements.
#[derive(Clone, Copy, Debug, PartialEq, Eq, Structural)]
pub enum Op {
    Add,
    Sub,
    Mod,
}

impl Op {
    /// The operator's surface syntax.
    pub open spec fn spec_str(self) -> Seq<char> {
        match self {
            Op::Add => seq!['+'],
            Op::Sub => seq!['-'],
            Op::Mod => seq!['%'],
        }
    }

    /// The operator's surface syntax.
    pub fn str(self) -> (r: &'static str)
        ensures
            r@ == self.spec_str(),
    {
        let r = match self {
            Op::Add => "+",
            Op::Sub => "-",
            Op::Mod => "%",
        };
        proof {
            reveal_strlit("+");
            reveal_strlit("-");
            reveal_strlit("%");
        }
        r
    }
}

/// An expression node.  `N` is how a name is written, `F` how a call
/// target is written.  A keyword argument with no name is a `**`
/// spread of a mapping.
pub enum Expr<N, F> {
    Constant(Const),
    Name(N),
    Op { left: Box<Expr<N, F>>, op: Op, right: Box<Expr<N, F>> },
    CmpOp { left: Box<Expr<N, F>>, op: CmpOp, right: Box<Expr<N, F>> },
    Call { func: F, args: Vec<Expr<N, F>>, kwargs: Vec<(Option<String>, Expr<N, F>)> },
    List(Vec<Expr<N, F>>),
}

/// A statement node.
pub enum Node<N, F> {
    Pass,
    Expr(Expr<N, F>),
    Assign { target: N, object: Box<Expr<N, F>> },
    OpAssign { target: N, op: Op, object: Box<Expr<N, F>> },
    For { target: N, iter: Expr<N, F>, body: Vec<Stmt<N, F>>, or_else: Vec<Stmt<N, F>> },
    If { test: Expr<N, F>, body: Vec<Stmt<N, F>>, or_else: Vec<Stmt<N, F>> },
}

/// A statement with its source position: enough to render a traceback
/// frame when an exception is raised while it runs.
pub struct Stmt<N, F> {
    pub pos: CodeRange,
    pub node: Node<N, F>,
}

/// A node as the parser writes it: textual names.
pub type SourceExpr = Expr<String, String>;

/// A statement as the parser writes it.
pub type SourceNode = Node<String, String>;

/// A positioned statement as the parser writes it.
pub type SourceStmt = Stmt<String, String>;

/// An expression as the executor runs it: names are local-slot
/// indices, call targets are builtins.
pub type RunExpr = Expr<usize, Builtins>;

/// A statement as the executor runs it.
pub type RunNode = Node<usize, Builtins>;

/// A positioned statement as the executor runs it.
pub type RunStmt = Stmt<usize, Builtins>;

/// Every name index of a resolved expression points into a namespace
/// of `n` slots.
pub open spec fn expr_names_ok(e: RunExpr, n: int) -> bool
    decreases e,
{
    match e {
        Expr::Constant(_) => true,
        Expr::Name(i) => (i as int) < n,
        Expr::Op { left, op, right } => expr_names_ok(*left, n) && expr_names_ok(*right, n),
        Expr::CmpOp { left, op, right } => expr_names_ok(*left, n) && expr_names_ok(*right, n),
        Expr::Call { func, args, kwargs } => (forall|k: int|
            0 <= k < args@.len() ==> expr_names_ok(#[trigger] args@[k], n)) && (forall|k: int|
            0 <= k < kwargs@.len() ==> expr_names_ok(#[trigger] kwargs@[k].1, n)),
        Expr::List(elems) => forall|k: int|
            0 <= k < elems@.len() ==> expr_names_ok(#[trigger] elems@[k], n),
    }
}

/// Every name index of a resolved statement points into a namespace
/// of `n` slots.
pub open spec fn node_names_ok(nd: RunNode, n: int) -> bool
    decreases nd,
{
    match nd {
        Node::Pass => true,
        Node::Expr(e) => expr_names_ok(e, n),
        Node::Assign { target, object } => (target as int) < n && expr_names_ok(*object, n),
        Node::OpAssign { target, op, object } => (target as int) < n && expr_names_ok(*object, n),
        Node::For { target, iter, body, or_else } => (target as int) < n && expr_names_ok(iter, n)
            && (forall|k: int| 0 <= k < body@.len() ==> node_names_ok((#[trigger] body@[k]).node, n))
            && (forall|k: int|
            0 <= k < or_else@.len() ==> node_names_ok((#[trigger] or_else@[k]).node, n)),
        Node::If { test, body, or_else } => expr_names_ok(test, n) && (forall|k: int|
            0 <= k < body@.len() ==> node_names_ok((#[trigger] body@[k]).node, n)) && (forall|k: int|
            0 <= k < or_else@.len() ==> node_names_ok((#[trigger] or_else@[k]).node, n)),
    }
}

/// Whether every call target of a parsed expression names a known
/// builtin: exactly the condition under which the prepare stage
/// accepts it.
pub open spec fn expr_calls_known(e: SourceExpr) -> bool
    decreases e,
{
    match e {
        Expr::Constant(_) => true,
        Expr::Name(_) => true,
        Expr::Op { left, op, right } => expr_calls_known(*left) && expr_calls_known(*right),
        Expr::CmpOp { left, op, right } => expr_calls_known(*left) && expr_calls_known(*right),
        Expr::Call { func, args, kwargs } => crate::builtins::Builtins::spec_find(func@) is Some
            && (forall|k: int| 0 <= k < args@.len() ==> expr_calls_known(#[trigger] args@[k])) && (
        forall|k: int| 0 <= k < kwargs@.len() ==> expr_calls_known(#[trigger] kwargs@[k].1)),
        Expr::List(elems) => forall|k: int|
            0 <= k < elems@.len() ==> expr_calls_known(#[trigger] elems@[k]),
    }
}

/// Whether every call target of a parsed statement names a known
/// builtin.
pub open spec fn node_calls_known(nd: SourceNode) -> bool
    decreases nd,
{
    match nd {
        Node::Pass => true,
        Node::Expr(e) => expr_calls_known(e),
        Node::Assign { target, object } => expr_calls_known(*object),
        Node::OpAssign { target, op, object } => expr_calls_known(*object),
        Node::For { target, iter, body, or_else } => expr_calls_known(iter) && (forall|k: int|
            0 <= k < body@.len() ==> node_calls_known((#[trigger] body@[k]).node)) && (forall|
            k: int,
        |
            0 <= k < or_else@.len() ==> node_calls_known((#[trigger] or_else@[k]).node)),
        Node::If { test, body, or_else } => expr_calls_known(test) && (forall|k: int|
            0 <= k < body@.len() ==> node_calls_known((#[trigger] body@[k]).node)) && (forall|
            k: int,
        |
            0 <= k < or_else@.len() ==> node_calls_known((#[trigger] or_else@[k]).node)),
    }
}

/// One binding map extends another: every bound name keeps its slot.
pub open spec fn map_le(m1: Map<Seq<char>, usize>, m2: Map<Seq<char>, usize>) -> bool {
    forall|nm: Seq<char>|
        #[trigger] m1.dom().contains(nm) ==> m2.dom().contains(nm) && m2[nm] == m1[nm]
}

/// Keyword names match by their text.
pub open spec fn kw_key_eqv(a: Option<String>, b: Option<String>) -> bool {
    match (a, b) {
        (Some(x), Some(y)) => x@ == y@,
        (None, None) => true,
        _ => false,
    }
}

/// A statement tree with no `Pass` statements (those dissolve during
/// preparation, so only such trees map statement for statement).
pub open spec fn spec_no_pass(nd: SourceNode) -> bool
    decreases nd,
{
    match nd {
        Node::Pass => false,
        Node::Expr(_) => true,
        Node::Assign { target, object } => true,
        Node::OpAssign { target, op, object } => true,
        Node::For { target, iter, body, or_else } => (forall|k: int|
            0 <= k < body@.len() ==> spec_no_pass((#[trigger] body@[k]).node)) && (forall|k: int|
            0 <= k < or_else@.len() ==> spec_no_pass((#[trigger] or_else@[k]).node)),
        Node::If { test, body, or_else } => (forall|k: int|
            0 <= k < body@.len() ==> spec_no_pass((#[trigger] body@[k]).node)) && (forall|k: int|
            0 <= k < or_else@.len() ==> spec_no_pass((#[trigger] or_else@[k]).node)),
    }
}

/// Binding extension is transitive.
pub proof fn lemma_map_le_trans(
    a: Map<Seq<char>, usize>,
    b: Map<Seq<char>, usize>,
    c: Map<Seq<char>, usize>,
)
    requires
        map_le(a, b),
        map_le(b, c),
    ensures
        map_le(a, c),
{
}

/// The resolved expression has the source expression's shape, with
/// every name that `m` binds resolved to its slot.
pub open spec fn expr_resolved_wrt(src: SourceExpr, out: RunExpr, m: Map<Seq<char>, usize>) -> bool
    decreases src,
{
    match src {
        Expr::Constant(c) => out matches Expr::Constant(c2) && crate::pydata::spec_eq_const(c2, c),
        Expr::Name(nm) => out matches Expr::Name(i) && (m.dom().contains(nm@) ==> i == m[nm@]),
        Expr::Op { left, op, right } => out matches Expr::Op { left: l2, op: op2, right: r2 }
            && op2 == op && expr_resolved_wrt(*left, *l2, m) && expr_resolved_wrt(*right, *r2, m),
        Expr::CmpOp { left, op, right } => out matches Expr::CmpOp { left: l2, op: op2, right: r2 }
            && op2 == op && expr_resolved_wrt(*left, *l2, m) && expr_resolved_wrt(*right, *r2, m),
        Expr::Call { func, args, kwargs } => out matches Expr::Call {
            func: f2,
            args: args2,
            kwargs: kwargs2,
        } && args2@.len() == args@.len() && kwargs2@.len() == kwargs@.len() && (forall|k: int|
            0 <= k < args@.len() ==> expr_resolved_wrt(#[trigger] args@[k], args2@[k], m)) && (
        forall|k: int|
            0 <= k < kwargs@.len() ==> kw_key_eqv((#[trigger] kwargs2@[k]).0, kwargs@[k].0)
                && expr_resolved_wrt(kwargs@[k].1, kwargs2@[k].1, m)),
        Expr::List(elems) => out matches Expr::List(elems2) && elems2@.len() == elems@.len() && (
        forall|k: int|
            0 <= k < elems@.len() ==> expr_resolved_wrt(#[trigger] elems@[k], elems2@[k], m)),
    }
}

/// The resolved statement has the source statement's shape, with
/// every name that `m` binds resolved to its slot.
pub open spec fn node_resolved_wrt(src: SourceNode, out: RunNode, m: Map<Seq<char>, usize>) -> bool
    decreases src,
{
    match src {
        Node::Pass => true,
        Node::Expr(e) => out matches Node::Expr(e2) && expr_resolved_wrt(e, e2, m),
        Node::Assign { target, object } => out matches Node::Assign { target: t2, object: o2 } && (
        m.dom().contains(target@) ==> t2 == m[target@]) && expr_resolved_wrt(*object, *o2, m),
        Node::OpAssign { target, op, object } => out matches Node::OpAssign {
            target: t2,
            op: op2,
            object: o2,
        } && op2 == op && (m.dom().contains(target@) ==> t2 == m[target@]) && expr_resolved_wrt(
            *object,
            *o2,
            m,
        ),
        Node::For { target, iter, body, or_else } => out matches Node::For {
            target: t2,
            iter: it2,
            body: b2,
            or_else: oe2,
        } && (m.dom().contains(target@) ==> t2 == m[target@]) && expr_resolved_wrt(iter, it2, m)
            && b2@.len() == body@.len() && oe2@.len() == or_else@.len() && (forall|k: int|
            0 <= k < body@.len() ==> node_resolved_wrt(
                (#[trigger] body@[k]).node,
                b2@[k].node,
                m,
            )) && (forall|k: int|
            0 <= k < or_else@.len() ==> node_resolved_wrt(
                (#[trigger] or_else@[k]).node,
                oe2@[k].node,
                m,
            )),
        Node::If { test, body, or_else } => out matches Node::If {
            test: t2,
            body: b2,
            or_else: oe2,
        } && expr_resolved_wrt(test, t2, m) && b2@.len() == body@.len() && oe2@.len()
            == or_else@.len() && (forall|k: int|
            0 <= k < body@.len() ==> node_resolved_wrt(
                (#[trigger] body@[k]).node,
                b2@[k].node,
                m,
            )) && (forall|k: int|
            0 <= k < or_else@.len() ==> node_resolved_wrt(
                (#[trigger] or_else@[k]).node,
                oe2@[k].node,
                m,
            )),
    }
}

/// Resolution with respect to an extended binding implies resolution
/// with respect to the smaller one.
pub proof fn lemma_expr_resolved_mono(
    src: SourceExpr,
    out: RunExpr,
    m1: Map<Seq<char>, usize>,
    m2: Map<Seq<char>, usize>,
)
    requires
        expr_resolved_wrt(src, out, m2),
        map_le(m1, m2),
    ensures
        expr_resolved_wrt(src, out, m1),
    decreases src,
{
    match src {
        Expr::Op { left, op, right } => {
            lemma_expr_resolved_mono(*left, *(out->Op_left), m1, m2);
            lemma_expr_resolved_mono(*right, *(out->Op_right), m1, m2);
        },
        Expr::CmpOp { left, op, right } => {
            lemma_expr_resolved_mono(*left, *(out->CmpOp_left), m1, m2);
            lemma_expr_resolved_mono(*right, *(out->CmpOp_right), m1, m2);
        },
        Expr::Call { func, args, kwargs } => {
            assert forall|k: int| 0 <= k < args@.len() implies expr_resolved_wrt(
                #[trigger] args@[k],
                (out->Call_args)@[k],
                m1,
            ) by {
                lemma_expr_resolved_mono(args@[k], (out->Call_args)@[k], m1, m2);
            }
            assert forall|k: int|
                0 <= k < kwargs@.len() implies (kw_key_eqv(
                (#[trigger] (out->Call_kwargs)@[k]).0,
                kwargs@[k].0,
            ) && expr_resolved_wrt(kwargs@[k].1, (out->Call_kwargs)@[k].1, m1)) by {
                lemma_expr_resolved_mono(kwargs@[k].1, (out->Call_kwargs)@[k].1, m1, m2);
            }
        },
        Expr::List(elems) => {
            assert forall|k: int| 0 <= k < elems@.len() implies expr_resolved_wrt(
                #[trigger] elems@[k],
                (out->List_0)@[k],
                m1,
            ) by {
                lemma_expr_resolved_mono(elems@[k], (out->List_0)@[k], m1, m2);
            }
        },
        _ => {},
    }
}

/// Resolution of a statement with respect to an extended binding
/// implies resolution with respect to the smaller one.
pub proof fn lemma_node_resolved_mono(
    src: SourceNode,
    out: RunNode,
    m1: Map<Seq<char>, usize>,
    m2: Map<Seq<char>, usize>,
)
    requires
        node_resolved_wrt(src, out, m2),
        map_le(m1, m2),
    ensures
        node_resolved_wrt(src, out, m1),
    decreases src,
{
    match src {
        Node::Expr(e) => {
            lemma_expr_resolved_mono(e, out->Expr_0, m1, m2);
        },
        Node::Assign { target, object } => {
            lemma_expr_resolved_mono(*object, *(out->Assign_object), m1, m2);
        },
        Node::OpAssign { target, op, object } => {
            lemma_expr_resolved_mono(*object, *(out->OpAssign_object), m1, m2);
        },
        Node::For { target, iter, body, or_else } => {
            lemma_expr_resolved_mono(iter, out->For_iter, m1, m2);
            assert forall|k: int| 0 <= k < body@.len() implies node_resolved_wrt(
                (#[trigger] body@[k]).node,
                (out->For_body)@[k].node,
                m1,
            ) by {
                lemma_node_resolved_mono(body@[k].node, (out->For_body)@[k].node, m1, m2);
            }
            assert forall|k: int| 0 <= k < or_else@.len() implies node_resolved_wrt(
                (#[trigger] or_else@[k]).node,
                (out->For_or_else)@[k].node,
                m1,
            ) by {
                lemma_node_resolved_mono(or_else@[k].node, (out->For_or_else)@[k].node, m1, m2);
            }
        },
        Node::If { test, body, or_else } => {
            lemma_expr_resolved_mono(test, out->If_test, m1, m2);
            assert forall|k: int| 0 <= k < body@.len() implies node_resolved_wrt(
                (#[trigger] body@[k]).node,
                (out->If_body)@[k].node,
                m1,
            ) by {
                lemma_node_resolved_mono(body@[k].node, (out->If_body)@[k].node, m1, m2);
            }
            assert forall|k: int| 0 <= k < or_else@.len() implies node_resolved_wrt(
                (#[trigger] or_else@[k]).node,
                (out->If_or_else)@[k].node,
                m1,
            ) by {
                lemma_node_resolved_mono(or_else@[k].node, (out->If_or_else)@[k].node, m1, m2);
            }
        },
        _ => {},
    }
}

/// Name-index validity survives growing the namespace.
pub proof fn lemma_expr_names_ok_mono(e: RunExpr, n: int, m: int)
    requires
        expr_names_ok(e, n),
        n <= m,
    ensures
        expr_names_ok(e, m),
    decreases e,
{
    match e {
        Expr::Op { left, op, right } => {
            lemma_expr_names_ok_mono(*left, n, m);
            lemma_expr_names_ok_mono(*right, n, m);
        },
        Expr::CmpOp { left, op, right } => {
            lemma_expr_names_ok_mono(*left, n, m);
            lemma_expr_names_ok_mono(*right, n, m);
        },
        Expr::Call { func, args, kwargs } => {
            assert forall|k: int| 0 <= k < args@.len() implies expr_names_ok(
                #[trigger] args@[k],
                m,
            ) by {
                lemma_expr_names_ok_mono(args@[k], n, m);
            }
            assert forall|k: int| 0 <= k < kwargs@.len() implies expr_names_ok(
                #[trigger] kwargs@[k].1,
                m,
            ) by {
                lemma_expr_names_ok_mono(kwargs@[k].1, n, m);
            }
        },
        Expr::List(elems) => {
            assert forall|k: int| 0 <= k < elems@.len() implies expr_names_ok(
                #[trigger] elems@[k],
                m,
            ) by {
                lemma_expr_names_ok_mono(elems@[k], n, m);
            }
        },
        _ => {},
    }
}

/// Name-index validity of a statement survives growing the namespace.
pub proof fn lemma_node_names_ok_mono(nd: RunNode, n: int, m: int)
    requires
        node_names_ok(nd, n),
        n <= m,
    ensures
        node_names_ok(nd, m),
    decreases nd,
{
    match nd {
        Node::Expr(e) => {
            lemma_expr_names_ok_mono(e, n, m);
        },
        Node::Assign { target, object } => {
            lemma_expr_names_ok_mono(*object, n, m);
        },
        Node::OpAssign { target, op, object } => {
            lemma_expr_names_ok_mono(*object, n, m);
        },
        Node::For { target, iter, body, or_else } => {
            lemma_expr_names_ok_mono(iter, n, m);
            assert forall|k: int| 0 <= k < body@.len() implies node_names_ok(
                (#[trigger] body@[k]).node,
                m,
            ) by {
                lemma_node_names_ok_mono(body@[k].node, n, m);
            }
            assert forall|k: int| 0 <= k < or_else@.len() implies node_names_ok(
                (#[trigger] or_else@[k]).node,
                m,
            ) by {
                lemma_node_names_ok_mono(or_else@[k].node, n, m);
            }
        },
        Node::If { test, body, or_else } => {
            lemma_expr_names_ok_mono(test, n, m);
            assert forall|k: int| 0 <= k < body@.len() implies node_names_ok(
                (#[trigger] body@[k]).node,
                m,
            ) by {
                lemma_node_names_ok_mono(body@[k].node, n, m);
            }
            assert forall|k: int| 0 <= k < or_else@.len() implies node_names_ok(
                (#[trigger] or_else@[k]).node,
                m,
            ) by {
                lemma_node_names_ok_mono(or_else@[k].node, n, m);
            }
        },
        _ => {},
    }
}

} // verus!
