//! The prepare stage: turns parsed nodes, whose names are text, into
//! runnable nodes whose names are local-slot indices and whose call
//! targets are resolved builtins.
//!
//! Name resolution uses a hash map from the `ahash` crate, reached
//! through trusted wrappers whose contracts speak of the map's
//! contents.

use vstd::prelude::*;

use crate::builtins::Builtins;
use crate::program::{expr_calls_known, expr_names_ok, expr_resolved_wrt,
    lemma_expr_names_ok_mono, lemma_expr_resolved_mono, lemma_map_le_trans,
    lemma_node_names_ok_mono, lemma_node_resolved_mono, map_le, node_calls_known, node_names_ok,
    node_resolved_wrt, Expr, Node, RunExpr, RunNode, RunStmt, SourceExpr, SourceNode, SourceStmt,
    Stmt};
use crate::value::Value;

verus! {

/// The map from names to slot indices that the prepare stage keeps.
pub type NameMap = ahash::AHashMap<String, usize>;

/// The contents of a name map: which index each name is bound to.
pub uninterp spec fn name_map_contents(m: NameMap) -> Map<Seq<char>, usize>;

#[verifier::external_type_specification]
#[verifier::external_body]
pub struct ExAHashRandomState(ahash::RandomState);

#[verifier::external_type_specification]
#[verifier::external_body]
#[verifier::reject_recursive_types(K)]
#[verifier::reject_recursive_types(V)]
#[verifier::reject_recursive_types(S)]
pub struct ExAHashMap<K, V, S>(ahash::AHashMap<K, V, S>);

/// Relies on ahash::AHashMap::with_capacity: a freshly created map
/// holds no bindings.
#[verifier::external_body]
fn name_map_with_capacity(capacity: usize) -> (m: NameMap)
    ensures
        name_map_contents(m).dom() == Set::<Seq<char>>::empty(),
{
    ahash::AHashMap::with_capacity(capacity)
}

/// Relies on ahash::AHashMap::get: returns the value bound to the
/// key, by string equality.
#[verifier::external_body]
fn name_map_get(m: &NameMap, k: &String) -> (r: Option<usize>)
    ensures
        r == (if name_map_contents(*m).dom().contains(k@) {
            Some(name_map_contents(*m)[k@])
        } else {
            None::<usize>
        }),
{
    m.get(k).copied()
}

/// Relies on ahash::AHashMap::insert: binds the key to the value,
/// replacing any previous binding for an equal key.
#[verifier::external_body]
fn name_map_insert(m: &mut NameMap, k: String, v: usize)
    ensures
        name_map_contents(*final(m)) == name_map_contents(*old(m)).insert(k@, v),
{
    m.insert(k, v);
}

/// Whether the given names are pairwise distinct (by their text).
pub open spec fn spec_names_distinct(names: Seq<String>) -> bool {
    forall|j: int, k: int| 0 <= j < k < names.len() ==> (#[trigger] names[j])@ != (
    #[trigger] names[k])@
}

/// The slot binding that distinct input names receive: each name is
/// bound to its position in the list.  An embedder that stores input
/// values positionally can rely on a resolved `Name` node for the
/// k-th input reading slot k.
pub open spec fn spec_input_binding(names: Seq<String>) -> Map<Seq<char>, usize> {
    Map::new(
        |nm: Seq<char>| exists|k: int| 0 <= k < names.len() && (#[trigger] names[k])@ == nm,
        |nm: Seq<char>|
            (choose|k: int| 0 <= k < names.len() && (#[trigger] names[k])@ == nm) as usize,
    )
}

/// The working state of the prepare stage: the name-to-slot map and
/// the namespace it sizes.
struct Prepare {
    name_map: NameMap,
    namespace: Vec<Value>,
}

impl Prepare {
    /// Every bound name points into the namespace, and every
    /// namespace slot starts undefined.
    spec fn wf(self) -> bool {
        &&& forall|n: Seq<char>|
            name_map_contents(self.name_map).dom().contains(n)
                ==> #[trigger] name_map_contents(self.name_map)[n] < self.namespace@.len()
        &&& forall|j: int|
            0 <= j < self.namespace@.len() ==> self.namespace@[j] == Value::Undefined
    }

    /// A fresh state with one slot per distinct input name (the first
    /// occurrence of a repeated name wins).  Distinct input names
    /// occupy slots 0 up to their count, in their given order, so an
    /// embedder can bind input values positionally.
    fn new(capacity: usize, input_names: &Vec<String>) -> (p: Prepare)
        ensures
            p.wf(),
            spec_names_distinct(input_names@) ==> p.namespace@.len() == input_names@.len() && (
            forall|k: int|
                0 <= k < input_names@.len() ==> name_map_contents(p.name_map).dom().contains(
                    (#[trigger] input_names@[k])@,
                ) && name_map_contents(p.name_map)[input_names@[k]@] == k),
    {
        let mut p = Prepare {
            name_map: name_map_with_capacity(capacity),
            namespace: Vec::new(),
        };
        let n = input_names.len();
        let mut i: usize = 0;
        while i < n
            invariant
                p.wf(),
                n == input_names@.len(),
                i <= n,
                spec_names_distinct(input_names@) ==> p.namespace@.len() == i as int && (forall|
                    k: int,
                |
                    0 <= k < i ==> name_map_contents(p.name_map).dom().contains(
                        (#[trigger] input_names@[k])@,
                    ) && name_map_contents(p.name_map)[input_names@[k]@] == k) && (forall|
                    nm: Seq<char>,
                |
                    name_map_contents(p.name_map).dom().contains(nm) ==> (exists|k: int|
                        0 <= k < i && (#[trigger] input_names@[k])@ == nm)),
            decreases n - i,
        {
            proof {
                if spec_names_distinct(input_names@) {
                    if name_map_contents(p.name_map).dom().contains(input_names@[i as int]@) {
                        let k0 = choose|k: int|
                            0 <= k < i && (#[trigger] input_names@[k])@ == input_names@[
                            i as int]@;
                        assert(false);
                    }
                }
            }
            let _ = p.get_id(&input_names[i]);
            i = i + 1;
        }
        p
    }

    /// The slot index of a name, allocating a fresh slot for a name
    /// not seen before.
    fn get_id(&mut self, name: &String) -> (r: usize)
        requires
            old(self).wf(),
        ensures
            final(self).wf(),
            r < final(self).namespace@.len(),
            name_map_contents(final(self).name_map).dom().contains(name@),
            name_map_contents(final(self).name_map)[name@] == r,
            // Known names resolve without any change.
            name_map_contents(old(self).name_map).dom().contains(name@) ==> *final(self) == *old(
                self,
            ) && r == name_map_contents(old(self).name_map)[name@],
            // New names get the next slot.
            !name_map_contents(old(self).name_map).dom().contains(name@) ==> r == old(
                self,
            ).namespace@.len() && name_map_contents(final(self).name_map) == name_map_contents(
                old(self).name_map,
            ).insert(name@, r) && final(self).namespace@ == old(self).namespace@.push(
                Value::Undefined,
            ),
            final(self).namespace@.len() >= old(self).namespace@.len(),
            // Existing bindings keep their slots.
            map_le(
                name_map_contents(old(self).name_map),
                name_map_contents(final(self).name_map),
            ),
    {
        match name_map_get(&self.name_map, name) {
            Some(i) => i,
            None => {
                let id = self.namespace.len();
                name_map_insert(&mut self.name_map, name.clone(), id);
                self.namespace.push(Value::Undefined);
                id
            },
        }
    }

    /// Resolves one expression.
    #[verifier::loop_isolation(false)]
    fn prepare_expression(&mut self, expr: &SourceExpr) -> (r: Result<RunExpr, String>)
        requires
            old(self).wf(),
        ensures
            final(self).wf(),
            final(self).namespace@.len() >= old(self).namespace@.len(),
            r matches Ok(e2) ==> expr_names_ok(e2, final(self).namespace@.len() as int),
            r is Ok <==> expr_calls_known(*expr),
            map_le(
                name_map_contents(old(self).name_map),
                name_map_contents(final(self).name_map),
            ),
            r matches Ok(e2) ==> expr_resolved_wrt(
                *expr,
                e2,
                name_map_contents(old(self).name_map),
            ),
        decreases *expr,
    {
        match expr {
            Expr::Constant(c) => Ok(Expr::Constant(crate::pydata::clone_const(c))),
            Expr::Name(name) => Ok(Expr::Name(self.get_id(name))),
            Expr::Op { left, op, right } => {
                let l = match self.prepare_expression(left) {
                    Ok(e) => e,
                    Err(e) => {
                        return Err(e);
                    },
                };
                let ghost n1 = self.namespace@.len() as int;
                let ghost m1 = name_map_contents(self.name_map);
                let rr = match self.prepare_expression(right) {
                    Ok(e) => e,
                    Err(e) => {
                        return Err(e);
                    },
                };
                proof {
                    lemma_expr_names_ok_mono(l, n1, self.namespace@.len() as int);
                    lemma_expr_resolved_mono(
                        **right,
                        rr,
                        name_map_contents(old(self).name_map),
                        m1,
                    );
                }
                Ok(Expr::Op { left: Box::new(l), op: *op, right: Box::new(rr) })
            },
            Expr::CmpOp { left, op, right } => {
                let l = match self.prepare_expression(left) {
                    Ok(e) => e,
                    Err(e) => {
                        return Err(e);
                    },
                };
                let ghost n1 = self.namespace@.len() as int;
                let ghost m1 = name_map_contents(self.name_map);
                let rr = match self.prepare_expression(right) {
                    Ok(e) => e,
                    Err(e) => {
                        return Err(e);
                    },
                };
                proof {
                    lemma_expr_names_ok_mono(l, n1, self.namespace@.len() as int);
                    lemma_expr_resolved_mono(
                        **right,
                        rr,
                        name_map_contents(old(self).name_map),
                        m1,
                    );
                }
                Ok(Expr::CmpOp { left: Box::new(l), op: *op, right: Box::new(rr) })
            },
            Expr::Call { func, args, kwargs } => {
                let b = match Builtins::find(func) {
                    Some(b) => b,
                    None => {
                        let mut msg = String::new();
                        msg.append("unknown function '");
                        msg.append(func.as_str());
                        msg.append("'");
                        return Err(msg);
                    },
                };
                let mut new_args: Vec<RunExpr> = Vec::new();
                let n = args.len();
                let mut i: usize = 0;
                while i < n
                    invariant
                        self.wf(),
                        self.namespace@.len() >= old(self).namespace@.len(),
                        map_le(
                            name_map_contents(old(self).name_map),
                            name_map_contents(self.name_map),
                        ),
                        n == args@.len(),
                        i <= n,
                        new_args@.len() == i as int,
                        forall|j: int|
                            0 <= j < new_args@.len() ==> expr_names_ok(
                                #[trigger] new_args@[j],
                                self.namespace@.len() as int,
                            ),
                        forall|j: int|
                            0 <= j < i ==> expr_resolved_wrt(
                                #[trigger] args@[j],
                                new_args@[j],
                                name_map_contents(old(self).name_map),
                            ),
                        forall|j: int| 0 <= j < i ==> expr_calls_known(#[trigger] args@[j]),
                    decreases n - i,
                {
                    let ghost n1 = self.namespace@.len() as int;
                    let ghost m1 = name_map_contents(self.name_map);
                    match self.prepare_expression(&args[i]) {
                        Ok(e) => {
                            proof {
                                assert forall|j: int| 0 <= j < new_args@.len() implies
                                    expr_names_ok(
                                    #[trigger] new_args@[j],
                                    self.namespace@.len() as int,
                                ) by {
                                    lemma_expr_names_ok_mono(
                                        new_args@[j],
                                        n1,
                                        self.namespace@.len() as int,
                                    );
                                }
                                lemma_expr_resolved_mono(
                                    args@[i as int],
                                    e,
                                    name_map_contents(old(self).name_map),
                                    m1,
                                );
                            }
                            new_args.push(e);
                        },
                        Err(e) => {
                            return Err(e);
                        },
                    }
                    i = i + 1;
                }
                let mut new_kwargs: Vec<(Option<String>, RunExpr)> = Vec::new();
                let nk = kwargs.len();
                let mut k: usize = 0;
                while k < nk
                    invariant
                        self.wf(),
                        self.namespace@.len() >= old(self).namespace@.len(),
                        map_le(
                            name_map_contents(old(self).name_map),
                            name_map_contents(self.name_map),
                        ),
                        nk == kwargs@.len(),
                        k <= nk,
                        n == args@.len(),
                        new_args@.len() == n as int,
                        new_kwargs@.len() == k as int,
                        forall|j: int| 0 <= j < k ==> expr_calls_known(#[trigger] kwargs@[j].1),
                        forall|j: int|
                            0 <= j < new_args@.len() ==> expr_names_ok(
                                #[trigger] new_args@[j],
                                self.namespace@.len() as int,
                            ),
                        forall|j: int|
                            0 <= j < new_kwargs@.len() ==> expr_names_ok(
                                (#[trigger] new_kwargs@[j]).1,
                                self.namespace@.len() as int,
                            ),
                        forall|j: int|
                            0 <= j < n ==> expr_resolved_wrt(
                                #[trigger] args@[j],
                                new_args@[j],
                                name_map_contents(old(self).name_map),
                            ),
                        forall|j: int|
                            0 <= j < k ==> crate::program::kw_key_eqv(
                                (#[trigger] new_kwargs@[j]).0,
                                kwargs@[j].0,
                            ) && expr_resolved_wrt(
                                kwargs@[j].1,
                                new_kwargs@[j].1,
                                name_map_contents(old(self).name_map),
                            ),
                    decreases nk - k,
                {
                    let ghost n1 = self.namespace@.len() as int;
                    let ghost m1 = name_map_contents(self.name_map);
                    match self.prepare_expression(&kwargs[k].1) {
                        Ok(e) => {
                            proof {
                                assert forall|j: int| 0 <= j < new_args@.len() implies
                                    expr_names_ok(
                                    #[trigger] new_args@[j],
                                    self.namespace@.len() as int,
                                ) by {
                                    lemma_expr_names_ok_mono(
                                        new_args@[j],
                                        n1,
                                        self.namespace@.len() as int,
                                    );
                                }
                                assert forall|j: int| 0 <= j < new_kwargs@.len() implies
                                    expr_names_ok(
                                    (#[trigger] new_kwargs@[j]).1,
                                    self.namespace@.len() as int,
                                ) by {
                                    lemma_expr_names_ok_mono(
                                        new_kwargs@[j].1,
                                        n1,
                                        self.namespace@.len() as int,
                                    );
                                }
                            }
                            proof {
                                lemma_expr_resolved_mono(
                                    kwargs@[k as int].1,
                                    e,
                                    name_map_contents(old(self).name_map),
                                    m1,
                                );
                            }
                            let key = match &kwargs[k].0 {
                                Some(s) => Some(s.clone()),
                                None => None,
                            };
                            new_kwargs.push((key, e));
                        },
                        Err(e) => {
                            proof {
                                lemma_map_le_trans(
                                    name_map_contents(old(self).name_map),
                                    m1,
                                    name_map_contents(self.name_map),
                                );
                            }
                            return Err(e);
                        },
                    }
                    k = k + 1;
                }
                Ok(Expr::Call { func: b, args: new_args, kwargs: new_kwargs })
            },
            Expr::List(elems) => {
                let mut new_elems: Vec<RunExpr> = Vec::new();
                let n = elems.len();
                let mut i: usize = 0;
                while i < n
                    invariant
                        self.wf(),
                        self.namespace@.len() >= old(self).namespace@.len(),
                        map_le(
                            name_map_contents(old(self).name_map),
                            name_map_contents(self.name_map),
                        ),
                        n == elems@.len(),
                        i <= n,
                        new_elems@.len() == i as int,
                        forall|j: int| 0 <= j < i ==> expr_calls_known(#[trigger] elems@[j]),
                        forall|j: int|
                            0 <= j < i ==> expr_resolved_wrt(
                                #[trigger] elems@[j],
                                new_elems@[j],
                                name_map_contents(old(self).name_map),
                            ),
                        forall|j: int|
                            0 <= j < new_elems@.len() ==> expr_names_ok(
                                #[trigger] new_elems@[j],
                                self.namespace@.len() as int,
                            ),
                    decreases n - i,
                {
                    let ghost n1 = self.namespace@.len() as int;
                    let ghost m1 = name_map_contents(self.name_map);
                    match self.prepare_expression(&elems[i]) {
                        Ok(e) => {
                            proof {
                                assert forall|j: int| 0 <= j < new_elems@.len() implies
                                    expr_names_ok(
                                    #[trigger] new_elems@[j],
                                    self.namespace@.len() as int,
                                ) by {
                                    lemma_expr_names_ok_mono(
                                        new_elems@[j],
                                        n1,
                                        self.namespace@.len() as int,
                                    );
                                }
                                lemma_expr_resolved_mono(
                                    elems@[i as int],
                                    e,
                                    name_map_contents(old(self).name_map),
                                    m1,
                                );
                            }
                            new_elems.push(e);
                        },
                        Err(e) => {
                            return Err(e);
                        },
                    }
                    i = i + 1;
                }
                Ok(Expr::List(new_elems))
            },
        }
    }

    /// Resolves a block of statements.
    #[verifier::loop_isolation(false)]
    fn prepare_nodes(&mut self, nodes: &Vec<SourceStmt>) -> (r: Result<Vec<RunStmt>, String>)
        requires
            old(self).wf(),
        ensures
            final(self).wf(),
            final(self).namespace@.len() >= old(self).namespace@.len(),
            r matches Ok(out) ==> (forall|j: int|
                0 <= j < out@.len() ==> node_names_ok(
                    (#[trigger] out@[j]).node,
                    final(self).namespace@.len() as int,
                )),
            r is Ok <==> (forall|j: int|
                0 <= j < nodes@.len() ==> node_calls_known((#[trigger] nodes@[j]).node)),
            map_le(
                name_map_contents(old(self).name_map),
                name_map_contents(final(self).name_map),
            ),
            // With no `Pass` statements the resolved program mirrors
            // the source statement by statement.
            r matches Ok(out) ==> ((forall|j: int|
                0 <= j < nodes@.len() ==> crate::program::spec_no_pass(
                    (#[trigger] nodes@[j]).node,
                )) ==> out@.len() == nodes@.len() && (forall|j: int|
                0 <= j < nodes@.len() ==> node_resolved_wrt(
                    (#[trigger] nodes@[j]).node,
                    out@[j].node,
                    name_map_contents(old(self).name_map),
                ))),
        decreases *nodes,
    {
        let mut out: Vec<RunStmt> = Vec::new();
        let n = nodes.len();
        let mut i: usize = 0;
        while i < n
            invariant
                self.wf(),
                self.namespace@.len() >= old(self).namespace@.len(),
                map_le(
                    name_map_contents(old(self).name_map),
                    name_map_contents(self.name_map),
                ),
                n == nodes@.len(),
                i <= n,
                forall|j: int|
                    0 <= j < out@.len() ==> node_names_ok(
                        (#[trigger] out@[j]).node,
                        self.namespace@.len() as int,
                    ),
                forall|j: int| 0 <= j < i ==> node_calls_known((#[trigger] nodes@[j]).node),
                (forall|j: int|
                    0 <= j < i ==> crate::program::spec_no_pass((#[trigger] nodes@[j]).node))
                    ==> out@.len() == i as int && (forall|j: int|
                    0 <= j < i ==> node_resolved_wrt(
                        (#[trigger] nodes@[j]).node,
                        out@[j].node,
                        name_map_contents(old(self).name_map),
                    )),
            decreases n - i,
        {
            let ghost n1 = self.namespace@.len() as int;
            let ghost m1 = name_map_contents(self.name_map);
            match self.prepare_node(&nodes[i].node) {
                Ok(node) => {
                    proof {
                        assert forall|j: int| 0 <= j < out@.len() implies node_names_ok(
                            (#[trigger] out@[j]).node,
                            self.namespace@.len() as int,
                        ) by {
                            lemma_node_names_ok_mono(out@[j].node, n1, self.namespace@.len() as int);
                        }
                        lemma_map_le_trans(
                            name_map_contents(old(self).name_map),
                            m1,
                            name_map_contents(self.name_map),
                        );
                    }
                    match node {
                        Some(nd) => {
                            proof {
                                if crate::program::spec_no_pass(nodes@[i as int].node) {
                                    lemma_node_resolved_mono(
                                        nodes@[i as int].node,
                                        nd,
                                        name_map_contents(old(self).name_map),
                                        m1,
                                    );
                                }
                            }
                            out.push(Stmt { pos: nodes[i].pos.clone(), node: nd });
                        },
                        None => {},
                    }
                },
                Err(e) => {
                    proof {
                        lemma_map_le_trans(
                            name_map_contents(old(self).name_map),
                            m1,
                            name_map_contents(self.name_map),
                        );
                    }
                    return Err(e);
                },
            }
            i = i + 1;
        }
        Ok(out)
    }

    /// Resolves one statement; `Pass` dissolves to nothing.
    fn prepare_node(&mut self, node: &SourceNode) -> (r: Result<Option<RunNode>, String>)
        requires
            old(self).wf(),
        ensures
            final(self).wf(),
            final(self).namespace@.len() >= old(self).namespace@.len(),
            r matches Ok(Some(nd)) ==> node_names_ok(nd, final(self).namespace@.len() as int),
            r is Ok <==> node_calls_known(*node),
            map_le(
                name_map_contents(old(self).name_map),
                name_map_contents(final(self).name_map),
            ),
            r matches Ok(Some(nd)) ==> (crate::program::spec_no_pass(*node)
                ==> node_resolved_wrt(*node, nd, name_map_contents(old(self).name_map))),
            // `Pass` is the one statement that dissolves.
            r matches Ok(o) ==> (o is None <==> *node is Pass),
        decreases *node,
    {
        match node {
            Node::Pass => Ok(None),
            Node::Expr(e) => {
                match self.prepare_expression(e) {
                    Ok(e2) => Ok(Some(Node::Expr(e2))),
                    Err(e) => Err(e),
                }
            },
            Node::Assign { target, object } => {
                let e2 = match self.prepare_expression(object) {
                    Ok(e2) => e2,
                    Err(e) => {
                        return Err(e);
                    },
                };
                let ghost n1 = self.namespace@.len() as int;
                let t = self.get_id(target);
                proof {
                    lemma_expr_names_ok_mono(e2, n1, self.namespace@.len() as int);
                }
                Ok(Some(Node::Assign { target: t, object: Box::new(e2) }))
            },
            Node::OpAssign { target, op, object } => {
                let t = self.get_id(target);
                let ghost ma = name_map_contents(self.name_map);
                let e2 = match self.prepare_expression(object) {
                    Ok(e2) => e2,
                    Err(e) => {
                        return Err(e);
                    },
                };
                proof {
                    lemma_expr_resolved_mono(
                        **object,
                        e2,
                        name_map_contents(old(self).name_map),
                        ma,
                    );
                }
                Ok(Some(Node::OpAssign { target: t, op: *op, object: Box::new(e2) }))
            },
            Node::For { target, iter, body, or_else } => {
                let t = self.get_id(target);
                let ghost ma = name_map_contents(self.name_map);
                let it = match self.prepare_expression(iter) {
                    Ok(e2) => e2,
                    Err(e) => {
                        return Err(e);
                    },
                };
                let ghost n1 = self.namespace@.len() as int;
                let ghost mb = name_map_contents(self.name_map);
                let b = match self.prepare_nodes(body) {
                    Ok(b) => b,
                    Err(e) => {
                        return Err(e);
                    },
                };
                let ghost n2 = self.namespace@.len() as int;
                let ghost mc = name_map_contents(self.name_map);
                let oe = match self.prepare_nodes(or_else) {
                    Ok(b) => b,
                    Err(e) => {
                        return Err(e);
                    },
                };
                proof {
                    let n3 = self.namespace@.len() as int;
                    lemma_expr_names_ok_mono(it, n1, n3);
                    assert forall|j: int| 0 <= j < b@.len() implies node_names_ok(
                        (#[trigger] b@[j]).node,
                        n3,
                    ) by {
                        lemma_node_names_ok_mono(b@[j].node, n2, n3);
                    }
                    let m0 = name_map_contents(old(self).name_map);
                    lemma_expr_resolved_mono(*iter, it, m0, ma);
                    if crate::program::spec_no_pass(*node) {
                        assert forall|k: int| 0 <= k < body@.len() implies node_resolved_wrt(
                            (#[trigger] body@[k]).node,
                            b@[k].node,
                            m0,
                        ) by {
                            lemma_node_resolved_mono(body@[k].node, b@[k].node, m0, mb);
                        }
                        assert forall|k: int| 0 <= k < or_else@.len() implies node_resolved_wrt(
                            (#[trigger] or_else@[k]).node,
                            oe@[k].node,
                            m0,
                        ) by {
                            lemma_node_resolved_mono(or_else@[k].node, oe@[k].node, m0, mc);
                        }
                    }
                }
                Ok(Some(Node::For { target: t, iter: it, body: b, or_else: oe }))
            },
            Node::If { test, body, or_else } => {
                let tst = match self.prepare_expression(test) {
                    Ok(e2) => e2,
                    Err(e) => {
                        return Err(e);
                    },
                };
                let ghost n1 = self.namespace@.len() as int;
                let ghost mb = name_map_contents(self.name_map);
                let b = match self.prepare_nodes(body) {
                    Ok(b) => b,
                    Err(e) => {
                        return Err(e);
                    },
                };
                let ghost n2 = self.namespace@.len() as int;
                let ghost mc = name_map_contents(self.name_map);
                let oe = match self.prepare_nodes(or_else) {
                    Ok(b) => b,
                    Err(e) => {
                        return Err(e);
                    },
                };
                proof {
                    let n3 = self.namespace@.len() as int;
                    lemma_expr_names_ok_mono(tst, n1, n3);
                    assert forall|j: int| 0 <= j < b@.len() implies node_names_ok(
                        (#[trigger] b@[j]).node,
                        n3,
                    ) by {
                        lemma_node_names_ok_mono(b@[j].node, n2, n3);
                    }
                    let m0 = name_map_contents(old(self).name_map);
                    if crate::program::spec_no_pass(*node) {
                        assert forall|k: int| 0 <= k < body@.len() implies node_resolved_wrt(
                            (#[trigger] body@[k]).node,
                            b@[k].node,
                            m0,
                        ) by {
                            lemma_node_resolved_mono(body@[k].node, b@[k].node, m0, mb);
                        }
                        assert forall|k: int| 0 <= k < or_else@.len() implies node_resolved_wrt(
                            (#[trigger] or_else@[k]).node,
                            oe@[k].node,
                            m0,
                        ) by {
                            lemma_node_resolved_mono(or_else@[k].node, oe@[k].node, m0, mc);
                        }
                    }
                }
                Ok(Some(Node::If { test: tst, body: b, or_else: oe }))
            },
        }
    }
}

/// Prepares a parsed program: resolves names to local-slot indices,
/// call targets to builtins, and sizes the namespace (every slot
/// starting undefined).  An unknown function name is rejected.
pub fn prepare(nodes: &Vec<SourceStmt>, input_names: &Vec<String>) -> (r: Result<
    (Vec<Value>, Vec<RunStmt>),
    String,
>)
    ensures
        r matches Ok(p) ==> {
            // Every slot of the namespace starts undefined...
            &&& (forall|j: int| 0 <= j < p.0@.len() ==> p.0@[j] == Value::Undefined)
            // ...and every name index of the resolved program points
            // into the namespace.
            &&& (forall|j: int|
                0 <= j < p.1@.len() ==> node_names_ok((#[trigger] p.1@[j]).node, p.0@.len() as int))
        },
        // Preparation succeeds exactly when every call target names a
        // known builtin.
        r is Ok <==> (forall|j: int|
            0 <= j < nodes@.len() ==> node_calls_known((#[trigger] nodes@[j]).node)),
        // Distinct input names occupy the first slots, in order, so an
        // embedder binds input values positionally.
        r matches Ok(p) ==> (spec_names_distinct(input_names@) ==> p.0@.len()
            >= input_names@.len()),
        // With distinct input names and no `Pass` statements the
        // resolved program mirrors the source statement by statement,
        // with each input name resolved to its positional slot.
        r matches Ok(p) ==> ((spec_names_distinct(input_names@) && (forall|j: int|
            0 <= j < nodes@.len() ==> crate::program::spec_no_pass((#[trigger] nodes@[j]).node)))
            ==> p.1@.len() == nodes@.len() && (forall|j: int|
            0 <= j < nodes@.len() ==> node_resolved_wrt(
                (#[trigger] nodes@[j]).node,
                p.1@[j].node,
                spec_input_binding(input_names@),
            ))),
{
    let mut p = Prepare::new(nodes.len(), input_names);
    let ghost m0 = name_map_contents(p.name_map);
    proof {
        if spec_names_distinct(input_names@) {
            assert forall|nm: Seq<char>|
                spec_input_binding(input_names@).dom().contains(nm) implies m0.dom().contains(nm)
                && m0[nm] == spec_input_binding(input_names@)[nm] by {
                let k = choose|k: int|
                    0 <= k < input_names@.len() && (#[trigger] input_names@[k])@ == nm;
                assert(m0.dom().contains(input_names@[k]@));
            }
            assert(map_le(spec_input_binding(input_names@), m0));
        }
    }
    match p.prepare_nodes(nodes) {
        Ok(new_nodes) => {
            proof {
                if spec_names_distinct(input_names@) && (forall|j: int|
                    0 <= j < nodes@.len() ==> crate::program::spec_no_pass(
                        (#[trigger] nodes@[j]).node,
                    )) {
                    assert forall|j: int| 0 <= j < nodes@.len() implies node_resolved_wrt(
                        (#[trigger] nodes@[j]).node,
                        new_nodes@[j].node,
                        spec_input_binding(input_names@),
                    ) by {
                        lemma_node_resolved_mono(
                            nodes@[j].node,
                            new_nodes@[j].node,
                            spec_input_binding(input_names@),
                            m0,
                        );
                    }
                }
            }
            Ok((p.namespace, new_nodes))
        },
        Err(e) => Err(e),
    }
}

} // verus!
