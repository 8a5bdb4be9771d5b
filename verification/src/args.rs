//! Argument passing for builtin calls: a small discriminated type
//! with specialised one- and two-argument shapes, so that small calls
//! need no vector allocation.

use vstd::prelude::*;

use crate::exceptions::{simple_exc_string, spec_simple_exc, ExcType, RunError};
use crate::fmt::{append_nat, spec_nat_str};
use crate::heap::Heap;
use crate::ops::{drop_value, drop_values, releases_only};
use crate::value::Value;

verus! {

/// The arguments of one builtin call.  The values are owned: whoever
/// consumes an `ArgValues` must either hand its values on or release
/// them.
pub enum ArgValues {
    Empty,
    One(Value),
    Two(Value, Value),
    ArgsKargs { args: Vec<Value>, kwargs: Vec<(String, Value)> },
}

impl ArgValues {
    /// The positional arguments, in order.
    pub open spec fn spec_args(self) -> Seq<Value> {
        match self {
            ArgValues::Empty => Seq::empty(),
            ArgValues::One(v) => seq![v],
            ArgValues::Two(a, b) => seq![a, b],
            ArgValues::ArgsKargs { args, kwargs } => args@,
        }
    }

    /// The keyword arguments, in order.
    pub open spec fn spec_kwargs(self) -> Seq<(String, Value)> {
        match self {
            ArgValues::ArgsKargs { args, kwargs } => kwargs@,
            _ => Seq::empty(),
        }
    }

    /// The message of the arity error `name() takes exactly N
    /// argument(s) (M given)`.
    pub open spec fn spec_arity_msg(name: Seq<char>, want: nat, got: nat) -> Seq<char> {
        name + "() takes exactly "@ + spec_nat_str(want) + " argument"@ + (if want == 1 {
            Seq::<char>::empty()
        } else {
            seq!['s']
        }) + " ("@ + spec_nat_str(got) + " given)"@
    }

    /// Takes the single positional argument of a call that allows
    /// exactly one and no keywords; otherwise releases every owned
    /// value and reports the arity `TypeError`.
    pub fn get_one_arg(self, name: &str, heap: &mut Heap) -> (r: Result<Value, RunError>)
        requires
            old(heap).wf(),
        ensures
            final(heap).wf(),
            releases_only(*old(heap), *final(heap)),
            (self.spec_args().len() == 1 && self.spec_kwargs().len() == 0) ==> r == Ok::<
                Value,
                RunError,
            >(self.spec_args()[0]) && *final(heap) == *old(heap),
            !(self.spec_args().len() == 1 && self.spec_kwargs().len() == 0) ==> (r matches Err(e)
                && spec_simple_exc(
                e,
                ExcType::TypeError,
                ArgValues::spec_arity_msg(name@, 1, self.spec_args().len() as nat),
            )),
    {
        match self {
            ArgValues::One(v) => {
                proof {
                    assert(heap.free_list@.take(heap.free_list@.len() as int)
                        =~= heap.free_list@);
                }
                Ok(v)
            },
            ArgValues::Empty => {
                proof {
                    crate::ops::lemma_releases_only_refl(*heap);
                }
                Err(arity_error(heap, name, 1, 0))
            },
            ArgValues::Two(a, b) => {
                drop_value(heap, &a);
                let ghost mid = *heap;
                drop_value(heap, &b);
                proof {
                    crate::ops::lemma_releases_only_trans(*old(heap), mid, *heap);
                }
                Err(arity_error(heap, name, 1, 2))
            },
            ArgValues::ArgsKargs { args, kwargs } => {
                let n = args.len();
                if n == 1 && kwargs.len() == 0 {
                    let v = args[0];
                    proof {
                        assert(heap.free_list@.take(heap.free_list@.len() as int)
                            =~= heap.free_list@);
                    }
                    Ok(v)
                } else {
                    drop_values(heap, &args);
                    let ghost mid = *heap;
                    drop_kwargs(heap, &kwargs);
                    proof {
                        crate::ops::lemma_releases_only_trans(*old(heap), mid, *heap);
                    }
                    Err(arity_error(heap, name, 1, n))
                }
            },
        }
    }

    /// Takes the two positional arguments of a call that requires
    /// exactly two and no keywords; otherwise releases every owned
    /// value and reports the arity `TypeError`.
    pub fn get_two_args(self, name: &str, heap: &mut Heap) -> (r: Result<(Value, Value), RunError>)
        requires
            old(heap).wf(),
        ensures
            final(heap).wf(),
            releases_only(*old(heap), *final(heap)),
            (self.spec_args().len() == 2 && self.spec_kwargs().len() == 0) ==> r == Ok::<
                (Value, Value),
                RunError,
            >((self.spec_args()[0], self.spec_args()[1])) && *final(heap) == *old(heap),
            !(self.spec_args().len() == 2 && self.spec_kwargs().len() == 0) ==> (r matches Err(e)
                && spec_simple_exc(
                e,
                ExcType::TypeError,
                ArgValues::spec_arity_msg(name@, 2, self.spec_args().len() as nat),
            )),
    {
        match self {
            ArgValues::Two(a, b) => {
                proof {
                    assert(heap.free_list@.take(heap.free_list@.len() as int)
                        =~= heap.free_list@);
                }
                Ok((a, b))
            },
            ArgValues::Empty => {
                proof {
                    crate::ops::lemma_releases_only_refl(*heap);
                }
                Err(arity_error(heap, name, 2, 0))
            },
            ArgValues::One(v) => {
                drop_value(heap, &v);
                Err(arity_error(heap, name, 2, 1))
            },
            ArgValues::ArgsKargs { args, kwargs } => {
                let n = args.len();
                if n == 2 && kwargs.len() == 0 {
                    let a = args[0];
                    let b = args[1];
                    proof {
                        assert(heap.free_list@.take(heap.free_list@.len() as int)
                            =~= heap.free_list@);
                    }
                    Ok((a, b))
                } else {
                    drop_values(heap, &args);
                    let ghost mid = *heap;
                    drop_kwargs(heap, &kwargs);
                    proof {
                        crate::ops::lemma_releases_only_trans(*old(heap), mid, *heap);
                    }
                    Err(arity_error(heap, name, 2, n))
                }
            },
        }
    }

    /// Takes one required and one optional positional argument (no
    /// keywords); otherwise releases every owned value and reports
    /// the arity `TypeError` (phrased for the required count).
    pub fn get_one_two_args(self, name: &str, heap: &mut Heap) -> (r: Result<
        (Value, Option<Value>),
        RunError,
    >)
        requires
            old(heap).wf(),
        ensures
            final(heap).wf(),
            releases_only(*old(heap), *final(heap)),
            (self.spec_args().len() == 1 && self.spec_kwargs().len() == 0) ==> r == Ok::<
                (Value, Option<Value>),
                RunError,
            >((self.spec_args()[0], None)) && *final(heap) == *old(heap),
            (self.spec_args().len() == 2 && self.spec_kwargs().len() == 0) ==> r == Ok::<
                (Value, Option<Value>),
                RunError,
            >((self.spec_args()[0], Some(self.spec_args()[1]))) && *final(heap) == *old(heap),
            !(1 <= self.spec_args().len() <= 2 && self.spec_kwargs().len() == 0) ==> (r matches
                Err(e) && spec_simple_exc(
                e,
                ExcType::TypeError,
                ArgValues::spec_arity_msg(name@, 1, self.spec_args().len() as nat),
            )),
    {
        match self {
            ArgValues::One(v) => {
                proof {
                    assert(heap.free_list@.take(heap.free_list@.len() as int)
                        =~= heap.free_list@);
                }
                Ok((v, None))
            },
            ArgValues::Two(a, b) => {
                proof {
                    assert(heap.free_list@.take(heap.free_list@.len() as int)
                        =~= heap.free_list@);
                }
                Ok((a, Some(b)))
            },
            ArgValues::Empty => {
                proof {
                    crate::ops::lemma_releases_only_refl(*heap);
                }
                Err(arity_error(heap, name, 1, 0))
            },
            ArgValues::ArgsKargs { args, kwargs } => {
                let n = args.len();
                if n >= 1 && n <= 2 && kwargs.len() == 0 {
                    let a = args[0];
                    let second = if n == 2 {
                        Some(args[1])
                    } else {
                        None
                    };
                    proof {
                        assert(heap.free_list@.take(heap.free_list@.len() as int)
                            =~= heap.free_list@);
                    }
                    Ok((a, second))
                } else {
                    drop_values(heap, &args);
                    let ghost mid = *heap;
                    drop_kwargs(heap, &kwargs);
                    proof {
                        crate::ops::lemma_releases_only_trans(*old(heap), mid, *heap);
                    }
                    Err(arity_error(heap, name, 1, n))
                }
            },
        }
    }

    /// Splits the arguments into their positional and keyword parts.
    pub fn into_parts(self) -> (r: (Vec<Value>, Vec<(String, Value)>))
        ensures
            r.0@ == self.spec_args(),
            r.1@ == self.spec_kwargs(),
    {
        match self {
            ArgValues::Empty => {
                let vs: Vec<Value> = Vec::new();
                let ks: Vec<(String, Value)> = Vec::new();
                proof {
                    assert(vs@ =~= self.spec_args());
                }
                (vs, ks)
            },
            ArgValues::One(v) => {
                let mut vs: Vec<Value> = Vec::new();
                vs.push(v);
                let ks: Vec<(String, Value)> = Vec::new();
                proof {
                    assert(vs@ =~= self.spec_args());
                }
                (vs, ks)
            },
            ArgValues::Two(a, b) => {
                let mut vs: Vec<Value> = Vec::new();
                vs.push(a);
                vs.push(b);
                let ks: Vec<(String, Value)> = Vec::new();
                proof {
                    assert(vs@ =~= self.spec_args());
                }
                (vs, ks)
            },
            ArgValues::ArgsKargs { args, kwargs } => (args, kwargs),
        }
    }
}

/// Releases the values of a keyword-argument vector.
pub fn drop_kwargs(heap: &mut Heap, kwargs: &Vec<(String, Value)>)
    requires
        old(heap).wf(),
    ensures
        final(heap).wf(),
        releases_only(*old(heap), *final(heap)),
{
    let n = kwargs.len();
    let mut i: usize = 0;
    proof {
        assert(heap.free_list@.take(heap.free_list@.len() as int) =~= heap.free_list@);
    }
    while i < n
        invariant
            heap.wf(),
            releases_only(*old(heap), *heap),
            i <= n,
            n == kwargs@.len(),
        decreases n - i,
    {
        let ghost mid = *heap;
        drop_value(heap, &kwargs[i].1);
        proof {
            crate::ops::lemma_releases_only_trans(*old(heap), mid, *heap);
        }
        i = i + 1;
    }
}

/// The arity `TypeError` for a builtin call: `name() takes exactly N
/// argument(s) (M given)`.
fn arity_error(heap: &Heap, name: &str, want: u64, got: usize) -> (e: RunError)
    requires
        want == 1 || want == 2,
    ensures
        spec_simple_exc(
            e,
            ExcType::TypeError,
            ArgValues::spec_arity_msg(name@, want as nat, got as nat),
        ),
{
    let mut msg = String::new();
    msg.append(name);
    msg.append("() takes exactly ");
    append_nat(&mut msg, want);
    msg.append(" argument");
    if want != 1 {
        msg.append("s");
    }
    msg.append(" (");
    append_nat(&mut msg, got as u64);
    msg.append(" given)");
    proof {
        reveal_strlit("s");
        assert(msg@ =~= ArgValues::spec_arity_msg(name@, want as nat, got as nat));
    }
    simple_exc_string(ExcType::TypeError, msg)
}

} // verus!
