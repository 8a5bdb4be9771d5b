//! The tagged value type that every operation of the runtime returns.
//!
//! Immediates (`PyNone`, `Bool`, `Int`) carry their payload directly and
//! have no destructor.  `Ref` is an owning handle into the heap arena:
//! each live copy of a `Ref` stands for one unit of reference count on
//! its target slot, so copies must go through `clone_with_heap` and
//! drops through `drop_with_heap`.

use vstd::prelude::*;

use crate::builtins::Builtins;

verus! {

/// Identifier of a slot in the heap arena.  Identifiers are reused once
/// a slot has been freed.
pub type HeapId = usize;

/// A runtime value: either an immediate, a statically known builtin
/// callable, or an owning reference into the heap.
///
/// `Undefined` is the sentinel held by a local slot that has not been
/// assigned yet; reading it raises `NameError`.
#[derive(Clone, Copy, Debug, PartialEq, Eq, Structural)]
pub enum Value {
    PyNone,
    Undefined,
    Bool(bool),
    Int(i64),
    Builtin(Builtins),
    Ref(HeapId),
}

impl Value {
    /// True when the value is an owning heap reference.
    pub open spec fn spec_is_ref(self) -> bool {
        self is Ref
    }

    /// The heap slot a `Ref` points at (arbitrary for other variants).
    pub open spec fn spec_ref_id(self) -> HeapId {
        self->Ref_0
    }
}

/// A constant as delivered by the prepare stage, and the argument type
/// of exceptions.  Constants never reference the heap.
#[derive(Clone, Debug)]
pub enum Const {
    PyNone,
    Bool(bool),
    Int(i64),
    Str(String),
}

} // verus!
