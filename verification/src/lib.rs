//! Monty: the core runtime of a sandboxed interpreter for a small
//! Python-like language.
//!
//! The crate covers the value/heap subsystem (a reference-counted arena
//! with lazy hash caching), the dispatch contract over heap-resident
//! types, the exception model, the print sink, resource tracking, the
//! frame executor that drives a prepared program, and the prepare stage
//! that resolves names to local slots.  The surface-language parser is
//! an external collaborator: it delivers prepared nodes to this crate.

pub mod args;
pub mod builtins;
pub mod exceptions;
pub mod fmt;
pub mod hash;
pub mod heap;
pub mod heap_ops;
pub mod index;
pub mod io;
pub mod operators;
pub mod ops;
pub mod parse_error;
pub mod prepare;
pub mod program;
pub mod pydata;
pub mod render;
pub mod resource;
pub mod value;
pub mod vm;
