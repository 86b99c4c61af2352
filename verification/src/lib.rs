//! The runtime value model of a compiled dynamically-typed language:
//! a closed tagged union over numbers, strings, booleans, shared
//! mutable lists, immutable tuples, callables, classes, object
//! instances, opaque stream handles and the absence-of-value sentinel,
//! together with the operator, comparison, attribute-access, call and
//! rendering semantics that reproduce the source language's
//! dynamic-typing rules inside a statically-typed host.
//!
//! Lists and objects have reference semantics: their payloads live in a
//! [`heap::Heap`] and values carry handles, so every binding holding
//! the same handle observes the same mutation. Type-mismatched
//! operations are fatal contract violations of the emitting code; they
//! are excluded by preconditions, and the verified operations never
//! fail.

pub mod cmp;
pub mod float;
pub mod heap;
pub mod laws;
pub mod numeric;
pub mod objects;
pub mod ops;
pub mod render;
pub mod seq_ops;
pub mod table;
pub mod value;
