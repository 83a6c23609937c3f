//! Values, the heap they live in, and the evaluator.
pub mod classes;
pub mod error;
pub mod executor;
pub mod function;
pub mod laws;
pub mod module;
pub mod operations;
pub mod pointer;
pub mod scoping;
pub mod semantics;
pub mod text;
pub mod value;
