//! From a syntax tree to the intermediate form.
pub mod ast;
pub mod compiler;
pub mod context;
pub mod error;
pub mod frame;
pub mod laws;
pub mod scoping;
pub mod lowering;
