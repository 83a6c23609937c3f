//! The intermediate form shared by the compiler and the evaluator.
pub mod constant;
pub mod exp;
pub mod opcode;
pub mod scoping;
