//! Epilang: a small dynamically typed expression language.
//!
//! A program text is split into tokens by [`lexer::tokenize`] and read as a
//! syntax tree by [`parser::parse`]. [`compiler::compiler::compile`] lowers
//! the tree into an [`intermediate::exp::Exp`], in which every variable is a
//! numbered slot of its function's frame and every class is a number, and
//! [`runtime::executor::evaluate`] runs that expression against a
//! [`runtime::module::Module`]. [`program::run_program`] does all of it,
//! against a compiler context and a module that last from one program to
//! the next.
//!
//! What each step computes is defined as a mathematical function:
//! [`lexer::lex`], [`grammar::program`], [`compiler::lowering::lower`] and
//! [`runtime::semantics::eval`]. The executable functions are proved to
//! compute exactly those.
pub mod compiler;
pub mod grammar;
pub mod intermediate;
pub mod lexer;
pub mod lookup;
pub mod parser;
pub mod program;
pub mod runtime;
pub mod token;
