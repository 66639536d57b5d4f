//! The statement-level passes of the minifier's pure optimizer: dead-branch
//! pruning, removal of unreachable statements, inlining of useless blocks,
//! `return void` rewriting at the end of functions, and `debugger` removal,
//! with the visitor state they run in.
mod outside;
mod seq_facts;

pub mod ast;
pub mod ctx;
pub mod eval;
pub mod dead_code;
pub mod pure;
pub mod laws;
