//! A compiler for a small functional core calculus: variables, application,
//! lambda, a non-recursive `let`, a conditional, and literals through which
//! the primitive operators enter.
//!
//! An expression is compiled to an intermediate representation in SSA form
//! in which every value is a heap object with a reference count. The
//! compiler places the retains and releases itself, so that every object is
//! freed exactly once and no collector is needed.
//!
//! - `ast`, `names`, `parser`: the expression tree, its free variables, and
//!   the source language.
//! - `ir`, `types`: the intermediate representation and the object layouts.
//! - `state`, `emission`: what emission does, as mathematics: the state of a
//!   compilation and the code that each form of expression adds to it.
//! - `scope`, `context`, `allocation`, `builtin`, `generator`, `runtime`:
//!   the compiler, proved to emit exactly that code.
//! - `text`, `backend`: the module as text, and the check of it by LLVM.
//! - `machine`: a machine that runs a module.
//! - `runner`: the whole way from a source text to the integer it denotes.

pub mod allocation;
pub mod ast;
pub mod backend;
pub mod builtin;
pub mod context;
pub mod emission;
pub mod generator;
pub mod ir;
pub mod machine;
pub mod names;
pub mod parser;
pub mod runner;
pub mod runtime;
pub mod scope;
pub mod state;
pub mod text;
pub mod types;
