//! A tree-walking interpreter for a small dynamically typed language.
//!
//! - `ast`: the program tree and its mathematical view.
//! - `heap`: the arena that owns every runtime value, with interned literals.
//! - `semantics`: the meaning of programs, as spec functions.
//! - `operators`, `text`: built-in integer operators and printed text.
//! - `interpreter`: the evaluator, proved to follow `semantics`.
//! - `laws`: properties of the language, proved from `semantics`.
//! - `direct`: a smaller evaluator over plain values, without a heap.
pub mod heap;
pub mod ast;
pub mod semantics;
pub mod operators;
pub mod text;
pub mod interpreter;
pub mod laws;
pub mod direct;
