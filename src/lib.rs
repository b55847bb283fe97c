//! An interaction-combinator runtime: a graph-rewriting evaluator that reduces
//! closed interaction nets to normal form.
//!
//! - `ptr`: tagged 32-bit pointers and their predicates.
//! - `heap`: the slot array that holds the nodes' aux ports.
//! - `book`: definitions (closed net templates) by id, and the native hook.
//! - `rules`: the mathematical model of a net and of each rewrite rule.
//! - `net`: the net itself, the rewrite rules, the dispatcher and the
//!   normaliser, each proved against the model.
//! - `laws`: laws of the rewrite system.
pub mod book;
pub mod heap;
pub mod laws;
pub mod net;
pub mod ptr;
pub mod rules;
