//! A resolution engine for interface-bound ("trait") obligations: given a
//! program of interface and implementation declarations, it decides whether a
//! goal is provable, and whether the proof is unique or ambiguous.
//!
//! Proof search is offered by two interchangeable strategies: a depth-bounded
//! recursive solver with an optional memoizing answer cache, and a tabling
//! solver that builds a forest of answer tables bounded by a size limit.

pub mod ir;
pub mod canonical;
pub mod laws;
pub mod program;
pub mod recursive;
pub mod slg;
pub mod solve;
pub mod subst;
pub mod unify;
