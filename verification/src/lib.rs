//! Memoizing resolution core for a goal-directed obligation solver.
//!
//! The library provides the primitives a tabled search driver builds one
//! sound resolution step from: a canonical (de-Bruijn-normalized) term
//! model, a structural invalidation checker over canonical substitutions,
//! a truncation gate that bounds term growth, the inference-table-backed
//! unification / canonicalization / resolvent operations, and the
//! forest-wide registry mapping each canonical goal to a stable memo
//! handle.

pub mod term;
pub mod invalidate;
pub mod key;
pub mod tables;
pub mod truncate;
pub mod rewrite;
pub mod infer;
pub mod canonical;
pub mod slg;
pub mod resolvent;
