//! Computes which build outputs of a distribution graph changed between two
//! evaluator runs: a listing parser, a before/after diff session, and the
//! evaluator-invocation lifecycle (helper script placed, evaluator run,
//! helper script removed).

pub mod diff;
pub mod listing;
pub mod model;
pub mod outpaths;
pub mod parse;
