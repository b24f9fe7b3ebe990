//! Differentiable provenance for a probabilistic logic engine.
//!
//! Derived facts carry symbolic proofs (disjunctive-normal-form formulas over
//! probabilistic input facts, bounded to the top-k clauses by estimated
//! weight).  A proof is evaluated into a probability, and differentiated into
//! a gradient with respect to every contributing fact, by folding it through
//! a semiring.  Probabilities are fixed-point integers scaled by
//! [`fixed::UNIT`], so every step of the algebra is deterministic integer arithmetic.

pub mod aggregate;
pub mod disjunctions;
pub mod dual;
pub mod eval;
pub mod fixed;
pub mod formula;
pub mod laws;
pub mod provenance;
pub mod topk;
pub mod value;
