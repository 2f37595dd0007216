//! Adaptive Gauss-Kronrod quadrature: the decision core.
//!
//! The engine in this crate works on IEEE-754 doubles represented by their
//! bit patterns (`u64`). Everything that is a *decision* - comparing numbers,
//! ordering the interval heap, keeping the heap and the result cache in step,
//! validating tolerances, clamping the rule key, counting evaluations and
//! subintervals, choosing between success and the failure states - is
//! verified here. The floating-point *arithmetic* (evaluating the
//! Gauss-Kronrod rules, summing accumulators, taking norms) cannot be
//! expressed in the verifier and is performed by the caller, who feeds each
//! computed quantity back to the engine as bits.

pub mod dbits;
pub mod engine;
pub mod rules;
pub mod result;
pub mod store;
