//! Result and failure types of the integrators.

use vstd::prelude::*;
use crate::store::IntervalStore;

verus! {

/// Terminal state of one integration.
#[derive(Clone, Copy, Debug, PartialEq, Eq, Structural)]
pub enum ResultState {
    /// The requested accuracy has been reached.
    Success,
    /// An internal invariant (one cache entry per live interval) would have
    /// been broken.
    Failure,
    /// The bound on the number of subintervals was reached first.
    MaxIteration,
    /// Roundoff dominates, or subdivision stagnates: the requested
    /// tolerance cannot be reached.
    BadTolerance,
    /// The tolerance pair lies below the precision floor.
    Invalid,
    /// The integrand behaves extremely badly at some point of the domain.
    BadFunction,
    /// Reserved for divergence detection by extensions.
    Diverge,
}

/// Extra diagnostics of a successful run: the evaluation count, the number
/// of subintervals, and the final heap with its cache.
pub struct MoreInfoVec {
    pub neval: i32,
    pub last: usize,
    pub store: IntervalStore,
}

impl MoreInfoVec {
    /// Packs the diagnostics.
    pub fn new(neval: i32, last: usize, store: IntervalStore) -> (r: MoreInfoVec)
        ensures
            r.neval == neval,
            r.last == last,
            r.store == store,
    {
        MoreInfoVec { neval, last, store }
    }
}

/// Outcome of a vector-valued integration: the integral estimate
/// (component bit patterns), the absolute-error estimate, and optional
/// diagnostics.
pub struct QagVecIntegrationResult {
    pub result: Vec<u64>,
    pub abserr: u64,
    pub more_info: Option<MoreInfoVec>,
}

impl QagVecIntegrationResult {
    /// A success carrying diagnostics.
    pub fn new_more_info(
        result: Vec<u64>,
        abserr: u64,
        neval: i32,
        last: usize,
        store: IntervalStore,
    ) -> (r: QagVecIntegrationResult)
        ensures
            r.result == result,
            r.abserr == abserr,
            r.more_info matches Some(m) && m.neval == neval && m.last == last && m.store
                == store,
    {
        QagVecIntegrationResult {
            result,
            abserr,
            more_info: Some(MoreInfoVec { neval, last, store }),
        }
    }

    /// A success without diagnostics.
    pub fn new(result: Vec<u64>, abserr: u64) -> (r: QagVecIntegrationResult)
        ensures
            r.result == result,
            r.abserr == abserr,
            r.more_info is None,
    {
        QagVecIntegrationResult { result, abserr, more_info: None }
    }

    /// The payload of a failed run: one zero component, zero error.
    pub fn new_error() -> (r: QagVecIntegrationResult)
        ensures
            r.result@ =~= seq![0u64],
            r.abserr == 0,
            r.more_info is None,
    {
        let result: Vec<u64> = vec![0u64];
        QagVecIntegrationResult { result, abserr: 0, more_info: None }
    }
}

/// Payload of a one-dimensional integration: the integral and error
/// estimates as bit patterns, the evaluation count and the number of
/// subintervals.
#[derive(Clone, Copy, Debug, PartialEq, Eq, Structural)]
pub struct Qag1DVecIntegrationResult {
    pub result: u64,
    pub abserr: u64,
    pub neval: i32,
    pub last: usize,
}

impl Qag1DVecIntegrationResult {
    /// Packs a success payload.
    pub fn new(result: u64, abserr: u64, neval: i32, last: usize) -> (r:
        Qag1DVecIntegrationResult)
        ensures
            r == (Qag1DVecIntegrationResult { result, abserr, neval, last }),
    {
        Qag1DVecIntegrationResult { result, abserr, neval, last }
    }

    /// The payload of a failed run: all zero.
    pub fn new_error() -> (r: Qag1DVecIntegrationResult)
        ensures
            r == (Qag1DVecIntegrationResult { result: 0u64, abserr: 0u64, neval: 0i32, last: 0usize }),
    {
        Qag1DVecIntegrationResult { result: 0, abserr: 0, neval: 0, last: 0 }
    }
}

/// A one-dimensional integration outcome: a terminal state beside the
/// payload, which is meaningful only on success.
#[derive(Clone, Debug)]
pub struct Qag1DVecIntegratorResult {
    pub result_state: ResultState,
    pub integration_result: Qag1DVecIntegrationResult,
}

impl Qag1DVecIntegratorResult {
    /// A success around its payload.
    pub fn new(result: u64, abserr: u64, neval: i32, last: usize) -> (r:
        Qag1DVecIntegratorResult)
        ensures
            r.result_state == ResultState::Success,
            r.integration_result == (Qag1DVecIntegrationResult { result, abserr, neval, last }),
    {
        Qag1DVecIntegratorResult {
            result_state: ResultState::Success,
            integration_result: Qag1DVecIntegrationResult::new(result, abserr, neval, last),
        }
    }

    /// A failure carrying its terminal state and an empty payload.
    pub fn new_error(result_state: ResultState) -> (r: Qag1DVecIntegratorResult)
        ensures
            r.result_state == result_state,
            r.integration_result == (Qag1DVecIntegrationResult {
                result: 0u64,
                abserr: 0u64,
                neval: 0i32,
                last: 0usize,
            }),
    {
        Qag1DVecIntegratorResult {
            result_state,
            integration_result: Qag1DVecIntegrationResult::new_error(),
        }
    }

    /// The payload of a success. A failed run has no payload to hand out,
    /// so this is only callable on success.
    pub fn unwrap(&self) -> (r: Qag1DVecIntegrationResult)
        requires
            self.result_state == ResultState::Success,
        ensures
            r == self.integration_result,
    {
        self.integration_result
    }
}

} // verus!
