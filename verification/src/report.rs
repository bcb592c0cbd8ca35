//! Counting the outcomes of a run.

use crate::payment::{FailureReason, OutcomeView, PaymentOutcome};
use vstd::prelude::*;

verus! {

/// How many payments ended in each way.
#[derive(Clone, Copy, Debug, PartialEq, Eq, Structural)]
pub struct Summary {
    pub settled: usize,
    pub unknown_address: usize,
    pub no_path: usize,
    pub retries_exhausted: usize,
}

/// The summary of no payments.
pub open spec fn empty_summary() -> Summary {
    Summary { settled: 0, unknown_address: 0, no_path: 0, retries_exhausted: 0 }
}

/// `summary` with one more outcome counted.
pub open spec fn counted(summary: Summary, outcome: OutcomeView) -> Summary {
    match outcome {
        OutcomeView::Settled { .. } => Summary {
            settled: (summary.settled + 1) as usize,
            ..summary
        },
        OutcomeView::Failed { reason: FailureReason::UnknownAddress, .. } => Summary {
            unknown_address: (summary.unknown_address + 1) as usize,
            ..summary
        },
        OutcomeView::Failed { reason: FailureReason::NoPath, .. } => Summary {
            no_path: (summary.no_path + 1) as usize,
            ..summary
        },
        OutcomeView::Failed { reason: FailureReason::RetriesExhausted, .. } => Summary {
            retries_exhausted: (summary.retries_exhausted + 1) as usize,
            ..summary
        },
    }
}

/// The summary of the first `n` outcomes.
pub open spec fn tally(outcomes: Seq<PaymentOutcome>, n: int) -> Summary
    decreases n,
{
    if n <= 0 {
        empty_summary()
    } else {
        counted(tally(outcomes, n - 1), outcomes[n - 1]@)
    }
}

/// Counts settled payments and failed ones by reason.
pub fn summarize(outcomes: &Vec<PaymentOutcome>) -> (summary: Summary)
    ensures
        summary == tally(outcomes@, outcomes@.len() as int),
        summary.settled + summary.unknown_address + summary.no_path + summary.retries_exhausted
            == outcomes@.len(),
{
    let mut summary = Summary { settled: 0, unknown_address: 0, no_path: 0, retries_exhausted: 0 };
    let mut i: usize = 0;
    while i < outcomes.len()
        invariant
            i <= outcomes@.len(),
            summary == tally(outcomes@, i as int),
            summary.settled + summary.unknown_address + summary.no_path
                + summary.retries_exhausted == i,
        decreases outcomes@.len() - i,
    {
        match &outcomes[i] {
            PaymentOutcome::Settled { .. } => {
                summary.settled = summary.settled + 1;
            },
            PaymentOutcome::Failed { reason, .. } => {
                match reason {
                    FailureReason::UnknownAddress => {
                        summary.unknown_address = summary.unknown_address + 1;
                    },
                    FailureReason::NoPath => {
                        summary.no_path = summary.no_path + 1;
                    },
                    FailureReason::RetriesExhausted => {
                        summary.retries_exhausted = summary.retries_exhausted + 1;
                    },
                }
            },
        }
        i += 1;
    }
    summary
}

} // verus!
