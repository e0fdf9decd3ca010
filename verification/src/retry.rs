//! Timeout-bounded, backoff-driven retries for a single storage request.
//!
//! The engine itself performs no I/O: a driver races each attempt of the
//! underlying operation against the timer this module hands out, then
//! reports how the attempt ended.  The engine decides whether to retry,
//! give up, or declare success, counts attempts, accumulates elapsed
//! time, and feeds every success back into the shared [`Estimator`].

use vstd::prelude::*;
use crate::timeout::{
    Estimator, RequestReport, timeout_ms, observed_rate, sample_weight, blended_estimate,
};

verus! {

/// How one attempt of the wrapped operation ended, with its wall-clock
/// duration in milliseconds.
#[derive(Clone, Copy, Debug, PartialEq, Eq, Structural)]
pub enum AttemptOutcome {
    /// The operation completed successfully before its timer fired.
    Success { elapsed_ms: u64 },
    /// The operation completed with an error before its timer fired.
    Failed { elapsed_ms: u64 },
    /// The timer fired before the operation completed.
    TimedOut { elapsed_ms: u64 },
}

impl AttemptOutcome {
    pub open spec fn is_success(self) -> bool {
        self is Success
    }

    pub open spec fn elapsed(self) -> int {
        match self {
            AttemptOutcome::Success { elapsed_ms } => elapsed_ms as int,
            AttemptOutcome::Failed { elapsed_ms } => elapsed_ms as int,
            AttemptOutcome::TimedOut { elapsed_ms } => elapsed_ms as int,
        }
    }
}

/// Why a request was given up: the attempt budget ran out, and the last
/// attempt either returned an operation error or was cut off by its
/// timer.
#[derive(Clone, Copy, Debug, PartialEq, Eq, Structural)]
pub enum RetryError {
    /// The last attempt ended in an error from the operation itself.
    OperationFailed { attempts: usize, total_time_ms: u64 },
    /// The last attempt's timer fired first.
    TimeoutElapsed { attempts: usize, total_time_ms: u64 },
}

/// What the engine decided after an attempt was reported.
#[derive(Clone, Debug)]
pub enum RetryDecision {
    /// The request is complete; deliver this report.
    Done(RequestReport),
    /// Budget remains: make another attempt (its timer will be larger by
    /// one backoff factor).
    Retry,
    /// The budget is exhausted; the request failed.
    GiveUp(RetryError),
}

/// `u64` addition that sticks at the maximum instead of wrapping, used
/// to accumulate elapsed time.
pub open spec fn sat_add_u64(a: int, b: int) -> int {
    if a + b > u64::MAX { u64::MAX as int } else { a + b }
}

/// Total elapsed time over the first `k` outcomes, accumulated with
/// saturation exactly as the engine accumulates it.
pub open spec fn total_elapsed(outcomes: Seq<AttemptOutcome>, k: int) -> int
    decreases k,
{
    if k <= 0 {
        0
    } else {
        sat_add_u64(total_elapsed(outcomes, k - 1), outcomes[k - 1].elapsed())
    }
}

/// One in-progress retried request: the declared byte size, the attempt
/// budget, and what has happened so far.
pub struct RetrySession {
    /// Position of this request in its batch's input order.
    pub seq: usize,
    /// Declared size of the request, used to size timeouts.
    pub bytes: u64,
    /// Maximum number of attempts (>= 1).
    pub max_attempts: usize,
    /// Attempts made so far.
    pub attempts_done: usize,
    /// Wall-clock time spent across all attempts so far (saturating).
    pub total_time_ms: u64,
}

impl RetrySession {
    pub open spec fn well_formed(&self) -> bool {
        &&& self.max_attempts >= 1
        &&& self.attempts_done <= self.max_attempts
    }

    /// A session that has not yet made an attempt.
    pub fn new(seq: usize, bytes: u64, max_attempts: usize) -> (s: RetrySession)
        requires
            max_attempts >= 1,
        ensures
            s == (RetrySession { seq, bytes, max_attempts, attempts_done: 0, total_time_ms: 0 }),
    {
        RetrySession { seq, bytes, max_attempts, attempts_done: 0, total_time_ms: 0 }
    }

    /// The timer for the next attempt: the estimator's prediction for
    /// this request's size, inflated once per attempt already failed.
    pub fn attempt_timeout(&self, estimator: &Estimator) -> (t: u64)
        requires
            estimator.well_formed(),
            self.well_formed(),
            self.attempts_done < self.max_attempts,
        ensures
            t == timeout_ms(
                estimator.config,
                estimator.estimate as int,
                self.bytes as int,
                self.attempts_done + 1,
            ),
    {
        estimator.get_timeout(self.bytes, self.attempts_done + 1)
    }

    /// Digest one attempt's outcome: on success, build the report and
    /// feed the observed throughput into the estimator; on a failure or
    /// a fired timer, retry while budget remains and give up otherwise,
    /// with an error naming which of the two ended the last attempt.
    pub fn record_outcome(&mut self, outcome: AttemptOutcome, estimator: &mut Estimator) -> (d:
        RetryDecision)
        requires
            old(self).well_formed(),
            old(self).attempts_done < old(self).max_attempts,
            old(estimator).well_formed(),
        ensures
            final(self).well_formed(),
            final(estimator).well_formed(),
            final(self).seq == old(self).seq,
            final(self).bytes == old(self).bytes,
            final(self).max_attempts == old(self).max_attempts,
            final(self).attempts_done == old(self).attempts_done + 1,
            final(self).total_time_ms == sat_add_u64(old(self).total_time_ms as int, outcome.elapsed()),
            outcome.is_success() ==> {
                &&& final(estimator).estimate == blended_estimate(
                    old(estimator).estimate as int,
                    old(estimator).weight as int,
                    observed_rate(old(self).bytes as int, outcome.elapsed()),
                    sample_weight(old(estimator).config, old(self).bytes as int),
                )
                &&& d == RetryDecision::Done(RequestReport {
                    seq: old(self).seq,
                    bytes: old(self).bytes,
                    success_time_ms: outcome.elapsed() as u64,
                    total_time_ms: final(self).total_time_ms,
                    attempts: (old(self).attempts_done + 1) as usize,
                    est: final(estimator).estimate,
                })
            },
            !outcome.is_success() ==> *final(estimator) == *old(estimator),
            !outcome.is_success() && old(self).attempts_done + 1 < old(self).max_attempts ==> d
                == RetryDecision::Retry,
            (outcome matches AttemptOutcome::Failed { .. }) && old(self).attempts_done + 1
                == old(self).max_attempts ==> d == RetryDecision::GiveUp(
                RetryError::OperationFailed {
                    attempts: old(self).max_attempts,
                    total_time_ms: final(self).total_time_ms,
                },
            ),
            (outcome matches AttemptOutcome::TimedOut { .. }) && old(self).attempts_done + 1
                == old(self).max_attempts ==> d == RetryDecision::GiveUp(
                RetryError::TimeoutElapsed {
                    attempts: old(self).max_attempts,
                    total_time_ms: final(self).total_time_ms,
                },
            ),
    {
        let elapsed: u64 = match outcome {
            AttemptOutcome::Success { elapsed_ms } => elapsed_ms,
            AttemptOutcome::Failed { elapsed_ms } => elapsed_ms,
            AttemptOutcome::TimedOut { elapsed_ms } => elapsed_ms,
        };
        self.attempts_done = self.attempts_done + 1;
        self.total_time_ms = if self.total_time_ms > u64::MAX - elapsed {
            u64::MAX
        } else {
            self.total_time_ms + elapsed
        };
        match outcome {
            AttemptOutcome::Success { elapsed_ms } => {
                let report = RequestReport {
                    seq: self.seq,
                    bytes: self.bytes,
                    success_time_ms: elapsed_ms,
                    total_time_ms: self.total_time_ms,
                    attempts: self.attempts_done,
                    est: 0,
                };
                estimator.update(&report);
                let report = RequestReport { est: estimator.get_estimate(), ..report };
                RetryDecision::Done(report)
            },
            AttemptOutcome::Failed { .. } => {
                if self.attempts_done < self.max_attempts {
                    RetryDecision::Retry
                } else {
                    RetryDecision::GiveUp(RetryError::OperationFailed {
                        attempts: self.attempts_done,
                        total_time_ms: self.total_time_ms,
                    })
                }
            },
            AttemptOutcome::TimedOut { .. } => {
                if self.attempts_done < self.max_attempts {
                    RetryDecision::Retry
                } else {
                    RetryDecision::GiveUp(RetryError::TimeoutElapsed {
                        attempts: self.attempts_done,
                        total_time_ms: self.total_time_ms,
                    })
                }
            },
        }
    }
}

/// The report a run ending in success at outcome index `k` delivers.
pub open spec fn success_report(
    estimator0: Estimator,
    seq: usize,
    bytes: u64,
    outcomes: Seq<AttemptOutcome>,
    k: int,
) -> RequestReport {
    RequestReport {
        seq,
        bytes,
        success_time_ms: outcomes[k].elapsed() as u64,
        total_time_ms: total_elapsed(outcomes, k + 1) as u64,
        attempts: (k + 1) as usize,
        est: blended_estimate(
            estimator0.estimate as int,
            estimator0.weight as int,
            observed_rate(bytes as int, outcomes[k].elapsed()),
            sample_weight(estimator0.config, bytes as int),
        ) as u64,
    }
}

/// Run one request to completion against a fixed schedule of attempt
/// outcomes: attempts are made in order until one succeeds or the
/// budget is spent.  If the first success sits at (zero-based) index
/// `k`, the request completes with `attempts == k + 1`; if the first
/// `max_attempts` outcomes all fail, the whole request fails.
pub fn run_with_retries(
    seq: usize,
    bytes: u64,
    max_attempts: usize,
    outcomes: &Vec<AttemptOutcome>,
    estimator: &mut Estimator,
) -> (r: Result<RequestReport, RetryError>)
    requires
        max_attempts >= 1,
        old(estimator).well_formed(),
        outcomes@.len() >= max_attempts,
    ensures
        final(estimator).well_formed(),
        forall|k: int|
            0 <= k < max_attempts && outcomes@[k].is_success() && (forall|j: int|
                0 <= j < k ==> !outcomes@[j].is_success()) ==> r == Result::<
                RequestReport,
                RetryError,
            >::Ok(success_report(*old(estimator), seq, bytes, outcomes@, k)),
        (forall|j: int| 0 <= j < max_attempts ==> !outcomes@[j].is_success()) ==> {
            &&& *final(estimator) == *old(estimator)
            &&& (outcomes@[max_attempts - 1] matches AttemptOutcome::Failed { .. } ==> r
                == Result::<RequestReport, RetryError>::Err(RetryError::OperationFailed {
                attempts: max_attempts,
                total_time_ms: total_elapsed(outcomes@, max_attempts as int) as u64,
            }))
            &&& (outcomes@[max_attempts - 1] matches AttemptOutcome::TimedOut { .. } ==> r
                == Result::<RequestReport, RetryError>::Err(RetryError::TimeoutElapsed {
                attempts: max_attempts,
                total_time_ms: total_elapsed(outcomes@, max_attempts as int) as u64,
            }))
        },
        r is Ok <==> exists|k: int| 0 <= k < max_attempts && (#[trigger] outcomes@[k]).is_success(),
        r matches Ok(rep) ==> rep.seq == seq && rep.bytes == bytes,
{
    let mut session = RetrySession::new(seq, bytes, max_attempts);
    let mut i: usize = 0;
    loop
        invariant
            session.seq == seq,
            session.bytes == bytes,
            session.max_attempts == max_attempts,
            session.attempts_done == i,
            i < max_attempts,
            session.total_time_ms == total_elapsed(outcomes@, i as int),
            session.well_formed(),
            *estimator == *old(estimator),
            estimator.well_formed(),
            outcomes@.len() >= max_attempts,
            forall|j: int| 0 <= j < i ==> !outcomes@[j].is_success(),
        decreases max_attempts - i,
    {
        let _timer = session.attempt_timeout(estimator);
        let outcome = outcomes[i];
        match session.record_outcome(outcome, estimator) {
            RetryDecision::Done(report) => {
                return Result::Ok(report);
            },
            RetryDecision::Retry => {
                i = i + 1;
            },
            RetryDecision::GiveUp(e) => {
                return Result::Err(e);
            },
        }
    }
}

} // verus!
