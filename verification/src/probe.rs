//! The readiness prober: a bounded poll of the backend's health
//! endpoint.
//!
//! The caller issues one lightweight health request per attempt, with
//! a short per-attempt timeout, and hands the outcome back; any 2xx
//! answer is success, a transport failure and a non-2xx answer are
//! treated identically (wait, retry). After the attempt budget is
//! exhausted the startup has timed out. Polling, not a fixed sleep:
//! backend warm-up time is variable.

use vstd::prelude::*;
use crate::errors::BackendError;
use crate::proxy::{is_success_status, spec_is_success};

verus! {

/// The attempt budget of one startup poll.
pub const PROBE_MAX_ATTEMPTS: u32 = 30;

/// The pause between attempts, in milliseconds.
pub const PROBE_INTERVAL_MS: u32 = 1000;

/// The per-attempt timeout of the health request, in milliseconds.
pub const PROBE_ATTEMPT_TIMEOUT_MS: u32 = 1000;

/// Whether one health attempt succeeded: a response arrived and its
/// status is 2xx. A transport failure (`None`) and a non-2xx answer
/// count the same.
pub fn probe_outcome(status: Option<u16>) -> (r: bool)
    ensures
        r == (status matches Some(s) && spec_is_success(s)),
{
    match status {
        Some(s) => is_success_status(s),
        None => false,
    }
}

/// What the prober does after one attempt's outcome.
#[derive(Clone, Copy, PartialEq, Eq, Structural, Debug)]
pub enum ProbeDecision {
    /// The backend answered 2xx: startup is confirmed.
    Ready,
    /// The attempt failed and budget remains: wait one interval, retry.
    Retry,
    /// The attempt failed and the budget is exhausted.
    TimedOut,
}

/// The prober's state between attempts: how many have failed, out of
/// how many allowed, and the virtual clock of the poll — each failed
/// attempt costs one interval of waiting.
pub struct ProbeState {
    pub failures: u32,
    pub max_attempts: u32,
    pub interval_ms: u32,
}

/// The virtual time a poll in state `s` has spent waiting.
pub open spec fn spec_elapsed_ms(s: ProbeState) -> nat {
    (s.failures * s.interval_ms) as nat
}

impl ProbeState {
    /// A fresh poll: no attempt made yet.
    pub fn new(max_attempts: u32, interval_ms: u32) -> (s: ProbeState)
        ensures
            s.failures == 0,
            s.max_attempts == max_attempts,
            s.interval_ms == interval_ms,
    {
        ProbeState { failures: 0, max_attempts, interval_ms }
    }

    /// A fresh poll with the standard budget: thirty attempts at one
    /// second spacing.
    pub fn standard() -> (s: ProbeState)
        ensures
            s.failures == 0,
            s.max_attempts == PROBE_MAX_ATTEMPTS,
            s.interval_ms == PROBE_INTERVAL_MS,
    {
        ProbeState {
            failures: 0,
            max_attempts: PROBE_MAX_ATTEMPTS,
            interval_ms: PROBE_INTERVAL_MS,
        }
    }

    /// The virtual time this poll has spent waiting, in milliseconds.
    pub fn elapsed_ms(&self) -> (r: u64)
        ensures
            r == spec_elapsed_ms(*self),
    {
        proof {
            assert((self.failures as nat) * (self.interval_ms as nat) < 0x10000000000000000)
                by (nonlinear_arith)
                requires
                    (self.failures as nat) < 0x100000000,
                    (self.interval_ms as nat) < 0x100000000,
            ;
        }
        (self.failures as u64) * (self.interval_ms as u64)
    }

    /// Advances the poll by one attempt's outcome: success confirms
    /// readiness at once; a failure costs one interval and either
    /// leaves budget (`Retry`) or exhausts it (`TimedOut`).
    pub fn step(&mut self, success: bool) -> (d: ProbeDecision)
        requires
            old(self).failures < old(self).max_attempts,
        ensures
            final(self).max_attempts == old(self).max_attempts,
            final(self).interval_ms == old(self).interval_ms,
            success ==> d is Ready && final(self).failures == old(self).failures,
            !success ==> final(self).failures == old(self).failures + 1,
            !success ==> (d is TimedOut <==> final(self).failures == final(self).max_attempts),
            !success ==> (d is Retry <==> final(self).failures < final(self).max_attempts),
    {
        if success {
            ProbeDecision::Ready
        } else {
            self.failures = self.failures + 1;
            if self.failures == self.max_attempts {
                ProbeDecision::TimedOut
            } else {
                ProbeDecision::Retry
            }
        }
    }
}

/// The index of the first successful attempt, if any.
pub open spec fn first_success(outcomes: Seq<bool>) -> Option<nat>
    decreases outcomes.len(),
{
    if outcomes.len() == 0 {
        None
    } else if outcomes[0] {
        Some(0)
    } else {
        match first_success(outcomes.skip(1)) {
            Some(k) => Some(k + 1),
            None => None,
        }
    }
}

proof fn lemma_first_success_at(outcomes: Seq<bool>, k: int)
    requires
        0 <= k < outcomes.len(),
        outcomes[k],
        forall|j: int| 0 <= j < k ==> !outcomes[j],
    ensures
        first_success(outcomes) == Some(k as nat),
    decreases k,
{
    if k == 0 {
    } else {
        let t = outcomes.skip(1);
        assert(forall|j: int| 0 <= j < k - 1 ==> !t[j]);
        lemma_first_success_at(t, k - 1);
    }
}

proof fn lemma_first_success_none(outcomes: Seq<bool>)
    requires
        forall|j: int| 0 <= j < outcomes.len() ==> !outcomes[j],
    ensures
        first_success(outcomes) is None,
    decreases outcomes.len(),
{
    if outcomes.len() > 0 {
        lemma_first_success_none(outcomes.skip(1));
    }
}

/// Runs a whole poll against a recorded sequence of attempt
/// outcomes — the virtual-clock form of the wait: the k-th failure
/// costs `interval_ms` of virtual waiting. Succeeds with the number
/// of attempts used when some attempt within the budget succeeds;
/// fails with `StartupTimeout` when none does.
pub fn run_probe(outcomes: &Vec<bool>, max_attempts: u32, interval_ms: u32) -> (r: (
    Result<u32, BackendError>,
    u64,
))
    requires
        outcomes@.len() >= max_attempts,
        max_attempts > 0,
    ensures
        match first_success(outcomes@.take(max_attempts as int)) {
            Some(k) => r.0 == Ok::<u32, BackendError>((k + 1) as u32) && r.1 == k * interval_ms,
            None => r.0 == Err::<u32, BackendError>(BackendError::StartupTimeout) && r.1
                == max_attempts * interval_ms,
        },
{
    let mut state = ProbeState::new(max_attempts, interval_ms);
    let ghost budget = outcomes@.take(max_attempts as int);
    let mut i: usize = 0;
    loop
        invariant
            0 <= i <= max_attempts,
            outcomes@.len() >= max_attempts,
            state.failures == i,
            state.max_attempts == max_attempts,
            state.interval_ms == interval_ms,
            budget == outcomes@.take(max_attempts as int),
            forall|j: int| 0 <= j < i ==> !budget[j],
            i < max_attempts,
        decreases max_attempts - i,
    {
        let success = outcomes[i];
        let d = state.step(success);
        match d {
            ProbeDecision::Ready => {
                proof {
                    lemma_first_success_at(budget, i as int);
                }
                return (Ok(i as u32 + 1), state.elapsed_ms());
            },
            ProbeDecision::TimedOut => {
                proof {
                    lemma_first_success_none(budget);
                }
                return (Err(BackendError::StartupTimeout), state.elapsed_ms());
            },
            ProbeDecision::Retry => {
                i = i + 1;
            },
        }
    }
}

/// Law: when the backend starts answering 2xx from attempt `k` on
/// (attempts are numbered from zero) and `k` lies within the budget,
/// the poll confirms readiness at attempt `k`, after `k` failed
/// attempts — within the budget, with bounded virtual waiting.
pub proof fn lemma_probe_ready_within_budget(outcomes: Seq<bool>, k: int, max_attempts: int)
    requires
        0 <= k < max_attempts <= outcomes.len(),
        forall|j: int| 0 <= j < outcomes.len() ==> (outcomes[j] <==> j >= k),
    ensures
        first_success(outcomes.take(max_attempts)) == Some(k as nat),
{
    let budget = outcomes.take(max_attempts);
    assert(forall|j: int| 0 <= j < k ==> !budget[j]);
    lemma_first_success_at(budget, k);
}

/// Law: when no attempt within the budget succeeds, the poll times
/// out: `run_probe` then returns `StartupTimeout` after exactly the
/// budget's worth of virtual waiting.
pub proof fn lemma_probe_times_out(outcomes: Seq<bool>, max_attempts: int)
    requires
        0 <= max_attempts <= outcomes.len(),
        forall|j: int| 0 <= j < outcomes.len() ==> !outcomes[j],
    ensures
        first_success(outcomes.take(max_attempts)) is None,
{
    let budget = outcomes.take(max_attempts);
    assert(forall|j: int| 0 <= j < budget.len() ==> !budget[j]);
    lemma_first_success_none(budget);
}

} // verus!
