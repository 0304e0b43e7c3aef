//! Presence-probe outcome classification and retry backoff.
//!
//! One probe issues HTTP HEAD requests for an artifact until it sees a
//! terminal response: status 200 means the artifact is in the cache (a hit),
//! status 404 means it is not (a miss). Every other observation — any other
//! status, or a transport failure — is treated as transient rate limiting:
//! the probe waits its current backoff and retries, doubling the backoff up
//! to a fixed ceiling.

use vstd::prelude::*;

verus! {

use vstd::arithmetic::power2::pow2;

/// Milliseconds a probe waits before its first retry.
pub const INITIAL_BACKOFF_MS: u64 = 100;

/// Ceiling on the per-retry wait, in milliseconds.
pub const MAX_BACKOFF_MS: u64 = 1000;

/// What one HTTP HEAD attempt produced: a status code, or no response at
/// all (connection reset, timeout, TLS failure, ...).
#[derive(Clone, Copy, Debug, PartialEq, Eq, Structural)]
pub enum ProbeEvent {
    Status(u16),
    TransportError,
}

/// Terminal result of one probe. A probe never ends in an error: anything
/// that is not a hit or a miss is retried.
#[derive(Clone, Copy, Debug, PartialEq, Eq, Structural)]
pub enum ProbeOutcome {
    Hit,
    Miss,
}

/// What a probe does after one attempt: report a terminal outcome, or wait
/// the given number of milliseconds and try again with the given backoff.
#[derive(Clone, Copy, Debug, PartialEq, Eq, Structural)]
pub enum ProbeStep {
    Done(ProbeOutcome),
    RetryAfter { wait_ms: u64, next_backoff_ms: u64 },
}

/// Status 200 is a hit, status 404 a miss, everything else transient.
pub open spec fn classify_spec(event: ProbeEvent) -> Option<ProbeOutcome> {
    match event {
        ProbeEvent::Status(code) => if code == 200 {
            Some(ProbeOutcome::Hit)
        } else if code == 404 {
            Some(ProbeOutcome::Miss)
        } else {
            None
        },
        ProbeEvent::TransportError => None,
    }
}

/// Classify one attempt's observation; `None` means the probe must retry.
pub fn classify(event: &ProbeEvent) -> (r: Option<ProbeOutcome>)
    ensures
        r == classify_spec(*event),
{
    match event {
        ProbeEvent::Status(code) => if *code == 200 {
            Some(ProbeOutcome::Hit)
        } else if *code == 404 {
            Some(ProbeOutcome::Miss)
        } else {
            None
        },
        ProbeEvent::TransportError => None,
    }
}

/// The backoff after one more retry: doubled, capped at the ceiling.
pub open spec fn next_backoff_spec(backoff_ms: u64) -> u64 {
    if 2 * backoff_ms <= MAX_BACKOFF_MS {
        (2 * backoff_ms) as u64
    } else {
        MAX_BACKOFF_MS
    }
}

/// Double a backoff, saturating at [`MAX_BACKOFF_MS`].
pub fn next_backoff(backoff_ms: u64) -> (r: u64)
    ensures
        r == next_backoff_spec(backoff_ms),
        r <= MAX_BACKOFF_MS,
{
    if backoff_ms <= MAX_BACKOFF_MS / 2 {
        2 * backoff_ms
    } else {
        MAX_BACKOFF_MS
    }
}

/// Decide a probe's next move from one attempt's observation and the
/// probe's current backoff. Terminal responses end the probe; everything
/// else asks the caller to wait the current backoff and retry with the
/// doubled, capped backoff.
pub fn probe_step(event: &ProbeEvent, backoff_ms: u64) -> (r: ProbeStep)
    ensures
        match classify_spec(*event) {
            Some(outcome) => r == ProbeStep::Done(outcome),
            None => r == (ProbeStep::RetryAfter {
                wait_ms: backoff_ms,
                next_backoff_ms: next_backoff_spec(backoff_ms),
            }),
        },
{
    match classify(event) {
        Some(outcome) => ProbeStep::Done(outcome),
        None => ProbeStep::RetryAfter {
            wait_ms: backoff_ms,
            next_backoff_ms: next_backoff(backoff_ms),
        },
    }
}

/// The terminal outcome a probe reaches when it observes the events of
/// `events` in order: the classification of the first terminal event, or
/// `None` if the whole script is transient (the probe would still be
/// retrying when the script runs out).
pub open spec fn script_outcome(events: Seq<ProbeEvent>) -> Option<ProbeOutcome>
    decreases events.len(),
{
    if events.len() == 0 {
        None
    } else {
        match classify_spec(events[0]) {
            Some(outcome) => Some(outcome),
            None => script_outcome(events.drop_first()),
        }
    }
}

/// How many retries the probe performs on `events`: the number of events
/// before the first terminal one (the whole script, if none is terminal).
pub open spec fn script_retries(events: Seq<ProbeEvent>) -> nat
    decreases events.len(),
{
    if events.len() == 0 {
        0
    } else {
        match classify_spec(events[0]) {
            Some(_) => 0,
            None => (script_retries(events.drop_first()) + 1) as nat,
        }
    }
}

/// The backoff in force before retry number `k` (counting from zero): the
/// initial backoff, then doubled and capped once per retry.
pub open spec fn backoff_wait_spec(initial_ms: u64, k: nat) -> u64
    decreases k,
{
    if k == 0 {
        initial_ms
    } else {
        next_backoff_spec(backoff_wait_spec(initial_ms, (k - 1) as nat))
    }
}

/// A probe whose first observation is a terminal response reports that
/// response's outcome at once, with zero retries.
pub proof fn lemma_terminal_on_first_attempt(events: Seq<ProbeEvent>)
    requires
        events.len() > 0,
        classify_spec(events[0]) is Some,
    ensures
        script_outcome(events) == classify_spec(events[0]),
        script_retries(events) == 0,
{
}

/// A probe that observes `n` transient responses followed by a terminal
/// one retries exactly `n` times and reports the terminal response's
/// outcome.
pub proof fn lemma_retry_until_terminal(events: Seq<ProbeEvent>, n: int)
    requires
        0 <= n < events.len(),
        forall|j: int| 0 <= j < n ==> classify_spec(events[j]) is None,
        classify_spec(events[n]) is Some,
    ensures
        script_outcome(events) == classify_spec(events[n]),
        script_retries(events) == n,
    decreases n,
{
    if n > 0 {
        let rest = events.drop_first();
        assert(forall|j: int| 0 <= j < n - 1 ==> classify_spec(#[trigger] rest[j]) is None);
        lemma_retry_until_terminal(rest, n - 1);
    }
}

/// A script with no terminal event leaves the probe without an outcome.
pub proof fn lemma_no_terminal_no_outcome(events: Seq<ProbeEvent>)
    requires
        forall|j: int| 0 <= j < events.len() ==> classify_spec(events[j]) is None,
    ensures
        script_outcome(events) is None,
    decreases events.len(),
{
    if events.len() > 0 {
        let rest = events.drop_first();
        assert(forall|j: int| 0 <= j < rest.len() ==> classify_spec(#[trigger] rest[j]) is None);
        lemma_no_terminal_no_outcome(rest);
    }
}

/// As long as the initial backoff does not exceed the ceiling, the wait
/// before retry number `k` is exactly `min(initial * 2^k, MAX_BACKOFF_MS)`:
/// geometric growth, then constant once capped.
pub proof fn lemma_backoff_wait_closed_form(initial_ms: u64, k: nat)
    requires
        initial_ms <= MAX_BACKOFF_MS,
    ensures
        backoff_wait_spec(initial_ms, k) == if initial_ms * pow2(k) <= MAX_BACKOFF_MS {
            (initial_ms * pow2(k)) as u64
        } else {
            MAX_BACKOFF_MS
        },
    decreases k,
{
    if k == 0 {
        assert(pow2(0) == 1) by {
            vstd::arithmetic::power2::lemma2_to64();
        }
    } else {
        lemma_backoff_wait_closed_form(initial_ms, (k - 1) as nat);
        vstd::arithmetic::power2::lemma_pow2_unfold(k);
        assert(initial_ms * pow2(k) == 2 * (initial_ms * pow2((k - 1) as nat)))
            by (nonlinear_arith)
            requires
                pow2(k) == 2 * pow2((k - 1) as nat),
        ;
    }
}

/// What a finite probe script produces: the terminal outcome, the number
/// of retries taken to reach it, and the waits observed before each retry.
pub struct ProbeSimulation {
    pub outcome: ProbeOutcome,
    pub retries: usize,
    pub waits: Vec<u64>,
}

/// Drive the retry state machine over a finite script of observations.
///
/// Returns `None` when the script runs out before a terminal response —
/// the probe would still be retrying. Otherwise reports the outcome of the
/// first terminal response, the number of retries before it, and the exact
/// backoff wait taken before each retry.
pub fn run_probe_script(events: &Vec<ProbeEvent>, initial_backoff_ms: u64) -> (r: Option<
    ProbeSimulation,
>)
    ensures
        r is Some <==> script_outcome(events@) is Some,
        match r {
            Some(sim) => {
                &&& Some(sim.outcome) == script_outcome(events@)
                &&& sim.retries == script_retries(events@)
                &&& sim.waits@.len() == sim.retries
                &&& forall|k: int|
                    0 <= k < sim.waits@.len() ==> sim.waits@[k] == backoff_wait_spec(
                        initial_backoff_ms,
                        k as nat,
                    )
            },
            None => true,
        },
{
    let mut i: usize = 0;
    let mut backoff_ms: u64 = initial_backoff_ms;
    let mut waits: Vec<u64> = Vec::new();
    while i < events.len()
        invariant
            i <= events@.len(),
            forall|j: int| 0 <= j < i ==> classify_spec(events@[j]) is None,
            waits@.len() == i,
            forall|k: int|
                0 <= k < i ==> waits@[k] == backoff_wait_spec(initial_backoff_ms, k as nat),
            backoff_ms == backoff_wait_spec(initial_backoff_ms, i as nat),
        decreases events@.len() - i,
    {
        match probe_step(&events[i], backoff_ms) {
            ProbeStep::Done(outcome) => {
                proof {
                    lemma_retry_until_terminal(events@, i as int);
                }
                return Some(ProbeSimulation { outcome, retries: i, waits });
            },
            ProbeStep::RetryAfter { wait_ms, next_backoff_ms } => {
                waits.push(wait_ms);
                backoff_ms = next_backoff_ms;
                i = i + 1;
            },
        }
    }
    proof {
        lemma_no_terminal_no_outcome(events@);
    }
    None
}

} // verus!
