//! Retries of a failed fetch: which outcome ends the attempts, and how long
//! to wait before the next one (exponential backoff with jitter).

use vstd::prelude::*;
use crate::hn::HackerNewsItem;
use crate::LeadForgeError;
use vstd::arithmetic::power2::{lemma_pow2, lemma_pow2_unfold, pow2};

verus! {

/// The wait before the first retry, in milliseconds, before doubling.
pub const BACKOFF_BASE_MS: u64 = 100;
/// No wait between two attempts is longer than this, in milliseconds.
pub const BACKOFF_CAP_MS: u64 = 10_000;
/// The jitter added to a wait is drawn below this bound, in milliseconds.
pub const JITTER_BOUND_MS: u64 = 100;

/// `2` to the power `e`.
pub open spec fn two_pow(e: nat) -> nat
    decreases e,
{
    if e == 0 { 1 } else { 2 * two_pow((e - 1) as nat) }
}

/// The wait before retry number `retries`: `base * 2^retries + jitter`,
/// capped.
pub open spec fn backoff_delay(retries: nat, jitter: nat) -> nat {
    let raw = BACKOFF_BASE_MS * two_pow(retries) + jitter;
    if raw < BACKOFF_CAP_MS { raw as nat } else { BACKOFF_CAP_MS as nat }
}

proof fn lemma_two_pow_is_pow2(e: nat)
    ensures
        two_pow(e) == pow2(e),
    decreases e,
{
    if e == 0 {
        lemma_pow2(0);
        vstd::arithmetic::power::lemma_pow0(2);
    } else {
        lemma_two_pow_is_pow2((e - 1) as nat);
        lemma_pow2_unfold(e);
    }
}

/// The backoff in closed form: before retry `r` with jitter `j`, the wait
/// is `100 * 2^r + j` milliseconds, or `10_000` if that is more.
pub proof fn lemma_backoff_closed_form(r: nat, j: nat)
    ensures
        backoff_delay(r, j) == if 100 * pow2(r) + j < 10_000 {
            100 * pow2(r) + j
        } else {
            10_000
        },
{
    lemma_two_pow_is_pow2(r);
}

/// Each retry doubles the wait (without jitter) until the cap is reached:
/// the first wait is `100` ms, and where `100 * 2^(r + 1)` is under the cap
/// the wait before retry `r + 1` is twice the wait before retry `r`.
pub proof fn lemma_backoff_doubles(r: nat)
    ensures
        backoff_delay(0, 0) == 100,
        100 * pow2(r + 1) < 10_000 ==> backoff_delay(r + 1, 0) == 2 * backoff_delay(r, 0),
{
    lemma_backoff_closed_form(0, 0);
    lemma_backoff_closed_form(r, 0);
    lemma_backoff_closed_form(r + 1, 0);
    lemma_pow2(0);
    vstd::arithmetic::power::lemma_pow0(2);
    lemma_pow2_unfold(r + 1);
}

/// Jitter adds to the wait one for one below the cap: for the same retry,
/// a wait under the cap grows by exactly the jitter.
pub proof fn lemma_backoff_jitter_adds(r: nat, j: nat)
    requires
        backoff_delay(r, j) < 10_000,
    ensures
        backoff_delay(r, j) == backoff_delay(r, 0) + j,
{
    lemma_backoff_closed_form(r, j);
    lemma_backoff_closed_form(r, 0);
}

proof fn lemma_two_pow_monotone(a: nat, b: nat)
    requires
        a <= b,
    ensures
        1 <= two_pow(a) <= two_pow(b),
    decreases b,
{
    if b == 0 {
    } else if a == b {
        lemma_two_pow_monotone((a - 1) as nat, (a - 1) as nat);
    } else {
        lemma_two_pow_monotone(a, (b - 1) as nat);
    }
}

proof fn lemma_two_pow_7()
    ensures
        two_pow(7) == 128,
{
    reveal_with_fuel(two_pow, 8);
}

/// The wait in milliseconds before retry number `retries`, given the
/// jitter drawn for it: `min(100 * 2^retries + jitter, 10_000)`, for every
/// retry count (from retry 7 on the doubling alone passes the cap).
pub fn backoff_delay_ms(retries: usize, jitter: u64) -> (d: u64)
    ensures
        d == backoff_delay(retries as nat, jitter as nat),
        d <= BACKOFF_CAP_MS,
        d == if 100 * pow2(retries as nat) + jitter < 10_000 {
            100 * pow2(retries as nat) + jitter
        } else {
            10_000
        },
{
    proof {
        lemma_backoff_closed_form(retries as nat, jitter as nat);
        lemma_two_pow_7();
    }
    if retries >= 7 {
        proof {
            lemma_two_pow_monotone(7, retries as nat);
        }
        return BACKOFF_CAP_MS;
    }
    proof {
        lemma_two_pow_monotone(retries as nat, 6);
    }
    let mut p: u64 = 1;
    let mut k: usize = 0;
    while k < retries
        invariant
            k <= retries < 7,
            p == two_pow(k as nat),
            two_pow(retries as nat) <= 64,
        decreases retries - k,
    {
        proof {
            lemma_two_pow_monotone((k + 1) as nat, retries as nat);
        }
        p = p * 2;
        k = k + 1;
    }
    let base = BACKOFF_BASE_MS * p;
    if jitter >= BACKOFF_CAP_MS - base {
        BACKOFF_CAP_MS
    } else {
        base + jitter
    }
}

/// Draws a number below `bound` with `rand::random_range(0..bound)`. Every
/// outcome lies in `0..bound`; nothing else is stated of it.
#[verifier::external_body]
fn random_below(bound: u64) -> (r: u64)
    requires
        bound > 0,
    ensures
        r < bound,
{
    rand::random_range(0..bound)
}

/// Raising backoff: for the same jitter, a later retry never waits less
/// than an earlier one.
pub proof fn lemma_backoff_monotone(earlier: nat, later: nat, jitter: nat)
    requires
        earlier <= later,
    ensures
        backoff_delay(earlier, jitter) <= backoff_delay(later, jitter),
{
    lemma_two_pow_monotone(earlier, later);
}

/// Every wait lies between the first retry's base wait and the cap: for any
/// retry number from the first on, `200 <= delay <= 10_000` milliseconds.
pub proof fn lemma_backoff_bounds(retries: nat, jitter: nat)
    requires
        retries >= 1,
    ensures
        2 * BACKOFF_BASE_MS <= backoff_delay(retries, jitter) <= BACKOFF_CAP_MS,
{
    lemma_two_pow_monotone(1, retries);
    reveal_with_fuel(two_pow, 2);
}

/// What became of one fetch attempt.
pub type FetchOutcome = Result<HackerNewsItem, LeadForgeError>;

/// What to do after an attempt.
#[derive(Debug, PartialEq, Eq)]
pub enum RetryStep {
    /// Stop trying: this is the outcome of the whole fetch.
    Finish(FetchOutcome),
    /// Sleep this many milliseconds, then try again.
    Wait(u64),
}

/// The retry count of one item's fetch, against its limit.
#[derive(Debug, Clone, PartialEq, Eq)]
pub struct RetryState {
    pub max_retries: usize,
    pub retries: usize,
}

impl RetryState {
    /// The attempt that gave `outcome` is followed by another: it failed,
    /// the failure is retryable, and retries are left.
    pub open spec fn will_retry(self, outcome: FetchOutcome) -> bool {
        &&& outcome is Err
        &&& self.retries < self.max_retries
        &&& outcome->Err_0.spec_is_retryable()
    }

    /// The state after the attempt that gave `outcome`.
    pub open spec fn next_state(self, outcome: FetchOutcome) -> RetryState {
        if self.will_retry(outcome) {
            RetryState { max_retries: self.max_retries, retries: (self.retries + 1) as usize }
        } else {
            self
        }
    }

    /// A fresh count: no retry made yet.
    pub fn new(max_retries: usize) -> (s: Self)
        ensures
            s.max_retries == max_retries,
            s.retries == 0,
    {
        RetryState { max_retries, retries: 0 }
    }

    /// Decides what follows the attempt that gave `outcome`, with `jitter`
    /// as the jitter of the wait if a retry follows: a success, a
    /// non-retryable failure, or a failure with no retries left ends the
    /// fetch with that outcome; otherwise the retry count grows by one and
    /// the wait is the backoff for the new count.
    pub fn step_with_jitter(&mut self, outcome: FetchOutcome, jitter: u64) -> (step: RetryStep)
        ensures
            *final(self) == old(self).next_state(outcome),
            old(self).will_retry(outcome) ==> step == RetryStep::Wait(
                backoff_delay(final(self).retries as nat, jitter as nat) as u64,
            ),
            !old(self).will_retry(outcome) ==> step == RetryStep::Finish(outcome),
            // The retry rule in terms of the failure itself: a timeout, a
            // connection failure, a request failure, a 5xx or a 429 with
            // retries left is retried after the backoff for the new count;
            // anything else ends the fetch with the outcome, count unchanged.
            ({
                let retried = old(self).retries < old(self).max_retries && match outcome {
                    Err(LeadForgeError::NetworkError(f)) => f.timeout || f.connect || f.request
                        || (f.status matches Some(s) && ((500 <= s && s < 600) || s == 429)),
                    Ok(_) => false,
                };
                &&& final(self).max_retries == old(self).max_retries
                &&& retried ==> final(self).retries == old(self).retries + 1
                    && step == RetryStep::Wait(
                    (if 100 * pow2(final(self).retries as nat) + jitter < 10_000 {
                        100 * pow2(final(self).retries as nat) + jitter
                    } else {
                        10_000
                    }) as u64,
                )
                &&& !retried ==> final(self).retries == old(self).retries && step
                    == RetryStep::Finish(outcome)
            }),
    {
        proof {
            lemma_backoff_closed_form((self.retries + 1) as nat, jitter as nat);
        }
        match outcome {
            Ok(item) => RetryStep::Finish(Ok(item)),
            Err(error) => {
                if self.retries >= self.max_retries || !error.is_retryable() {
                    RetryStep::Finish(Err(error))
                } else {
                    self.retries = self.retries + 1;
                    let delay = backoff_delay_ms(self.retries, jitter);
                    RetryStep::Wait(delay)
                }
            },
        }
    }

    /// As `step_with_jitter`, with the jitter drawn at random below
    /// `JITTER_BOUND_MS` when a retry follows.
    pub fn step(&mut self, outcome: FetchOutcome) -> (step: RetryStep)
        ensures
            *final(self) == old(self).next_state(outcome),
            old(self).will_retry(outcome) ==> exists|jitter: nat|
                jitter < JITTER_BOUND_MS && step == RetryStep::Wait(
                    #[trigger] backoff_delay(final(self).retries as nat, jitter) as u64,
                ),
            !old(self).will_retry(outcome) ==> step == RetryStep::Finish(outcome),
    {
        let jitter = match &outcome {
            Err(error) => {
                if self.retries < self.max_retries && error.is_retryable() {
                    random_below(JITTER_BOUND_MS)
                } else {
                    0
                }
            },
            Ok(_) => 0,
        };
        self.step_with_jitter(outcome, jitter)
    }
}

/// The retry rule: an attempt is followed by another exactly when it failed
/// with a timeout, a connection failure, a request failure, a server error
/// (5xx) or rate limiting (429), and fewer than `max_retries` retries were
/// made; a success is never retried.
pub proof fn lemma_will_retry_rule(s: RetryState, outcome: FetchOutcome)
    ensures
        s.will_retry(outcome) == (s.retries < s.max_retries && match outcome {
            Err(LeadForgeError::NetworkError(f)) => f.timeout || f.connect || f.request || (
            f.status matches Some(c) && ((500 <= c && c < 600) || c == 429)),
            Ok(_) => false,
        }),
        s.will_retry(outcome) ==> s.next_state(outcome).retries == s.retries + 1,
        !s.will_retry(outcome) ==> s.next_state(outcome) == s,
{
}

/// The number of fetch attempts made from state `s` when the attempts give
/// `outcomes` in turn: attempts go on while each outcome calls for a retry.
pub open spec fn attempts(s: RetryState, outcomes: Seq<FetchOutcome>) -> nat
    decreases outcomes.len(),
{
    if outcomes.len() == 0 {
        0
    } else if s.will_retry(outcomes[0]) {
        1 + attempts(s.next_state(outcomes[0]), outcomes.drop_first())
    } else {
        1
    }
}

/// Bounded retries: whatever the attempts give, an item is fetched at most
/// `max_retries + 1` times from a fresh state (and at most
/// `max_retries - retries + 1` times from any state).
pub proof fn lemma_attempts_bounded(s: RetryState, outcomes: Seq<FetchOutcome>)
    requires
        s.retries <= s.max_retries,
    ensures
        attempts(s, outcomes) <= s.max_retries - s.retries + 1,
    decreases outcomes.len(),
{
    if outcomes.len() > 0 && s.will_retry(outcomes[0]) {
        lemma_attempts_bounded(s.next_state(outcomes[0]), outcomes.drop_first());
    }
}

} // verus!
