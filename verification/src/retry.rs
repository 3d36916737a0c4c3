//! Retry with exponential backoff.
//!
//! An operation is attempted up to `max_retries + 1` times. Each attempt
//! yields either a terminal error, which is returned at once with no
//! further attempt and no sleep, or a pair of a partial result and a flag
//! saying whether a retry is wanted. A cleared flag returns the result at
//! once; a set flag on the last permitted attempt returns that attempt's
//! result anyway, the budget being spent. Between two attempts the driver
//! sleeps `delay_for_attempt(a)` milliseconds, where `a` is the attempt
//! just finished, so a run of `n` attempts sleeps exactly `n - 1` times.
//!
//! The computed delay grows without bound: there is deliberately no cap on
//! it and no jitter, so the configuration choice is the caller's
//! responsibility.

use vstd::prelude::*;
use vstd::arithmetic::power::pow;
use vstd::arithmetic::power::lemma_pow_increases;
use vstd::arithmetic::power::lemma_pow_positive;
use vstd::arithmetic::mul::lemma_mul_inequality;

verus! {

/// Configuration for retry behavior with exponential backoff: how many
/// retries may follow the initial attempt, the delay before the first
/// retry, and the factor by which the delay grows per attempt. Immutable
/// once constructed; a value, never a hidden process-wide default.
#[derive(Clone, Copy, Debug, PartialEq, Eq, Structural)]
pub struct RetryConfig {
    /// Maximum number of retry attempts (not including the initial attempt).
    pub max_retries: usize,
    /// Initial delay in milliseconds before the first retry.
    pub initial_delay_ms: u64,
    /// Multiplier for exponential backoff.
    pub backoff_multiplier: u64,
}

impl RetryConfig {
    /// The documented default configuration: 3 retries, 100 ms initial
    /// delay, doubling per attempt, for the schedule 100/200/400 ms.
    pub open spec fn default_spec() -> RetryConfig {
        RetryConfig { max_retries: 3, initial_delay_ms: 100, backoff_multiplier: 2 }
    }

    /// Backoff delay in milliseconds for a zero-based attempt index:
    /// `initial_delay_ms * backoff_multiplier ^ attempt`, by integer
    /// exponentiation. Attempt 0 yields exactly the initial delay.
    pub open spec fn delay_ms_spec(&self, attempt: nat) -> int {
        self.initial_delay_ms * pow(self.backoff_multiplier as int, attempt)
    }

    /// Delay in milliseconds before the attempt that follows attempt
    /// number `attempt` (zero-based): the initial delay grown by the
    /// multiplier once per attempt already made.
    pub fn delay_for_attempt(&self, attempt: usize) -> (d: u64)
        requires
            self.delay_ms_spec(attempt as nat) <= u64::MAX,
        ensures
            d == self.delay_ms_spec(attempt as nat),
    {
        let m = self.backoff_multiplier;
        let mut d: u64 = self.initial_delay_ms;
        let mut i: usize = 0;
        proof {
            vstd::arithmetic::power::lemma_pow0(m as int);
        }
        while i < attempt
            invariant
                i <= attempt,
                d == self.delay_ms_spec(i as nat),
                self.delay_ms_spec(attempt as nat) <= u64::MAX,
                m == self.backoff_multiplier,
            decreases attempt - i,
        {
            proof {
                vstd::arithmetic::power::lemma_pow_adds(m as int, i as nat, 1nat);
                vstd::arithmetic::power::lemma_pow1(m as int);
                assert(pow(m as int, (i + 1) as nat) == pow(m as int, i as nat) * m);
                assert(pow(m as int, (i + 1) as nat) == m * pow(m as int, i as nat))
                    by (nonlinear_arith)
                    requires
                        pow(m as int, (i + 1) as nat) == pow(m as int, i as nat) * m,
                ;
                if m == 0 {
                    vstd::arithmetic::power::lemma0_pow((i + 1) as nat);
                    assert(self.initial_delay_ms * pow(m as int, (i + 1) as nat) == 0);
                } else {
                    lemma_pow_increases(m as nat, (i + 1) as nat, attempt as nat);
                    lemma_mul_inequality(
                        pow(m as int, (i + 1) as nat),
                        pow(m as int, attempt as nat),
                        self.initial_delay_ms as int,
                    );
                    assert(self.initial_delay_ms * pow(m as int, (i + 1) as nat)
                        == pow(m as int, (i + 1) as nat) * self.initial_delay_ms)
                        by (nonlinear_arith);
                    assert(self.initial_delay_ms * pow(m as int, attempt as nat)
                        == pow(m as int, attempt as nat) * self.initial_delay_ms)
                        by (nonlinear_arith);
                }
                assert(d * m == self.initial_delay_ms * (m * pow(m as int, i as nat)))
                    by (nonlinear_arith)
                    requires
                        d == self.initial_delay_ms * pow(m as int, i as nat),
                ;
            }
            d = d * m;
            i = i + 1;
        }
        d
    }
}

impl Default for RetryConfig {
    /// The documented default: 3 retries, 100 ms initial delay, doubling
    /// per attempt.
    fn default() -> (c: Self)
        ensures
            c == RetryConfig::default_spec(),
    {
        RetryConfig { max_retries: 3, initial_delay_ms: 100, backoff_multiplier: 2 }
    }
}

/// What the retry driver does once an attempt has come back with a
/// partial result: either the operation is finished and its result is
/// handed to the caller, or the driver sleeps the given number of
/// milliseconds and attempts again.
#[derive(Clone, Copy, Debug, PartialEq, Eq, Structural)]
pub enum RetryDecision {
    /// Return the attempt's result to the caller; no further attempt.
    Finish,
    /// Sleep this many milliseconds, then attempt again.
    SleepThenRetry(u64),
}

impl RetryConfig {
    /// The decision after attempt number `attempt` (zero-based) came back
    /// with a partial result and `should_retry` says whether the store
    /// left anything unprocessed: finish when no retry is wanted or the
    /// budget is spent, otherwise back off and go again.
    pub fn decide_after_attempt(&self, attempt: usize, should_retry: bool) -> (d: RetryDecision)
        requires
            attempt <= self.max_retries,
            should_retry && attempt < self.max_retries ==> self.delay_ms_spec(attempt as nat)
                <= u64::MAX,
        ensures
            d == RetryDecision::Finish <==> (!should_retry || attempt == self.max_retries),
            d matches RetryDecision::SleepThenRetry(ms) ==> ms == self.delay_ms_spec(
                attempt as nat,
            ),
    {
        if !should_retry || attempt == self.max_retries {
            RetryDecision::Finish
        } else {
            RetryDecision::SleepThenRetry(self.delay_for_attempt(attempt))
        }
    }
}

/// Whether the retry loop is done once it has seen this attempt outcome,
/// apart from the budget running out: a terminal error or a cleared
/// retry flag stops it.
pub open spec fn attempt_halts<T, E>(outcome: Result<(T, bool), E>) -> bool {
    match outcome {
        Ok((_, should_retry)) => !should_retry,
        Err(_) => true,
    }
}

/// The zero-based index of the attempt on which the retry loop stops,
/// scanning forward from `from` with a budget of `max_retries` retries:
/// the first halting outcome, or attempt `max_retries` when none halts
/// earlier.
pub open spec fn final_attempt<T, E>(
    outcomes: Seq<Result<(T, bool), E>>,
    from: nat,
    max_retries: nat,
) -> nat
    decreases max_retries - from,
{
    if from >= max_retries {
        max_retries
    } else if attempt_halts(outcomes[from as int]) {
        from
    } else {
        final_attempt(outcomes, from + 1, max_retries)
    }
}

/// What a retry run over the given per-attempt outcomes returns: the
/// value of the attempt it stops on, stripped of the retry flag, or that
/// attempt's terminal error.
pub open spec fn retry_outcome<T, E>(
    outcomes: Seq<Result<(T, bool), E>>,
    max_retries: nat,
) -> Result<T, E> {
    match outcomes[final_attempt(outcomes, 0, max_retries) as int] {
        Ok((value, _)) => Ok(value),
        Err(e) => Err(e),
    }
}

/// A scan that finds no halting outcome before `idx`, and at `idx` either
/// a halting outcome or the budget line, stops exactly at `idx`.
pub proof fn lemma_final_attempt_found<T, E>(
    outcomes: Seq<Result<(T, bool), E>>,
    from: nat,
    idx: nat,
    max_retries: nat,
)
    requires
        from <= idx <= max_retries,
        forall|j: int| from <= j < idx ==> !attempt_halts(#[trigger] outcomes[j]),
        idx == max_retries || attempt_halts(outcomes[idx as int]),
    ensures
        final_attempt(outcomes, from, max_retries) == idx,
    decreases idx - from,
{
    if from < idx {
        lemma_final_attempt_found(outcomes, from + 1, idx, max_retries);
    }
}

/// Whether the retry loop is done once it has seen this attempt outcome.
pub fn outcome_halts<T, E>(outcome: &Result<(T, bool), E>) -> (b: bool)
    ensures
        b == attempt_halts(*outcome),
{
    match outcome {
        Ok((_, should_retry)) => !*should_retry,
        Err(_) => true,
    }
}

/// Drives an operation through the retry loop. The operation is given as
/// the list of outcomes its successive attempts would yield, one entry
/// per attempt the budget permits; the run consumes a prefix of it.
/// Returns the final result together with how many attempts were made.
/// The live driver sleeps `delay_for_attempt(a)` after each attempt `a`
/// that another attempt follows, so a run of `n` attempts sleeps exactly
/// `n - 1` times; in particular a terminal error on the first attempt
/// sleeps never.
pub fn retry_with_backoff<T, E>(
    operation_outcomes: Vec<Result<(T, bool), E>>,
    config: &RetryConfig,
) -> (r: (Result<T, E>, usize))
    requires
        operation_outcomes@.len() > config.max_retries,
    ensures
        r.0 == retry_outcome(operation_outcomes@, config.max_retries as nat),
        r.1 == final_attempt(operation_outcomes@, 0, config.max_retries as nat) + 1,
{
    let mut idx: usize = 0;
    while idx < config.max_retries
        invariant_except_break
            idx <= config.max_retries,
            operation_outcomes@.len() > config.max_retries,
            forall|j: int| 0 <= j < idx ==> !attempt_halts(#[trigger] operation_outcomes@[j]),
        ensures
            idx <= config.max_retries,
            operation_outcomes@.len() > config.max_retries,
            forall|j: int| 0 <= j < idx ==> !attempt_halts(#[trigger] operation_outcomes@[j]),
            idx == config.max_retries || attempt_halts(operation_outcomes@[idx as int]),
        decreases config.max_retries - idx,
    {
        if outcome_halts(&operation_outcomes[idx]) {
            break ;
        }
        idx = idx + 1;
    }
    proof {
        lemma_final_attempt_found(
            operation_outcomes@,
            0,
            idx as nat,
            config.max_retries as nat,
        );
    }
    let mut outcomes = operation_outcomes;
    let total = outcomes.len();
    proof {
        assert(idx < total);
    }
    let outcome = outcomes.remove(idx);
    match outcome {
        Ok((value, _)) => (Ok(value), idx + 1),
        Err(e) => (Err(e), idx + 1),
    }
}

/// An operation that reports completion without requesting a retry on its
/// first attempt is consulted exactly once, and its value is returned.
pub proof fn lemma_retry_stops_on_first_success<T, E>(
    outcomes: Seq<Result<(T, bool), E>>,
    max_retries: nat,
)
    requires
        outcomes.len() > max_retries,
        outcomes[0] is Ok,
        !outcomes[0]->Ok_0.1,
    ensures
        final_attempt(outcomes, 0, max_retries) == 0,
        retry_outcome(outcomes, max_retries) == Ok::<T, E>(outcomes[0]->Ok_0.0),
{
}

/// An operation that requests a retry on every attempt is consulted
/// exactly `max_retries + 1` times, and the last attempt's value is
/// returned without error: spending the budget is not itself a failure.
pub proof fn lemma_retry_exhausts_budget<T, E>(
    outcomes: Seq<Result<(T, bool), E>>,
    max_retries: nat,
)
    requires
        outcomes.len() > max_retries,
        forall|i: int|
            0 <= i <= max_retries ==> (#[trigger] outcomes[i]) is Ok && outcomes[i]->Ok_0.1,
    ensures
        final_attempt(outcomes, 0, max_retries) == max_retries,
        retry_outcome(outcomes, max_retries) == Ok::<T, E>(
            outcomes[max_retries as int]->Ok_0.0,
        ),
{
    lemma_no_halt_runs_to_budget(outcomes, 0, max_retries);
}

/// An operation whose first attempt raises a terminal error is consulted
/// exactly once and the error is returned; one attempt means no backoff
/// sleep at all.
pub proof fn lemma_retry_short_circuits_on_error<T, E>(
    outcomes: Seq<Result<(T, bool), E>>,
    max_retries: nat,
)
    requires
        outcomes.len() > max_retries,
        outcomes[0] is Err,
    ensures
        final_attempt(outcomes, 0, max_retries) == 0,
        retry_outcome(outcomes, max_retries) == Err::<T, E>(outcomes[0]->Err_0),
{
}

/// A scan that meets no halting outcome before the budget line stops on
/// the budget line itself.
proof fn lemma_no_halt_runs_to_budget<T, E>(
    outcomes: Seq<Result<(T, bool), E>>,
    from: nat,
    max_retries: nat,
)
    requires
        from <= max_retries,
        outcomes.len() > max_retries,
        forall|i: int|
            from <= i < max_retries ==> !attempt_halts(#[trigger] outcomes[i]),
    ensures
        final_attempt(outcomes, from, max_retries) == max_retries,
    decreases max_retries - from,
{
    if from < max_retries {
        lemma_no_halt_runs_to_budget(outcomes, from + 1, max_retries);
    }
}

} // verus!
