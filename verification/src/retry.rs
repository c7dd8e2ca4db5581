//! Retry policy: exponential backoff with jitter, a retry budget, an optional
//! fallback provider and a circuit breaker.

use vstd::prelude::*;
use std::time::Instant;

verus! {

/// A point in monotonic time (std's `Instant`), carried opaquely.
#[verifier::external_type_specification]
#[verifier::external_body]
pub struct ExInstant(Instant);

/// Reads the monotonic clock (`Instant::now`). Nothing is claimed of the value.
#[verifier::external_body]
fn instant_now() -> (t: Instant) {
    Instant::now()
}

/// Whole milliseconds elapsed since `t` (`t.elapsed().as_millis()`).
/// Nothing is claimed of the value: it depends on the clock.
#[verifier::external_body]
fn elapsed_millis(t: &Instant) -> (ms: u128) {
    t.elapsed().as_millis()
}

/// A uniformly drawn integer in `lo..=hi` (`fastrand::i64`).
/// Claimed: the result lies in the range; which value comes out is chance.
#[verifier::external_body]
fn random_i64_in(lo: i64, hi: i64) -> (r: i64)
    requires
        lo <= hi,
    ensures
        lo <= r <= hi,
{
    fastrand::i64(lo..=hi)
}

/// When the circuit opens and how it recovers.
#[derive(Clone, Debug, PartialEq, Eq)]
pub struct CircuitBreakerConfig {
    /// Consecutive failures that open the circuit.
    pub failure_threshold: usize,
    /// How long an open circuit refuses attempts, in milliseconds.
    pub open_ms: u64,
    /// Attempts let through once the open period has passed.
    pub half_open_max_attempts: usize,
}

/// Retry settings. The jitter ratio is held in parts per million
/// (200_000 is a ratio of 0.2: a random factor in `[0.8, 1.2]`).
#[derive(Clone, Debug, PartialEq, Eq)]
pub struct RetryConfig {
    pub max_attempts: usize,
    pub backoff_ms: u64,
    pub max_backoff_ms: Option<u64>,
    pub fallback_provider: Option<String>,
    pub circuit_breaker: Option<CircuitBreakerConfig>,
    pub jitter_ppm: u64,
}

/// The jitter of a configuration that does not name one: 0.2.
pub fn default_jitter_ppm() -> (p: u64)
    ensures
        p == 200_000,
{
    200_000
}

/// What to do after a failed attempt.
#[derive(Clone, Debug, PartialEq, Eq)]
pub enum AttemptDecision {
    /// Retry after this many milliseconds.
    RetryAfter(u64),
    /// Give up on this provider and use another.
    Fallback { provider: String },
    /// Give up.
    Stop,
}

/// `min(x, y)`.
pub open spec fn min_int(x: int, y: int) -> int {
    if x <= y { x } else { y }
}

/// `2^e`.
pub open spec fn pow2(e: nat) -> nat
    decreases e,
{
    if e == 0 { 1 } else { 2 * pow2((e - 1) as nat) }
}

/// The backoff before jitter: `backoff_ms * 2^min(attempt, 20)`, saturated
/// at `u64::MAX`, then capped by `max_backoff_ms`.
pub open spec fn base_backoff(cfg: RetryConfig, attempt_index: int) -> int {
    let grown = min_int(cfg.backoff_ms * pow2(min_int(attempt_index, 20) as nat), u64::MAX as int);
    match cfg.max_backoff_ms {
        Some(m) => min_int(grown, m as int),
        None => grown,
    }
}

/// The jitter bound for a backoff: `backoff * ratio`, rounded down, at most `i64::MAX`.
pub open spec fn jitter_range(backoff: int, jitter_ppm: u64) -> int {
    min_int(backoff * jitter_ppm / 1_000_000, i64::MAX as int)
}

/// `x` clamped into `0..=u64::MAX`.
pub open spec fn clamp_u64(x: int) -> int {
    if x < 0 { 0 } else if x > u64::MAX { u64::MAX as int } else { x }
}

/// A backoff of `ms` is what `compute_backoff` may return for this attempt:
/// exactly the base backoff without jitter, else the base moved by some
/// jitter within the range and clamped.
pub open spec fn backoff_allowed(cfg: RetryConfig, attempt_index: int, ms: u64) -> bool {
    let base = base_backoff(cfg, attempt_index);
    if cfg.jitter_ppm == 0 {
        ms == base
    } else {
        exists|j: int| -jitter_range(base, cfg.jitter_ppm) <= j <= jitter_range(base, cfg.jitter_ppm)
            && ms == #[trigger] clamp_u64(base + j)
    }
}

fn saturating_mul_u64(a: u64, b: u64) -> (r: u64)
    ensures
        r == min_int(a * b, u64::MAX as int),
{
    assert(0 <= (a as int) * (b as int) <= 0xffff_ffff_ffff_ffff * 0xffff_ffff_ffff_ffff) by (nonlinear_arith)
        requires 0 <= a <= 0xffff_ffff_ffff_ffff, 0 <= b <= 0xffff_ffff_ffff_ffff;
    let wide: u128 = (a as u128) * (b as u128);
    if wide > u64::MAX as u128 {
        u64::MAX
    } else {
        wide as u64
    }
}

fn pow2_exec(e: u32) -> (r: u64)
    requires
        e <= 20,
    ensures
        r == pow2(e as nat),
{
    let mut r: u64 = 1;
    let mut i: u32 = 0;
    while i < e
        invariant
            i <= e <= 20,
            r == pow2(i as nat),
            r <= 1_048_576,
        decreases e - i,
    {
        assert(pow2((i + 1) as nat) == 2 * pow2(i as nat));
        proof {
            if i < 20 {
                lemma_pow2_le(i as nat);
            }
        }
        r = r * 2;
        i = i + 1;
    }
    r
}

proof fn lemma_pow2_mono(e1: nat, e2: nat)
    requires
        e1 <= e2,
    ensures
        pow2(e1) <= pow2(e2),
    decreases e2,
{
    if e1 < e2 {
        lemma_pow2_mono(e1, (e2 - 1) as nat);
    }
}

proof fn lemma_pow2_le(e: nat)
    requires
        e < 20,
    ensures
        pow2(e) <= 524_288,
{
    lemma_pow2_mono(e, 19);
    reveal_with_fuel(pow2, 20);
}

/// A base backoff moved by `jitter` milliseconds, clamped into `0..=u64::MAX`.
pub fn apply_jitter(base: u64, jitter: i64) -> (ms: u64)
    ensures
        ms == clamp_u64(base + jitter),
{
    let moved: i128 = base as i128 + jitter as i128;
    if moved < 0 {
        0
    } else if moved > u64::MAX as i128 {
        u64::MAX
    } else {
        moved as u64
    }
}

fn jitter_range_exec(backoff: u64, jitter_ppm: u64) -> (r: i64)
    ensures
        r == jitter_range(backoff as int, jitter_ppm),
        r >= 0,
{
    assert(0 <= (backoff as int) * (jitter_ppm as int) <= 0xffff_ffff_ffff_ffff * 0xffff_ffff_ffff_ffff) by (nonlinear_arith)
        requires 0 <= backoff <= 0xffff_ffff_ffff_ffff, 0 <= jitter_ppm <= 0xffff_ffff_ffff_ffff;
    let wide: u128 = (backoff as u128) * (jitter_ppm as u128);
    let scaled: u128 = wide / 1_000_000;
    if scaled > i64::MAX as u128 {
        i64::MAX
    } else {
        scaled as i64
    }
}

/// The backoff before retrying after attempt `attempt_index`, with jitter
/// drawn at random when the configuration asks for it.
pub fn compute_backoff(cfg: &RetryConfig, attempt_index: usize) -> (ms: u64)
    ensures
        backoff_allowed(*cfg, attempt_index as int, ms),
{
    let e: u32 = if attempt_index < 20 { attempt_index as u32 } else { 20 };
    let factor = pow2_exec(e);
    let mut backoff = saturating_mul_u64(cfg.backoff_ms, factor);
    match cfg.max_backoff_ms {
        Some(m) => {
            if m < backoff {
                backoff = m;
            }
        },
        None => {},
    }
    assert(backoff == base_backoff(*cfg, attempt_index as int));
    if cfg.jitter_ppm > 0 {
        let range = jitter_range_exec(backoff, cfg.jitter_ppm);
        let jitter = random_i64_in(-range, range);
        let ms = apply_jitter(backoff, jitter);
        assert(clamp_u64(backoff + jitter) == ms);
        ms
    } else {
        backoff
    }
}

/// The decision when no retry is left: the fallback provider if there is
/// one, else stop.
pub open spec fn give_up(cfg: RetryConfig) -> AttemptDecision {
    match cfg.fallback_provider {
        Some(p) => AttemptDecision::Fallback { provider: p },
        None => AttemptDecision::Stop,
    }
}

fn maybe_fallback_or_stop(cfg: &RetryConfig) -> (d: AttemptDecision)
    ensures
        d == give_up(*cfg),
{
    match &cfg.fallback_provider {
        Some(provider) => AttemptDecision::Fallback { provider: provider.clone() },
        None => AttemptDecision::Stop,
    }
}

/// Failure bookkeeping for one request's attempts.
#[derive(Clone, Debug)]
pub struct RetryState {
    consecutive_failures: usize,
    circuit_opened_at: Option<Instant>,
    half_open_attempts: usize,
}

/// What a retry state records: the failure streak, whether the circuit is
/// open, and the attempts let through since the open period passed.
#[derive(PartialEq, Eq)]
pub struct RetryStateView {
    pub consecutive_failures: usize,
    pub circuit_open: bool,
    pub half_open_attempts: usize,
}

impl View for RetryState {
    type V = RetryStateView;

    closed spec fn view(&self) -> RetryStateView {
        RetryStateView {
            consecutive_failures: self.consecutive_failures,
            circuit_open: self.circuit_opened_at is Some,
            half_open_attempts: self.half_open_attempts,
        }
    }
}

/// The circuit refuses this attempt: it is open and either its open period
/// has not passed or its half-open attempts are used up.
pub open spec fn circuit_refuses(cfg: RetryConfig, s: RetryStateView, elapsed_ms: u128) -> bool {
    match cfg.circuit_breaker {
        Some(cb) => s.circuit_open && (elapsed_ms < cb.open_ms || s.half_open_attempts >= cb.half_open_max_attempts),
        None => false,
    }
}

/// The circuit lets this attempt through as a half-open probe.
pub open spec fn half_open_probe(cfg: RetryConfig, s: RetryStateView, elapsed_ms: u128) -> bool {
    cfg.circuit_breaker is Some && s.circuit_open && !circuit_refuses(cfg, s, elapsed_ms)
}

/// `x + 1`, saturating at `usize::MAX`.
pub open spec fn sat_inc(x: usize) -> usize {
    if x == usize::MAX { x } else { (x + 1) as usize }
}

/// The state after a failure: the streak grows by one (saturating), and a
/// closed circuit opens once the streak reaches the breaker's threshold.
pub open spec fn after_failure(cfg: RetryConfig, s: RetryStateView) -> RetryStateView {
    let streak = sat_inc(s.consecutive_failures);
    let opens = cfg.circuit_breaker matches Some(cb) && streak >= cb.failure_threshold && !s.circuit_open;
    RetryStateView {
        consecutive_failures: streak,
        circuit_open: s.circuit_open || opens,
        half_open_attempts: if opens { 0 } else { s.half_open_attempts },
    }
}

impl Default for RetryState {
    fn default() -> (s: Self)
        ensures
            s@.consecutive_failures == 0 && !s@.circuit_open && s@.half_open_attempts == 0,
    {
        RetryState { consecutive_failures: 0, circuit_opened_at: None, half_open_attempts: 0 }
    }
}

impl RetryState {
    /// A success closes the circuit and clears the failure streak.
    pub fn on_success(&mut self)
        ensures
            final(self)@.consecutive_failures == 0,
            !final(self)@.circuit_open,
            final(self)@.half_open_attempts == 0,
    {
        self.consecutive_failures = 0;
        self.circuit_opened_at = None;
        self.half_open_attempts = 0;
    }

    /// A failure lengthens the streak; reaching the breaker's threshold opens
    /// a closed circuit (now) with no half-open attempts used.
    pub fn on_failure(&mut self, cfg: &RetryConfig)
        ensures
            final(self)@ == after_failure(*cfg, old(self)@),
    {
        self.consecutive_failures = self.consecutive_failures.saturating_add(1);
        match &cfg.circuit_breaker {
            Some(cb) => {
                if self.consecutive_failures >= cb.failure_threshold && self.circuit_opened_at.is_none() {
                    self.circuit_opened_at = Some(instant_now());
                    self.half_open_attempts = 0;
                }
            },
            None => {},
        }
    }
}

/// `d` and the state `after` are the outcome of deciding attempt
/// `attempt_index` from state `before`, the circuit having opened
/// `elapsed_ms` milliseconds ago: a refused attempt gives up and changes
/// nothing; otherwise a half-open probe is counted, an attempt past the
/// budget gives up, and any other attempt is retried after the backoff.
pub open spec fn decided(
    cfg: RetryConfig,
    before: RetryStateView,
    after: RetryStateView,
    attempt_index: int,
    elapsed_ms: u128,
    d: AttemptDecision,
) -> bool {
    if circuit_refuses(cfg, before, elapsed_ms) {
        d == give_up(cfg) && after == before
    } else {
        &&& after.consecutive_failures == before.consecutive_failures
        &&& after.circuit_open == before.circuit_open
        &&& after.half_open_attempts == if half_open_probe(cfg, before, elapsed_ms) {
                sat_inc(before.half_open_attempts)
            } else {
                before.half_open_attempts
            }
        &&& attempt_index + 1 >= cfg.max_attempts ==> d == give_up(cfg)
        &&& attempt_index + 1 < cfg.max_attempts ==> (d matches AttemptDecision::RetryAfter(ms)
                && backoff_allowed(cfg, attempt_index, ms))
    }
}

/// The decision for attempt `attempt_index` when the circuit opened
/// `elapsed_ms` milliseconds ago (ignored while the circuit is closed).
pub fn next_decision_after(state: &mut RetryState, cfg: &RetryConfig, attempt_index: usize, elapsed_ms: u128) -> (d: AttemptDecision)
    ensures
        decided(*cfg, old(state)@, final(state)@, attempt_index as int, elapsed_ms, d),
{
    match &cfg.circuit_breaker {
        Some(cb) => {
            if self_open(state) {
                if elapsed_ms < cb.open_ms as u128 {
                    return maybe_fallback_or_stop(cfg);
                }
                if state.half_open_attempts >= cb.half_open_max_attempts {
                    return maybe_fallback_or_stop(cfg);
                }
                state.half_open_attempts = state.half_open_attempts.saturating_add(1);
            }
        },
        None => {},
    }
    if attempt_index >= cfg.max_attempts.saturating_sub(1) {
        return maybe_fallback_or_stop(cfg);
    }
    AttemptDecision::RetryAfter(compute_backoff(cfg, attempt_index))
}

fn self_open(state: &RetryState) -> (b: bool)
    ensures
        b == state@.circuit_open,
{
    state.circuit_opened_at.is_some()
}

/// The decision for attempt `attempt_index`, reading how long the circuit
/// has been open from the clock: it is the decision for some elapsed time.
pub fn next_decision(state: &mut RetryState, cfg: &RetryConfig, attempt_index: usize) -> (d: AttemptDecision)
    ensures
        exists|elapsed_ms: u128| #[trigger] decided(*cfg, old(state)@, final(state)@, attempt_index as int, elapsed_ms, d),
{
    let elapsed: u128 = match &state.circuit_opened_at {
        Some(t) => elapsed_millis(t),
        None => 0,
    };
    next_decision_after(state, cfg, attempt_index, elapsed)
}

/// Without jitter, the backoff never exceeds the configured maximum.
pub proof fn backoff_respects_cap(cfg: RetryConfig, attempt_index: int)
    requires
        cfg.max_backoff_ms is Some,
    ensures
        base_backoff(cfg, attempt_index) <= cfg.max_backoff_ms.unwrap(),
{
}

/// The backoff never shrinks from one attempt to the next.
pub proof fn backoff_never_shrinks(cfg: RetryConfig, attempt_index: int)
    requires
        0 <= attempt_index,
    ensures
        base_backoff(cfg, attempt_index) <= base_backoff(cfg, attempt_index + 1),
{
    let e1 = min_int(attempt_index, 20) as nat;
    let e2 = min_int(attempt_index + 1, 20) as nat;
    lemma_pow2_mono(e1, e2);
    assert(cfg.backoff_ms * pow2(e1) <= cfg.backoff_ms * pow2(e2)) by (nonlinear_arith)
        requires pow2(e1) <= pow2(e2), 0 <= cfg.backoff_ms;
}

/// Below the cap, each further attempt doubles the backoff.
pub proof fn backoff_doubles(cfg: RetryConfig, attempt_index: int)
    requires
        0 <= attempt_index < 20,
        cfg.max_backoff_ms is None,
        cfg.backoff_ms * pow2((attempt_index + 1) as nat) <= u64::MAX,
    ensures
        base_backoff(cfg, attempt_index + 1) == 2 * base_backoff(cfg, attempt_index),
{
    assert(pow2((attempt_index + 1) as nat) == 2 * pow2(attempt_index as nat));
    assert(cfg.backoff_ms * (2 * pow2(attempt_index as nat)) == 2 * (cfg.backoff_ms * pow2(attempt_index as nat))) by (nonlinear_arith);
}

/// A jittered backoff lies within the jitter range of the base backoff.
pub proof fn jitter_stays_in_range(cfg: RetryConfig, attempt_index: int, ms: u64)
    requires
        backoff_allowed(cfg, attempt_index, ms),
    ensures
        base_backoff(cfg, attempt_index) - jitter_range(base_backoff(cfg, attempt_index), cfg.jitter_ppm) <= ms,
        ms <= base_backoff(cfg, attempt_index) + jitter_range(base_backoff(cfg, attempt_index), cfg.jitter_ppm),
{
    let base = base_backoff(cfg, attempt_index);
    assert(0 <= base);
    assert(0 <= base * cfg.jitter_ppm) by (nonlinear_arith) requires 0 <= base, 0 <= cfg.jitter_ppm;
    if cfg.jitter_ppm != 0 {
        let j = choose|j: int| -jitter_range(base, cfg.jitter_ppm) <= j <= jitter_range(base, cfg.jitter_ppm)
            && ms == #[trigger] clamp_u64(base + j);
        assert(base <= u64::MAX);
    }
}

/// Once failures reach the breaker's threshold, an attempt within the open
/// period is not retried: it falls back or stops, and the state stays as the
/// failure left it.
pub proof fn open_circuit_gives_up(
    cfg: RetryConfig,
    s: RetryStateView,
    after: RetryStateView,
    attempt_index: int,
    elapsed_ms: u128,
    d: AttemptDecision,
)
    requires
        cfg.circuit_breaker matches Some(cb) && sat_inc(s.consecutive_failures) >= cb.failure_threshold
            && elapsed_ms < cb.open_ms,
        decided(cfg, after_failure(cfg, s), after, attempt_index, elapsed_ms, d),
    ensures
        d == give_up(cfg),
        after == after_failure(cfg, s),
{
}

} // verus!
