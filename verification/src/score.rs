//! Endpoint scoring state: observation types, score tiers, the rolling
//! window of observations and the failure streaks that exclude an endpoint.

use vstd::prelude::*;
use std::time::SystemTime;

verus! {

/// A wall-clock time (std's `SystemTime`), carried opaquely.
#[verifier::external_type_specification]
#[verifier::external_body]
pub struct ExSystemTime(SystemTime);

/// Reads the wall clock (`SystemTime::now`). Nothing is claimed of the value.
#[verifier::external_body]
fn system_time_now() -> (t: SystemTime) {
    SystemTime::now()
}

/// A source of the current time, replaceable in tests.
pub trait Clock {
    fn now(&self) -> SystemTime;
}

/// The system's wall clock.
#[derive(Clone, Copy, Debug, Default)]
pub struct SystemClock;

impl Clock for SystemClock {
    fn now(&self) -> SystemTime {
        system_time_now()
    }
}

/// Latency of a request: total, and time to first token when streamed.
#[derive(Clone, Debug, PartialEq, Eq)]
pub struct LatencyBreakdown {
    pub total_ms: u64,
    pub ttft_ms: Option<u64>,
}

/// Token counts of a request.
#[derive(Clone, Debug, PartialEq, Eq)]
pub struct TokenStats {
    pub input: u64,
    pub output: u64,
}

impl Default for TokenStats {
    fn default() -> (t: Self)
        ensures
            t.input == 0 && t.output == 0,
    {
        TokenStats { input: 0, output: 0 }
    }
}

/// How a request failed.
#[derive(Clone, Debug, PartialEq, Eq)]
pub enum ObservationError {
    Timeout,
    HttpStatus(u16),
    ConnectionFailed,
    RateLimited,
    StreamBroken,
    EmptyResponse,
    Truncated,
    MalformedResponse,
    Other(String),
}

/// The tier of an endpoint's score, from worst to best.
#[derive(Clone, Copy, Debug, PartialEq, Eq, PartialOrd, Ord)]
pub enum ScoreTier {
    /// Below 40.
    Poor,
    /// 40 to 69.
    Bronze,
    /// 70 to 89.
    Silver,
    /// 90 and above.
    Gold,
}

/// The rank of a tier: Poor 0, Bronze 1, Silver 2, Gold 3.
pub open spec fn tier_rank(t: ScoreTier) -> int {
    match t {
        ScoreTier::Poor => 0,
        ScoreTier::Bronze => 1,
        ScoreTier::Silver => 2,
        ScoreTier::Gold => 3,
    }
}

impl ScoreTier {
    /// The tier's rank: Poor < Bronze < Silver < Gold.
    pub fn rank(&self) -> (r: u8)
        ensures
            r == tier_rank(*self),
    {
        match self {
            ScoreTier::Poor => 0,
            ScoreTier::Bronze => 1,
            ScoreTier::Silver => 2,
            ScoreTier::Gold => 3,
        }
    }

    /// Whether this tier is strictly worse than `other`.
    pub fn is_below(&self, other: &ScoreTier) -> (b: bool)
        ensures
            b == (tier_rank(*self) < tier_rank(*other)),
    {
        self.rank() < other.rank()
    }
}

/// Consecutive failures of an endpoint, by kind. A streak counts failures of
/// one kind in a row: a failure of the other kind, or of neither, ends it,
/// and a success ends both. Exclusion is read from the current streaks after
/// every observation, so an endpoint is readmitted once its streak is broken.
#[derive(Clone, Copy, Debug, PartialEq, Eq)]
pub struct FailureStreaks {
    pub consecutive_timeouts: u32,
    pub consecutive_stream_breaks: u32,
}

/// Streaks after an observation: a success clears both; a timeout
/// lengthens the timeout streak and clears the stream streak; a broken
/// stream then lengthens the stream streak and clears the timeout streak;
/// a failure that is neither clears both.
pub open spec fn streaks_after(s: FailureStreaks, success: bool, timed_out: bool, stream_broken: bool) -> (int, int) {
    if success {
        (0, 0)
    } else {
        let (t, b) = if timed_out {
            (s.consecutive_timeouts + 1, 0int)
        } else {
            (0int, s.consecutive_stream_breaks as int)
        };
        if stream_broken { (0, b + 1) } else { (t, 0) }
    }
}

/// Failures in a row that exclude an endpoint.
pub open spec fn exclusion_threshold() -> int {
    3
}

/// Why the streaks exclude an endpoint, if they do.
pub open spec fn exclusion_of(s: FailureStreaks) -> Option<Seq<char>> {
    if s.consecutive_timeouts >= exclusion_threshold() {
        Some("consecutive timeouts"@)
    } else if s.consecutive_stream_breaks >= exclusion_threshold() {
        Some("consecutive stream breaks"@)
    } else {
        None
    }
}

impl FailureStreaks {
    /// No failures yet.
    pub fn new() -> (s: Self)
        ensures
            s.consecutive_timeouts == 0 && s.consecutive_stream_breaks == 0,
    {
        FailureStreaks { consecutive_timeouts: 0, consecutive_stream_breaks: 0 }
    }

    /// Updates the streaks with one observation.
    pub fn record(&mut self, success: bool, timed_out: bool, stream_broken: bool)
        requires
            !success && timed_out ==> old(self).consecutive_timeouts < u32::MAX,
            !success && stream_broken && !timed_out ==> old(self).consecutive_stream_breaks < u32::MAX,
        ensures
            (final(self).consecutive_timeouts as int, final(self).consecutive_stream_breaks as int)
                == streaks_after(*old(self), success, timed_out, stream_broken),
    {
        if success {
            self.consecutive_timeouts = 0;
            self.consecutive_stream_breaks = 0;
            return;
        }
        if timed_out {
            self.consecutive_timeouts = self.consecutive_timeouts + 1;
            self.consecutive_stream_breaks = 0;
        } else {
            self.consecutive_timeouts = 0;
        }
        if stream_broken {
            self.consecutive_stream_breaks = self.consecutive_stream_breaks + 1;
            self.consecutive_timeouts = 0;
        } else {
            self.consecutive_stream_breaks = 0;
        }
    }

    /// Why the endpoint is excluded, if it is: three timeouts in a row, else
    /// three broken streams in a row.
    pub fn exclusion(&self) -> (r: Option<&'static str>)
        ensures
            match r {
                Some(m) => exclusion_of(*self) == Some(m@),
                None => exclusion_of(*self) is None,
            },
    {
        if self.consecutive_timeouts >= 3 {
            Some("consecutive timeouts")
        } else if self.consecutive_stream_breaks >= 3 {
            Some("consecutive stream breaks")
        } else {
            None
        }
    }
}

/// The window after adding an observation: the observations in order with
/// the new one last, keeping only the newest `window_size`.
pub open spec fn window_after<T>(w: Seq<T>, obs: T, window_size: nat) -> Seq<T> {
    let all = w.push(obs);
    if all.len() > window_size { all.subrange(all.len() - window_size, all.len() as int) } else { all }
}

/// Appends an observation to a rolling window and drops the oldest ones
/// beyond `window_size`.
pub fn push_to_window<T>(window: &mut Vec<T>, obs: T, window_size: usize)
    ensures
        final(window)@ == window_after(old(window)@, obs, window_size as nat),
{
    window.push(obs);
    let ghost all = window@;
    while window.len() > window_size
        invariant
            all.len() >= window@.len(),
            window@ == all.subrange(all.len() - window@.len(), all.len() as int),
            window@.len() >= window_size || window@ == all,
        decreases window@.len(),
    {
        window.remove(0);
    }
    proof {
        if all.len() > window_size {
            assert(window@.len() == window_size);
        } else {
            assert(window@ =~= all);
        }
    }
}

/// The streaks as a pair of counts.
pub open spec fn streak_counts(s: FailureStreaks) -> (int, int) {
    (s.consecutive_timeouts as int, s.consecutive_stream_breaks as int)
}

/// Three timeouts in a row exclude an endpoint, whatever came before.
pub proof fn three_timeouts_exclude(s0: FailureStreaks, s1: FailureStreaks, s2: FailureStreaks, s3: FailureStreaks)
    requires
        streak_counts(s1) == streaks_after(s0, false, true, false),
        streak_counts(s2) == streaks_after(s1, false, true, false),
        streak_counts(s3) == streaks_after(s2, false, true, false),
    ensures
        exclusion_of(s3) == Some("consecutive timeouts"@),
{
}

/// A success ends every streak, so it lifts any exclusion.
pub proof fn success_lifts_exclusion(s0: FailureStreaks, s1: FailureStreaks, timed_out: bool, stream_broken: bool)
    requires
        streak_counts(s1) == streaks_after(s0, true, timed_out, stream_broken),
    ensures
        exclusion_of(s1) is None,
{
}

} // verus!
