//! Session usage metering: admission checks against per-session limits and
//! recording of actual usage.

use vstd::prelude::*;
use crate::strmap::StrMap;

verus! {

/// Token and request counts of one session.
#[derive(Clone, Copy, Debug, Default, PartialEq, Eq)]
pub struct SessionUsage {
    pub input_tokens: u64,
    pub output_tokens: u64,
    pub requests: u64,
}

/// Per-session limits (absent = unlimited) and the billing currency.
#[derive(Clone, Debug, PartialEq, Eq)]
pub struct MeterConfig {
    pub session_token_limit: Option<u64>,
    pub session_request_limit: Option<u64>,
    pub currency: String,
}

/// Which limit a request would exceed.
#[derive(Clone, Copy, Debug, PartialEq, Eq, Structural)]
pub enum MeterRejectReason {
    SessionTokenLimitExceeded,
    SessionRequestLimitExceeded,
}

/// Whether a request may proceed.
#[derive(Clone, Copy, Debug, PartialEq, Eq, Structural)]
pub enum MeterVerdict {
    Allow,
    Reject(MeterRejectReason),
}

/// `a + b`, saturating at `u64::MAX`.
pub open spec fn sat_add(a: u64, b: u64) -> u64 {
    if a + b <= u64::MAX { (a + b) as u64 } else { u64::MAX }
}

/// The usage of a session, all zero when it has none yet.
pub open spec fn usage_of(sessions: Map<Seq<char>, SessionUsage>, id: Seq<char>) -> SessionUsage {
    if sessions.contains_key(id) {
        sessions[id]
    } else {
        SessionUsage { input_tokens: 0, output_tokens: 0, requests: 0 }
    }
}

/// The usage after one more request with the given tokens (saturating).
pub open spec fn after_request(u: SessionUsage, input_tokens: u64, output_tokens: u64) -> SessionUsage {
    SessionUsage {
        input_tokens: sat_add(u.input_tokens, input_tokens),
        output_tokens: sat_add(u.output_tokens, output_tokens),
        requests: sat_add(u.requests, 1),
    }
}

/// The verdict for a request with the predicted tokens: rejected when the
/// session's tokens would exceed the token limit (checked first), or its
/// requests the request limit.
pub open spec fn verdict_for(cfg: MeterConfig, u: SessionUsage, input_tokens: u64, output_tokens: u64) -> MeterVerdict {
    let next = after_request(u, input_tokens, output_tokens);
    if cfg.session_token_limit matches Some(limit) && sat_add(next.input_tokens, next.output_tokens) > limit {
        MeterVerdict::Reject(MeterRejectReason::SessionTokenLimitExceeded)
    } else if cfg.session_request_limit matches Some(limit) && next.requests > limit {
        MeterVerdict::Reject(MeterRejectReason::SessionRequestLimitExceeded)
    } else {
        MeterVerdict::Allow
    }
}

/// Usage per session id.
#[derive(Debug)]
pub struct UsageMeter {
    sessions: StrMap<SessionUsage>,
}

impl View for UsageMeter {
    type V = Map<Seq<char>, SessionUsage>;

    closed spec fn view(&self) -> Map<Seq<char>, SessionUsage> {
        self.sessions@
    }
}

impl UsageMeter {
    /// A meter with no sessions.
    pub fn new() -> (m: Self)
        ensures
            m@ == Map::<Seq<char>, SessionUsage>::empty(),
    {
        UsageMeter { sessions: StrMap::new() }
    }

    /// The usage recorded for a session, if any.
    pub fn get_session_usage(&self, session_id: &str) -> (r: Option<&SessionUsage>)
        ensures
            r matches Some(u) ==> self@.contains_key(session_id@) && *u == self@[session_id@],
            r is None <==> !self@.contains_key(session_id@),
    {
        self.sessions.get(session_id)
    }

    /// Whether a request with the predicted tokens would stay within the
    /// session's limits; nothing is recorded.
    pub fn preview_request(
        &self,
        session_id: &str,
        cfg: &MeterConfig,
        predicted_input_tokens: u64,
        predicted_output_tokens: u64,
    ) -> (v: MeterVerdict)
        ensures
            v == verdict_for(*cfg, usage_of(self@, session_id@), predicted_input_tokens, predicted_output_tokens),
    {
        let current: SessionUsage = match self.sessions.get(session_id) {
            Some(u) => *u,
            None => SessionUsage { input_tokens: 0, output_tokens: 0, requests: 0 },
        };
        let next_input = current.input_tokens.saturating_add(predicted_input_tokens);
        let next_output = current.output_tokens.saturating_add(predicted_output_tokens);
        let next_requests = current.requests.saturating_add(1);
        if let Some(limit) = cfg.session_token_limit {
            if next_input.saturating_add(next_output) > limit {
                return MeterVerdict::Reject(MeterRejectReason::SessionTokenLimitExceeded);
            }
        }
        if let Some(limit) = cfg.session_request_limit {
            if next_requests > limit {
                return MeterVerdict::Reject(MeterRejectReason::SessionRequestLimitExceeded);
            }
        }
        MeterVerdict::Allow
    }

    /// Records a request's actual tokens (saturating) and returns the
    /// session's new usage.
    pub fn record_request(&mut self, session_id: &str, input_tokens: u64, output_tokens: u64) -> (u: SessionUsage)
        ensures
            u == after_request(usage_of(old(self)@, session_id@), input_tokens, output_tokens),
            final(self)@ == old(self)@.insert(session_id@, u),
    {
        let current: SessionUsage = match self.sessions.get(session_id) {
            Some(u) => *u,
            None => SessionUsage { input_tokens: 0, output_tokens: 0, requests: 0 },
        };
        let next = SessionUsage {
            input_tokens: current.input_tokens.saturating_add(input_tokens),
            output_tokens: current.output_tokens.saturating_add(output_tokens),
            requests: current.requests.saturating_add(1),
        };
        self.sessions.insert(String::from_str(session_id), next);
        next
    }
}

/// Law of admission: when a request is previewed as allowed and then
/// recorded with the same token counts, the session stays within its limits.
pub proof fn preview_then_record_law(
    cfg: MeterConfig,
    sessions: Map<Seq<char>, SessionUsage>,
    id: Seq<char>,
    input_tokens: u64,
    output_tokens: u64,
)
    requires
        verdict_for(cfg, usage_of(sessions, id), input_tokens, output_tokens) == MeterVerdict::Allow,
    ensures
        ({
            let u = after_request(usage_of(sessions, id), input_tokens, output_tokens);
            &&& cfg.session_token_limit matches Some(limit) ==> sat_add(u.input_tokens, u.output_tokens) <= limit
            &&& cfg.session_request_limit matches Some(limit) ==> u.requests <= limit
        }),
{
}

} // verus!
