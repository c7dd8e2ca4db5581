//! Identity: billing subjects, idempotency keys and correlation ids.

use vstd::prelude::*;
use vstd::string::*;
use crate::text::{decimal, push_decimal};

verus! {

/// Who is billed: every level is optional.
#[derive(Clone, Debug, PartialEq, Eq)]
pub struct BillingSubject {
    pub tenant_id: Option<String>,
    pub org_id: Option<String>,
    pub project_id: Option<String>,
    pub api_key_id: Option<String>,
    pub end_user_id: Option<String>,
    pub feature: Option<String>,
}

impl Default for BillingSubject {
    fn default() -> (s: Self)
        ensures
            s.tenant_id is None && s.org_id is None && s.project_id is None
                && s.api_key_id is None && s.end_user_id is None && s.feature is None,
    {
        BillingSubject {
            tenant_id: None,
            org_id: None,
            project_id: None,
            api_key_id: None,
            end_user_id: None,
            feature: None,
        }
    }
}

/// The idempotency key of a usage observation.
#[derive(Clone, Debug, PartialEq, Eq)]
pub struct UsageEventId {
    pub idempotency_key: String,
}

/// Why an idempotency key could not be built.
#[derive(Clone, Copy, Debug, PartialEq, Eq)]
pub enum UsageEventIdError {
    InvalidAttemptIndex(i32),
}

/// The key for one attempt: `"{request_id}:{attempt_index}:{provider_id}"`.
pub open spec fn attempt_key(request_id: Seq<char>, attempt_index: int, provider_id: Seq<char>) -> Seq<char> {
    request_id + ":"@ + decimal(attempt_index as nat) + ":"@ + provider_id
}

fn attempt_key_exec(request_id: &str, attempt_index: i32, provider_id: &str) -> (s: String)
    requires
        attempt_index >= 0,
    ensures
        s@ == attempt_key(request_id@, attempt_index as int, provider_id@),
{
    let mut s = String::from_str(request_id);
    s.append(":");
    push_decimal(&mut s, attempt_index as u64);
    s.append(":");
    s.append(provider_id);
    s
}

impl UsageEventId {
    /// The key for one attempt of a request at a provider; a negative attempt
    /// index is refused.
    pub fn from_attempt(request_id: &str, attempt_index: i32, provider_id: &str) -> (r: Result<Self, UsageEventIdError>)
        ensures
            attempt_index < 0 <==> r is Err,
            r matches Err(e) ==> e == UsageEventIdError::InvalidAttemptIndex(attempt_index),
            r matches Ok(id) ==> id.idempotency_key@ == attempt_key(request_id@, attempt_index as int, provider_id@),
    {
        if attempt_index < 0 {
            return Err(UsageEventIdError::InvalidAttemptIndex(attempt_index));
        }
        Ok(UsageEventId { idempotency_key: attempt_key_exec(request_id, attempt_index, provider_id) })
    }

    /// A key chosen by the caller.
    pub fn from_raw(key: &str) -> (id: Self)
        ensures
            id.idempotency_key@ == key@,
    {
        UsageEventId { idempotency_key: String::from_str(key) }
    }
}

/// Builds keys with optional step and phase parts.
pub struct UsageEventIdBuilder {
    request_id: String,
    attempt_index: i32,
    provider_id: String,
    step_id: Option<String>,
    phase: Option<String>,
}

/// The parts that a builder holds.
pub struct UsageEventIdBuilderView {
    pub request_id: Seq<char>,
    pub attempt_index: i32,
    pub provider_id: Seq<char>,
    pub step_id: Option<Seq<char>>,
    pub phase: Option<Seq<char>>,
}

/// The view of an optional string.
pub open spec fn opt_view(o: Option<String>) -> Option<Seq<char>> {
    match o {
        Some(s) => Some(s@),
        None => None,
    }
}

impl View for UsageEventIdBuilder {
    type V = UsageEventIdBuilderView;

    closed spec fn view(&self) -> UsageEventIdBuilderView {
        UsageEventIdBuilderView {
            request_id: self.request_id@,
            attempt_index: self.attempt_index,
            provider_id: self.provider_id@,
            step_id: opt_view(self.step_id),
            phase: opt_view(self.phase),
        }
    }
}

/// `":" + part` when the part is present.
pub open spec fn optional_part(p: Option<Seq<char>>) -> Seq<char> {
    match p {
        Some(s) => ":"@ + s,
        None => Seq::empty(),
    }
}

/// The key a builder produces: the attempt key, then the step, then the phase.
pub open spec fn built_key(b: UsageEventIdBuilderView) -> Seq<char> {
    attempt_key(b.request_id, b.attempt_index as int, b.provider_id) + optional_part(b.step_id) + optional_part(b.phase)
}

impl UsageEventIdBuilder {
    /// A builder with the required parts and no step or phase.
    pub fn new(request_id: &str, attempt_index: i32, provider_id: &str) -> (b: Self)
        ensures
            b@ == (UsageEventIdBuilderView {
                request_id: request_id@,
                attempt_index,
                provider_id: provider_id@,
                step_id: None,
                phase: None,
            }),
    {
        UsageEventIdBuilder {
            request_id: String::from_str(request_id),
            attempt_index,
            provider_id: String::from_str(provider_id),
            step_id: None,
            phase: None,
        }
    }

    /// Sets the step part.
    pub fn step_id(self, id: &str) -> (b: Self)
        ensures
            b@ == (UsageEventIdBuilderView { step_id: Some(id@), ..self@ }),
    {
        UsageEventIdBuilder { step_id: Some(String::from_str(id)), ..self }
    }

    /// Sets the phase part.
    pub fn phase(self, p: &str) -> (b: Self)
        ensures
            b@ == (UsageEventIdBuilderView { phase: Some(p@), ..self@ }),
    {
        UsageEventIdBuilder { phase: Some(String::from_str(p)), ..self }
    }

    /// The key: refused for a negative attempt index.
    pub fn build(self) -> (r: Result<UsageEventId, UsageEventIdError>)
        ensures
            self@.attempt_index < 0 <==> r is Err,
            r matches Err(e) ==> e == UsageEventIdError::InvalidAttemptIndex(self@.attempt_index),
            r matches Ok(id) ==> id.idempotency_key@ == built_key(self@),
    {
        if self.attempt_index < 0 {
            return Err(UsageEventIdError::InvalidAttemptIndex(self.attempt_index));
        }
        let mut key = attempt_key_exec(self.request_id.as_str(), self.attempt_index, self.provider_id.as_str());
        let ghost k0 = key@;
        match &self.step_id {
            Some(s) => {
                key.append(":");
                key.append(s.as_str());
            },
            None => {},
        }
        proof {
            assert(key@ =~= k0 + optional_part(opt_view(self.step_id)));
        }
        let ghost k1 = key@;
        match &self.phase {
            Some(p) => {
                key.append(":");
                key.append(p.as_str());
            },
            None => {},
        }
        proof {
            assert(key@ =~= k1 + optional_part(opt_view(self.phase)));
        }
        Ok(UsageEventId { idempotency_key: key })
    }
}

/// Ids that tie an observation to requests, traces, sessions and runs.
#[derive(Clone, Debug, PartialEq, Eq)]
pub struct CorrelationIds {
    pub request_id: Option<String>,
    pub trace_id: Option<String>,
    pub session_id: Option<String>,
    pub turn_id: Option<String>,
    pub run_id: Option<String>,
    pub step_id: Option<String>,
    pub attempt_index: Option<i32>,
}

impl Default for CorrelationIds {
    fn default() -> (c: Self)
        ensures
            c.request_id is None && c.trace_id is None && c.session_id is None && c.turn_id is None
                && c.run_id is None && c.step_id is None && c.attempt_index is None,
    {
        CorrelationIds {
            request_id: None,
            trace_id: None,
            session_id: None,
            turn_id: None,
            run_id: None,
            step_id: None,
            attempt_index: None,
        }
    }
}

} // verus!
