//! The session gateway: sticky routing of a session to a backend node by the
//! hash of its system prompt, the session's history, and the sweep that keeps
//! idle sessions warm and drops abandoned ones.

use vstd::prelude::*;
use vstd::string::*;
use crate::message::{Message, MessageView, msgs_view, copy_message, RouteTarget};

verus! {

/// The 64-bit XXH3 hash (seed 0) of a byte string.
pub uninterp spec fn xxh3_of(bytes: Seq<u8>) -> u64;

/// Hashes bytes with `xxhash_rust::xxh3::xxh3_64`.
/// Claimed: the result is `xxh3_of` the bytes.
#[verifier::external_body]
fn xxh3_64(input: &[u8]) -> (h: u64)
    ensures
        h == xxh3_of(input@),
{
    xxhash_rust::xxh3::xxh3_64(input)
}

/// A session's identifier.
#[derive(Clone, Debug, PartialEq, Eq, Hash)]
pub struct SessionId(pub String);

impl SessionId {
    /// A session id holding `id`.
    pub fn new(id: &str) -> (s: Self)
        ensures
            s.0@ == id@,
    {
        SessionId(String::from_str(id))
    }

    /// The id's text.
    pub fn as_str(&self) -> (s: &str)
        ensures
            s@ == self.0@,
    {
        self.0.as_str()
    }
}

/// The node a system prompt is routed to: the prompt's hash modulo the
/// number of nodes picks the index.
pub open spec fn target_index(prompt_bytes: Seq<u8>, node_count: nat) -> int {
    (xxh3_of(prompt_bytes) as int) % (node_count as int)
}

/// Routes a system prompt to one of the backend nodes, so that every session
/// with the same prompt lands on the same node (and reuses its prefix cache).
pub fn get_target_node(system_prompt: &str, nodes: &[String]) -> (t: RouteTarget)
    requires
        nodes@.len() > 0,
    ensures
        t matches RouteTarget::BackendUrl(url)
            && url@ == nodes@[target_index(system_prompt.spec_bytes(), nodes@.len())]@,
{
    let hash = xxh3_64(system_prompt.as_bytes());
    let idx = (hash % (nodes.len() as u64)) as usize;
    RouteTarget::BackendUrl(nodes[idx].clone())
}

/// The chat-completions URL of a target: its address followed by
/// `/v1/chat/completions`.
pub fn completions_url(target: &RouteTarget) -> (u: String)
    ensures
        u@ == target_address(*target) + "/v1/chat/completions"@,
{
    let mut u = String::from_str(target.as_str());
    u.append("/v1/chat/completions");
    u
}

/// The address a target carries.
pub open spec fn target_address(t: RouteTarget) -> Seq<char> {
    match t {
        RouteTarget::NamedPool(v) => v@,
        RouteTarget::BackendUrl(v) => v@,
    }
}

/// A session: its id, the node it is pinned to, its message history and the
/// time (seconds since the epoch) it was last active.
#[derive(Debug)]
pub struct Session {
    pub session_id: SessionId,
    pub target_node: RouteTarget,
    pub history: Vec<Message>,
    pub last_active: i64,
}

impl Session {
    /// Opens a session at time `now`: pinned to the node its system prompt
    /// routes to, with the system prompt as its only message.
    pub fn start(session_id: SessionId, system_prompt: &str, nodes: &[String], now: i64) -> (s: Self)
        requires
            nodes@.len() > 0,
        ensures
            s.session_id == session_id,
            s.target_node matches RouteTarget::BackendUrl(url)
                && url@ == nodes@[target_index(system_prompt.spec_bytes(), nodes@.len())]@,
            msgs_view(s.history@) == seq![MessageView { role: "system"@, content: system_prompt@ }],
            s.last_active == now,
    {
        let target_node = get_target_node(system_prompt, nodes);
        let mut history: Vec<Message> = Vec::new();
        history.push(Message::new("system", system_prompt));
        let s = Session { session_id, target_node, history, last_active: now };
        assert(msgs_view(s.history@) =~= seq![MessageView { role: "system"@, content: system_prompt@ }]);
        s
    }

    /// Appends a message to the history and marks the session active at `now`.
    pub fn push_message(&mut self, msg: Message, now: i64)
        ensures
            final(self).history@ == old(self).history@.push(msg),
            final(self).last_active == now,
            final(self).session_id == old(self).session_id,
            final(self).target_node == old(self).target_node,
    {
        self.history.push(msg);
        self.last_active = now;
    }

    /// Marks the session active at `now`, leaving everything else as it was
    /// (as the sweep does when it sends a keep-alive).
    pub fn touch(&mut self, now: i64)
        ensures
            final(self).last_active == now,
            final(self).history@ == old(self).history@,
            final(self).session_id == old(self).session_id,
            final(self).target_node == old(self).target_node,
    {
        self.last_active = now;
    }

    /// A copy of the history, to send to the backend.
    pub fn history_snapshot(&self) -> (h: Vec<Message>)
        ensures
            msgs_view(h@) == msgs_view(self.history@),
    {
        let mut h: Vec<Message> = Vec::new();
        let mut i: usize = 0;
        while i < self.history.len()
            invariant
                i <= self.history@.len(),
                msgs_view(h@) == msgs_view(self.history@.subrange(0, i as int)),
            decreases self.history@.len() - i,
        {
            h.push(copy_message(&self.history[i]));
            proof {
                assert(msgs_view(self.history@.subrange(0, i + 1)) =~= msgs_view(self.history@.subrange(0, i as int)).push(self.history@[i as int]@));
                assert(msgs_view(h@) =~= msgs_view(self.history@.subrange(0, i as int)).push(self.history@[i as int]@));
            }
            i = i + 1;
        }
        assert(self.history@.subrange(0, i as int) =~= self.history@);
        h
    }
}

/// What the sweep does with a session.
#[derive(Clone, Copy, Debug, PartialEq, Eq)]
pub enum GhostAction {
    /// Idle for over an hour: drop the session.
    Remove,
    /// Idle for over fifteen seconds: send a keep-alive and mark it active.
    KeepAlive,
    /// Recently active: leave it.
    Idle,
}

/// Seconds a session may stay idle before it is dropped.
pub open spec fn gc_after_secs() -> int {
    3600
}

/// Seconds a session may stay idle before a keep-alive is sent.
pub open spec fn ping_after_secs() -> int {
    15
}

/// The sweep's rule for a session last active at `last_active`, at `now`.
pub open spec fn ghost_rule(now: i64, last_active: i64) -> GhostAction {
    let idle = now - last_active;
    if idle > gc_after_secs() {
        GhostAction::Remove
    } else if idle > ping_after_secs() {
        GhostAction::KeepAlive
    } else {
        GhostAction::Idle
    }
}

/// What the sweep does, at `now`, with a session last active at `last_active`.
pub fn ghost_action(now: i64, last_active: i64) -> (a: GhostAction)
    ensures
        a == ghost_rule(now, last_active),
{
    let idle: i128 = now as i128 - last_active as i128;
    if idle > 3600 {
        GhostAction::Remove
    } else if idle > 15 {
        GhostAction::KeepAlive
    } else {
        GhostAction::Idle
    }
}

/// The sweep over sessions last active at the given times: one action per
/// session, in order.
pub fn plan_sweep(now: i64, last_active: &[i64]) -> (plan: Vec<GhostAction>)
    ensures
        plan@.len() == last_active@.len(),
        forall|i: int| 0 <= i < last_active@.len() ==> plan@[i] == ghost_rule(now, #[trigger] last_active@[i]),
{
    let mut plan: Vec<GhostAction> = Vec::new();
    let mut i: usize = 0;
    while i < last_active.len()
        invariant
            i <= last_active@.len(),
            plan@.len() == i,
            forall|k: int| 0 <= k < i ==> plan@[k] == ghost_rule(now, #[trigger] last_active@[k]),
        decreases last_active@.len() - i,
    {
        plan.push(ghost_action(now, last_active[i]));
        i = i + 1;
    }
    plan
}

/// A keep-alive marks the session active at the sweep's time, so the next
/// sweep within fifteen seconds leaves it alone instead of pinging again.
pub proof fn keep_alive_not_repeated(now: i64, later: i64)
    requires
        now <= later,
        later - now <= ping_after_secs(),
    ensures
        ghost_rule(later, now) == GhostAction::Idle,
{
}

/// A request to open a session.
#[derive(Clone, Debug, PartialEq, Eq)]
pub struct InitRequest {
    pub system_prompt: String,
}

/// The id of the opened session.
#[derive(Clone, Debug, PartialEq, Eq)]
pub struct InitResponse {
    pub session_id: SessionId,
}

/// A new message for a session.
#[derive(Clone, Debug, PartialEq, Eq)]
pub struct DeltaRequest {
    pub session_id: SessionId,
    pub new_msg: Message,
}

/// The assistant's reply.
#[derive(Clone, Debug, PartialEq, Eq)]
pub struct DeltaResponse {
    pub message: Message,
}

} // verus!
