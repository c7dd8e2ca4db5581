//! Prompt-cache planning: which messages receive a cache marker, and applying it.

use vstd::prelude::*;
use vstd::string::*;
use crate::message::{Message, MessageView};

verus! {

/// Which provider's prompt-caching convention applies.
#[derive(Clone, Copy, Debug, PartialEq, Eq, Structural)]
pub enum PromptCacheProvider {
    Off,
    Anthropic,
    OpenAiCompatible,
}

impl Default for PromptCacheProvider {
    fn default() -> (p: Self)
        ensures
            p == PromptCacheProvider::Off,
    {
        PromptCacheProvider::Off
    }
}

/// A cache-control marker (serialized as `{"type": kind}`).
#[derive(Clone, Debug, PartialEq, Eq)]
pub struct CacheControl {
    pub kind: String,
}

/// A message that may carry a cache-control marker.
#[derive(Clone, Debug, PartialEq, Eq)]
pub struct CacheTaggedMessage {
    pub role: String,
    pub content: String,
    pub cache_control: Option<CacheControl>,
}

impl From<Message> for CacheTaggedMessage {
    /// The message with no cache marker.
    fn from(value: Message) -> (t: Self) {
        CacheTaggedMessage { role: value.role, content: value.content, cache_control: None }
    }
}

impl vstd::std_specs::convert::FromSpecImpl<Message> for CacheTaggedMessage {
    open spec fn obeys_from_spec() -> bool {
        true
    }

    open spec fn from_spec(v: Message) -> CacheTaggedMessage {
        CacheTaggedMessage { role: v.role, content: v.content, cache_control: None }
    }
}

/// The plan: which message indexes are to be tagged, for which provider.
#[derive(Clone, Debug, PartialEq, Eq)]
pub struct PromptCachePlan {
    pub provider: PromptCacheProvider,
    pub tagged_indexes: Vec<usize>,
}

/// The roles of a list of role names, as character sequences.
pub open spec fn roles_view(roles: Seq<String>) -> Seq<Seq<char>> {
    roles.map_values(|r: String| r@)
}

/// `roles` holds `role`.
pub open spec fn roles_contain(roles: Seq<Seq<char>>, role: Seq<char>) -> bool {
    roles.contains(role)
}

/// A message that the Anthropic convention tags: its role is one of the
/// cache roles and its content has at least `min_chars` characters.
pub open spec fn cache_eligible(m: MessageView, roles: Seq<Seq<char>>, min_chars: nat) -> bool {
    roles_contain(roles, m.role) && m.content.len() >= min_chars
}

/// The indexes, ascending, of the eligible messages among `msgs`.
pub open spec fn eligible_indexes(msgs: Seq<Message>, roles: Seq<Seq<char>>, min_chars: nat) -> Seq<usize>
    decreases msgs.len(),
{
    if msgs.len() == 0 {
        Seq::empty()
    } else {
        let prev = eligible_indexes(msgs.drop_last(), roles, min_chars);
        if cache_eligible(msgs.last()@, roles, min_chars) {
            prev.push((msgs.len() - 1) as usize)
        } else {
            prev
        }
    }
}

/// Which messages the Anthropic plan tags: an index is tagged exactly when
/// its message's role is one of the cache roles and its content has at least
/// `min_chars` characters (counted as characters, not bytes); the tagged
/// indexes ascend and are in range.
pub proof fn eligible_indexes_law(msgs: Seq<Message>, roles: Seq<Seq<char>>, min_chars: nat)
    requires
        msgs.len() <= usize::MAX,
    ensures
        forall|k: int| 0 <= k < msgs.len() ==>
            (eligible_indexes(msgs, roles, min_chars).contains(k as usize)
                <==> roles.contains(msgs[k].role@) && msgs[k].content@.len() >= min_chars),
        forall|a: int, b: int| 0 <= a < b < eligible_indexes(msgs, roles, min_chars).len() ==>
            eligible_indexes(msgs, roles, min_chars)[a] < eligible_indexes(msgs, roles, min_chars)[b],
        forall|a: int| 0 <= a < eligible_indexes(msgs, roles, min_chars).len() ==>
            eligible_indexes(msgs, roles, min_chars)[a] < msgs.len(),
    decreases msgs.len(),
{
    if msgs.len() > 0 {
        let prev = msgs.drop_last();
        eligible_indexes_law(prev, roles, min_chars);
        let e = eligible_indexes(msgs, roles, min_chars);
        let pe = eligible_indexes(prev, roles, min_chars);
        let last = (msgs.len() - 1) as usize;
        assert(last == msgs.len() - 1);
        let here = cache_eligible(msgs.last()@, roles, min_chars);
        if here {
            assert(e == pe.push(last));
        } else {
            assert(e == pe);
        }
        assert forall|a: int| 0 <= a < pe.len() implies pe[a] < last by {}
        assert forall|k: int| 0 <= k < msgs.len() implies
            (e.contains(k as usize) <==> roles.contains(msgs[k].role@) && msgs[k].content@.len() >= min_chars) by {
            if k < msgs.len() - 1 {
                assert(msgs[k] == prev[k]);
                if e.contains(k as usize) {
                    let j = choose|j: int| 0 <= j < e.len() && e[j] == k as usize;
                    if j < pe.len() {
                        assert(pe[j] == k as usize);
                    }
                }
                if pe.contains(k as usize) {
                    let j = choose|j: int| 0 <= j < pe.len() && pe[j] == k as usize;
                    assert(e[j] == k as usize);
                }
            } else {
                if e.contains(k as usize) {
                    let j = choose|j: int| 0 <= j < e.len() && e[j] == k as usize;
                    if j < pe.len() {
                        assert(pe[j] < last);
                    }
                }
                if here {
                    assert(e[e.len() - 1] == k as usize);
                }
            }
        }
    }
}

fn roles_contain_exec(roles: &[String], role: &String) -> (b: bool)
    ensures
        b == roles_contain(roles_view(roles@), role@),
{
    let mut j: usize = 0;
    while j < roles.len()
        invariant
            j <= roles@.len(),
            forall|k: int| 0 <= k < j ==> roles@[k]@ != role@,
        decreases roles@.len() - j,
    {
        if roles[j] == *role {
            assert(roles_view(roles@)[j as int] == role@);
            return true;
        }
        j = j + 1;
    }
    assert forall|k: int| 0 <= k < roles_view(roles@).len() implies roles_view(roles@)[k] != role@ by {
        assert(roles_view(roles@)[k] == roles@[k]@);
    }
    false
}

/// Plans which messages get a cache marker. With the Anthropic convention
/// these are the messages whose role is in `cache_roles` and whose content has
/// at least `min_content_chars` characters; other providers tag nothing.
pub fn plan_prompt_cache(
    messages: &[Message],
    provider: PromptCacheProvider,
    cache_roles: &[String],
    min_content_chars: usize,
) -> (plan: PromptCachePlan)
    ensures
        plan.provider == provider,
        plan.tagged_indexes@ == (if provider == PromptCacheProvider::Anthropic {
            eligible_indexes(messages@, roles_view(cache_roles@), min_content_chars as nat)
        } else {
            Seq::empty()
        }),
{
    match provider {
        PromptCacheProvider::Anthropic => {
            let mut tagged: Vec<usize> = Vec::new();
            let mut i: usize = 0;
            while i < messages.len()
                invariant
                    i <= messages@.len(),
                    tagged@ == eligible_indexes(messages@.subrange(0, i as int), roles_view(cache_roles@), min_content_chars as nat),
                decreases messages@.len() - i,
            {
                let m = &messages[i];
                assert(messages@.subrange(0, i + 1).drop_last() =~= messages@.subrange(0, i as int));
                if roles_contain_exec(cache_roles, &m.role) && m.content.as_str().unicode_len() >= min_content_chars {
                    tagged.push(i);
                }
                i = i + 1;
            }
            assert(messages@.subrange(0, messages@.len() as int) =~= messages@);
            PromptCachePlan { provider, tagged_indexes: tagged }
        },
        _ => PromptCachePlan { provider, tagged_indexes: Vec::new() },
    }
}

/// The plan with the default parameters: only "system" messages, any length.
pub fn plan_prompt_cache_default(messages: &[Message], provider: PromptCacheProvider) -> (plan: PromptCachePlan)
    ensures
        plan.provider == provider,
        plan.tagged_indexes@ == (if provider == PromptCacheProvider::Anthropic {
            eligible_indexes(messages@, seq!["system"@], 0)
        } else {
            Seq::empty()
        }),
{
    let roles = vec![String::from_str("system")];
    assert(roles_view(roles@) =~= seq!["system"@]);
    plan_prompt_cache(messages, provider, roles.as_slice(), 0)
}

/// The marker kind that a tagged message carries.
pub open spec fn ephemeral() -> Seq<char> {
    "ephemeral"@
}

/// `t` is `m` with a cache marker exactly when `tagged`.
pub open spec fn tagged_as(t: CacheTaggedMessage, m: Message, tagged: bool) -> bool {
    &&& t.role@ == m.role@
    &&& t.content@ == m.content@
    &&& (t.cache_control is Some) == tagged
    &&& (t.cache_control matches Some(cc) ==> cc.kind@ == ephemeral())
}

fn tag_message(m: &CacheTaggedMessage, tagged: bool) -> (r: CacheTaggedMessage)
    ensures
        r.role@ == m.role@,
        r.content@ == m.content@,
        (r.cache_control is Some) == tagged,
        r.cache_control matches Some(cc) ==> cc.kind@ == ephemeral(),
{
    let cache_control = if tagged {
        Some(CacheControl { kind: String::from_str("ephemeral") })
    } else {
        None
    };
    CacheTaggedMessage { role: m.role.clone(), content: m.content.clone(), cache_control }
}

/// Copies the messages, giving an ephemeral cache marker to each one whose
/// index the plan lists (indexes past the end are ignored).
pub fn apply_prompt_cache_plan(messages: &[Message], plan: &PromptCachePlan) -> (out: Vec<CacheTaggedMessage>)
    ensures
        out@.len() == messages@.len(),
        forall|i: int| 0 <= i < messages@.len() ==>
            tagged_as(#[trigger] out@[i], messages@[i], plan.tagged_indexes@.contains(i as usize)),
{
    let n = messages.len();
    let mut out: Vec<CacheTaggedMessage> = Vec::new();
    let mut i: usize = 0;
    while i < n
        invariant
            n == messages@.len(),
            i <= n,
            out@.len() == i,
            forall|k: int| 0 <= k < i ==> tagged_as(#[trigger] out@[k], messages@[k], false),
        decreases n - i,
    {
        let m = &messages[i];
        out.push(CacheTaggedMessage { role: m.role.clone(), content: m.content.clone(), cache_control: None });
        i = i + 1;
    }
    let idxs = &plan.tagged_indexes;
    let mut j: usize = 0;
    while j < idxs.len()
        invariant
            n == messages@.len(),
            out@.len() == n,
            j <= idxs@.len(),
            forall|k: int| 0 <= k < n ==>
                tagged_as(#[trigger] out@[k], messages@[k], idxs@.subrange(0, j as int).contains(k as usize)),
        decreases idxs@.len() - j,
    {
        let idx = idxs[j];
        proof {
            assert forall|k: int| 0 <= k < n implies
                #[trigger] idxs@.subrange(0, j + 1).contains(k as usize)
                    == (idxs@.subrange(0, j as int).contains(k as usize) || idx == k as usize) by {
                let s1 = idxs@.subrange(0, j + 1);
                let s0 = idxs@.subrange(0, j as int);
                if s1.contains(k as usize) {
                    let w = choose|w: int| 0 <= w < s1.len() && s1[w] == k as usize;
                    if w < j {
                        assert(s0[w] == k as usize);
                    }
                }
                if s0.contains(k as usize) {
                    let w = choose|w: int| 0 <= w < s0.len() && s0[w] == k as usize;
                    assert(s1[w] == k as usize);
                }
                if idx == k as usize {
                    assert(s1[j as int] == k as usize);
                }
            }
        }
        if idx < n {
            let t = tag_message(&out[idx], true);
            out.set(idx, t);
        }
        j = j + 1;
    }
    assert(idxs@.subrange(0, idxs@.len() as int) =~= idxs@);
    out
}

} // verus!
