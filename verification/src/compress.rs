//! Message compression: sliding windows over structural units, merging of
//! adjacent same-role messages, and the strategy that combines them.

use vstd::prelude::*;
use vstd::string::*;
use crate::message::{Message, MessageView, copy_message, role_is, is_tool_call_spec, is_tool_result_spec, msgs_view};
use crate::token::TokenEstimator;

verus! {

// ---------------------------------------------------------------------------
// Specification
// ---------------------------------------------------------------------------

/// The estimated tokens of all message contents in `msgs`.
pub open spec fn tokens_sum<E: TokenEstimator>(est: E, msgs: Seq<MessageView>) -> nat
    decreases msgs.len(),
{
    if msgs.len() == 0 {
        0
    } else {
        tokens_sum(est, msgs.drop_last()) + est.spec_estimate(msgs.last().content)
    }
}

/// A system message.
pub open spec fn is_system(m: MessageView) -> bool {
    m.role == "system"@
}

/// The system messages of `msgs`, in order.
pub open spec fn system_part(msgs: Seq<MessageView>) -> Seq<MessageView>
    decreases msgs.len(),
{
    if msgs.len() == 0 {
        Seq::empty()
    } else if is_system(msgs.last()) {
        system_part(msgs.drop_last()).push(msgs.last())
    } else {
        system_part(msgs.drop_last())
    }
}

/// The non-system messages of `msgs`, in order.
pub open spec fn conversation_part(msgs: Seq<MessageView>) -> Seq<MessageView>
    decreases msgs.len(),
{
    if msgs.len() == 0 {
        Seq::empty()
    } else if is_system(msgs.last()) {
        conversation_part(msgs.drop_last())
    } else {
        conversation_part(msgs.drop_last()).push(msgs.last())
    }
}

/// The system messages that survive truncation: with a positive limit,
/// the longest prefix whose estimated tokens do not exceed it.
pub open spec fn truncate_system<E: TokenEstimator>(est: E, sys: Seq<MessageView>, max_tokens: nat) -> Seq<MessageView>
    decreases sys.len(),
{
    if max_tokens == 0 || tokens_sum(est, sys) <= max_tokens || sys.len() == 0 {
        sys
    } else {
        truncate_system(est, sys.drop_last(), max_tokens)
    }
}

/// A user message that is not a tool result: it may open a new turn.
pub open spec fn opens_turn(m: MessageView) -> bool {
    m.role == "user"@ && !is_tool_result_spec(m)
}

/// An assistant message: a turn that ends with it is complete.
pub open spec fn closes_turn(m: MessageView) -> bool {
    m.role == "assistant"@
}

/// The structural units of a conversation: a new unit begins at a message
/// that opens a turn right after an assistant message; every other message
/// (tool results in particular) joins the unit before it.
pub open spec fn units(conv: Seq<MessageView>) -> Seq<Seq<MessageView>>
    decreases conv.len(),
{
    if conv.len() == 0 {
        Seq::empty()
    } else {
        let u = units(conv.drop_last());
        let m = conv.last();
        if u.len() > 0 && !(opens_turn(m) && closes_turn(u.last().last())) {
            u.update(u.len() - 1, u.last().push(m))
        } else {
            u.push(seq![m])
        }
    }
}

/// The messages of a list of units, in order.
pub open spec fn concat_units(us: Seq<Seq<MessageView>>) -> Seq<MessageView>
    decreases us.len(),
{
    if us.len() == 0 {
        Seq::empty()
    } else {
        concat_units(us.drop_last()) + us.last()
    }
}

/// `a - b`, or zero.
pub open spec fn sat_sub(a: nat, b: nat) -> nat {
    if a >= b { (a - b) as nat } else { 0 }
}

/// The sliding window: the surviving system messages, then the messages of
/// the last `max_turns` structural units of the conversation.
pub open spec fn window<E: TokenEstimator>(
    est: E,
    msgs: Seq<MessageView>,
    max_turns: nat,
    max_system_tokens: nat,
) -> Seq<MessageView> {
    let us = units(conversation_part(msgs));
    truncate_system(est, system_part(msgs), max_system_tokens)
        + concat_units(us.skip(sat_sub(us.len(), max_turns) as int))
}

/// The views of a list of units.
pub open spec fn units_view(v: Seq<Vec<Message>>) -> Seq<Seq<MessageView>> {
    v.map_values(|u: Vec<Message>| msgs_view(u@))
}

proof fn lemma_view_push(v: Seq<Message>, m: Message)
    ensures
        msgs_view(v.push(m)) == msgs_view(v).push(m@),
{
    assert(msgs_view(v.push(m)) =~= msgs_view(v).push(m@));
}

/// Splitting a conversation into its system messages and the rest loses no
/// tokens: the two parts' estimates add up to the whole.
pub proof fn lemma_tokens_split<E: TokenEstimator>(est: E, msgs: Seq<MessageView>)
    ensures
        tokens_sum(est, system_part(msgs)) + tokens_sum(est, conversation_part(msgs)) == tokens_sum(est, msgs),
    decreases msgs.len(),
{
    if msgs.len() > 0 {
        lemma_tokens_split(est, msgs.drop_last());
        let sp = system_part(msgs.drop_last());
        let cp = conversation_part(msgs.drop_last());
        assert(sp.push(msgs.last()).drop_last() =~= sp);
        assert(cp.push(msgs.last()).drop_last() =~= cp);
    }
}

/// Splits messages into system messages and the conversation, both in order.
fn partition_system(messages: &[Message]) -> (r: (Vec<Message>, Vec<Message>))
    ensures
        msgs_view(r.0@) == system_part(msgs_view(messages@)),
        msgs_view(r.1@) == conversation_part(msgs_view(messages@)),
{
    let ghost mv = msgs_view(messages@);
    let mut sys: Vec<Message> = Vec::new();
    let mut conv: Vec<Message> = Vec::new();
    let mut i: usize = 0;
    while i < messages.len()
        invariant
            i <= messages@.len(),
            mv == msgs_view(messages@),
            msgs_view(sys@) == system_part(mv.subrange(0, i as int)),
            msgs_view(conv@) == conversation_part(mv.subrange(0, i as int)),
        decreases messages@.len() - i,
    {
        let m = &messages[i];
        assert(mv.subrange(0, i + 1).drop_last() =~= mv.subrange(0, i as int));
        assert(mv.subrange(0, i + 1).last() == m@);
        if role_is(m, "system") {
            let c = copy_message(m);
            proof { lemma_view_push(sys@, c); }
            sys.push(c);
        } else {
            let c = copy_message(m);
            proof { lemma_view_push(conv@, c); }
            conv.push(c);
        }
        i = i + 1;
    }
    assert(mv.subrange(0, messages@.len() as int) =~= mv);
    (sys, conv)
}

/// Sums the estimated tokens of message contents.
fn sum_tokens<E: TokenEstimator>(msgs: &[Message], est: &E) -> (n: usize)
    requires
        tokens_sum(*est, msgs_view(msgs@)) <= usize::MAX,
    ensures
        n as nat == tokens_sum(*est, msgs_view(msgs@)),
{
    let ghost mv = msgs_view(msgs@);
    let mut total: usize = 0;
    let mut i: usize = 0;
    while i < msgs.len()
        invariant
            i <= msgs@.len(),
            mv == msgs_view(msgs@),
            tokens_sum(*est, mv) <= usize::MAX,
            total as nat == tokens_sum(*est, mv.subrange(0, i as int)),
        decreases msgs@.len() - i,
    {
        proof {
            assert(mv.subrange(0, i + 1).drop_last() =~= mv.subrange(0, i as int));
            assert(mv.subrange(0, i + 1).last() == msgs@[i as int]@);
            lemma_tokens_prefix_le(*est, mv, i + 1);
        }
        let t = est.estimate(msgs[i].content.as_str());
        total = total + t;
        i = i + 1;
    }
    assert(mv.subrange(0, msgs@.len() as int) =~= mv);
    total
}

proof fn lemma_tokens_prefix_le<E: TokenEstimator>(est: E, msgs: Seq<MessageView>, k: int)
    requires
        0 <= k <= msgs.len(),
    ensures
        tokens_sum(est, msgs.subrange(0, k)) <= tokens_sum(est, msgs),
    decreases msgs.len(),
{
    if k < msgs.len() {
        assert(msgs.drop_last().subrange(0, k) =~= msgs.subrange(0, k));
        lemma_tokens_prefix_le(est, msgs.drop_last(), k);
    } else {
        assert(msgs.subrange(0, k) =~= msgs);
    }
}

/// Groups a conversation into its structural units (see [`units`]).
fn identify_structural_units(conv: &Vec<Message>) -> (r: Vec<Vec<Message>>)
    ensures
        units_view(r@) == units(msgs_view(conv@)),
{
    let ghost cv = msgs_view(conv@);
    let mut out: Vec<Vec<Message>> = Vec::new();
    let mut current: Vec<Message> = Vec::new();
    let mut i: usize = 0;
    while i < conv.len()
        invariant
            i <= conv@.len(),
            cv == msgs_view(conv@),
            i == 0 ==> current@.len() == 0 && out@.len() == 0,
            i > 0 ==> current@.len() > 0,
            units(cv.subrange(0, i as int)) == (if i == 0 {
                Seq::<Seq<MessageView>>::empty()
            } else {
                units_view(out@).push(msgs_view(current@))
            }),
        decreases conv@.len() - i,
    {
        let m = &conv[i];
        let ghost prefix = cv.subrange(0, i as int);
        assert(cv.subrange(0, i + 1).drop_last() =~= prefix);
        assert(cv.subrange(0, i + 1).last() == conv@[i as int]@);
        let is_tool_result = m.is_tool_result();
        let starts_new = !is_tool_result && role_is(m, "user") && current.len() > 0
            && role_is(&current[current.len() - 1], "assistant");
        if starts_new {
            let done = current;
            current = Vec::new();
            proof {
                assert(units_view(out@.push(done))
                    =~= units_view(out@).push(msgs_view(done@)));
            }
            out.push(done);
        }
        let ghost old_current = msgs_view(current@);
        let c = copy_message(m);
        proof { lemma_view_push(current@, c); }
        current.push(c);
        proof {
            let u = units(prefix);
            let mv = conv@[i as int]@;
            if i > 0 {
                if starts_new {
                    assert(msgs_view(current@) =~= seq![mv]);
                    assert(units_view(out@).push(msgs_view(current@)) =~= u.push(seq![mv]));
                } else {
                    assert(u.last() == old_current);
                    assert(units_view(out@).push(msgs_view(current@)) =~= u.update(u.len() - 1, u.last().push(mv)));
                }
            } else {
                assert(msgs_view(current@) =~= seq![mv]);
                assert(units_view(out@) =~= Seq::<Seq<MessageView>>::empty());
                assert(units_view(out@).push(msgs_view(current@)) =~= Seq::<Seq<MessageView>>::empty().push(seq![mv]));
            }
        }
        i = i + 1;
    }
    assert(cv.subrange(0, conv@.len() as int) =~= cv);
    if current.len() > 0 {
        proof {
            assert(units_view(out@.push(current)) =~= units_view(out@).push(msgs_view(current@)));
        }
        out.push(current);
    }
    out
}

} // verus!

verus! {

/// How `compress` reduces a conversation.
#[derive(Clone, Copy, Debug, PartialEq, Eq, Structural)]
pub enum CompressionStrategy {
    Off,
    SlidingWindow,
    Dedup,
    DedupThenWindow,
}

/// Compression settings, with the token estimator they measure by.
pub struct CompressionConfig<E> {
    /// Below this token count, no compression is applied.
    pub min_tokens_to_compress: usize,
    /// Sliding window: how many structural units to keep.
    pub max_turns: usize,
    /// Sliding window: the system prompt's token budget (0 = no limit).
    pub max_system_tokens: usize,
    /// The strategy to use.
    pub strategy: CompressionStrategy,
    /// Merging: the longest merged content in bytes (0 = no limit).
    pub dedup_max_merged_chars: usize,
    /// The estimator that measures contents.
    pub token_estimator: E,
}

/// Keeps the system messages, dropping the last ones while their estimated
/// tokens exceed a positive `max_system_tokens`, followed by the messages of
/// the last `max_turns` structural units of the conversation.
pub fn sliding_window_structured<E: TokenEstimator>(
    messages: &[Message],
    config: &CompressionConfig<E>,
) -> (out: Vec<Message>)
    requires
        config.max_system_tokens > 0 ==> tokens_sum(config.token_estimator, system_part(msgs_view(messages@))) <= usize::MAX,
    ensures
        msgs_view(out@) == window(
            config.token_estimator,
            msgs_view(messages@),
            config.max_turns as nat,
            config.max_system_tokens as nat,
        ),
{
    let est = &config.token_estimator;
    let (mut system_messages, conversation) = partition_system(messages);
    let ghost sys0 = msgs_view(system_messages@);
    let max_sys = config.max_system_tokens;
    let mut system_tokens: usize = if max_sys > 0 { sum_tokens(system_messages.as_slice(), est) } else { 0 };
    while max_sys > 0 && system_tokens > max_sys
        invariant
            max_sys > 0 ==> system_tokens as nat == tokens_sum(*est, msgs_view(system_messages@)),
            max_sys == 0 ==> msgs_view(system_messages@) == sys0,
            truncate_system(*est, sys0, max_sys as nat) == truncate_system(*est, msgs_view(system_messages@), max_sys as nat),
        ensures
            truncate_system(*est, sys0, max_sys as nat) == msgs_view(system_messages@),
        decreases system_messages@.len(),
    {
        if system_messages.len() == 0 {
            break;
        }
        let ghost before = system_messages@;
        let last = system_messages.pop().unwrap();
        proof {
            assert(before.drop_last() =~= system_messages@);
            assert(msgs_view(before).drop_last() =~= msgs_view(system_messages@));
            assert(msgs_view(before).last() == last@);
        }
        let t = est.estimate(last.content.as_str());
        system_tokens = system_tokens - t;
    }
    let units = identify_structural_units(&conversation);
    let start_idx = if units.len() >= config.max_turns { units.len() - config.max_turns } else { 0 };
    let mut result = system_messages;
    let ghost kept_sys = msgs_view(result@);
    let mut k: usize = start_idx;
    while k < units.len()
        invariant
            start_idx <= k <= units@.len(),
            msgs_view(result@) == kept_sys + concat_units(units_view(units@).subrange(start_idx as int, k as int)),
        decreases units@.len() - k,
    {
        let unit = &units[k];
        let ghost before = msgs_view(result@);
        let ghost uv_k = msgs_view(unit@);
        let mut j: usize = 0;
        while j < unit.len()
            invariant
                j <= unit@.len(),
                uv_k == msgs_view(unit@),
                msgs_view(result@) == before + uv_k.subrange(0, j as int),
            decreases unit@.len() - j,
        {
            let c = copy_message(&unit[j]);
            proof {
                lemma_view_push(result@, c);
                assert(uv_k.subrange(0, j + 1) =~= uv_k.subrange(0, j as int).push(unit@[j as int]@));
            }
            result.push(c);
            j = j + 1;
        }
        proof {
            let uv = units_view(units@);
            assert(uv_k.subrange(0, unit@.len() as int) =~= uv_k);
            assert(uv.subrange(start_idx as int, k + 1).drop_last() =~= uv.subrange(start_idx as int, k as int));
            assert(uv.subrange(start_idx as int, k + 1).last() == uv_k);
            assert(msgs_view(result@) =~= kept_sys + concat_units(uv.subrange(start_idx as int, k + 1)));
        }
        k = k + 1;
    }
    proof {
        let uv = units_view(units@);
        assert(uv.subrange(start_idx as int, uv.len() as int) =~= uv.skip(start_idx as int));
    }
    result
}

} // verus!

verus! {

/// The length in bytes of the UTF-8 encoding of `s`, as `str::len` reports it.
pub open spec fn byte_len(s: Seq<char>) -> nat {
    (vstd::utf8::encode_utf8(s).len() as usize) as nat
}

/// A message carrying a tool-use or tool-result block.
pub open spec fn is_tool(m: MessageView) -> bool {
    is_tool_call_spec(m) || is_tool_result_spec(m)
}

/// The separator placed between merged contents.
pub open spec fn merge_separator() -> Seq<char> {
    "\n\n"@
}

/// Whether `m` merges into `prev`: neither is a tool message, the roles are
/// equal, and the byte lengths plus four fit the limit (0 = no limit).
pub open spec fn merges_into(prev: MessageView, m: MessageView, max_merged: nat) -> bool {
    &&& !is_tool(m)
    &&& !is_tool(prev)
    &&& prev.role == m.role
    &&& (max_merged == 0 || byte_len(prev.content) + byte_len(m.content) + 4 <= max_merged)
}

/// Adjacent messages of the same role merged into one, their contents
/// joined by a blank line; tool messages are never merged.
pub open spec fn dedup(msgs: Seq<MessageView>, max_merged: nat) -> Seq<MessageView>
    decreases msgs.len(),
{
    if msgs.len() == 0 {
        Seq::empty()
    } else {
        let out = dedup(msgs.drop_last(), max_merged);
        let m = msgs.last();
        if out.len() > 0 && merges_into(out.last(), m, max_merged) {
            out.update(
                out.len() - 1,
                MessageView { role: out.last().role, content: out.last().content + merge_separator() + m.content },
            )
        } else {
            out.push(m)
        }
    }
}

fn is_tool_message(m: &Message) -> (b: bool)
    ensures
        b == is_tool(m@),
{
    m.is_tool_call() || m.is_tool_result()
}

/// Merges adjacent messages of the same role (see [`dedup`]).
pub fn dedup_adjacent(messages: &[Message], max_merged_chars: usize) -> (out: Vec<Message>)
    ensures
        msgs_view(out@) == dedup(msgs_view(messages@), max_merged_chars as nat),
{
    let ghost mv = msgs_view(messages@);
    let mut out: Vec<Message> = Vec::new();
    let mut i: usize = 0;
    while i < messages.len()
        invariant
            i <= messages@.len(),
            mv == msgs_view(messages@),
            msgs_view(out@) == dedup(mv.subrange(0, i as int), max_merged_chars as nat),
        decreases messages@.len() - i,
    {
        let m = &messages[i];
        let ghost prefix = mv.subrange(0, i + 1);
        assert(prefix.drop_last() =~= mv.subrange(0, i as int));
        assert(prefix.last() == m@);
        let ghost old_view = msgs_view(out@);
        let mut merged = false;
        if !is_tool_message(m) && out.len() > 0 {
            let last_idx = out.len() - 1;
            let last = &out[last_idx];
            assert(old_view.last() == last@);
            if !is_tool_message(last) && last.role == m.role {
                let a = last.content.as_str().len();
                let b = m.content.as_str().len();
                let fits = if max_merged_chars == 0 {
                    true
                } else {
                    match a.checked_add(b) {
                        Some(ab) => match ab.checked_add(4) {
                            Some(total) => total <= max_merged_chars,
                            None => false,
                        },
                        None => false,
                    }
                };
                if fits {
                    let mut content = last.content.clone();
                    content.append("\n\n");
                    content.append(m.content.as_str());
                    let nm = Message { role: last.role.clone(), content };
                    out.set(last_idx, nm);
                    merged = true;
                    proof {
                        assert(msgs_view(out@) =~= old_view.update(
                            old_view.len() - 1,
                            MessageView {
                                role: old_view.last().role,
                                content: old_view.last().content + merge_separator() + m@.content,
                            },
                        ));
                    }
                }
            }
        }
        if !merged {
            out.push(copy_message(m));
            proof {
                assert(msgs_view(out@) =~= old_view.push(m@));
            }
        }
        i = i + 1;
    }
    assert(mv.subrange(0, messages@.len() as int) =~= mv);
    out
}

} // verus!

verus! {

/// The sum, over `msgs`, of each content's character count divided by four.
pub open spec fn quarter_chars_sum(msgs: Seq<MessageView>) -> nat
    decreases msgs.len(),
{
    if msgs.len() == 0 {
        0
    } else {
        quarter_chars_sum(msgs.drop_last()) + msgs.last().content.len() / 4
    }
}

/// The outcome of an applied compression.
#[derive(Clone, Debug)]
pub struct CompressionResult {
    pub messages: Vec<Message>,
    pub tokens_before: usize,
    pub tokens_after: usize,
    pub strategy_used: CompressionStrategy,
}

impl CompressionResult {
    /// The tokens saved (`tokens_before - tokens_after`, or zero); the
    /// savings ratio is this divided by `tokens_before`.
    pub fn saved_tokens(&self) -> (n: usize)
        ensures
            n as nat == sat_sub(self.tokens_before as nat, self.tokens_after as nat),
    {
        if self.tokens_before > self.tokens_after {
            self.tokens_before - self.tokens_after
        } else {
            0
        }
    }
}

/// What `compress` did: skipped (with the token count and why), or applied.
#[derive(Clone, Debug)]
pub enum CompressionAction {
    Skip { tokens: usize, reason: String },
    Applied(CompressionResult),
}

/// Estimates the tokens of all contents: with an estimator, the sum of its
/// estimates; without, the sum of character counts divided by four.
pub fn estimate_tokens<E: TokenEstimator>(messages: &[Message], estimator: Option<&E>) -> (n: usize)
    requires
        estimator matches Some(e) ==> tokens_sum(*e, msgs_view(messages@)) <= usize::MAX,
        estimator is None ==> quarter_chars_sum(msgs_view(messages@)) <= usize::MAX,
    ensures
        estimator matches Some(e) ==> n as nat == tokens_sum(*e, msgs_view(messages@)),
        estimator is None ==> n as nat == quarter_chars_sum(msgs_view(messages@)),
{
    match estimator {
        Some(est) => sum_tokens(messages, est),
        None => {
            let ghost mv = msgs_view(messages@);
            let mut total: usize = 0;
            let mut i: usize = 0;
            while i < messages.len()
                invariant
                    i <= messages@.len(),
                    mv == msgs_view(messages@),
                    quarter_chars_sum(mv) <= usize::MAX,
                    total as nat == quarter_chars_sum(mv.subrange(0, i as int)),
                decreases messages@.len() - i,
            {
                proof {
                    assert(mv.subrange(0, i + 1).drop_last() =~= mv.subrange(0, i as int));
                    assert(mv.subrange(0, i + 1).last() == messages@[i as int]@);
                    lemma_quarter_prefix_le(mv, i + 1);
                }
                let c = messages[i].content.as_str().unicode_len() / 4;
                total = total + c;
                i = i + 1;
            }
            assert(mv.subrange(0, messages@.len() as int) =~= mv);
            total
        },
    }
}

proof fn lemma_quarter_prefix_le(msgs: Seq<MessageView>, k: int)
    requires
        0 <= k <= msgs.len(),
    ensures
        quarter_chars_sum(msgs.subrange(0, k)) <= quarter_chars_sum(msgs),
    decreases msgs.len(),
{
    if k < msgs.len() {
        assert(msgs.drop_last().subrange(0, k) =~= msgs.subrange(0, k));
        lemma_quarter_prefix_le(msgs.drop_last(), k);
    } else {
        assert(msgs.subrange(0, k) =~= msgs);
    }
}

/// Estimates the tokens of one message's content, with the given estimator
/// or else the default one.
pub fn estimate_msg_tokens<E: TokenEstimator>(msg: &Message, estimator: Option<&E>) -> (n: usize)
    ensures
        estimator matches Some(e) ==> n as nat == e.spec_estimate(msg.content@),
        estimator is None ==> n as nat == crate::token::default_estimate(msg.content@),
{
    match estimator {
        Some(est) => est.estimate(msg.content.as_str()),
        None => {
            let d = crate::token::default_token_estimator();
            d.estimate(msg.content.as_str())
        },
    }
}

/// All system messages, followed by the last `2 * max_turns` non-system
/// messages (all of them when there are fewer), each part in order.
pub open spec fn recent_window(msgs: Seq<MessageView>, max_turns: nat) -> Seq<MessageView> {
    let conv = conversation_part(msgs);
    let keep = if 2 * max_turns <= conv.len() { 2 * max_turns } else { conv.len() };
    system_part(msgs) + conv.subrange(conv.len() - keep, conv.len() as int)
}

/// Keeps every system message and the last `max_turns * 2` non-system
/// messages.
pub fn sliding_window(messages: &[Message], max_turns: usize) -> (out: Vec<Message>)
    ensures
        msgs_view(out@) == recent_window(msgs_view(messages@), max_turns as nat),
{
    let ghost mv = msgs_view(messages@);
    let (sys, conv) = partition_system(messages);
    let n = conv.len();
    let keep: usize = if max_turns > n / 2 { n } else { 2 * max_turns };
    let start = n - keep;
    let mut out = sys;
    let ghost sv = msgs_view(out@);
    let mut i: usize = start;
    while i < n
        invariant
            n == conv@.len(),
            start <= i <= n,
            msgs_view(out@) == sv + msgs_view(conv@).subrange(start as int, i as int),
        decreases n - i,
    {
        let c = copy_message(&conv[i]);
        proof {
            lemma_view_push(out@, c);
            assert(msgs_view(conv@).subrange(start as int, i + 1) =~= msgs_view(conv@).subrange(start as int, i as int).push(c@));
            assert(sv + msgs_view(conv@).subrange(start as int, i + 1) =~= (sv + msgs_view(conv@).subrange(start as int, i as int)).push(c@));
        }
        out.push(c);
        i = i + 1;
    }
    proof {
        assert(keep == if 2 * max_turns <= n { 2 * max_turns } else { n as int });
    }
    out
}

} // verus!

verus! {

/// The messages that an applied strategy produces.
pub open spec fn compressed<E: TokenEstimator>(config: CompressionConfig<E>, msgs: Seq<MessageView>) -> Seq<MessageView> {
    let est = config.token_estimator;
    let turns = config.max_turns as nat;
    let sys = config.max_system_tokens as nat;
    match config.strategy {
        CompressionStrategy::SlidingWindow => window(est, msgs, turns, sys),
        CompressionStrategy::Dedup => dedup(msgs, config.dedup_max_merged_chars as nat),
        _ => {
            let d = dedup(msgs, config.dedup_max_merged_chars as nat);
            if tokens_sum(est, d) < config.min_tokens_to_compress {
                d
            } else {
                window(est, d, turns, sys)
            }
        },
    }
}

/// The reason given when the conversation is below the compression threshold.
pub open spec fn below_threshold_reason(tokens: nat, min: nat) -> Seq<char> {
    crate::text::decimal(tokens) + " tokens < min_tokens_to_compress ("@ + crate::text::decimal(min) + ")"@
}

fn below_threshold_message(tokens: usize, min: usize) -> (s: String)
    ensures
        s@ == below_threshold_reason(tokens as nat, min as nat),
{
    let mut s = crate::text::u64_to_string(tokens as u64);
    s.append(" tokens < min_tokens_to_compress (");
    crate::text::push_decimal(&mut s, min as u64);
    s.append(")");
    s
}

/// Compresses a conversation as the configuration asks. Below
/// `min_tokens_to_compress` estimated tokens, or with the strategy `Off`,
/// nothing is done; otherwise the strategy's result is returned with the
/// token counts before and after.
pub fn compress<E: TokenEstimator>(messages: &[Message], config: &CompressionConfig<E>) -> (action: CompressionAction)
    requires
        tokens_sum(config.token_estimator, msgs_view(messages@)) <= usize::MAX,
        tokens_sum(config.token_estimator, msgs_view(messages@)) >= config.min_tokens_to_compress
            && (config.strategy == CompressionStrategy::Dedup || config.strategy == CompressionStrategy::DedupThenWindow)
            ==> tokens_sum(config.token_estimator, dedup(msgs_view(messages@), config.dedup_max_merged_chars as nat)) <= usize::MAX,
    ensures
        ({
            let tb = tokens_sum(config.token_estimator, msgs_view(messages@));
            match action {
                CompressionAction::Skip { tokens, reason } => {
                    &&& tokens as nat == tb
                    &&& (tb < config.min_tokens_to_compress || config.strategy == CompressionStrategy::Off)
                    &&& tb < config.min_tokens_to_compress ==> reason@ == below_threshold_reason(tb, config.min_tokens_to_compress as nat)
                    &&& tb >= config.min_tokens_to_compress ==> reason@ == "strategy is None"@
                },
                CompressionAction::Applied(r) => {
                    &&& tb >= config.min_tokens_to_compress
                    &&& config.strategy != CompressionStrategy::Off
                    &&& r.tokens_before as nat == tb
                    &&& r.strategy_used == config.strategy
                    &&& msgs_view(r.messages@) == compressed(*config, msgs_view(messages@))
                    &&& r.tokens_after as nat == tokens_sum(config.token_estimator, msgs_view(r.messages@))
                },
            }
        }),
{
    let est = &config.token_estimator;
    let ghost mv = msgs_view(messages@);
    let tokens_before = sum_tokens(messages, est);
    if tokens_before < config.min_tokens_to_compress {
        return CompressionAction::Skip {
            tokens: tokens_before,
            reason: below_threshold_message(tokens_before, config.min_tokens_to_compress),
        };
    }
    match config.strategy {
        CompressionStrategy::Off => CompressionAction::Skip {
            tokens: tokens_before,
            reason: String::from_str("strategy is None"),
        },
        CompressionStrategy::SlidingWindow => {
            proof {
                lemma_tokens_split(*est, mv);
                crate::compress_laws::window_law(*est, mv, config.max_turns as nat, config.max_system_tokens as nat);
            }
            let result = sliding_window_structured(messages, config);
            let tokens_after = sum_tokens(result.as_slice(), est);
            CompressionAction::Applied(CompressionResult {
                messages: result,
                tokens_before,
                tokens_after,
                strategy_used: CompressionStrategy::SlidingWindow,
            })
        },
        CompressionStrategy::Dedup => {
            let result = dedup_adjacent(messages, config.dedup_max_merged_chars);
            let tokens_after = sum_tokens(result.as_slice(), est);
            CompressionAction::Applied(CompressionResult {
                messages: result,
                tokens_before,
                tokens_after,
                strategy_used: CompressionStrategy::Dedup,
            })
        },
        CompressionStrategy::DedupThenWindow => {
            let deduped = dedup_adjacent(messages, config.dedup_max_merged_chars);
            let deduped_tokens = sum_tokens(deduped.as_slice(), est);
            if deduped_tokens < config.min_tokens_to_compress {
                return CompressionAction::Applied(CompressionResult {
                    messages: deduped,
                    tokens_before,
                    tokens_after: deduped_tokens,
                    strategy_used: CompressionStrategy::DedupThenWindow,
                });
            }
            proof {
                lemma_tokens_split(*est, msgs_view(deduped@));
                crate::compress_laws::window_law(*est, msgs_view(deduped@), config.max_turns as nat, config.max_system_tokens as nat);
            }
            let result = sliding_window_structured(deduped.as_slice(), config);
            let tokens_after = sum_tokens(result.as_slice(), est);
            CompressionAction::Applied(CompressionResult {
                messages: result,
                tokens_before,
                tokens_after,
                strategy_used: CompressionStrategy::DedupThenWindow,
            })
        },
    }
}

} // verus!

verus! {

/// The window of [`sliding_window`], reported with its token counts under
/// the default estimator.
pub fn sliding_window_with_meta(messages: &[Message], max_turns: usize) -> (r: CompressionResult)
    requires
        tokens_sum(crate::token::DefaultTokenEstimator, msgs_view(messages@)) <= usize::MAX,
    ensures
        msgs_view(r.messages@) == recent_window(msgs_view(messages@), max_turns as nat),
        r.tokens_before as nat == tokens_sum(crate::token::DefaultTokenEstimator, msgs_view(messages@)),
        r.tokens_after as nat == tokens_sum(crate::token::DefaultTokenEstimator, msgs_view(r.messages@)),
        r.strategy_used == CompressionStrategy::SlidingWindow,
{
    let est = crate::token::default_token_estimator();
    proof {
        crate::compress_laws::recent_window_law(est, msgs_view(messages@), max_turns as nat);
    }
    let msgs = sliding_window(messages, max_turns);
    let tokens_before = sum_tokens(messages, &est);
    let tokens_after = sum_tokens(msgs.as_slice(), &est);
    CompressionResult { messages: msgs, tokens_before, tokens_after, strategy_used: CompressionStrategy::SlidingWindow }
}

} // verus!
