//! Properties of the sliding window and of merging, stated over the
//! specifications that the compression functions are proved against.

use vstd::prelude::*;
use crate::message::MessageView;
use crate::token::TokenEstimator;
use crate::compress::{compressed, CompressionConfig, CompressionStrategy, quarter_chars_sum, recent_window, dedup, tokens_sum, truncate_system, system_part, conversation_part, units, concat_units, opens_turn, closes_turn, window, sat_sub, lemma_tokens_split};

verus! {

/// Token estimates add up: the estimate of two conversations put together is
/// the sum of their estimates (and an empty conversation has none).
pub proof fn lemma_tokens_concat<E: TokenEstimator>(est: E, a: Seq<MessageView>, b: Seq<MessageView>)
    ensures
        tokens_sum(est, a + b) == tokens_sum(est, a) + tokens_sum(est, b),
        tokens_sum(est, Seq::<MessageView>::empty()) == 0,
    decreases b.len(),
{
    if b.len() > 0 {
        lemma_tokens_concat(est, a, b.drop_last());
        assert((a + b).drop_last() =~= a + b.drop_last());
        assert((a + b).last() == b.last());
    } else {
        assert(a + b =~= a);
    }
}

/// The character-count estimate adds up the same way: each message's
/// characters are divided by four on their own, so the estimate of two
/// conversations put together is the sum of their estimates.
pub proof fn lemma_quarter_chars_concat(a: Seq<MessageView>, b: Seq<MessageView>)
    ensures
        quarter_chars_sum(a + b) == quarter_chars_sum(a) + quarter_chars_sum(b),
        quarter_chars_sum(Seq::<MessageView>::empty()) == 0,
    decreases b.len(),
{
    if b.len() > 0 {
        lemma_quarter_chars_concat(a, b.drop_last());
        assert((a + b).drop_last() =~= a + b.drop_last());
        assert((a + b).last() == b.last());
    } else {
        assert(a + b =~= a);
    }
}

proof fn lemma_truncate_prefix<E: TokenEstimator>(est: E, sys: Seq<MessageView>, max: nat)
    ensures
        truncate_system(est, sys, max).is_prefix_of(sys),
        max == 0 ==> truncate_system(est, sys, max) == sys,
        max > 0 ==> tokens_sum(est, truncate_system(est, sys, max)) <= max,
    decreases sys.len(),
{
    if !(max == 0 || tokens_sum(est, sys) <= max || sys.len() == 0) {
        lemma_truncate_prefix(est, sys.drop_last(), max);
    }
}

proof fn lemma_concat_units_append(a: Seq<Seq<MessageView>>, b: Seq<Seq<MessageView>>)
    ensures
        concat_units(a + b) == concat_units(a) + concat_units(b),
    decreases b.len(),
{
    if b.len() > 0 {
        lemma_concat_units_append(a, b.drop_last());
        assert((a + b).drop_last() =~= a + b.drop_last());
        assert((a + b).last() == b.last());
        assert(concat_units(a) + concat_units(b.drop_last()) + b.last()
            =~= concat_units(a) + (concat_units(b.drop_last()) + b.last()));
    } else {
        assert(a + b =~= a);
        assert(concat_units(a) + Seq::<MessageView>::empty() =~= concat_units(a));
    }
}

/// Every unit is non-empty, the units together are the conversation, and a
/// unit after the first begins with a message that opens a turn right after
/// a message that closes one.
proof fn lemma_units_shape(conv: Seq<MessageView>)
    ensures
        concat_units(units(conv)) == conv,
        forall|i: int| 0 <= i < units(conv).len() ==> #[trigger] units(conv)[i].len() > 0,
        forall|i: int| 1 <= i < units(conv).len() ==> opens_turn(#[trigger] units(conv)[i][0]),
        forall|i: int| 0 <= i < units(conv).len() - 1 ==> closes_turn(#[trigger] units(conv)[i].last()),
        conv.len() == 0 <==> units(conv).len() == 0,
    decreases conv.len(),
{
    if conv.len() > 0 {
        let prev = conv.drop_last();
        lemma_units_shape(prev);
        let m = conv.last();
        let u = units(prev);
        assert(prev.push(m) =~= conv);
        if u.len() > 0 && !(opens_turn(m) && closes_turn(u.last().last())) {
            let nu = u.update(u.len() - 1, u.last().push(m));
            assert(units(conv) == nu);
            assert(nu.drop_last() =~= u.drop_last());
            assert(u.drop_last().push(u.last()) =~= u);
            assert(concat_units(u) == concat_units(u.drop_last()) + u.last());
            assert(concat_units(nu) =~= concat_units(u) + seq![m]);
            assert forall|i: int| 1 <= i < units(conv).len() implies opens_turn(#[trigger] units(conv)[i][0]) by {
                assert(opens_turn(units(prev)[i][0]));
                assert(units(prev)[i].len() > 0);
            }
            assert forall|i: int| 0 <= i < units(conv).len() - 1 implies closes_turn(#[trigger] units(conv)[i].last()) by {
                assert(closes_turn(units(prev)[i].last()));
            }
        } else {
            let nu = u.push(seq![m]);
            assert(units(conv) == nu);
            assert(nu.drop_last() =~= u);
            assert(concat_units(nu) =~= concat_units(u) + seq![m]);
            assert forall|i: int| 1 <= i < units(conv).len() implies opens_turn(#[trigger] units(conv)[i][0]) by {
                if i < u.len() {
                    assert(opens_turn(units(prev)[i][0]));
                }
            }
            assert forall|i: int| 0 <= i < units(conv).len() - 1 implies closes_turn(#[trigger] units(conv)[i].last()) by {
                if i < u.len() - 1 {
                    assert(closes_turn(units(prev)[i].last()));
                }
            }
        }
    }
}

/// The kept units are a suffix of the conversation that starts at a unit boundary.
proof fn lemma_kept_suffix(conv: Seq<MessageView>, j: int)
    requires
        0 <= j <= units(conv).len(),
    ensures
        ({
            let us = units(conv);
            let k = concat_units(us.take(j)).len() as int;
            &&& 0 <= k <= conv.len()
            &&& conv.skip(k) == concat_units(us.skip(j))
            &&& (k > 0 && k < conv.len() ==> opens_turn(conv[k]) && closes_turn(conv[k - 1]))
            &&& (j == us.len() ==> k == conv.len())
        }),
{
    let us = units(conv);
    lemma_units_shape(conv);
    let head = us.take(j);
    let tail = us.skip(j);
    assert(head + tail =~= us);
    lemma_concat_units_append(head, tail);
    let k = concat_units(head).len() as int;
    assert(conv == concat_units(head) + concat_units(tail));
    assert(conv.skip(k) =~= concat_units(tail));
    if j == us.len() {
        assert(tail =~= Seq::<Seq<MessageView>>::empty());
    }
    if k > 0 && k < conv.len() {
        assert(j > 0) by {
            if j == 0 {
                assert(head =~= Seq::<Seq<MessageView>>::empty());
            }
        }
        assert(j < us.len()) by {
            if j >= us.len() {
                assert(tail =~= Seq::<Seq<MessageView>>::empty());
            }
        }
        assert(us[j].len() > 0);
        assert(tail[0] == us[j]);
        assert(tail =~= seq![us[j]] + tail.skip(1));
        lemma_concat_units_append(seq![us[j]], tail.skip(1));
        assert(concat_units(seq![us[j]]) =~= us[j]) by {
            let one = seq![us[j]];
            assert(one.drop_last() =~= Seq::<Seq<MessageView>>::empty());
            assert(one.last() == us[j]);
            assert(concat_units(one) == concat_units(one.drop_last()) + one.last());
            assert(Seq::<MessageView>::empty() + us[j] =~= us[j]);
        }
        assert(conv[k] == concat_units(tail)[0]);
        assert(concat_units(tail)[0] == us[j][0]);
        assert(head =~= head.drop_last().push(head.last()));
        assert(head.last() == us[j - 1]);
        assert(concat_units(head) == concat_units(head.drop_last()) + us[j - 1]);
        assert(conv[k - 1] == concat_units(head)[k - 1]);
        assert(concat_units(head)[k - 1] == us[j - 1].last());
        assert(opens_turn(us[j][0]));
        assert(closes_turn(us[j - 1].last()));
    }
}

proof fn lemma_window_tokens<E: TokenEstimator>(
    est: E,
    msgs: Seq<MessageView>,
    sys: Seq<MessageView>,
    k: int,
)
    requires
        sys.is_prefix_of(system_part(msgs)),
        0 <= k <= conversation_part(msgs).len(),
    ensures
        tokens_sum(est, sys + conversation_part(msgs).skip(k)) <= tokens_sum(est, msgs),
{
    let conv = conversation_part(msgs);
    let sp = system_part(msgs);
    lemma_tokens_concat(est, sys, conv.skip(k));
    lemma_tokens_concat(est, conv.take(k), conv.skip(k));
    assert(conv.take(k) + conv.skip(k) =~= conv);
    lemma_tokens_concat(est, sys, sp.skip(sys.len() as int));
    assert(sys + sp.skip(sys.len() as int) =~= sp);
    lemma_tokens_split(est, msgs);
}

/// Law of the sliding window. The result is the surviving system messages
/// followed by a suffix of the conversation. The surviving system messages
/// are a prefix of the system messages: all of them without a budget, and
/// within a positive budget. With no turns to keep only system messages
/// remain. Structural units stay whole: the kept conversation is either all
/// of it, or begins with a message that opens a turn right after one that
/// closes a turn. The window never holds more estimated tokens than its input.
pub proof fn window_law<E: TokenEstimator>(est: E, msgs: Seq<MessageView>, max_turns: nat, max_system_tokens: nat)
    ensures
        ({
            let sys = truncate_system(est, system_part(msgs), max_system_tokens);
            let conv = conversation_part(msgs);
            let w = window(est, msgs, max_turns, max_system_tokens);
            &&& sys.is_prefix_of(system_part(msgs))
            &&& max_system_tokens == 0 ==> sys == system_part(msgs)
            &&& max_system_tokens > 0 ==> tokens_sum(est, sys) <= max_system_tokens
            &&& exists|k: int| 0 <= k <= conv.len() && #[trigger] conv.skip(k) == w.skip(sys.len() as int)
                && w == sys + conv.skip(k)
                && (k > 0 && k < conv.len() ==> opens_turn(conv[k]) && closes_turn(conv[k - 1]))
                && (max_turns == 0 ==> k == conv.len())
            &&& tokens_sum(est, w) <= tokens_sum(est, msgs)
        }),
{
    let sys = truncate_system(est, system_part(msgs), max_system_tokens);
    let conv = conversation_part(msgs);
    let us = units(conv);
    let j = sat_sub(us.len(), max_turns) as int;
    lemma_truncate_prefix(est, system_part(msgs), max_system_tokens);
    lemma_kept_suffix(conv, j);
    let k = concat_units(us.take(j)).len() as int;
    let w = window(est, msgs, max_turns, max_system_tokens);
    assert(w == sys + conv.skip(k));
    assert(w.skip(sys.len() as int) =~= conv.skip(k));
    lemma_window_tokens(est, msgs, sys, k);
}

/// Law of merging: it never lengthens a conversation, keeps it non-empty when
/// it was, and keeps the role of the first message; a conversation with no
/// two adjacent messages of one role is left as it is.
pub proof fn dedup_law(msgs: Seq<MessageView>, max_merged: nat)
    ensures
        dedup(msgs, max_merged).len() <= msgs.len(),
        msgs.len() > 0 ==> dedup(msgs, max_merged).len() > 0
            && dedup(msgs, max_merged)[0].role == msgs[0].role,
        (forall|i: int| 0 <= i < msgs.len() - 1 ==> #[trigger] msgs[i].role != msgs[i + 1].role)
            ==> dedup(msgs, max_merged) == msgs,
    decreases msgs.len(),
{
    if msgs.len() > 0 {
        let prev = msgs.drop_last();
        dedup_law(prev, max_merged);
        if forall|i: int| 0 <= i < msgs.len() - 1 ==> #[trigger] msgs[i].role != msgs[i + 1].role {
            assert forall|i: int| 0 <= i < prev.len() - 1 implies #[trigger] prev[i].role != prev[i + 1].role by {
                assert(msgs[i].role != msgs[i + 1].role);
            }
            if prev.len() > 0 {
                assert(msgs[prev.len() - 1].role != msgs[prev.len() as int].role);
            }
            assert(prev.push(msgs.last()) =~= msgs);
        }
    }
}

/// Law of the message window: it keeps every system message, then exactly
/// the last `2 * max_turns` non-system messages (all of them when there are
/// fewer), and never holds more estimated tokens than its input.
pub proof fn recent_window_law<E: TokenEstimator>(est: E, msgs: Seq<MessageView>, max_turns: nat)
    ensures
        ({
            let w = recent_window(msgs, max_turns);
            let sys = system_part(msgs);
            let conv = conversation_part(msgs);
            let keep: int = if 2 * max_turns <= conv.len() { (2 * max_turns) as int } else { conv.len() as int };
            &&& w.subrange(0, sys.len() as int) == sys
            &&& w.skip(sys.len() as int) == conv.skip(conv.len() - keep)
            &&& w.len() == sys.len() + keep
            &&& tokens_sum(est, w) <= tokens_sum(est, msgs)
        }),
{
    let sys = system_part(msgs);
    let conv = conversation_part(msgs);
    let keep: int = if 2 * max_turns <= conv.len() { (2 * max_turns) as int } else { conv.len() as int };
    let tail = conv.subrange(conv.len() - keep, conv.len() as int);
    let w = recent_window(msgs, max_turns);
    assert(w == sys + tail);
    assert(w.subrange(0, sys.len() as int) =~= sys);
    assert(w.skip(sys.len() as int) =~= tail);
    assert(conv.skip(conv.len() - keep) =~= tail);
    lemma_tokens_concat(est, sys, tail);
    let head = conv.subrange(0, conv.len() - keep);
    assert(conv =~= head + tail);
    lemma_tokens_concat(est, head, tail);
    lemma_tokens_split(est, msgs);
}

proof fn lemma_units_len(conv: Seq<MessageView>)
    ensures
        units(conv).len() <= conv.len(),
    decreases conv.len(),
{
    if conv.len() > 0 {
        lemma_units_len(conv.drop_last());
    }
}

proof fn lemma_parts_len(msgs: Seq<MessageView>)
    ensures
        system_part(msgs).len() + conversation_part(msgs).len() == msgs.len(),
    decreases msgs.len(),
{
    if msgs.len() > 0 {
        lemma_parts_len(msgs.drop_last());
    }
}

/// Law of merging then windowing: the window is taken over the merged
/// conversation. When the window keeps every turn and no system budget
/// applies, the result is exactly the merged conversation with its system
/// messages first: as many messages as merging leaves (never more than the
/// input), the merged system messages in order, then the merged other
/// messages in order.
pub proof fn dedup_then_window_law<E: TokenEstimator>(config: CompressionConfig<E>, msgs: Seq<MessageView>)
    requires
        config.strategy == CompressionStrategy::DedupThenWindow,
        config.max_system_tokens == 0,
        config.max_turns >= msgs.len(),
        tokens_sum(config.token_estimator, dedup(msgs, config.dedup_max_merged_chars as nat))
            >= config.min_tokens_to_compress,
    ensures
        ({
            let d = dedup(msgs, config.dedup_max_merged_chars as nat);
            let r = compressed(config, msgs);
            &&& r == system_part(d) + conversation_part(d)
            &&& r.len() == d.len()
            &&& r.len() <= msgs.len()
        }),
{
    let d = dedup(msgs, config.dedup_max_merged_chars as nat);
    let est = config.token_estimator;
    let conv = conversation_part(d);
    let us = units(conv);
    dedup_law(msgs, config.dedup_max_merged_chars as nat);
    lemma_parts_len(d);
    lemma_units_len(conv);
    lemma_units_shape(conv);
    lemma_truncate_prefix(est, system_part(d), 0);
    assert(sat_sub(us.len(), config.max_turns as nat) == 0);
    assert(us.skip(0) =~= us);
    assert(window(est, d, config.max_turns as nat, 0) == system_part(d) + conv);
}

} // verus!
