//! What holds across the billing operations: distinct attempts get distinct
//! keys, readings add up, and a successful rating prices every reading.

use vstd::prelude::*;
use crate::text::{decimal, digit_char};
use crate::billing::identity::{attempt_key, built_key, optional_part, UsageEventIdBuilderView};
use crate::billing::meter_kind::{MeterKind, MeterKindView};
use crate::billing::observation::quantity_of;
use crate::billing::pricing::MeterPrice;
use crate::billing::rating::{rate_entries, line_subtotal, LineView, TierRateView};
use crate::billing::decimal::sum;

verus! {

proof fn lemma_decimal_shape(n: nat)
    ensures
        decimal(n).len() >= 1,
        n >= 10 ==> decimal(n).len() >= 2,
        forall|k: int| 0 <= k < decimal(n).len() ==> decimal(n)[k] != ':',
    decreases n,
{
    if n >= 10 {
        lemma_decimal_shape(n / 10);
        let d = decimal(n / 10);
        assert forall|k: int| 0 <= k < decimal(n).len() implies decimal(n)[k] != ':' by {
            if k < d.len() {
                assert(decimal(n)[k] == d[k]);
            }
        }
    }
}

proof fn lemma_decimal_injective(a: nat, b: nat)
    requires
        decimal(a) == decimal(b),
    ensures
        a == b,
    decreases a,
{
    lemma_decimal_shape(a);
    lemma_decimal_shape(b);
    if a < 10 && b < 10 {
        assert(decimal(a)[0] == digit_char(a));
        assert(decimal(b)[0] == digit_char(b));
        assert(digit_char(a) == digit_char(b));
    } else if a < 10 {
        assert(decimal(a).len() == 1);
    } else if b < 10 {
        assert(decimal(b).len() == 1);
    } else if a >= 10 && b >= 10 {
        let da = decimal(a);
        assert(da.last() == digit_char(a % 10));
        assert(decimal(b).last() == digit_char(b % 10));
        assert(da.drop_last() =~= decimal(a / 10));
        assert(decimal(b).drop_last() =~= decimal(b / 10));
        lemma_decimal_injective(a / 10, b / 10);
        assert(a % 10 == b % 10);
        assert(a == 10 * (a / 10) + a % 10);
        assert(b == 10 * (b / 10) + b % 10);
    }
}

/// For one request, two attempts that differ in attempt index or provider
/// get different idempotency keys, so a retry or a fallback is never taken
/// for a duplicate of an earlier attempt.
pub proof fn attempt_keys_distinct(request_id: Seq<char>, i: int, p: Seq<char>, j: int, q: Seq<char>)
    requires
        0 <= i,
        0 <= j,
        i != j || p != q,
    ensures
        attempt_key(request_id, i, p) != attempt_key(request_id, j, q),
{
    reveal_strlit(":");
    if attempt_key(request_id, i, p) == attempt_key(request_id, j, q) {
        let di = decimal(i as nat);
        let dj = decimal(j as nat);
        let pre = request_id + ":"@;
        let t1 = di + ":"@ + p;
        let t2 = dj + ":"@ + q;
        assert(attempt_key(request_id, i, p) =~= pre + t1);
        assert(attempt_key(request_id, j, q) =~= pre + t2);
        assert(t1 =~= (pre + t1).subrange(pre.len() as int, (pre + t1).len() as int));
        assert(t2 =~= (pre + t2).subrange(pre.len() as int, (pre + t2).len() as int));
        assert(t1 == t2);
        lemma_decimal_shape(i as nat);
        lemma_decimal_shape(j as nat);
        if di.len() < dj.len() {
            assert(t1[di.len() as int] == ':');
            assert(t2[di.len() as int] == dj[di.len() as int]);
        } else if dj.len() < di.len() {
            assert(t2[dj.len() as int] == ':');
            assert(t1[dj.len() as int] == di[dj.len() as int]);
        } else {
            assert(di =~= t1.subrange(0, di.len() as int));
            assert(dj =~= t2.subrange(0, dj.len() as int));
            lemma_decimal_injective(i as nat, j as nat);
            assert(p =~= t1.subrange(di.len() as int + 1, t1.len() as int));
            assert(q =~= t2.subrange(dj.len() as int + 1, t2.len() as int));
        }
    }
}

/// A builder given neither a step nor a phase produces exactly the key of
/// `UsageEventId::from_attempt` for the same parts.
pub proof fn builder_without_parts_is_attempt_key(b: UsageEventIdBuilderView)
    requires
        b.step_id is None,
        b.phase is None,
    ensures
        built_key(b) == attempt_key(b.request_id, b.attempt_index as int, b.provider_id),
{
    assert(built_key(b) =~= attempt_key(b.request_id, b.attempt_index as int, b.provider_id));
}

/// The builder after `step_id(s)`, as that setter's contract states it.
pub open spec fn with_step(b: UsageEventIdBuilderView, s: Seq<char>) -> UsageEventIdBuilderView {
    UsageEventIdBuilderView { step_id: Some(s), ..b }
}

/// The builder after `phase(p)`, as that setter's contract states it.
pub open spec fn with_phase(b: UsageEventIdBuilderView, p: Seq<char>) -> UsageEventIdBuilderView {
    UsageEventIdBuilderView { phase: Some(p), ..b }
}

/// Building a key after any sequence of `step_id` and `phase` calls: each
/// setter replaces only its own part, so the last value given to each wins
/// and the order of the two setters does not matter; the key is the attempt
/// key, then `":" + step` if a step was set, then `":" + phase` if a phase was.
pub proof fn builder_key_law(b: UsageEventIdBuilderView, s1: Seq<char>, s2: Seq<char>, p1: Seq<char>, p2: Seq<char>)
    ensures
        with_step(with_step(b, s1), s2) == with_step(b, s2),
        with_phase(with_phase(b, p1), p2) == with_phase(b, p2),
        with_phase(with_step(b, s1), p1) == with_step(with_phase(b, p1), s1),
        built_key(b) == attempt_key(b.request_id, b.attempt_index as int, b.provider_id)
            + optional_part(b.step_id) + optional_part(b.phase),
        built_key(with_phase(with_step(b, s1), p1))
            == attempt_key(b.request_id, b.attempt_index as int, b.provider_id) + ":"@ + s1 + ":"@ + p1,
{
    let k = attempt_key(b.request_id, b.attempt_index as int, b.provider_id);
    assert(k + optional_part(Some(s1)) + optional_part(Some(p1)) =~= k + ":"@ + s1 + ":"@ + p1);
}

/// Accumulating a reading adds its quantity to the kind's total and leaves
/// every other kind as it was.
pub proof fn accumulate_adds_to_kind(
    before: Map<MeterKindView, u64>,
    after: Map<MeterKindView, u64>,
    kind: MeterKindView,
    quantity: u64,
    other: MeterKindView,
)
    requires
        quantity_of(before, kind) + quantity <= u64::MAX,
        after == before.insert(kind, (quantity_of(before, kind) + quantity) as u64),
    ensures
        quantity_of(after, kind) == quantity_of(before, kind) + quantity,
        other != kind ==> quantity_of(after, other) == quantity_of(before, other),
{
}

/// A successful rating has one line per reading, in the order of the
/// readings; each line carries the reading's kind and quantity, the
/// snapshot's unit price for that kind, and its subtotal.
pub proof fn rated_lines_follow_readings(
    entries: Seq<(MeterKind, u64)>,
    prices: Map<MeterKindView, MeterPrice>,
    mult: Option<TierRateView>,
)
    requires
        rate_entries(entries, prices, mult) is Ok,
    ensures
        rate_entries(entries, prices, mult) matches Ok((items, _total)) && {
            &&& items.len() == entries.len()
            &&& forall|i: int| 0 <= i < entries.len() ==> {
                &&& #[trigger] items[i].0 == entries[i].0@
                &&& items[i].1 == entries[i].1
                &&& prices.contains_key(items[i].0)
                &&& items[i].2 == prices[items[i].0].unit_price@
                &&& line_subtotal(items[i].2, items[i].1, mult) == Some(items[i].3)
            }
        },
    decreases entries.len(),
{
    if entries.len() > 0 {
        let prev = entries.drop_last();
        rated_lines_follow_readings(prev, prices, mult);
        if let Ok((items, _t)) = rate_entries(entries, prices, mult) {
            if let Ok((pitems, _pt)) = rate_entries(prev, prices, mult) {
                assert forall|i: int| 0 <= i < prev.len() implies items[i] == pitems[i] && entries[i] == prev[i] by {}
            }
        }
    }
}

/// A reading whose kind has no price in the snapshot makes rating fail.
pub proof fn unpriced_reading_fails(
    entries: Seq<(MeterKind, u64)>,
    prices: Map<MeterKindView, MeterPrice>,
    mult: Option<TierRateView>,
    i: int,
)
    requires
        0 <= i < entries.len(),
        !prices.contains_key(entries[i].0@),
    ensures
        rate_entries(entries, prices, mult) is Err,
{
    if rate_entries(entries, prices, mult) is Ok {
        rated_lines_follow_readings(entries, prices, mult);
        if let Ok((items, _t)) = rate_entries(entries, prices, mult) {
            assert(items[i].0 == entries[i].0@);
        }
    }
}

/// The running total of line subtotals, added in order from zero; `None`
/// when an addition overflows.
pub open spec fn subtotal_sum(lines: Seq<LineView>) -> Option<(i128, u32)>
    decreases lines.len(),
{
    if lines.len() == 0 {
        Some((0i128, 0u32))
    } else {
        match subtotal_sum(lines.drop_last()) {
            Some(t) => sum(t, lines.last().3),
            None => None,
        }
    }
}

/// The total of a successful rating is the sum of its line subtotals.
pub proof fn rated_total_is_sum_of_lines(
    entries: Seq<(MeterKind, u64)>,
    prices: Map<MeterKindView, MeterPrice>,
    mult: Option<TierRateView>,
)
    requires
        rate_entries(entries, prices, mult) is Ok,
    ensures
        rate_entries(entries, prices, mult) matches Ok((items, total)) && subtotal_sum(items) == Some(total),
    decreases entries.len(),
{
    if entries.len() > 0 {
        let prev = entries.drop_last();
        rated_total_is_sum_of_lines(prev, prices, mult);
        if let Ok((items, _t)) = rate_entries(entries, prices, mult) {
            if let Ok((pitems, _pt)) = rate_entries(prev, prices, mult) {
                assert(items.drop_last() =~= pitems);
            }
        }
    }
}

} // verus!
