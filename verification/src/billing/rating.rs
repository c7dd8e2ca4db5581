//! Rating: turning observations and price snapshots into costs.

use vstd::prelude::*;
use vstd::string::*;
use crate::billing::meter_kind::{MeterKind, MeterKindView};
use crate::billing::observation::{UsageObservation, CurrencyCode, UtcTimestamp};
use crate::billing::pricing::{PriceSnapshot, MeterPrice, TierConfig, TierBoundary};
use crate::billing::decimal::{Decimal, product, quotient, sum};

verus! {

/// An observation with its computed cost; `supersedes` names the record
/// that this one corrects.
#[derive(Debug)]
pub struct RatedUsageRecord {
    pub rated_record_id: String,
    pub observation: UsageObservation,
    pub rating: RatingResult,
    pub supersedes: Option<String>,
}

/// The cost of an observation: one line item per meter, and their total.
#[derive(Debug)]
pub struct RatingResult {
    pub line_items: Vec<RatedLineItem>,
    pub total_cost: Decimal,
    pub currency: CurrencyCode,
    pub price_snapshot_id: String,
    pub rated_at: UtcTimestamp,
}

/// What rating needs beyond the snapshot: cumulative usage (for tiers),
/// the billing period and the tenant scope.
#[derive(Clone, Debug, PartialEq, Eq)]
pub struct RatingContext {
    pub cumulative_baseline_usage_mtok: u64,
    pub billing_period: Option<String>,
    pub tenant_scope: Option<String>,
}

impl Default for RatingContext {
    fn default() -> (c: Self)
        ensures
            c.cumulative_baseline_usage_mtok == 0 && c.billing_period is None && c.tenant_scope is None,
    {
        RatingContext { cumulative_baseline_usage_mtok: 0, billing_period: None, tenant_scope: None }
    }
}

/// One rated meter: the quantity, its unit price and the subtotal.
#[derive(Debug)]
pub struct RatedLineItem {
    pub meter_kind: MeterKind,
    pub quantity: u64,
    pub unit_price: Decimal,
    pub subtotal: Decimal,
}

/// Rates an observation against a price snapshot.
pub trait RatingEngine {
    fn rate(
        &self,
        observation: &UsageObservation,
        snapshot: &PriceSnapshot,
        context: &RatingContext,
    ) -> Result<RatingResult, RatingError>;
}

/// Why rating failed.
#[derive(Debug)]
pub enum RatingError {
    NoPriceForMeter { meter_kind: MeterKind, snapshot_id: String },
    DecimalOverflow { meter_kind: MeterKind, quantity: u64, unit_price: Decimal },
    InvalidTierConfig(String),
    NoMatchingTier { usage_mtok: u64 },
    Other(String),
}

/// How the tier that applies prices a meter: its absolute price per million
/// units, which overrides a multiplier, else its multiplier of the base price.
#[derive(Clone, Copy, Debug)]
pub enum TierRate {
    PerMillion(Decimal),
    Multiplier(Decimal),
}

/// A tier rate as values.
pub enum TierRateView {
    PerMillion((i128, u32)),
    Multiplier((i128, u32)),
}

impl View for TierRate {
    type V = TierRateView;

    open spec fn view(&self) -> TierRateView {
        match self {
            TierRate::PerMillion(d) => TierRateView::PerMillion(d@),
            TierRate::Multiplier(d) => TierRateView::Multiplier(d@),
        }
    }
}

/// The rate a boundary sets, if any: its absolute price per MTok when it has
/// one, else its multiplier.
pub open spec fn boundary_rate(b: TierBoundary) -> Option<TierRateView> {
    match b.absolute_price_per_mtok {
        Some(a) => Some(TierRateView::PerMillion(a@)),
        None => match b.price_multiplier {
            Some(m) => Some(TierRateView::Multiplier(m@)),
            None => None,
        },
    }
}

/// The rate of the last boundary that reaches `cumulative` and sets a rate,
/// if any.
pub open spec fn tier_rate(bs: Seq<TierBoundary>, cumulative: u64) -> Option<TierRateView>
    decreases bs.len(),
{
    if bs.len() == 0 {
        None
    } else if cumulative <= bs.last().up_to_mtok && boundary_rate(bs.last()) is Some {
        boundary_rate(bs.last())
    } else {
        tier_rate(bs.drop_last(), cumulative)
    }
}

/// The tier rate a snapshot applies in a context.
pub open spec fn snapshot_rate(snapshot: PriceSnapshot, context: RatingContext) -> Option<TierRateView> {
    match snapshot.tiers {
        Some(tc) => tier_rate(tc.boundaries@, context.cumulative_baseline_usage_mtok),
        None => None,
    }
}

/// Why rating of the entries failed.
pub enum RateFailure {
    NoPrice(MeterKindView),
    Overflow(MeterKindView, u64, (i128, u32)),
}

/// A rated line: kind, quantity, unit price, subtotal.
pub type LineView = (MeterKindView, u64, (i128, u32), (i128, u32));

/// One million, the units an absolute tier price is quoted for.
pub open spec fn one_million() -> (i128, u32) {
    (1_000_000i128, 0u32)
}

/// The subtotal of `quantity` units: with an absolute tier price `a` per
/// million units, `a * quantity / 1_000_000`; otherwise
/// `unit_price * quantity`, times the tier multiplier when there is one.
pub open spec fn line_subtotal(price: (i128, u32), quantity: u64, rate: Option<TierRateView>) -> Option<(i128, u32)> {
    match rate {
        Some(TierRateView::PerMillion(a)) => match product(a, (quantity as i128, 0u32)) {
            None => None,
            Some(t) => quotient(t, one_million()),
        },
        Some(TierRateView::Multiplier(m)) => match product(price, (quantity as i128, 0u32)) {
            None => None,
            Some(s) => product(s, m),
        },
        None => product(price, (quantity as i128, 0u32)),
    }
}

/// Rating of meter entries in order: each needs a price, its subtotal and
/// the running total must not overflow; the first failure is reported.
pub open spec fn rate_entries(
    entries: Seq<(MeterKind, u64)>,
    prices: Map<MeterKindView, MeterPrice>,
    mult: Option<TierRateView>,
) -> Result<(Seq<LineView>, (i128, u32)), RateFailure>
    decreases entries.len(),
{
    if entries.len() == 0 {
        Ok((Seq::empty(), (0i128, 0u32)))
    } else {
        match rate_entries(entries.drop_last(), prices, mult) {
            Err(f) => Err(f),
            Ok((items, total)) => {
                let k = entries.last().0@;
                let q = entries.last().1;
                if !prices.contains_key(k) {
                    Err(RateFailure::NoPrice(k))
                } else {
                    let p = prices[k].unit_price@;
                    match line_subtotal(p, q, mult) {
                        None => Err(RateFailure::Overflow(k, q, p)),
                        Some(st) => match sum(total, st) {
                            None => Err(RateFailure::Overflow(k, q, p)),
                            Some(t) => Ok((items.push((k, q, p, st)), t)),
                        },
                    }
                }
            },
        }
    }
}

proof fn lemma_rate_err_extends(
    entries: Seq<(MeterKind, u64)>,
    prices: Map<MeterKindView, MeterPrice>,
    mult: Option<TierRateView>,
    j: int,
)
    requires
        0 <= j <= entries.len(),
        rate_entries(entries.subrange(0, j), prices, mult) is Err,
    ensures
        rate_entries(entries, prices, mult) == rate_entries(entries.subrange(0, j), prices, mult),
    decreases entries.len() - j,
{
    if j == entries.len() {
        assert(entries.subrange(0, j) =~= entries);
    } else {
        assert(entries.subrange(0, j + 1).drop_last() =~= entries.subrange(0, j));
        lemma_rate_err_extends(entries, prices, mult, j + 1);
    }
}

/// The views of line items.
pub open spec fn lines_view(v: Seq<RatedLineItem>) -> Seq<LineView> {
    v.map_values(|l: RatedLineItem| (l.meter_kind@, l.quantity, l.unit_price@, l.subtotal@))
}

/// `r` is the outcome that `rate_entries` describes for this snapshot.
pub open spec fn rating_matches(
    r: Result<RatingResult, RatingError>,
    observation: UsageObservation,
    snapshot: PriceSnapshot,
    context: RatingContext,
) -> bool {
    match (r, rate_entries(observation.meter_set.meters.entry_seq(), snapshot.prices@, snapshot_rate(snapshot, context))) {
        (Ok(res), Ok((items, total))) => {
            &&& lines_view(res.line_items@) == items
            &&& res.total_cost@ == total
            &&& res.currency.0@ == snapshot.currency.0@
            &&& res.price_snapshot_id@ == snapshot.snapshot_id@
        },
        (Err(RatingError::NoPriceForMeter { meter_kind, snapshot_id }), Err(RateFailure::NoPrice(k))) =>
            meter_kind@ == k && snapshot_id@ == snapshot.snapshot_id@,
        (Err(RatingError::DecimalOverflow { meter_kind, quantity, unit_price }), Err(RateFailure::Overflow(k, q, p))) =>
            meter_kind@ == k && quantity == q && unit_price@ == p,
        _ => false,
    }
}

/// The rate of the last boundary that reaches the caller's cumulative usage
/// and sets a rate (an absolute price per MTok, or else a multiplier).
fn calculate_tier_multiplier(tier_config: &TierConfig, context: &RatingContext) -> (r: Result<Option<TierRate>, RatingError>)
    ensures
        r matches Ok(m) && (match m {
            Some(t) => tier_rate(tier_config.boundaries@, context.cumulative_baseline_usage_mtok) == Some(t@),
            None => tier_rate(tier_config.boundaries@, context.cumulative_baseline_usage_mtok) is None,
        }),
{
    let cumulative = context.cumulative_baseline_usage_mtok;
    let bs = &tier_config.boundaries;
    let mut matched: Option<TierRate> = None;
    let mut i: usize = 0;
    while i < bs.len()
        invariant
            i <= bs@.len(),
            match matched {
                Some(t) => tier_rate(bs@.subrange(0, i as int), cumulative) == Some(t@),
                None => tier_rate(bs@.subrange(0, i as int), cumulative) is None,
            },
        decreases bs@.len() - i,
    {
        let b = &bs[i];
        assert(bs@.subrange(0, i + 1).drop_last() =~= bs@.subrange(0, i as int));
        if cumulative <= b.up_to_mtok {
            if let Some(a) = b.absolute_price_per_mtok {
                matched = Some(TierRate::PerMillion(a));
            } else if let Some(mp) = b.price_multiplier {
                matched = Some(TierRate::Multiplier(mp));
            }
        }
        i = i + 1;
    }
    assert(bs@.subrange(0, bs@.len() as int) =~= bs@);
    Ok(matched)
}

/// The subtotal of one line (see [`line_subtotal`]), or `None` on overflow.
fn subtotal_for(unit_price: &Decimal, quantity: u64, rate: Option<TierRate>) -> (r: Option<Decimal>)
    ensures
        match rate {
            Some(t) => match r {
                Some(d) => line_subtotal(unit_price@, quantity, Some(t@)) == Some(d@),
                None => line_subtotal(unit_price@, quantity, Some(t@)) is None,
            },
            None => match r {
                Some(d) => line_subtotal(unit_price@, quantity, None) == Some(d@),
                None => line_subtotal(unit_price@, quantity, None) is None,
            },
        },
{
    let quantity_dec = Decimal::from_u64(quantity);
    match rate {
        Some(TierRate::PerMillion(a)) => match a.checked_mul(&quantity_dec) {
            Some(t) => t.checked_div(&Decimal::from_u64(1_000_000)),
            None => None,
        },
        Some(TierRate::Multiplier(m)) => match unit_price.checked_mul(&quantity_dec) {
            Some(st) => st.checked_mul(&m),
            None => None,
        },
        None => unit_price.checked_mul(&quantity_dec),
    }
}

/// The default engine: a line per meter (`unit_price * quantity`, times the
/// tier multiplier when the snapshot has tiers, or the tier's absolute price
/// per MTok times the quantity over a million), summed into the total.
#[derive(Clone, Copy, Debug)]
pub struct DefaultRatingEngine;

impl DefaultRatingEngine {
    /// The default engine.
    pub fn new() -> (e: Self) {
        DefaultRatingEngine
    }

    /// Rates an observation (see [`rate_entries`]): every meter needs a
    /// price, and no subtotal or the total may overflow.
    pub fn rate_observation(
        &self,
        observation: &UsageObservation,
        snapshot: &PriceSnapshot,
        context: &RatingContext,
    ) -> (r: Result<RatingResult, RatingError>)
        ensures
            rating_matches(r, *observation, *snapshot, *context),
    {
        let ghost mult = snapshot_rate(*snapshot, *context);
        let multiplier: Option<TierRate> = match &snapshot.tiers {
            Some(tc) => match calculate_tier_multiplier(tc, context) {
                Ok(m) => m,
                Err(e) => return Err(e),
            },
            None => None,
        };
        let meters = &observation.meter_set.meters;
        let ghost entries = meters.entry_seq();
        let mut line_items: Vec<RatedLineItem> = Vec::new();
        let mut total_cost = Decimal::zero();
        let mut i: usize = 0;
        let n = meters.len();
        assert(lines_view(line_items@) =~= Seq::<LineView>::empty());
        assert(entries.subrange(0, 0) =~= Seq::<(MeterKind, u64)>::empty());
        while i < n
            invariant
                n == entries.len(),
                entries == meters.entry_seq(),
                entries == observation.meter_set.meters.entry_seq(),
                mult == snapshot_rate(*snapshot, *context),
                i <= n,
                match multiplier {
                    Some(d) => mult == Some(d@),
                    None => mult is None,
                },
                rate_entries(entries.subrange(0, i as int), snapshot.prices@, mult)
                    == Ok::<(Seq<LineView>, (i128, u32)), RateFailure>((lines_view(line_items@), total_cost@)),
            decreases n - i,
        {
            let entry = meters.entry_at(i);
            let kind = &entry.0;
            let quantity = entry.1;
            proof {
                assert(entries.subrange(0, i + 1).drop_last() =~= entries.subrange(0, i as int));
                assert(entries.subrange(0, i + 1).last() == entries[i as int]);
            }
            let price = match snapshot.prices.get(kind) {
                Some(p) => p,
                None => {
                    proof {
                        let pre = entries.subrange(0, i + 1);
                        assert(pre.last().0@ == kind@);
                        assert(!snapshot.prices@.contains_key(kind@));
                        assert(rate_entries(pre.drop_last(), snapshot.prices@, mult) is Ok);
                        assert(rate_entries(pre, snapshot.prices@, mult) == Err::<(Seq<LineView>, (i128, u32)), RateFailure>(RateFailure::NoPrice(kind@)));
                        lemma_rate_err_extends(entries, snapshot.prices@, mult, i + 1);
                    }
                    let err = RatingError::NoPriceForMeter {
                        meter_kind: kind.duplicate(),
                        snapshot_id: snapshot.snapshot_id.clone(),
                    };
                    return Err(err);
                },
            };
            let unit_price = price.unit_price;
            let final_subtotal = match subtotal_for(&unit_price, quantity, multiplier) {
                Some(s) => s,
                None => {
                    proof { lemma_rate_err_extends(entries, snapshot.prices@, mult, i + 1); }
                    return Err(RatingError::DecimalOverflow { meter_kind: kind.duplicate(), quantity, unit_price });
                },
            };
            total_cost = match total_cost.checked_add(&final_subtotal) {
                Some(t) => t,
                None => {
                    proof { lemma_rate_err_extends(entries, snapshot.prices@, mult, i + 1); }
                    return Err(RatingError::DecimalOverflow { meter_kind: kind.duplicate(), quantity, unit_price });
                },
            };
            let ghost before = line_items@;
            line_items.push(RatedLineItem { meter_kind: kind.duplicate(), quantity, unit_price, subtotal: final_subtotal });
            proof {
                assert(lines_view(line_items@) =~= lines_view(before).push((kind@, quantity, unit_price@, final_subtotal@)));
            }
            i = i + 1;
        }
        assert(entries.subrange(0, n as int) =~= entries);
        Ok(RatingResult {
            line_items,
            total_cost,
            currency: CurrencyCode(snapshot.currency.0.clone()),
            price_snapshot_id: snapshot.snapshot_id.clone(),
            rated_at: UtcTimestamp::now(),
        })
    }
}

impl RatingEngine for DefaultRatingEngine {
    fn rate(
        &self,
        observation: &UsageObservation,
        snapshot: &PriceSnapshot,
        context: &RatingContext,
    ) -> (r: Result<RatingResult, RatingError>)
        ensures
            rating_matches(r, *observation, *snapshot, *context),
    {
        self.rate_observation(observation, snapshot, context)
    }
}

} // verus!
