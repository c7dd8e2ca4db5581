//! Prices: model references, price snapshots and tier configuration.

use vstd::prelude::*;
use vstd::string::*;
use crate::billing::meter_kind::{MeterKind, KindMap, keys_distinct, entries_map, lemma_entries_map};
use crate::billing::observation::{CurrencyCode, UtcTimestamp};
use crate::billing::decimal::Decimal;

verus! {

/// A model for pricing purposes: the billable model name and optional
/// vendor, region and tier.
#[derive(Clone, Debug, PartialEq, Eq)]
pub struct ModelRef {
    pub billable_model: String,
    pub vendor: Option<String>,
    pub region: Option<String>,
    pub tier: Option<String>,
}

/// A provider deployment.
#[derive(Clone, Debug, PartialEq, Eq)]
pub struct ProviderRef {
    pub provider_id: String,
}

/// Prices for a model at a point in time; only kinds present are billed.
#[derive(Debug)]
pub struct PriceSnapshot {
    pub snapshot_id: String,
    pub model_ref: ModelRef,
    pub currency: CurrencyCode,
    pub prices: KindMap<MeterPrice>,
    pub tiers: Option<TierConfig>,
    pub effective_from: UtcTimestamp,
    pub effective_until: Option<UtcTimestamp>,
}

/// The price of one unit of a meter.
#[derive(Clone, Debug)]
pub struct MeterPrice {
    pub unit_price: Decimal,
    pub unit_display: String,
}

/// Volume-based pricing: multipliers chosen by cumulative usage.
#[derive(Debug)]
pub struct TierConfig {
    pub baseline_meter: TierBaseline,
    pub accumulation_scope: AccumulationScope,
    pub boundaries: Vec<TierBoundary>,
}

/// The meter whose cumulative usage selects the tier.
#[derive(Debug)]
pub enum TierBaseline {
    Meter(MeterKind),
    TotalTokens,
}

/// Who provides the cumulative usage.
#[derive(Clone, Copy, Debug, PartialEq, Eq)]
pub enum AccumulationScope {
    CallerProvided,
}

/// A tier threshold (inclusive, in millions of tokens) and its pricing.
#[derive(Clone, Copy, Debug)]
pub struct TierBoundary {
    pub up_to_mtok: u64,
    /// Multiplies the base price.
    pub price_multiplier: Option<Decimal>,
    /// A price per million units; when set it overrides the multiplier.
    pub absolute_price_per_mtok: Option<Decimal>,
}

/// Resolves price snapshots for in-memory or file-based pricing.
pub trait PricingSource {
    fn resolve_snapshot(&self, model_ref: &ModelRef, provider_ref: Option<&ProviderRef>) -> Result<PriceSnapshot, PricingError>;
}

/// Why pricing failed.
#[derive(Clone, Debug, PartialEq, Eq)]
pub enum PricingError {
    NotFound { model: String, provider: Option<String> },
    InvalidConfig(String),
    Other(String),
}

/// How Rust's `Debug` writes a string: quoted, with escapes.
pub uninterp spec fn debug_quoted(s: Seq<char>) -> Seq<char>;

/// Formats `s` with `Debug` (`format!("{:?}", s)`).
/// Claimed: the result is `debug_quoted` of the string's characters.
#[verifier::external_body]
fn debug_string(s: &str) -> (r: String)
    ensures
        r@ == debug_quoted(s@),
{
    format!("{:?}", s)
}

/// How `Debug` writes an optional string: `None`, or `Some(` the quoted string `)`.
pub open spec fn debug_option(o: Option<String>) -> Seq<char> {
    match o {
        Some(s) => "Some("@ + debug_quoted(s@) + ")"@,
        None => "None"@,
    }
}

/// The message of a pricing error.
pub open spec fn pricing_error_message(e: PricingError) -> Seq<char> {
    match e {
        PricingError::NotFound { model, provider } =>
            "Price not found for model="@ + model@ + ", provider="@ + debug_option(provider),
        PricingError::InvalidConfig(s) => "Invalid pricing config: "@ + s@,
        PricingError::Other(s) => "Pricing error: "@ + s@,
    }
}

impl PricingError {
    /// The human-readable message.
    pub fn message(&self) -> (m: String)
        ensures
            m@ == pricing_error_message(*self),
    {
        match self {
            PricingError::NotFound { model, provider } => {
                let mut m = String::from_str("Price not found for model=");
                m.append(model.as_str());
                m.append(", provider=");
                match provider {
                    Some(p) => {
                        m.append("Some(");
                        let d = debug_string(p.as_str());
                        m.append(d.as_str());
                        m.append(")");
                    },
                    None => {
                        m.append("None");
                    },
                }
                m
            },
            PricingError::InvalidConfig(s) => {
                let mut m = String::from_str("Invalid pricing config: ");
                m.append(s.as_str());
                m
            },
            PricingError::Other(s) => {
                let mut m = String::from_str("Pricing error: ");
                m.append(s.as_str());
                m
            },
        }
    }
}

fn copy_opt_string(o: &Option<String>) -> (r: Option<String>)
    ensures
        r == *o,
{
    match o {
        Some(s) => Some(s.clone()),
        None => None,
    }
}

impl ModelRef {
    /// A copy of this model reference.
    pub fn duplicate(&self) -> (m: ModelRef)
        ensures
            m == *self,
    {
        ModelRef {
            billable_model: self.billable_model.clone(),
            vendor: copy_opt_string(&self.vendor),
            region: copy_opt_string(&self.region),
            tier: copy_opt_string(&self.tier),
        }
    }
}

impl MeterPrice {
    /// A copy of this price.
    pub fn duplicate(&self) -> (p: MeterPrice)
        ensures
            p == *self,
    {
        MeterPrice { unit_price: self.unit_price, unit_display: self.unit_display.clone() }
    }
}

fn copy_prices(m: &KindMap<MeterPrice>) -> (r: KindMap<MeterPrice>)
    ensures
        r@ == m@,
{
    let n = m.len();
    let mut r: KindMap<MeterPrice> = KindMap::new();
    let mut i: usize = 0;
    while i < n
        invariant
            n == m.entry_seq().len(),
            keys_distinct(m.entry_seq()),
            i <= n,
            r.entry_seq() == m.entry_seq().subrange(0, i as int),
            r@ == entries_map(r.entry_seq()),
        decreases n - i,
    {
        let e = m.entry_at(i);
        let k = e.0.duplicate();
        let v = e.1.duplicate();
        proof {
            let pre = m.entry_seq().subrange(0, i as int);
            assert(keys_distinct(pre));
            lemma_entries_map(pre);
            if r@.contains_key(k@) {
                let j = choose|j: int| 0 <= j < pre.len() && pre[j].0@ == k@;
                assert(m.entry_seq()[j].0@ != m.entry_seq()[i as int].0@);
            }
        }
        r.insert(k, v);
        proof {
            assert(m.entry_seq().subrange(0, i + 1) =~= m.entry_seq().subrange(0, i as int).push(m.entry_seq()[i as int]));
            assert(r.entry_seq().drop_last() =~= m.entry_seq().subrange(0, i as int));
        }
        i = i + 1;
    }
    assert(m.entry_seq().subrange(0, n as int) =~= m.entry_seq());
    r
}

fn copy_tiers(t: &Option<TierConfig>) -> (r: Option<TierConfig>)
    ensures
        match (r, *t) {
            (Some(a), Some(b)) => a.baseline_meter == b.baseline_meter && a.accumulation_scope == b.accumulation_scope
                && a.boundaries@ == b.boundaries@,
            (None, None) => true,
            _ => false,
        },
{
    match t {
        None => None,
        Some(tc) => {
            let baseline_meter = match &tc.baseline_meter {
                TierBaseline::Meter(k) => TierBaseline::Meter(k.duplicate()),
                TierBaseline::TotalTokens => TierBaseline::TotalTokens,
            };
            let mut boundaries: Vec<TierBoundary> = Vec::new();
            let mut i: usize = 0;
            while i < tc.boundaries.len()
                invariant
                    i <= tc.boundaries@.len(),
                    boundaries@ == tc.boundaries@.subrange(0, i as int),
                decreases tc.boundaries@.len() - i,
            {
                boundaries.push(tc.boundaries[i]);
                assert(boundaries@ =~= tc.boundaries@.subrange(0, i + 1));
                i = i + 1;
            }
            assert(boundaries@ =~= tc.boundaries@);
            Some(TierConfig { baseline_meter, accumulation_scope: tc.accumulation_scope, boundaries })
        },
    }
}

/// Two snapshots hold the same prices and terms.
pub open spec fn same_snapshot(a: PriceSnapshot, b: PriceSnapshot) -> bool {
    &&& a.snapshot_id == b.snapshot_id
    &&& a.model_ref == b.model_ref
    &&& a.currency == b.currency
    &&& a.prices@ == b.prices@
    &&& match (a.tiers, b.tiers) {
        (Some(x), Some(y)) => x.baseline_meter == y.baseline_meter && x.accumulation_scope == y.accumulation_scope
            && x.boundaries@ == y.boundaries@,
        (None, None) => true,
        _ => false,
    }
    &&& a.effective_from == b.effective_from
    &&& a.effective_until == b.effective_until
}

impl PriceSnapshot {
    /// A copy of this snapshot.
    pub fn duplicate(&self) -> (s: PriceSnapshot)
        ensures
            same_snapshot(s, *self),
    {
        PriceSnapshot {
            snapshot_id: self.snapshot_id.clone(),
            model_ref: self.model_ref.duplicate(),
            currency: CurrencyCode(self.currency.0.clone()),
            prices: copy_prices(&self.prices),
            tiers: copy_tiers(&self.tiers),
            effective_from: self.effective_from,
            effective_until: self.effective_until,
        }
    }
}

} // verus!
