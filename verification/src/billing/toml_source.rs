//! File-based pricing: snapshots as read from a TOML file are validated into
//! price snapshots and served by billable model. Reading and parsing the file
//! is the caller's part.

use vstd::prelude::*;
use vstd::string::*;
use crate::strmap::StrMap;
use crate::text::str_eq;
use crate::billing::meter_kind::{MeterKind, MeterKindView, KindMap};
use crate::billing::observation::{CurrencyCode, UtcTimestamp};
use crate::billing::decimal::{Decimal, valid_decimal};
use crate::billing::pricing::{MeterPrice, ModelRef, PriceSnapshot, PricingError, PricingSource, ProviderRef, same_snapshot};

verus! {

/// The (mantissa, scale) that `rust_decimal` parses from a string, or the
/// text of its error.
pub uninterp spec fn decimal_parsed(s: Seq<char>) -> Result<(i128, u32), Seq<char>>;

/// Parses a decimal with `str::parse::<rust_decimal::Decimal>`.
/// Claimed: the outcome is `decimal_parsed` of the string (the error as its
/// `Display` text), and a parsed value is a valid decimal.
#[verifier::external_body]
fn parse_decimal_text(s: &str) -> (r: Result<(i128, u32), String>)
    ensures
        match r {
            Ok(p) => decimal_parsed(s@) == Ok::<(i128, u32), Seq<char>>(p) && valid_decimal(p.0, p.1),
            Err(e) => decimal_parsed(s@) == Err::<(i128, u32), Seq<char>>(e@),
        },
{
    match s.parse::<rust_decimal::Decimal>() {
        Ok(d) => Ok((d.mantissa(), d.scale())),
        Err(e) => Err(e.to_string()),
    }
}

/// The (seconds, nanoseconds) since the epoch that `chrono` parses from a
/// string as a `DateTime<Utc>`, or the text of its error.
pub uninterp spec fn utc_parsed(s: Seq<char>) -> Result<(i64, u32), Seq<char>>;

/// Parses a UTC date-time with `str::parse::<chrono::DateTime<chrono::Utc>>`.
/// Claimed: the outcome is `utc_parsed` of the string (the error as its
/// `Display` text).
#[verifier::external_body]
fn parse_utc_text(s: &str) -> (r: Result<(i64, u32), String>)
    ensures
        match r {
            Ok(t) => utc_parsed(s@) == Ok::<(i64, u32), Seq<char>>(t),
            Err(e) => utc_parsed(s@) == Err::<(i64, u32), Seq<char>>(e@),
        },
{
    match s.parse::<chrono::DateTime<chrono::Utc>>() {
        Ok(t) => Ok((t.timestamp(), t.timestamp_subsec_nanos())),
        Err(e) => Err(e.to_string()),
    }
}

/// The meter kind a TOML key names: a standard kind by its name, else a
/// custom kind named by the key.
pub open spec fn kind_named(s: Seq<char>) -> MeterKindView {
    if s == "InputTokens"@ { MeterKindView::InputTokens }
    else if s == "OutputTokens"@ { MeterKindView::OutputTokens }
    else if s == "CachedInputTokens"@ { MeterKindView::CachedInputTokens }
    else if s == "CachedWriteTokens"@ { MeterKindView::CachedWriteTokens }
    else if s == "ReasoningTokens"@ { MeterKindView::ReasoningTokens }
    else if s == "AudioInputTokens"@ { MeterKindView::AudioInputTokens }
    else if s == "AudioOutputTokens"@ { MeterKindView::AudioOutputTokens }
    else if s == "ImageCount"@ { MeterKindView::ImageCount }
    else { MeterKindView::Custom(s) }
}

/// Parses a meter kind from its TOML key; every key names some kind.
pub fn parse_meter_kind(s: &str) -> (r: Result<MeterKind, PricingError>)
    ensures
        r matches Ok(k) && k@ == kind_named(s@),
{
    if str_eq(s, "InputTokens") { Ok(MeterKind::InputTokens) }
    else if str_eq(s, "OutputTokens") { Ok(MeterKind::OutputTokens) }
    else if str_eq(s, "CachedInputTokens") { Ok(MeterKind::CachedInputTokens) }
    else if str_eq(s, "CachedWriteTokens") { Ok(MeterKind::CachedWriteTokens) }
    else if str_eq(s, "ReasoningTokens") { Ok(MeterKind::ReasoningTokens) }
    else if str_eq(s, "AudioInputTokens") { Ok(MeterKind::AudioInputTokens) }
    else if str_eq(s, "AudioOutputTokens") { Ok(MeterKind::AudioOutputTokens) }
    else if str_eq(s, "ImageCount") { Ok(MeterKind::ImageCount) }
    else { Ok(MeterKind::Custom(String::from_str(s))) }
}

/// A price as written in the file.
#[derive(Clone, Debug, PartialEq, Eq)]
pub struct RawMeterPrice {
    pub unit_price: String,
    pub unit_display: String,
}

/// A snapshot as written in the file, before validation.
#[derive(Clone, Debug, PartialEq, Eq)]
pub struct RawSnapshot {
    pub snapshot_id: String,
    pub billable_model: String,
    pub vendor: Option<String>,
    pub region: Option<String>,
    pub tier: Option<String>,
    pub currency: String,
    pub effective_from: String,
    pub effective_until: Option<String>,
    pub prices: Vec<(String, RawMeterPrice)>,
}

/// The error of the first price (in order) that does not parse, if any.
pub open spec fn first_bad_price(ps: Seq<(String, RawMeterPrice)>) -> Option<Seq<char>>
    decreases ps.len(),
{
    if ps.len() == 0 {
        None
    } else {
        match first_bad_price(ps.drop_last()) {
            Some(e) => Some(e),
            None => match decimal_parsed(ps.last().1.unit_price@) {
                Err(e) => Some(e),
                Ok(_) => None,
            },
        }
    }
}

/// A price as values: unit price and display unit.
pub type PriceView = ((i128, u32), Seq<char>);

/// The prices the file's entries give (a later entry for a kind wins),
/// for entries that all parse.
pub open spec fn raw_price_map(ps: Seq<(String, RawMeterPrice)>) -> Map<MeterKindView, PriceView>
    decreases ps.len(),
{
    if ps.len() == 0 {
        Map::empty()
    } else {
        raw_price_map(ps.drop_last()).insert(
            kind_named(ps.last().0@),
            (decimal_parsed(ps.last().1.unit_price@)->Ok_0, ps.last().1.unit_display@),
        )
    }
}

/// The values of a map of prices.
pub open spec fn price_views(m: Map<MeterKindView, MeterPrice>) -> Map<MeterKindView, PriceView> {
    Map::new(|k: MeterKindView| m.contains_key(k), |k: MeterKindView| (m[k].unit_price@, m[k].unit_display@))
}

/// The view of an optional string.
pub open spec fn opt_chars(o: Option<String>) -> Option<Seq<char>> {
    match o {
        Some(s) => Some(s@),
        None => None,
    }
}

/// The error a raw snapshot is refused with, if any: the currency first,
/// then the prices in order, then the start date, then the end date.
pub open spec fn raw_snapshot_error(raw: RawSnapshot) -> Option<Seq<char>> {
    if !crate::billing::observation::valid_currency(raw.currency@) {
        Some("Invalid currency: "@ + "Invalid currency code: "@ + raw.currency@)
    } else if first_bad_price(raw.prices@) is Some {
        Some("Invalid price: "@ + first_bad_price(raw.prices@)->Some_0)
    } else if utc_parsed(raw.effective_from@) is Err {
        Some("Invalid date: "@ + utc_parsed(raw.effective_from@)->Err_0)
    } else if raw.effective_until matches Some(u) && utc_parsed(u@) is Err {
        Some("Invalid date: "@ + utc_parsed(raw.effective_until->Some_0@)->Err_0)
    } else {
        None
    }
}

/// `snap` is the validated form of `raw`: the same ids, model and currency,
/// the parsed prices and dates, and no tiers.
pub open spec fn converted(raw: RawSnapshot, snap: PriceSnapshot) -> bool {
    &&& snap.snapshot_id@ == raw.snapshot_id@
    &&& snap.model_ref.billable_model@ == raw.billable_model@
    &&& opt_chars(snap.model_ref.vendor) == opt_chars(raw.vendor)
    &&& opt_chars(snap.model_ref.region) == opt_chars(raw.region)
    &&& opt_chars(snap.model_ref.tier) == opt_chars(raw.tier)
    &&& snap.currency.0@ == raw.currency@
    &&& price_views(snap.prices@) == raw_price_map(raw.prices@)
    &&& snap.tiers is None
    &&& utc_parsed(raw.effective_from@) == Ok::<(i64, u32), Seq<char>>((snap.effective_from.secs, snap.effective_from.nanos))
    &&& match raw.effective_until {
        Some(u) => snap.effective_until matches Some(t)
            && utc_parsed(u@) == Ok::<(i64, u32), Seq<char>>((t.secs, t.nanos)),
        None => snap.effective_until is None,
    }
}

fn prefix_message(prefix: &str, e: &str) -> (m: String)
    ensures
        m@ == prefix@ + e@,
{
    let mut m = String::from_str(prefix);
    m.append(e);
    m
}

fn parse_timestamp(s: &str) -> (r: Result<UtcTimestamp, PricingError>)
    ensures
        match utc_parsed(s@) {
            Ok(t) => r == Ok::<UtcTimestamp, PricingError>(UtcTimestamp { secs: t.0, nanos: t.1 }),
            Err(e) => r matches Err(PricingError::InvalidConfig(m)) && m@ == "Invalid date: "@ + e,
        },
{
    match parse_utc_text(s) {
        Ok((secs, nanos)) => Ok(UtcTimestamp { secs, nanos }),
        Err(e) => Err(PricingError::InvalidConfig(prefix_message("Invalid date: ", e.as_str()))),
    }
}

/// Validates a snapshot read from a file: the currency code, each price (in
/// order) and the dates must parse; the first that does not is reported.
/// A valid snapshot has no tiers.
pub fn price_snapshot_from_raw(raw: RawSnapshot) -> (r: Result<PriceSnapshot, PricingError>)
    ensures
        match raw_snapshot_error(raw) {
            Some(m) => r matches Err(PricingError::InvalidConfig(t)) && t@ == m,
            None => r matches Ok(snap) && converted(raw, snap),
        },
{
    let currency = match CurrencyCode::parse(raw.currency.as_str()) {
        Ok(c) => c,
        Err(e) => {
            let msg = e.message();
            return Err(PricingError::InvalidConfig(prefix_message("Invalid currency: ", msg.as_str())));
        },
    };
    let mut prices: KindMap<MeterPrice> = KindMap::new();
    let mut i: usize = 0;
    while i < raw.prices.len()
        invariant
            i <= raw.prices@.len(),
            crate::billing::observation::valid_currency(raw.currency@),
            first_bad_price(raw.prices@.subrange(0, i as int)) is None,
            price_views(prices@) == raw_price_map(raw.prices@.subrange(0, i as int)),
        decreases raw.prices@.len() - i,
    {
        let ghost pre = raw.prices@.subrange(0, i as int);
        let ghost next = raw.prices@.subrange(0, i + 1);
        assert(next.drop_last() =~= pre);
        let entry = &raw.prices[i];
        let kind = match parse_meter_kind(entry.0.as_str()) {
            Ok(k) => k,
            Err(e) => {
                return Err(e);
            },
        };
        let unit_price = match parse_decimal_text(entry.1.unit_price.as_str()) {
            Ok((m, s)) => Decimal::from_i128_with_scale(m, s),
            Err(e) => {
                proof {
                    assert(next.last() == raw.prices@[i as int]);
                    assert(first_bad_price(next) == Some(e@));
                    lemma_first_bad_extends(raw.prices@, i + 1);
                }
                return Err(PricingError::InvalidConfig(prefix_message("Invalid price: ", e.as_str())));
            },
        };
        let ghost before = prices@;
        prices.insert(kind, MeterPrice { unit_price, unit_display: entry.1.unit_display.clone() });
        proof {
            assert(price_views(prices@) =~= price_views(before).insert(
                kind_named(next.last().0@),
                (decimal_parsed(next.last().1.unit_price@)->Ok_0, next.last().1.unit_display@),
            ));
        }
        i = i + 1;
    }
    assert(raw.prices@.subrange(0, i as int) =~= raw.prices@);
    let effective_from = match parse_timestamp(raw.effective_from.as_str()) {
        Ok(t) => t,
        Err(e) => {
            return Err(e);
        },
    };
    let effective_until = match &raw.effective_until {
        Some(u) => match parse_timestamp(u.as_str()) {
            Ok(t) => Some(t),
            Err(e) => {
                return Err(e);
            },
        },
        None => None,
    };
    Ok(PriceSnapshot {
        snapshot_id: raw.snapshot_id,
        model_ref: ModelRef {
            billable_model: raw.billable_model,
            vendor: raw.vendor,
            region: raw.region,
            tier: raw.tier,
        },
        currency,
        prices,
        tiers: None,
        effective_from,
        effective_until,
    })
}

proof fn lemma_first_bad_extends(ps: Seq<(String, RawMeterPrice)>, j: int)
    requires
        0 <= j <= ps.len(),
        first_bad_price(ps.subrange(0, j)) is Some,
    ensures
        first_bad_price(ps) == first_bad_price(ps.subrange(0, j)),
    decreases ps.len() - j,
{
    if j == ps.len() {
        assert(ps.subrange(0, j) =~= ps);
    } else {
        assert(ps.subrange(0, j + 1).drop_last() =~= ps.subrange(0, j));
        lemma_first_bad_extends(ps, j + 1);
    }
}

/// Price snapshots served by billable model name.
pub struct TomlPricingSource {
    snapshots: StrMap<PriceSnapshot>,
}

impl View for TomlPricingSource {
    type V = Map<Seq<char>, PriceSnapshot>;

    closed spec fn view(&self) -> Map<Seq<char>, PriceSnapshot> {
        self.snapshots@
    }
}

/// The snapshots by billable model: a later snapshot for a model replaces
/// an earlier one.
pub open spec fn snapshots_by_model(snaps: Seq<PriceSnapshot>) -> Map<Seq<char>, PriceSnapshot>
    decreases snaps.len(),
{
    if snaps.len() == 0 {
        Map::empty()
    } else {
        snapshots_by_model(snaps.drop_last()).insert(snaps.last().model_ref.billable_model@, snaps.last())
    }
}

/// The index of the first raw snapshot that is refused, if any.
pub open spec fn first_refused(raws: Seq<RawSnapshot>) -> Option<int>
    decreases raws.len(),
{
    if raws.len() == 0 {
        None
    } else {
        match first_refused(raws.drop_last()) {
            Some(i) => Some(i),
            None => if raw_snapshot_error(raws.last()) is Some { Some(raws.len() - 1) } else { None },
        }
    }
}

proof fn lemma_first_refused_extends(raws: Seq<RawSnapshot>, j: int)
    requires
        0 <= j <= raws.len(),
        first_refused(raws.subrange(0, j)) is Some,
    ensures
        first_refused(raws) == first_refused(raws.subrange(0, j)),
    decreases raws.len() - j,
{
    if j == raws.len() {
        assert(raws.subrange(0, j) =~= raws);
    } else {
        assert(raws.subrange(0, j + 1).drop_last() =~= raws.subrange(0, j));
        lemma_first_refused_extends(raws, j + 1);
    }
}

impl TomlPricingSource {
    /// Serves the given snapshots; a later snapshot for a model replaces an
    /// earlier one.
    pub fn from_snapshots(snaps: Vec<PriceSnapshot>) -> (src: Self)
        ensures
            src@ == snapshots_by_model(snaps@),
    {
        let ghost all = snaps@;
        let mut map: StrMap<PriceSnapshot> = StrMap::new();
        let mut rest = snaps;
        let mut i: usize = 0;
        let n = rest.len();
        while rest.len() > 0
            invariant
                n == all.len(),
                rest@.len() + i == n,
                rest@ == all.subrange(i as int, n as int),
                map@ == snapshots_by_model(all.subrange(0, i as int)),
            decreases rest@.len(),
        {
            let snap = rest.remove(0);
            proof {
                assert(snap == all[i as int]);
                assert(all.subrange(0, i + 1).drop_last() =~= all.subrange(0, i as int));
                assert(rest@ =~= all.subrange(i + 1, n as int));
            }
            let key = snap.model_ref.billable_model.clone();
            map.insert(key, snap);
            i = i + 1;
        }
        assert(all.subrange(0, n as int) =~= all);
        TomlPricingSource { snapshots: map }
    }

    /// Validates snapshots read from a file and serves them; the first that
    /// is refused makes the whole source fail, its error wrapped as
    /// `"Failed to convert snapshot: {error}"`.
    pub fn from_raw(raws: Vec<RawSnapshot>) -> (r: Result<Self, PricingError>)
        ensures
            match first_refused(raws@) {
                Some(i) => r matches Err(PricingError::InvalidConfig(m))
                    && m@ == "Failed to convert snapshot: "@ + "Invalid pricing config: "@ + raw_snapshot_error(raws@[i])->Some_0,
                None => r matches Ok(src) && exists|snaps: Seq<PriceSnapshot>| {
                    &&& snaps.len() == raws@.len()
                    &&& forall|k: int| 0 <= k < snaps.len() ==> converted(#[trigger] raws@[k], snaps[k])
                    &&& src@ == snapshots_by_model(snaps)
                },
            },
    {
        let ghost all = raws@;
        let n = raws.len();
        let mut snaps: Vec<PriceSnapshot> = Vec::new();
        let mut rest = raws;
        let mut i: usize = 0;
        while rest.len() > 0
            invariant
                n == all.len(),
                rest@.len() + i == n,
                rest@ == all.subrange(i as int, n as int),
                first_refused(all.subrange(0, i as int)) is None,
                all == raws@,
                snaps@.len() == i,
                forall|k: int| 0 <= k < i ==> converted(#[trigger] all[k], snaps@[k]),
            decreases rest@.len(),
        {
            let raw = rest.remove(0);
            proof {
                assert(raw == all[i as int]);
                assert(all.subrange(0, i + 1).drop_last() =~= all.subrange(0, i as int));
                assert(rest@ =~= all.subrange(i + 1, n as int));
            }
            match price_snapshot_from_raw(raw) {
                Ok(s) => {
                    proof {
                        assert(first_refused(all.subrange(0, i + 1)) is None);
                    }
                    snaps.push(s);
                },
                Err(e) => {
                    proof {
                        assert(first_refused(all.subrange(0, i + 1)) == Some(i as int));
                        lemma_first_refused_extends(all, i + 1);
                    }
                    let msg = e.message();
                    let out = prefix_message("Failed to convert snapshot: ", msg.as_str());
                    proof {
                        let t = raw_snapshot_error(all[i as int])->Some_0;
                        assert(msg@ == "Invalid pricing config: "@ + t);
                        assert(out@ =~= "Failed to convert snapshot: "@ + "Invalid pricing config: "@ + t);
                    }
                    return Err(PricingError::InvalidConfig(out));
                },
            }
            i = i + 1;
        }
        assert(all.subrange(0, n as int) =~= all);
        let ghost converted_snaps = snaps@;
        let src = TomlPricingSource::from_snapshots(snaps);
        assert(converted_snaps.len() == raws@.len());
        Ok(src)
    }
}

impl PricingSource for TomlPricingSource {
    /// The snapshot for the model's billable name; the provider is not
    /// consulted. An unknown model is `NotFound`, naming the model's vendor.
    fn resolve_snapshot(&self, model_ref: &ModelRef, provider_ref: Option<&ProviderRef>) -> (r: Result<PriceSnapshot, PricingError>)
        ensures
            self@.contains_key(model_ref.billable_model@) ==> (r matches Ok(s)
                && same_snapshot(s, self@[model_ref.billable_model@])),
            !self@.contains_key(model_ref.billable_model@) ==> (r matches Err(PricingError::NotFound { model, provider })
                && model@ == model_ref.billable_model@ && opt_chars(provider) == opt_chars(model_ref.vendor)),
    {
        match self.snapshots.get(model_ref.billable_model.as_str()) {
            Some(s) => Ok(s.duplicate()),
            None => Err(PricingError::NotFound {
                model: model_ref.billable_model.clone(),
                provider: match &model_ref.vendor {
                    Some(v) => Some(v.clone()),
                    None => None,
                },
            }),
        }
    }
}

/// The eight standard meter names parse to their standard kinds, never to a
/// custom kind; a custom kind is named only by a key that is none of them.
pub proof fn standard_kind_names(s: Seq<char>)
    ensures
        kind_named("InputTokens"@) == MeterKindView::InputTokens,
        kind_named("OutputTokens"@) == MeterKindView::OutputTokens,
        kind_named("CachedInputTokens"@) == MeterKindView::CachedInputTokens,
        kind_named("CachedWriteTokens"@) == MeterKindView::CachedWriteTokens,
        kind_named("ReasoningTokens"@) == MeterKindView::ReasoningTokens,
        kind_named("AudioInputTokens"@) == MeterKindView::AudioInputTokens,
        kind_named("AudioOutputTokens"@) == MeterKindView::AudioOutputTokens,
        kind_named("ImageCount"@) == MeterKindView::ImageCount,
        kind_named(s) is Custom ==> kind_named(s) == MeterKindView::Custom(s)
            && s != "InputTokens"@ && s != "OutputTokens"@ && s != "CachedInputTokens"@
            && s != "CachedWriteTokens"@ && s != "ReasoningTokens"@ && s != "AudioInputTokens"@
            && s != "AudioOutputTokens"@ && s != "ImageCount"@,
{
    reveal_strlit("InputTokens");
    reveal_strlit("OutputTokens");
    reveal_strlit("CachedInputTokens");
    reveal_strlit("CachedWriteTokens");
    reveal_strlit("ReasoningTokens");
    reveal_strlit("AudioInputTokens");
    reveal_strlit("AudioOutputTokens");
    reveal_strlit("ImageCount");
    let n0 = "InputTokens"@;
    let n1 = "OutputTokens"@;
    let n2 = "CachedInputTokens"@;
    let n3 = "CachedWriteTokens"@;
    let n4 = "ReasoningTokens"@;
    let n5 = "AudioInputTokens"@;
    let n6 = "AudioOutputTokens"@;
    let n7 = "ImageCount"@;
    assert(n1 != n0) by { assert(n1[0] != n0[0]); }
    assert(n2 != n0 && n2 != n1) by { assert(n2[0] != n0[0] && n2[0] != n1[0]); }
    assert(n3 != n0 && n3 != n1 && n3 != n2) by { assert(n3[0] != n0[0] && n3[0] != n1[0] && n3[6] != n2[6]); }
    assert(n4 != n0 && n4 != n1 && n4 != n2 && n4 != n3) by {
        assert(n4[0] != n0[0] && n4[0] != n1[0] && n4[0] != n2[0] && n4[0] != n3[0]);
    }
    assert(n5 != n0 && n5 != n1 && n5 != n2 && n5 != n3 && n5 != n4) by {
        assert(n5[0] != n0[0] && n5[0] != n1[0] && n5[0] != n2[0] && n5[0] != n3[0] && n5[0] != n4[0]);
    }
    assert(n6 != n0 && n6 != n1 && n6 != n2 && n6 != n3 && n6 != n4 && n6 != n5) by {
        assert(n6[0] != n0[0] && n6[0] != n1[0] && n6[0] != n2[0] && n6[0] != n3[0] && n6[0] != n4[0] && n6[5] != n5[5]);
    }
    assert(n7 != n0 && n7 != n1 && n7 != n2 && n7 != n3 && n7 != n4 && n7 != n5 && n7 != n6) by {
        assert(n7[1] != n0[1] && n7[0] != n1[0] && n7[0] != n2[0] && n7[0] != n3[0] && n7[0] != n4[0]
            && n7[0] != n5[0] && n7[0] != n6[0]);
    }
}

} // verus!
