use latch::billing::decimal::Decimal;
use latch::billing::export::ExportError;
use latch::billing::identity::{BillingSubject, CorrelationIds, UsageEventId, UsageEventIdBuilder, UsageEventIdError};
use latch::billing::meter_kind::MeterKind;
use latch::billing::observation::{
    AttributeError, Attributes, CurrencyCode, MeterSet, MeterSetError, UsageObservation, UsageOutcome, UsageSource,
    UsageTiming, UtcTimestamp,
};
use latch::billing::pricing::{AccumulationScope, MeterPrice, ModelRef, PriceSnapshot, PricingError, PricingSource, TierBaseline, TierBoundary, TierConfig};
use latch::billing::quota::{QuotaError, UsageAmount};
use latch::billing::rating::{
    DefaultRatingEngine, RatedLineItem, RatedUsageRecord, RatingContext, RatingEngine, RatingError, RatingResult,
};
use latch::billing::meter_kind::KindMap;
use latch::billing::storage::{ObservationStore, StoreError, StoreResult};
use latch::billing::export::RatedRecordExporter;
use std::sync::{Arc, Mutex};
use latch::billing::toml_source::{parse_meter_kind, price_snapshot_from_raw, RawMeterPrice, RawSnapshot, TomlPricingSource};
use std::collections::HashMap;

fn model(name: &str) -> ModelRef {
    ModelRef { billable_model: name.to_string(), vendor: None, region: None, tier: None }
}

fn observation(meter_set: MeterSet) -> UsageObservation {
    UsageObservation {
        event_id: UsageEventId::from_raw("test-1"),
        subject: BillingSubject::default(),
        meter_set,
        model_ref: model("test"),
        provider_ref: None,
        source: UsageSource::Estimated,
        outcome: UsageOutcome::Success,
        timing: UsageTiming { observed_at: UtcTimestamp { secs: 1_700_000_000, nanos: 0 }, completed_at: None },
        correlation: CorrelationIds::default(),
        attributes: Attributes::new(),
    }
}

fn snapshot_with(prices: KindMap<MeterPrice>) -> PriceSnapshot {
    PriceSnapshot {
        snapshot_id: "test-snap".to_string(),
        model_ref: model("test"),
        currency: CurrencyCode::usd(),
        prices,
        tiers: None,
        effective_from: UtcTimestamp { secs: 1_700_000_000, nanos: 0 },
        effective_until: None,
    }
}

#[test]
fn from_attempt_constructs_correct_key() {
    let id = UsageEventId::from_attempt("req-123", 0, "openai").unwrap();
    assert_eq!(id.idempotency_key, "req-123:0:openai");
}

#[test]
fn from_attempt_with_retry() {
    let id = UsageEventId::from_attempt("req-123", 1, "anthropic").unwrap();
    assert_eq!(id.idempotency_key, "req-123:1:anthropic");
}

#[test]
fn from_attempt_rejects_negative_attempt() {
    let result = UsageEventId::from_attempt("req-123", -1, "openai");
    assert!(matches!(result, Err(UsageEventIdError::InvalidAttemptIndex(-1))));
}

#[test]
fn from_raw_uses_caller_key() {
    let id = UsageEventId::from_raw("custom-key-123");
    assert_eq!(id.idempotency_key, "custom-key-123");
}

#[test]
fn billing_subject_default_all_none() {
    let sub = BillingSubject::default();
    assert_eq!(sub.tenant_id, None);
    assert_eq!(sub.api_key_id, None);
}

#[test]
fn usage_event_id_builder_basic() {
    let id = UsageEventIdBuilder::new("req-123", 0, "openai").build().unwrap();
    assert_eq!(id.idempotency_key, "req-123:0:openai");
}

#[test]
fn usage_event_id_builder_with_step() {
    let id = UsageEventIdBuilder::new("req-123", 0, "openai").step_id("step-1").build().unwrap();
    assert_eq!(id.idempotency_key, "req-123:0:openai:step-1");
}

#[test]
fn usage_event_id_builder_with_phase() {
    let id = UsageEventIdBuilder::new("req-123", 0, "openai").phase("init").build().unwrap();
    assert_eq!(id.idempotency_key, "req-123:0:openai:init");
}

#[test]
fn builder_with_step_and_phase_appends_both_in_order() {
    let id = UsageEventIdBuilder::new("req-9", 12, "vllm").phase("decode").step_id("s2").build().unwrap();
    assert_eq!(id.idempotency_key, "req-9:12:vllm:s2:decode");
    let err = UsageEventIdBuilder::new("req-9", -3, "vllm").build();
    assert_eq!(err, Err(UsageEventIdError::InvalidAttemptIndex(-3)));
}

#[test]
fn distinct_attempts_get_distinct_keys() {
    let a = UsageEventId::from_attempt("req", 1, "p").unwrap();
    let b = UsageEventId::from_attempt("req", 10, "p").unwrap();
    let c = UsageEventId::from_attempt("req", 1, "q").unwrap();
    assert_ne!(a.idempotency_key, b.idempotency_key);
    assert_ne!(a.idempotency_key, c.idempotency_key);
    let built = UsageEventIdBuilder::new("req", 1, "p").build().unwrap();
    assert_eq!(built.idempotency_key, a.idempotency_key);
}

#[test]
fn meter_set_accumulate_accumulates() {
    let mut ms = MeterSet::new();
    ms.accumulate(MeterKind::InputTokens, 100).unwrap();
    ms.accumulate(MeterKind::InputTokens, 50).unwrap();
    assert_eq!(ms.get(&MeterKind::InputTokens), 150);
}

#[test]
fn meter_set_overflow_returns_error() {
    let mut ms = MeterSet::new();
    ms.accumulate(MeterKind::InputTokens, u64::MAX).unwrap();
    let result = ms.accumulate(MeterKind::InputTokens, 1);
    assert!(matches!(result, Err(MeterSetError::Overflow(_))));
}

#[test]
fn meter_set_get_missing_returns_zero() {
    let ms = MeterSet::new();
    assert_eq!(ms.get(&MeterKind::OutputTokens), 0);
}

#[test]
fn meter_set_overflow_leaves_reading_and_other_kinds_alone() {
    let mut ms = MeterSet::default();
    ms.accumulate(MeterKind::InputTokens, u64::MAX - 1).unwrap();
    ms.accumulate(MeterKind::Custom("gpu_seconds".to_string()), 7).unwrap();
    assert_eq!(ms.accumulate(MeterKind::InputTokens, 2), Err(MeterSetError::Overflow(MeterKind::InputTokens)));
    assert_eq!(ms.get(&MeterKind::InputTokens), u64::MAX - 1);
    ms.accumulate(MeterKind::InputTokens, 1).unwrap();
    assert_eq!(ms.get(&MeterKind::InputTokens), u64::MAX);
    assert_eq!(ms.get(&MeterKind::Custom("gpu_seconds".to_string())), 7);
}

#[test]
fn meter_kind_custom_hash() {
    let mut map = HashMap::new();
    map.insert(MeterKind::Custom("test".to_string()), 1);
    assert_eq!(map.get(&MeterKind::Custom("test".to_string())), Some(&1));
}

#[test]
fn meter_kind_enum_variant_not_confused_with_custom() {
    let mut map = HashMap::new();
    map.insert(MeterKind::InputTokens, 1);
    map.insert(MeterKind::Custom("InputTokens".to_string()), 2);
    assert_eq!(map.len(), 2);
}

#[test]
fn attributes_insert_valid() {
    let mut attrs = Attributes::new();
    assert!(attrs.insert("key1", "value1").is_ok());
    assert_eq!(attrs.get("key1"), Some("value1"));
}

#[test]
fn attributes_rejects_reserved_prefix() {
    let mut attrs = Attributes::new();
    let result = attrs.insert("sys.test", "value");
    assert!(matches!(result, Err(AttributeError::ReservedPrefix(_))));
}

#[test]
fn attributes_rejects_too_long_key() {
    let mut attrs = Attributes::new();
    let long_key = "a".repeat(65);
    let result = attrs.insert(&long_key, "value");
    assert!(matches!(result, Err(AttributeError::KeyTooLong { .. })));
}

#[test]
fn attributes_limits_and_replacement() {
    let mut attrs = Attributes::new();
    assert!(attrs.insert(&"k".repeat(64), "v").is_ok());
    let long_value = "v".repeat(257);
    assert!(matches!(attrs.insert("k2", &long_value), Err(AttributeError::ValueTooLong { len: 257, .. })));
    assert!(attrs.insert("k2", &"v".repeat(256)).is_ok());
    attrs.insert("step", "a").unwrap();
    attrs.insert("step", "b").unwrap();
    assert_eq!(attrs.get("step"), Some("b"));
    assert_eq!(attrs.get("missing"), None);
    assert_eq!(attrs.iter().len(), 3);
}

#[test]
fn currency_codes_parse_and_report() {
    assert_eq!(CurrencyCode::parse("USD").unwrap(), CurrencyCode::usd());
    assert_eq!(CurrencyCode::eur().0, "EUR");
    assert_eq!(CurrencyCode::cny().0, "CNY");
    let err = CurrencyCode::parse("usd").unwrap_err();
    assert_eq!(err.message(), "Invalid currency code: usd");
    assert!(CurrencyCode::parse("USDT").is_err());
}

#[test]
fn model_ref_equality() {
    let m1 = ModelRef {
        billable_model: "gpt-4o".to_string(),
        vendor: Some("openai".to_string()),
        region: None,
        tier: None,
    };
    let m2 = ModelRef {
        billable_model: "gpt-4o".to_string(),
        vendor: Some("openai".to_string()),
        region: None,
        tier: None,
    };
    assert_eq!(m1.billable_model, m2.billable_model);
}

#[test]
fn meter_price_creation() {
    let price = MeterPrice { unit_price: Decimal::new(30, 2), unit_display: "1M tokens".to_string() };
    assert_eq!(price.unit_price, Decimal::new(30, 2));
}

#[test]
fn decimals_compare_by_value() {
    assert_eq!(Decimal::new(30, 2), Decimal::new(3, 1));
    assert_ne!(Decimal::new(30, 2), Decimal::new(3, 2));
    let product = Decimal::new(3, 4).checked_mul(&Decimal::from_u64(1000)).unwrap();
    assert_eq!(product, Decimal::new(30, 2));
    let sum = Decimal::new(15, 1).checked_add(&Decimal::new(25, 2)).unwrap();
    assert_eq!(sum, Decimal::new(175, 2));
    let big = Decimal::from_i128_with_scale(79228162514264337593543950335, 0);
    assert!(big.checked_mul(&Decimal::from_u64(2)).is_none());
    assert!(big.checked_add(&Decimal::from_u64(1)).is_none());
}

#[test]
fn pricing_error_messages() {
    let e = PricingError::NotFound { model: "gpt-4o".to_string(), provider: Some("openai".to_string()) };
    assert_eq!(e.message(), "Price not found for model=gpt-4o, provider=Some(\"openai\")");
    let e = PricingError::NotFound { model: "m".to_string(), provider: None };
    assert_eq!(e.message(), "Price not found for model=m, provider=None");
    assert_eq!(PricingError::InvalidConfig("x".to_string()).message(), "Invalid pricing config: x");
    assert_eq!(PricingError::Other("y".to_string()).message(), "Pricing error: y");
}

#[test]
fn usage_amount_insert_and_get() {
    let mut ua = UsageAmount::new();
    ua.insert(MeterKind::InputTokens, 100);
    ua.insert(MeterKind::InputTokens, 50);
    assert_eq!(ua.get(&MeterKind::InputTokens), 150);
}

#[test]
fn usage_amount_default_empty() {
    let ua = UsageAmount::default();
    assert_eq!(ua.get(&MeterKind::InputTokens), 0);
}

#[test]
fn quota_error_display() {
    let err = QuotaError::Exceeded { subject: "user-1".to_string(), limit: 1000, requested: 1500 };
    assert!(err.message().contains("exceeded"));
}

#[test]
fn rated_line_item_calculation() {
    let item = RatedLineItem {
        meter_kind: MeterKind::InputTokens,
        quantity: 1000,
        unit_price: Decimal::new(3, 4),
        subtotal: Decimal::new(30, 2),
    };
    assert_eq!(item.subtotal, Decimal::new(30, 2));
}

#[test]
fn rating_result_total_cost() {
    let result = RatingResult {
        line_items: vec![],
        total_cost: Decimal::new(150, 2),
        currency: CurrencyCode::usd(),
        price_snapshot_id: "snap-123".to_string(),
        rated_at: UtcTimestamp { secs: 1_700_000_000, nanos: 0 },
    };
    assert_eq!(result.total_cost, Decimal::new(150, 2));
}

#[test]
fn default_rating_engine_basic() {
    let engine = DefaultRatingEngine::new();
    let mut meter_set = MeterSet::new();
    meter_set.accumulate(MeterKind::InputTokens, 1000).unwrap();
    let observation = observation(meter_set);
    let mut prices = KindMap::new();
    prices.insert(MeterKind::InputTokens, MeterPrice { unit_price: Decimal::new(3, 4), unit_display: "1M tokens".to_string() });
    let snapshot = snapshot_with(prices);
    let context = RatingContext::default();
    let result = engine.rate(&observation, &snapshot, &context).unwrap();
    assert_eq!(result.total_cost, Decimal::new(30, 2));
}

#[test]
fn rating_lines_follow_readings_and_missing_price_fails() {
    let engine = DefaultRatingEngine::new();
    let mut meter_set = MeterSet::new();
    meter_set.accumulate(MeterKind::InputTokens, 1000).unwrap();
    meter_set.accumulate(MeterKind::OutputTokens, 10).unwrap();
    let mut prices = KindMap::new();
    prices.insert(MeterKind::InputTokens, MeterPrice { unit_price: Decimal::new(3, 4), unit_display: "t".to_string() });
    prices.insert(MeterKind::OutputTokens, MeterPrice { unit_price: Decimal::new(2, 0), unit_display: "t".to_string() });
    let snapshot = snapshot_with(prices);
    let result = engine.rate(&observation(meter_set), &snapshot, &RatingContext::default()).unwrap();
    assert_eq!(result.line_items.len(), 2);
    assert_eq!(result.line_items[0].meter_kind, MeterKind::InputTokens);
    assert_eq!(result.line_items[1].subtotal, Decimal::new(20, 0));
    assert_eq!(result.total_cost, Decimal::new(203, 1));
    assert_eq!(result.price_snapshot_id, "test-snap");

    let mut unpriced = MeterSet::new();
    unpriced.accumulate(MeterKind::ImageCount, 1).unwrap();
    match engine.rate(&observation(unpriced), &snapshot, &RatingContext::default()) {
        Err(RatingError::NoPriceForMeter { meter_kind, snapshot_id }) => {
            assert_eq!(meter_kind, MeterKind::ImageCount);
            assert_eq!(snapshot_id, "test-snap");
        },
        other => panic!("unexpected {:?}", other.is_ok()),
    }
}

struct InMemoryObservationStore {
    observations: Arc<Mutex<Vec<UsageObservation>>>,
}

impl ObservationStore for InMemoryObservationStore {
    fn append_observation(&self, observation: UsageObservation) -> Result<StoreResult, StoreError> {
        self.observations.lock().unwrap().push(observation);
        Ok(StoreResult::Appended)
    }
}

#[test]
fn in_memory_store_appends() {
    let store = InMemoryObservationStore { observations: Arc::new(Mutex::new(Vec::new())) };
    let result = store.append_observation(observation(MeterSet::new())).unwrap();
    assert_eq!(result, StoreResult::Appended);
    assert_eq!(store.observations.lock().unwrap().len(), 1);
}

#[test]
fn store_error_display() {
    let err = StoreError::ConnectionError("db down".to_string());
    assert_eq!(err.message(), "Connection error: db down");
}

#[test]
fn store_result_equality() {
    assert_eq!(StoreResult::Appended, StoreResult::Appended);
    assert_eq!(StoreResult::AlreadyExists, StoreResult::AlreadyExists);
    assert_ne!(StoreResult::Appended, StoreResult::AlreadyExists);
}

struct StdoutExporter {
    exported: Arc<Mutex<Vec<String>>>,
}

impl RatedRecordExporter for StdoutExporter {
    fn export(&self, record: &RatedUsageRecord) -> Result<(), ExportError> {
        let msg = format!("{:?} {}", record.rating.total_cost, record.rating.currency.0);
        self.exported.lock().unwrap().push(msg);
        Ok(())
    }
}

#[test]
fn stdout_exporter_works() {
    let exporter = StdoutExporter { exported: Arc::new(Mutex::new(Vec::new())) };
    let record = RatedUsageRecord {
        rated_record_id: "test-1:v1".to_string(),
        observation: observation(MeterSet::new()),
        rating: RatingResult {
            line_items: vec![RatedLineItem {
                meter_kind: MeterKind::InputTokens,
                quantity: 100,
                unit_price: Decimal::new(3, 4),
                subtotal: Decimal::new(3, 2),
            }],
            total_cost: Decimal::new(3, 2),
            currency: CurrencyCode::usd(),
            price_snapshot_id: "snap-1".to_string(),
            rated_at: UtcTimestamp { secs: 1_700_000_000, nanos: 0 },
        },
        supersedes: None,
    };
    exporter.export(&record).unwrap();
    assert_eq!(exporter.exported.lock().unwrap().len(), 1);
}

#[test]
fn export_error_display() {
    let err = ExportError::ConnectionError("timeout".to_string());
    assert_eq!(err.message(), "Export connection error: timeout");
}

fn raw(model_name: &str, currency: &str, prices: Vec<(&str, &str)>) -> RawSnapshot {
    RawSnapshot {
        snapshot_id: "snap-1".to_string(),
        billable_model: model_name.to_string(),
        vendor: Some("openai".to_string()),
        region: None,
        tier: None,
        currency: currency.to_string(),
        effective_from: "2025-01-01T00:00:00Z".to_string(),
        effective_until: None,
        prices: prices
            .into_iter()
            .map(|(k, p)| (k.to_string(), RawMeterPrice { unit_price: p.to_string(), unit_display: "1M tokens".to_string() }))
            .collect(),
    }
}

#[test]
fn meter_kind_names_parse() {
    assert_eq!(parse_meter_kind("InputTokens").unwrap(), MeterKind::InputTokens);
    assert_eq!(parse_meter_kind("ImageCount").unwrap(), MeterKind::ImageCount);
    assert_eq!(parse_meter_kind("gpu_seconds").unwrap(), MeterKind::Custom("gpu_seconds".to_string()));
}

#[test]
fn raw_snapshot_converts_and_serves() {
    let snap = price_snapshot_from_raw(raw("gpt-4o", "USD", vec![("InputTokens", "0.0003"), ("OutputTokens", "0.0006")])).unwrap();
    assert_eq!(snap.effective_from.secs, 1735689600);
    assert_eq!(snap.prices.get(&MeterKind::InputTokens).unwrap().unit_price, Decimal::new(3, 4));
    assert!(snap.tiers.is_none());
    let source = TomlPricingSource::from_raw(vec![raw("gpt-4o", "USD", vec![("InputTokens", "0.0003")])]).unwrap();
    let found = source.resolve_snapshot(&model("gpt-4o"), None).unwrap();
    assert_eq!(found.snapshot_id, "snap-1");
    let missing = ModelRef { billable_model: "other".to_string(), vendor: Some("acme".to_string()), region: None, tier: None };
    assert_eq!(
        source.resolve_snapshot(&missing, None).unwrap_err(),
        PricingError::NotFound { model: "other".to_string(), provider: Some("acme".to_string()) }
    );
}

#[test]
fn raw_snapshot_errors_in_order() {
    let e = price_snapshot_from_raw(raw("m", "usd", vec![("InputTokens", "oops")])).unwrap_err();
    assert_eq!(e, PricingError::InvalidConfig("Invalid currency: Invalid currency code: usd".to_string()));
    let e = price_snapshot_from_raw(raw("m", "USD", vec![("InputTokens", "oops")])).unwrap_err();
    assert!(matches!(e, PricingError::InvalidConfig(ref m) if m.starts_with("Invalid price: ")));
    let mut bad_date = raw("m", "USD", vec![]);
    bad_date.effective_from = "yesterday".to_string();
    let e = price_snapshot_from_raw(bad_date).unwrap_err();
    assert!(matches!(e, PricingError::InvalidConfig(ref m) if m.starts_with("Invalid date: ")));
    let e = TomlPricingSource::from_raw(vec![raw("m", "XX", vec![])]).err().unwrap();
    assert_eq!(
        e,
        PricingError::InvalidConfig(
            "Failed to convert snapshot: Invalid pricing config: Invalid currency: Invalid currency code: XX".to_string()
        )
    );
}

fn text_of(t: &toml::Table, key: &str) -> Option<String> {
    t.get(key).and_then(|v| v.as_str()).map(|s| s.to_string())
}

#[test]
fn toml_snapshots_load_into_source() {
    let toml_content = r#"
[[snapshots]]
snapshot_id = "snap-1"
billable_model = "gpt-4o"
currency = "USD"
effective_from = "2025-01-01T00:00:00Z"

[snapshots.prices.InputTokens]
unit_price = "0.0003"
unit_display = "1M tokens"

[snapshots.prices.OutputTokens]
unit_price = "0.0006"
unit_display = "1M tokens"
"#;
    let table: toml::Table = toml_content.parse().unwrap();
    let raws: Vec<RawSnapshot> = table["snapshots"]
        .as_array()
        .unwrap()
        .iter()
        .map(|v| {
            let t = v.as_table().unwrap();
            let prices = t
                .get("prices")
                .and_then(|p| p.as_table())
                .map(|p| {
                    p.iter()
                        .map(|(k, v)| {
                            let pt = v.as_table().unwrap();
                            (
                                k.clone(),
                                RawMeterPrice {
                                    unit_price: text_of(pt, "unit_price").unwrap(),
                                    unit_display: text_of(pt, "unit_display").unwrap(),
                                },
                            )
                        })
                        .collect()
                })
                .unwrap_or_default();
            RawSnapshot {
                snapshot_id: text_of(t, "snapshot_id").unwrap(),
                billable_model: text_of(t, "billable_model").unwrap(),
                vendor: text_of(t, "vendor"),
                region: text_of(t, "region"),
                tier: text_of(t, "tier"),
                currency: text_of(t, "currency").unwrap(),
                effective_from: text_of(t, "effective_from").unwrap(),
                effective_until: text_of(t, "effective_until"),
                prices,
            }
        })
        .collect();
    let source = TomlPricingSource::from_raw(raws).unwrap();
    let snap = source.resolve_snapshot(&model("gpt-4o"), None).unwrap();
    assert_eq!(snap.prices.len(), 2);
    assert_eq!(snap.prices.get(&MeterKind::OutputTokens).unwrap().unit_price, Decimal::new(6, 4));
}

fn tiered(boundaries: Vec<TierBoundary>) -> PriceSnapshot {
    let mut prices = KindMap::new();
    prices.insert(MeterKind::InputTokens, MeterPrice { unit_price: Decimal::new(3, 4), unit_display: "token".to_string() });
    let mut snap = snapshot_with(prices);
    snap.tiers = Some(TierConfig {
        baseline_meter: TierBaseline::TotalTokens,
        accumulation_scope: AccumulationScope::CallerProvided,
        boundaries,
    });
    snap
}

#[test]
fn tier_absolute_price_overrides_multiplier() {
    let engine = DefaultRatingEngine::new();
    let mut ms = MeterSet::new();
    ms.accumulate(MeterKind::InputTokens, 1000).unwrap();
    let obs = observation(ms);
    let ctx = RatingContext { cumulative_baseline_usage_mtok: 5, billing_period: None, tenant_scope: None };
    // multiplier only: 1000 * 0.0003 * 2 = 0.6
    let snap = tiered(vec![TierBoundary { up_to_mtok: 10, price_multiplier: Some(Decimal::new(2, 0)), absolute_price_per_mtok: None }]);
    assert_eq!(engine.rate(&obs, &snap, &ctx).unwrap().total_cost, Decimal::new(6, 1));
    // an absolute price of 3 per million overrides the multiplier: 3 * 1000 / 1_000_000 = 0.003
    let snap = tiered(vec![TierBoundary {
        up_to_mtok: 10,
        price_multiplier: Some(Decimal::new(2, 0)),
        absolute_price_per_mtok: Some(Decimal::new(3, 0)),
    }]);
    let r = engine.rate(&obs, &snap, &ctx).unwrap();
    assert_eq!(r.line_items[0].subtotal, Decimal::new(3, 3));
    assert_eq!(r.total_cost, Decimal::new(3, 3));
    // a boundary below the cumulative usage does not apply
    let snap = tiered(vec![TierBoundary { up_to_mtok: 4, price_multiplier: None, absolute_price_per_mtok: Some(Decimal::new(3, 0)) }]);
    assert_eq!(engine.rate(&obs, &snap, &ctx).unwrap().total_cost, Decimal::new(3, 1));
}

#[test]
fn builder_last_setter_wins_and_order_does_not_matter() {
    let a = UsageEventIdBuilder::new("r", 2, "p").step_id("s1").phase("x").step_id("s2").build().unwrap();
    let b = UsageEventIdBuilder::new("r", 2, "p").phase("x").step_id("s2").build().unwrap();
    assert_eq!(a.idempotency_key, "r:2:p:s2:x");
    assert_eq!(a, b);
}
