//! Token billing: observations, identity, prices, rating and quotas.

pub mod meter_kind;
pub mod decimal;
pub mod identity;
pub mod observation;
pub mod pricing;
pub mod quota;
pub mod storage;
pub mod export;
pub mod rating;
pub mod laws;
pub mod toml_source;
