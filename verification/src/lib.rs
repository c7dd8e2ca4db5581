//! Verified core of the latch state layer: message compression, prompt-cache
//! planning, usage metering, retry policy and token billing.

pub mod text;
pub mod strmap;
pub mod message;
pub mod token;
pub mod cache;
pub mod compress;
pub mod compress_laws;
pub mod meter;
pub mod billing;
pub mod retry;
pub mod analyzer;
pub mod detect;
pub mod gateway;
pub mod config;
pub mod score;
