//! Incremental conversion of decentralized-exchange pool events into derived
//! financial metrics: LP-transfer/mint/burn correlation, a liquidity-weighted
//! price oracle, and windowed (day/hour/minute) aggregation with bounded
//! retention, all written through an ordinal-versioned key-value store model.

pub mod constants;
pub mod dec;
pub mod filtering;
pub mod keys;
pub mod math;
pub mod pb;
pub mod pipeline;
pub mod price;
pub mod store;
pub mod text;

pub use dec::Dec;
