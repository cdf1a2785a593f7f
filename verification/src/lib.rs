//! Market-data ingestion and aggregation pipeline: symbol classification,
//! feed adapters, batched idempotent persistence, gap detection, the cascade
//! refresh scheduler and the read cache, each with a verified contract.

pub mod candle_monitor;
pub mod candles;
pub mod decimal;
pub mod json;
pub mod market_data;
pub mod text;
pub mod time;
