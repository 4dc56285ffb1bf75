//! Verified core of a low-latency market-data feed: timeframes, candle
//! aggregation, value-area computation, feed message decisions and the
//! text the feed sends and stores.

pub mod aggregator;
pub mod candle;
pub mod feed;
pub mod history;
pub mod session;
pub mod startup;
pub mod text;
pub mod timeframe;
pub mod turbo;
pub mod types;
pub mod volume;
