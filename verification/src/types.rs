//! Plain data the feed is configured with and exchanges.

use vstd::prelude::*;

verus! {

/// Runtime configuration of the command-line feed.
pub struct Config {
    /// Twelve Data or Finnhub API key.
    pub api_key: String,
    /// WebSocket endpoint URL.
    pub ws_url: String,
    /// Instrument symbol in the provider's format.
    pub symbol: String,
    /// "twelvedata" or "finnhub".
    pub provider: String,
    /// "json" (one JSON object per line) or "csv".
    pub output_format: String,
    /// Ceiling of the reconnect backoff, in seconds.
    pub backoff_max_secs: u64,
    /// Log the connection lifecycle.
    pub verbose: bool,
    /// Apply the turbo-mode system tweaks.
    pub turbo: bool,
    /// CPU core to pin the executor to.
    pub core_id: usize,
}

/// Outgoing subscription request.
pub struct SubscribeMsg<'a> {
    pub action: &'a str,
    pub params: SubscribeParams<'a>,
}

/// The symbols a subscription asks for.
pub struct SubscribeParams<'a> {
    pub symbols: &'a str,
}

/// Generic provider event envelope: heartbeats and subscription status.
pub struct RawEvent {
    pub event: String,
    pub message: Option<String>,
    pub status: Option<String>,
}

/// Feed settings the desktop front end sends.
pub struct FeedConfigIn {
    pub api_key: String,
    pub ws_url: String,
    pub symbol: String,
    pub timeframe: Option<String>,
}

/// Feed settings the desktop front end may read back; the API key never
/// leaves, only whether one is set.
pub struct FeedConfigOut {
    pub ws_url: String,
    pub symbol: String,
    pub timeframe: String,
    pub key_is_set: bool,
}

/// Direction a candlestick pattern points in.
#[derive(Clone, Copy, Debug, PartialEq, Eq, Structural)]
pub enum Signal {
    Bullish,
    Bearish,
    Neutral,
}

} // verus!
