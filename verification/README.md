# xauusd_fetcher

Verified core of a low-latency XAU/USD market-data feed and its desktop
terminal, written in Verus.

`src/` is the library. Its functions are verified, except four small
wrappers around serde_json, chrono and two standard-library character and
string operations, whose contracts are trusted:

- `timeframe` — candle timeframes, their durations and labels.
- `candle` — OHLC candles over price keys and the per-timeframe candle
  buffer (bucketing, rollover, the closed-candle cap), with the aggregation
  laws.
- `aggregator` — candle aggregation over all timeframes and what is
  reported for the timeframe on screen.
- `volume` — bucket volumes, point of control and value area of the volume
  profile.
- `feed` — provider protocol, subscription message, frame classification,
  quote selection.
- `history` — the REST request for historical candles and the non-price
  fields of its answer.
- `session` — the desktop commands' decisions: timeframe requests, symbol
  sanitising, settings read-back, recording file names.
- `startup` — executor core choice and auto-start.
- `turbo` — the power scheme to restore after turbo mode.
- `text`, `types` — string helpers and plain data.

Prices reach the library as order keys (`u64`s ordered as the prices are);
everything that needs their numeric value — pattern detection, tick size
and prices of the volume profile, spreads, output formatting — is in
`app/`, together with the network, file and operating-system work.
