use xauusd_fetcher::feed::{
    build_subscribe_msg, classify_finnhub, classify_twelvedata, select_quote, symbol_or_placeholder,
    ws_url_with_key, FinnhubFrame, Provider, Quote, TwelveDataEvent,
};
use xauusd_fetcher::history::{
    drop_forming, history_status_ok, history_url, parse_ts, parse_u64, parse_volume, tf_to_interval,
};
use xauusd_fetcher::session::{
    candle_file_name, day_changed, feed_config_out, parse_timeframe_arg, recorder_symbol,
    resolve_timeframe, sanitize_symbol, tick_file_name, CANDLE_CSV_HEADER, TICK_CSV_HEADER,
};
use xauusd_fetcher::text::{is_whitespace, str_eq};
use xauusd_fetcher::timeframe::Timeframe;
use xauusd_fetcher::types::Config;

fn config(provider: &str, symbol: &str) -> Config {
    Config {
        api_key: "k".to_string(),
        ws_url: "wss://ws.twelvedata.com/v1/quotes/price".to_string(),
        symbol: symbol.to_string(),
        provider: provider.to_string(),
        output_format: "json".to_string(),
        backoff_max_secs: 60,
        verbose: false,
        turbo: false,
        core_id: 2,
    }
}

#[test]
fn timeframe_names_and_durations() {
    let all = [
        (Timeframe::S5, "S5", 5_000),
        (Timeframe::S15, "S15", 15_000),
        (Timeframe::M1, "M1", 60_000),
        (Timeframe::M5, "M5", 300_000),
        (Timeframe::M15, "M15", 900_000),
        (Timeframe::M30, "M30", 1_800_000),
        (Timeframe::H1, "H1", 3_600_000),
    ];
    for (tf, label, ms) in all {
        assert_eq!(tf.label(), label);
        assert_eq!(tf.duration_ms(), ms);
        assert_eq!(Timeframe::from_str(tf.label()), Some(tf));
    }
    assert_eq!(Timeframe::from_str("m1"), None);
    assert_eq!(Timeframe::from_str("H4"), None);
    assert_eq!(Timeframe::from_str(""), None);
}

#[test]
fn twelvedata_subscription_is_compact_json() {
    assert_eq!(
        build_subscribe_msg(&config("twelvedata", "XAU/USD")),
        r#"{"action":"subscribe","params":{"symbols":"XAU/USD"}}"#
    );
    assert_eq!(
        build_subscribe_msg(&config("anything", "a\"b\\c\n\u{1}")),
        "{\"action\":\"subscribe\",\"params\":{\"symbols\":\"a\\\"b\\\\c\\n\\u0001\"}}"
    );
}

#[test]
fn finnhub_subscription_is_written_raw() {
    assert_eq!(
        build_subscribe_msg(&config("finnhub", "OANDA:XAU_USD")),
        r#"{"type":"subscribe","symbol":"OANDA:XAU_USD"}"#
    );
    assert_eq!(Provider::from_name("finnhub"), Provider::Finnhub);
    assert_eq!(Provider::from_name("Finnhub"), Provider::TwelveData);
}

#[test]
fn ws_url_carries_the_key() {
    assert_eq!(ws_url_with_key("wss://x/y", "abc"), "wss://x/y?apikey=abc");
}

#[test]
fn frames_are_classified_by_their_type_field() {
    assert_eq!(classify_twelvedata(Some("price")), TwelveDataEvent::Price);
    assert_eq!(classify_twelvedata(Some("heartbeat")), TwelveDataEvent::Heartbeat);
    assert_eq!(classify_twelvedata(Some("subscribe-status")), TwelveDataEvent::SubscribeStatus);
    assert_eq!(classify_twelvedata(Some("Price")), TwelveDataEvent::Other);
    assert_eq!(classify_twelvedata(None), TwelveDataEvent::Missing);
    assert_eq!(classify_finnhub(Some("trade")), FinnhubFrame::Trade);
    assert_eq!(classify_finnhub(Some("ping")), FinnhubFrame::Control);
    assert_eq!(classify_finnhub(Some("no_data")), FinnhubFrame::Control);
    assert_eq!(classify_finnhub(Some("news")), FinnhubFrame::Other);
    assert_eq!(classify_finnhub(None), FinnhubFrame::Missing);
}

#[test]
fn bid_and_ask_win_over_a_single_price() {
    assert!(matches!(
        select_quote(Some(1.5f64), Some(2.0), Some(9.0)),
        Some(Quote::BidAsk { bid, ask }) if bid == 1.5 && ask == 2.0
    ));
    assert!(matches!(select_quote(Some(1.5f64), None, Some(9.0)), Some(Quote::Single(p)) if p == 9.0));
    assert!(matches!(select_quote(None, Some(2.0f64), Some(9.0)), Some(Quote::Single(p)) if p == 9.0));
    assert!(select_quote(Some(1.5f64), None, None).is_none());
    assert!(select_quote::<f64>(None, None, None).is_none());
}

#[test]
fn missing_symbol_becomes_question_mark() {
    assert_eq!(symbol_or_placeholder(Some("BTC/USD")), "BTC/USD");
    assert_eq!(symbol_or_placeholder(None), "?");
}

#[test]
fn history_request_url() {
    assert_eq!(tf_to_interval(Timeframe::S5), "1min");
    assert_eq!(tf_to_interval(Timeframe::S15), "1min");
    assert_eq!(tf_to_interval(Timeframe::M1), "1min");
    assert_eq!(tf_to_interval(Timeframe::M5), "5min");
    assert_eq!(tf_to_interval(Timeframe::M15), "15min");
    assert_eq!(tf_to_interval(Timeframe::M30), "30min");
    assert_eq!(tf_to_interval(Timeframe::H1), "1h");
    assert_eq!(
        history_url("XAU/USD", Timeframe::M15, "KEY"),
        "https://api.twelvedata.com/time_series?symbol=XAU%2FUSD&interval=15min&outputsize=100&apikey=KEY"
    );
}

#[test]
fn history_status_must_be_ok() {
    assert!(history_status_ok(Some("ok")));
    assert!(!history_status_ok(Some("error")));
    assert!(!history_status_ok(None));
}

#[test]
fn history_timestamps_parse_as_utc() {
    assert_eq!(parse_ts("2024-01-02 03:04:05"), 1_704_164_645_000);
    assert_eq!(parse_ts("1970-01-01 00:00:00"), 0);
    assert_eq!(parse_ts("2024-01-02"), 0);
    assert_eq!(parse_ts("garbage"), 0);
}

#[test]
fn unsigned_parsing_matches_std() {
    for s in ["0", "007", "+5", "", "+", "-1", "-0", " 1", "1 ", "18446744073709551615",
              "18446744073709551616", "99999999999999999999999", "12a"] {
        assert_eq!(parse_u64(s), s.parse::<u64>().ok(), "input {:?}", s);
    }
    assert_eq!(parse_volume(Some("42")), 42);
    assert_eq!(parse_volume(Some("x")), 1);
    assert_eq!(parse_volume(None), 1);
}

#[test]
fn forming_history_candle_is_dropped_unless_alone() {
    let mut v = vec![1, 2, 3];
    drop_forming(&mut v);
    assert_eq!(v, vec![1, 2]);
    let mut one = vec![7];
    drop_forming(&mut one);
    assert_eq!(one, vec![7]);
    let mut none: Vec<i32> = vec![];
    drop_forming(&mut none);
    assert!(none.is_empty());
}

#[test]
fn start_and_switch_requests() {
    assert_eq!(resolve_timeframe(Some("H1")), Timeframe::H1);
    assert_eq!(resolve_timeframe(Some("h1")), Timeframe::M1);
    assert_eq!(resolve_timeframe(None), Timeframe::M1);
    assert_eq!(parse_timeframe_arg("M5"), Ok(Timeframe::M5));
    assert_eq!(parse_timeframe_arg("4H"), Err("unknown timeframe: 4H".to_string()));
}

#[test]
fn symbols_are_sanitised() {
    assert_eq!(sanitize_symbol("XAU/USD; rm -rf"), "XAU/USDrm-rf");
    assert_eq!(sanitize_symbol("OANDA:XAU_USD"), "OANDA:XAU_USD");
    assert_eq!(recorder_symbol("XAU/USD"), "XAUUSD");
    assert_eq!(recorder_symbol("OANDA:XAU_USD"), "OANDAXAU_USD");
    let once = sanitize_symbol("a b/c:\u{e9}!");
    assert_eq!(once, "ab/c:\u{e9}");
    assert_eq!(sanitize_symbol(&once), once);
}

#[test]
fn settings_never_carry_the_key() {
    let out = feed_config_out("wss://u", "XAU/USD", Timeframe::M15, "secret");
    assert_eq!(out.ws_url, "wss://u");
    assert_eq!(out.symbol, "XAU/USD");
    assert_eq!(out.timeframe, "M15");
    assert!(out.key_is_set);
    assert!(!feed_config_out("wss://u", "s", Timeframe::M1, "").key_is_set);
}

#[test]
fn recording_file_names() {
    assert_eq!(tick_file_name("XAUUSD", "2024-01-02"), "XAUUSD_2024-01-02.csv");
    assert_eq!(candle_file_name("XAUUSD", "M1", "2024-01-02"), "XAUUSD_M1_2024-01-02.csv");
    assert!(day_changed("2024-01-03", "2024-01-02"));
    assert!(!day_changed("2024-01-02", "2024-01-02"));
    assert_eq!(TICK_CSV_HEADER.split(',').count(), 7);
    assert_eq!(CANDLE_CSV_HEADER.split(',').count(), 8);
}

#[test]
fn text_helpers() {
    assert!(str_eq("abc", "abc"));
    assert!(!str_eq("abc", "abd"));
    assert!(!str_eq("ab", "abc"));
    for c in [' ', '\t', '\n', '\u{a0}', '\u{2003}', '\u{3000}', 'a', '-', '\u{200b}'] {
        assert_eq!(is_whitespace(c), c.is_whitespace(), "char {:?}", c);
    }
}
