//! Decisions of the WebSocket feed: which provider protocol is spoken, what
//! the subscription message says, how incoming frames are classified and
//! which quote a price frame carries.

use vstd::prelude::*;

use crate::text::{concat, str_eq};
use crate::types::{Config, SubscribeMsg, SubscribeParams};

verus! {

/// `serde_json::Error`, carried through opaque: nothing is claimed of its
/// contents.
#[verifier::external_type_specification]
#[verifier::external_body]
pub struct ExJsonError(serde_json::Error);

/// The escape serde_json writes for one character inside a JSON string.
pub open spec fn json_escape_char(c: char) -> Seq<char> {
    let v = c as u32;
    if c == '"' {
        seq!['\\', '"']
    } else if c == '\\' {
        seq!['\\', '\\']
    } else if v == 0x08 {
        seq!['\\', 'b']
    } else if v == 0x09 {
        seq!['\\', 't']
    } else if v == 0x0A {
        seq!['\\', 'n']
    } else if v == 0x0C {
        seq!['\\', 'f']
    } else if v == 0x0D {
        seq!['\\', 'r']
    } else if v < 0x20 {
        seq!['\\', 'u', '0', '0', hex_digit(v / 16), hex_digit(v % 16)]
    } else {
        seq![c]
    }
}

/// Lower-case hexadecimal digit of a value below 16.
pub open spec fn hex_digit(v: u32) -> char {
    if v < 10 {
        (48 + v) as char
    } else {
        (87 + v) as char
    }
}

/// The escaped contents of a JSON string.
pub open spec fn json_escape(s: Seq<char>) -> Seq<char>
    decreases s.len(),
{
    if s.len() == 0 {
        Seq::empty()
    } else {
        json_escape(s.drop_last()) + json_escape_char(s.last())
    }
}

/// A JSON string literal holding `s`.
pub open spec fn json_quoted(s: Seq<char>) -> Seq<char> {
    seq!['"'] + json_escape(s) + seq!['"']
}

/// `serde_json::to_string` on a string slice. It writes into a `Vec`, which
/// cannot fail, so it returns `Ok` with a JSON string literal escaped as
/// serde_json's escape table shows.
#[verifier::external_body]
fn json_string(s: &str) -> (r: Result<String, serde_json::Error>)
    ensures
        r is Ok,
        r matches Ok(t) ==> t@ == json_quoted(s@),
{
    serde_json::to_string(s)
}

/// The compact JSON text of a subscription request.
pub open spec fn spec_subscribe_json(action: Seq<char>, symbols: Seq<char>) -> Seq<char> {
    "{\"action\":"@ + json_quoted(action) + ",\"params\":{\"symbols\":"@ + json_quoted(symbols)
        + "}}"@
}

impl<'a> SubscribeMsg<'a> {
    /// The request as compact JSON, fields in declaration order.
    pub fn to_json(&self) -> (r: Option<String>)
        ensures
            r matches Some(t) && t@ == spec_subscribe_json(self.action@, self.params.symbols@),
    {
        let a = match json_string(self.action) {
            Ok(a) => a,
            Err(_) => return None,
        };
        let s = match json_string(self.params.symbols) {
            Ok(s) => s,
            Err(_) => return None,
        };
        let mut out = concat("{\"action\":", a.as_str());
        out.append(",\"params\":{\"symbols\":");
        out.append(s.as_str());
        out.append("}}");
        Some(out)
    }
}

/// The feed protocols the feed speaks.
#[derive(Clone, Copy, Debug, PartialEq, Eq, Structural)]
pub enum Provider {
    TwelveData,
    Finnhub,
}

/// "finnhub" selects Finnhub; any other name, Twelve Data.
pub open spec fn spec_provider(name: Seq<char>) -> Provider {
    if name == "finnhub"@ {
        Provider::Finnhub
    } else {
        Provider::TwelveData
    }
}

impl Provider {
    pub fn from_name(name: &str) -> (r: Provider)
        ensures
            r == spec_provider(name@),
            name@ == "finnhub"@ ==> r == Provider::Finnhub,
            name@ != "finnhub"@ ==> r == Provider::TwelveData,
    {
        if str_eq(name, "finnhub") {
            Provider::Finnhub
        } else {
            Provider::TwelveData
        }
    }
}

/// The text of the subscription message for `symbol` on `provider`.
pub open spec fn spec_subscribe_msg(provider: Seq<char>, symbol: Seq<char>) -> Seq<char> {
    match spec_provider(provider) {
        Provider::Finnhub => "{\"type\":\"subscribe\",\"symbol\":\""@ + symbol + "\"}"@,
        Provider::TwelveData => spec_subscribe_json("subscribe"@, symbol),
    }
}

/// The subscription message for the configured provider and symbol.
pub fn build_subscribe_msg(cfg: &Config) -> (r: String)
    ensures
        r@ == spec_subscribe_msg(cfg.provider@, cfg.symbol@),
{
    match Provider::from_name(cfg.provider.as_str()) {
        Provider::Finnhub => {
            let mut out = concat("{\"type\":\"subscribe\",\"symbol\":\"", cfg.symbol.as_str());
            out.append("\"}");
            out
        },
        Provider::TwelveData => {
            let msg = SubscribeMsg {
                action: "subscribe",
                params: SubscribeParams { symbols: cfg.symbol.as_str() },
            };
            match msg.to_json() {
                Some(t) => t,
                None => String::new(),
            }
        },
    }
}

/// The WebSocket URL with the API key as query.
pub fn ws_url_with_key(ws_url: &str, api_key: &str) -> (r: String)
    ensures
        r@ == ws_url@ + "?apikey="@ + api_key@,
{
    let mut out = concat(ws_url, "?apikey=");
    out.append(api_key);
    out
}

/// How ticks are written out.
#[derive(Clone, Copy, Debug, PartialEq, Eq, Structural)]
pub enum OutputFormat {
    /// `timestamp,symbol,bid,ask,spread`, one line per tick.
    Csv,
    /// One JSON object per line.
    Json,
}

/// "csv" selects CSV; any other name, JSON lines.
pub open spec fn spec_output_format(name: Seq<char>) -> OutputFormat {
    if name == "csv"@ {
        OutputFormat::Csv
    } else {
        OutputFormat::Json
    }
}

impl OutputFormat {
    pub fn from_name(name: &str) -> (r: OutputFormat)
        ensures
            r == spec_output_format(name@),
            name@ == "csv"@ ==> r == OutputFormat::Csv,
            name@ != "csv"@ ==> r == OutputFormat::Json,
    {
        if str_eq(name, "csv") {
            OutputFormat::Csv
        } else {
            OutputFormat::Json
        }
    }
}

/// "csv" selects CSV output and "json" JSON lines; the two configuration
/// names give different formats.
pub proof fn lemma_output_format_names()
    ensures
        spec_output_format("csv"@) == OutputFormat::Csv,
        spec_output_format("json"@) == OutputFormat::Json,
{
    reveal_strlit("csv");
    reveal_strlit("json");
    assert("csv"@.len() != "json"@.len());
}

/// "finnhub" selects Finnhub and "twelvedata" Twelve Data.
pub proof fn lemma_provider_names()
    ensures
        spec_provider("finnhub"@) == Provider::Finnhub,
        spec_provider("twelvedata"@) == Provider::TwelveData,
{
    reveal_strlit("finnhub");
    reveal_strlit("twelvedata");
    assert("finnhub"@.len() != "twelvedata"@.len());
}

/// What a Twelve Data frame's `event` field says.
#[derive(Clone, Copy, Debug, PartialEq, Eq, Structural)]
pub enum TwelveDataEvent {
    Price,
    Heartbeat,
    SubscribeStatus,
    Other,
    Missing,
}

pub open spec fn spec_twelvedata_event(event: Option<Seq<char>>) -> TwelveDataEvent {
    match event {
        None => TwelveDataEvent::Missing,
        Some(e) => if e == "price"@ {
            TwelveDataEvent::Price
        } else if e == "heartbeat"@ {
            TwelveDataEvent::Heartbeat
        } else if e == "subscribe-status"@ {
            TwelveDataEvent::SubscribeStatus
        } else {
            TwelveDataEvent::Other
        },
    }
}

pub open spec fn opt_view(s: Option<&str>) -> Option<Seq<char>> {
    match s {
        Some(t) => Some(t@),
        None => None,
    }
}

/// Classifies a Twelve Data frame by its `event` field.
pub fn classify_twelvedata(event: Option<&str>) -> (r: TwelveDataEvent)
    ensures
        r == spec_twelvedata_event(opt_view(event)),
        event is None ==> r == TwelveDataEvent::Missing,
        event matches Some(e) && e@ == "price"@ ==> r == TwelveDataEvent::Price,
        event matches Some(e) && e@ == "heartbeat"@ ==> r == TwelveDataEvent::Heartbeat,
        event matches Some(e) && e@ == "subscribe-status"@ ==> r == TwelveDataEvent::SubscribeStatus,
{
    proof {
        reveal_strlit("price");
        reveal_strlit("heartbeat");
        reveal_strlit("subscribe-status");
        assert("price"@.len() == 5 && "heartbeat"@.len() == 9 && "subscribe-status"@.len() == 16);
    }
    match event {
        None => TwelveDataEvent::Missing,
        Some(e) => {
            if str_eq(e, "price") {
                TwelveDataEvent::Price
            } else if str_eq(e, "heartbeat") {
                TwelveDataEvent::Heartbeat
            } else if str_eq(e, "subscribe-status") {
                TwelveDataEvent::SubscribeStatus
            } else {
                TwelveDataEvent::Other
            }
        },
    }
}

/// What a Finnhub frame's `type` field says.
#[derive(Clone, Copy, Debug, PartialEq, Eq, Structural)]
pub enum FinnhubFrame {
    Trade,
    Control,
    Other,
    Missing,
}

pub open spec fn spec_finnhub_frame(t: Option<Seq<char>>) -> FinnhubFrame {
    match t {
        None => FinnhubFrame::Missing,
        Some(e) => if e == "trade"@ {
            FinnhubFrame::Trade
        } else if e == "ping"@ || e == "no_data"@ {
            FinnhubFrame::Control
        } else {
            FinnhubFrame::Other
        },
    }
}

/// Classifies a Finnhub frame by its `type` field.
pub fn classify_finnhub(frame_type: Option<&str>) -> (r: FinnhubFrame)
    ensures
        r == spec_finnhub_frame(opt_view(frame_type)),
        frame_type is None ==> r == FinnhubFrame::Missing,
        frame_type matches Some(e) && e@ == "trade"@ ==> r == FinnhubFrame::Trade,
        frame_type matches Some(e) && (e@ == "ping"@ || e@ == "no_data"@) ==> r
            == FinnhubFrame::Control,
{
    proof {
        reveal_strlit("trade");
        reveal_strlit("ping");
        reveal_strlit("no_data");
        assert("trade"@.len() == 5 && "ping"@.len() == 4 && "no_data"@.len() == 7);
    }
    match frame_type {
        None => FinnhubFrame::Missing,
        Some(e) => {
            if str_eq(e, "trade") {
                FinnhubFrame::Trade
            } else if str_eq(e, "ping") || str_eq(e, "no_data") {
                FinnhubFrame::Control
            } else {
                FinnhubFrame::Other
            }
        },
    }
}

/// The quote a price frame carries.
#[derive(Debug)]
pub enum Quote<T> {
    /// Both sides of the book.
    BidAsk { bid: T, ask: T },
    /// One traded price, standing for both sides.
    Single(T),
}

/// Explicit bid and ask win; otherwise the single price; otherwise none.
pub open spec fn spec_select_quote<T>(bid: Option<T>, ask: Option<T>, price: Option<T>) -> Option<
    Quote<T>,
> {
    match (bid, ask, price) {
        (Some(b), Some(a), _) => Some(Quote::BidAsk { bid: b, ask: a }),
        (_, _, Some(p)) => Some(Quote::Single(p)),
        _ => None,
    }
}

pub fn select_quote<T: Copy>(bid: Option<T>, ask: Option<T>, price: Option<T>) -> (r: Option<
    Quote<T>,
>)
    ensures
        r == spec_select_quote(bid, ask, price),
        bid is Some && ask is Some ==> r == Some(Quote::BidAsk { bid: bid->0, ask: ask->0 }),
        !(bid is Some && ask is Some) && price is Some ==> r == Some(Quote::Single(price->0)),
        !(bid is Some && ask is Some) && price is None ==> r is None,
{
    match (bid, ask, price) {
        (Some(b), Some(a), _) => Some(Quote::BidAsk { bid: b, ask: a }),
        (_, _, Some(p)) => Some(Quote::Single(p)),
        _ => None,
    }
}

/// Quote selection: a full bid/ask pair always gives that pair, whatever
/// the single price; the single price is used only when the pair is
/// incomplete; no quote only when neither is there.
pub proof fn lemma_quote_choice<T>(bid: Option<T>, ask: Option<T>, price: Option<T>)
    ensures
        bid is Some && ask is Some ==> spec_select_quote(bid, ask, price) == Some(
            Quote::BidAsk { bid: bid->0, ask: ask->0 },
        ),
        !(bid is Some && ask is Some) && price is Some ==> spec_select_quote(bid, ask, price)
            == Some(Quote::Single(price->0)),
        spec_select_quote(bid, ask, price) is None <==> (!(bid is Some && ask is Some)
            && price is None),
{
}

/// The symbol a frame names, or "?" when it names none.
pub fn symbol_or_placeholder(symbol: Option<&str>) -> (r: String)
    ensures
        r@ == match symbol {
            Some(s) => s@,
            None => "?"@,
        },
{
    match symbol {
        Some(s) => s.to_owned(),
        None => "?".to_owned(),
    }
}

} // verus!
