//! Historical candles over Twelve Data's REST API: the request URL, the
//! interval per timeframe, and reading the fields of a returned candle
//! that are not prices.

use vstd::prelude::*;

use crate::text::{concat, push_char};
use crate::timeframe::Timeframe;

verus! {

/// Layout of the `datetime` field of a returned candle.
pub const TS_FORMAT: &'static str = "%Y-%m-%d %H:%M:%S";

/// The REST interval for a timeframe. The API offers no sub-minute
/// intervals, so those fall back to one minute.
pub open spec fn spec_interval(tf: Timeframe) -> Seq<char> {
    match tf {
        Timeframe::S5 => "1min"@,
        Timeframe::S15 => "1min"@,
        Timeframe::M1 => "1min"@,
        Timeframe::M5 => "5min"@,
        Timeframe::M15 => "15min"@,
        Timeframe::M30 => "30min"@,
        Timeframe::H1 => "1h"@,
    }
}

pub fn tf_to_interval(tf: Timeframe) -> (r: &'static str)
    ensures
        r@ == spec_interval(tf),
{
    match tf {
        Timeframe::S5 => "1min",
        Timeframe::S15 => "1min",
        Timeframe::M1 => "1min",
        Timeframe::M5 => "5min",
        Timeframe::M15 => "15min",
        Timeframe::M30 => "30min",
        Timeframe::H1 => "1h",
    }
}

/// `s` with every '/' written as "%2F".
pub open spec fn spec_encode_slash(s: Seq<char>) -> Seq<char>
    decreases s.len(),
{
    if s.len() == 0 {
        Seq::empty()
    } else {
        spec_encode_slash(s.drop_last()) + if s.last() == '/' {
            "%2F"@
        } else {
            seq![s.last()]
        }
    }
}

/// Writes every '/' of a symbol as "%2F".
pub fn encode_slash(s: &str) -> (r: String)
    ensures
        r@ == spec_encode_slash(s@),
{
    let n = s.unicode_len();
    let mut out = String::new();
    let mut i: usize = 0;
    while i < n
        invariant
            n == s@.len(),
            i <= n,
            out@ == spec_encode_slash(s@.subrange(0, i as int)),
        decreases n - i,
    {
        let c = s.get_char(i);
        proof {
            assert(s@.subrange(0, i + 1).drop_last() =~= s@.subrange(0, i as int));
        }
        if c == '/' {
            out.append("%2F");
        } else {
            push_char(&mut out, c);
        }
        i = i + 1;
    }
    assert(s@.subrange(0, n as int) =~= s@);
    out
}

/// The encoded symbol has no '/' left, and nothing but slashes changed:
/// every '/' became the three characters "%2F".
pub proof fn lemma_encode_slash_clean(s: Seq<char>)
    ensures
        !spec_encode_slash(s).contains('/'),
        spec_encode_slash(s).len() >= s.len(),
    decreases s.len(),
{
    reveal_strlit("%2F");
    if s.len() > 0 {
        lemma_encode_slash_clean(s.drop_last());
        let p = spec_encode_slash(s.drop_last());
        let tail = if s.last() == '/' { "%2F"@ } else { seq![s.last()] };
        assert(spec_encode_slash(s) == p + tail);
        if spec_encode_slash(s).contains('/') {
            let k = choose|k: int| 0 <= k < spec_encode_slash(s).len() && spec_encode_slash(s)[k] == '/';
            if k < p.len() {
                assert(p[k] == '/');
            } else {
                assert(tail[k - p.len()] == '/');
            }
        }
    }
}

/// The time-series request for the last hundred candles of `symbol`.
pub open spec fn spec_history_url(symbol: Seq<char>, tf: Timeframe, api_key: Seq<char>) -> Seq<
    char,
> {
    "https://api.twelvedata.com/time_series?symbol="@ + spec_encode_slash(symbol) + "&interval="@
        + spec_interval(tf) + "&outputsize=100&apikey="@ + api_key
}

pub fn history_url(symbol: &str, tf: Timeframe, api_key: &str) -> (r: String)
    ensures
        r@ == spec_history_url(symbol@, tf, api_key@),
{
    let sym = encode_slash(symbol);
    let mut out = concat("https://api.twelvedata.com/time_series?symbol=", sym.as_str());
    out.append("&interval=");
    out.append(tf_to_interval(tf));
    out.append("&outputsize=100&apikey=");
    out.append(api_key);
    out
}

/// Milliseconds since the epoch of `text` read as a UTC date and time in
/// `format`, when it parses.
pub uninterp spec fn naive_utc_millis(text: Seq<char>, format: Seq<char>) -> Option<i64>;

/// `chrono::NaiveDateTime::parse_from_str`, followed by `and_utc()` and
/// `timestamp_millis()` on success; the contract names the result and
/// claims nothing else of chrono's parser.
#[verifier::external_body]
fn parse_utc_millis(text: &str, format: &str) -> (r: Option<i64>)
    ensures
        r == naive_utc_millis(text@, format@),
{
    match chrono::NaiveDateTime::parse_from_str(text, format) {
        Ok(n) => Some(n.and_utc().timestamp_millis()),
        Err(_) => None,
    }
}

/// Open time of a returned candle, in ms since the epoch; 0 when its
/// `datetime` does not parse.
pub fn parse_ts(dt: &str) -> (r: i64)
    ensures
        r == match naive_utc_millis(dt@, TS_FORMAT@) {
            Some(m) => m,
            None => 0,
        },
{
    match parse_utc_millis(dt, TS_FORMAT) {
        Some(m) => m,
        None => 0,
    }
}

pub open spec fn is_digit(c: char) -> bool {
    '0' <= c <= '9'
}

/// Value of a run of decimal digits.
pub open spec fn digits_value(s: Seq<char>) -> int
    decreases s.len(),
{
    if s.len() == 0 {
        0
    } else {
        digits_value(s.drop_last()) * 10 + (s.last() as int - 48)
    }
}

/// `s` without a leading '+'.
pub open spec fn sign_stripped(s: Seq<char>) -> Seq<char> {
    if s.len() > 0 && s[0] == '+' {
        s.drop_first()
    } else {
        s
    }
}

pub open spec fn all_digits(s: Seq<char>) -> bool {
    forall|i: int| 0 <= i < s.len() ==> is_digit(#[trigger] s[i])
}

/// What `str::parse::<u64>` accepts: an optional '+', then one or more
/// decimal digits whose value fits in a `u64`.
pub open spec fn spec_parse_u64(s: Seq<char>) -> Option<u64> {
    let body = sign_stripped(s);
    if body.len() > 0 && all_digits(body) && digits_value(body) <= u64::MAX {
        Some(digits_value(body) as u64)
    } else {
        None
    }
}

pub proof fn lemma_digits_nonneg(s: Seq<char>)
    requires
        forall|i: int| 0 <= i < s.len() ==> is_digit(#[trigger] s[i]),
    ensures
        digits_value(s) >= 0,
        s.len() > 0 ==> digits_value(s) >= digits_value(s.drop_last()),
    decreases s.len(),
{
    if s.len() > 0 {
        assert forall|i: int| 0 <= i < s.drop_last().len() implies is_digit(
            #[trigger] s.drop_last()[i],
        ) by {
            assert(s.drop_last()[i] == s[i]);
        }
        lemma_digits_nonneg(s.drop_last());
        assert(is_digit(s[s.len() - 1]));
    }
}

/// Decimal unsigned integer, as `str::parse::<u64>` reads it.
pub fn parse_u64(s: &str) -> (r: Option<u64>)
    ensures
        r == spec_parse_u64(s@),
{
    let n = s.unicode_len();
    let mut i: usize = 0;
    if n > 0 && s.get_char(0) == '+' {
        i = 1;
    }
    let ghost body = sign_stripped(s@);
    let ghost first = i as int;
    assert(body =~= s@.subrange(first, n as int));
    if i == n {
        return None;
    }
    let mut value: u64 = 0;
    while i < n
        invariant
            n == s@.len(),
            first <= i <= n,
            first == 0 || first == 1,
            body =~= s@.subrange(first, n as int),
            body == sign_stripped(s@),
            forall|k: int| first <= k < i ==> is_digit(#[trigger] s@[k]),
            value == digits_value(s@.subrange(first, i as int)),
        decreases n - i,
    {
        let c = s.get_char(i);
        let ghost pre = s@.subrange(first, i as int);
        proof {
            assert(s@.subrange(first, i + 1).drop_last() =~= pre);
        }
        if !('0' <= c && c <= '9') {
            proof {
                assert(body[i - first] == c);
                assert(!is_digit(body[i - first]));
                assert(!all_digits(body));
            }
            return None;
        }
        let d = (c as u32 - 48) as u64;
        if value > (u64::MAX - d) / 10 {
            proof {
                assert(value * 10 + d > u64::MAX) by (nonlinear_arith)
                    requires
                        value > (u64::MAX - d) / 10,
                        d <= 9,
                ;
                let p = s@.subrange(first, i + 1);
                assert(p.drop_last() =~= pre);
                assert(p.last() == c);
                assert(digits_value(p) == value * 10 + d);
                assert(body.subrange(0, i + 1 - first) =~= p);
                lemma_prefix_value_grows(body, i + 1 - first);
                assert(all_digits(body) ==> digits_value(body) > u64::MAX);
            }
            return None;
        }
        proof {
            assert(value * 10 + d <= u64::MAX) by (nonlinear_arith)
                requires
                    value <= (u64::MAX - d) / 10,
                    d <= 9,
            ;
        }
        value = value * 10 + d;
        i = i + 1;
    }
    assert(s@.subrange(first, n as int) =~= body);
    Some(value)
}

/// Among all-digit sequences, a longer prefix never has a smaller value.
pub proof fn lemma_prefix_value_grows(s: Seq<char>, j: int)
    requires
        0 <= j <= s.len(),
    ensures
        (forall|i: int| 0 <= i < s.len() ==> is_digit(#[trigger] s[i])) ==> digits_value(
            s.subrange(0, j),
        ) <= digits_value(s),
    decreases s.len() - j,
{
    if forall|i: int| 0 <= i < s.len() ==> is_digit(#[trigger] s[i]) {
        if j < s.len() {
            lemma_prefix_value_grows(s, j + 1);
            let t = s.subrange(0, j + 1);
            assert(t.drop_last() =~= s.subrange(0, j));
            assert forall|i: int| 0 <= i < t.len() implies is_digit(#[trigger] t[i]) by {
                assert(t[i] == s[i]);
            }
            lemma_digits_nonneg(t);
        } else {
            assert(s.subrange(0, j) =~= s);
        }
    }
}

/// Tick volume of a returned candle: its `volume` field read as a `u64`,
/// 1 when absent or unreadable.
pub fn parse_volume(volume: Option<&str>) -> (r: u64)
    ensures
        r == match volume {
            Some(v) => match spec_parse_u64(v@) {
                Some(x) => x,
                None => 1,
            },
            None => 1,
        },
{
    match volume {
        Some(v) => match parse_u64(v) {
            Some(x) => x,
            None => 1,
        },
        None => 1,
    }
}

/// A time-series answer carries candles only when its `status` is "ok".
pub fn history_status_ok(status: Option<&str>) -> (r: bool)
    ensures
        r == (status matches Some(s) && s@ == "ok"@),
{
    match status {
        Some(s) => crate::text::str_eq(s, "ok"),
        None => false,
    }
}

/// Drops the newest candle of a chronological history, which is still
/// forming, unless it is the only one.
pub fn drop_forming<T>(candles: &mut Vec<T>)
    ensures
        final(candles)@ == if old(candles)@.len() > 1 {
            old(candles)@.drop_last()
        } else {
            old(candles)@
        },
{
    if candles.len() > 1 {
        candles.pop();
    }
}

} // verus!
