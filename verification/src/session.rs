//! What the desktop terminal decides when it is asked to start a feed,
//! switch symbol or timeframe, report its settings, or record to disk.

use vstd::prelude::*;

use crate::text::{concat, is_alphanumeric, push_char, unicode_alphanumeric};
use crate::timeframe::{
    lemma_from_str_is_label, lemma_label_round_trip, spec_from_str, spec_label, Timeframe,
};
use crate::types::FeedConfigOut;

verus! {

/// The timeframe a start request asks for; one minute when it names none
/// or names one that does not exist.
pub open spec fn spec_resolve_timeframe(tf: Option<Seq<char>>) -> Timeframe {
    match tf {
        Some(s) => match spec_from_str(s) {
            Some(t) => t,
            None => Timeframe::M1,
        },
        None => Timeframe::M1,
    }
}

pub fn resolve_timeframe(tf: Option<&str>) -> (r: Timeframe)
    ensures
        r == spec_resolve_timeframe(
            match tf {
                Some(s) => Some(s@),
                None => None,
            },
        ),
        tf is None ==> r == Timeframe::M1,
        forall|t: Timeframe| tf matches Some(s) && s@ == #[trigger] spec_label(t) ==> r == t,
        (tf matches Some(s) && forall|t: Timeframe| s@ != #[trigger] spec_label(t)) ==> r == Timeframe::M1,
{
    proof {
        if tf is Some {
            let s = tf->0@;
            assert forall|t: Timeframe| s == spec_label(t) implies spec_resolve_timeframe(Some(s)) == t by {
                lemma_label_round_trip(t);
            }
            if spec_from_str(s) is Some {
                lemma_from_str_is_label(s, spec_from_str(s)->0);
            }
        }
    }
    match tf {
        Some(s) => match Timeframe::from_str(s) {
            Some(t) => t,
            None => Timeframe::M1,
        },
        None => Timeframe::M1,
    }
}

/// Resolving a timeframe's own label gives that timeframe; one minute is
/// the answer only for no name or a name that is no timeframe's label.
pub proof fn lemma_resolve_label(t: Timeframe, other: Seq<char>)
    ensures
        spec_resolve_timeframe(Some(spec_label(t))) == t,
        spec_resolve_timeframe(None) == Timeframe::M1,
        (forall|u: Timeframe| other != #[trigger] spec_label(u)) ==> spec_resolve_timeframe(Some(other))
            == Timeframe::M1,
{
    lemma_label_round_trip(t);
    if spec_from_str(other) is Some {
        lemma_from_str_is_label(other, spec_from_str(other)->0);
    }
}

/// The timeframe a switch request names, or the error it is answered with.
pub fn parse_timeframe_arg(timeframe: &str) -> (r: Result<Timeframe, String>)
    ensures
        match spec_from_str(timeframe@) {
            Some(t) => r == Ok::<Timeframe, String>(t),
            None => r matches Err(e) && e@ == "unknown timeframe: "@ + timeframe@,
        },
{
    match Timeframe::from_str(timeframe) {
        Some(t) => Ok(t),
        None => Err(concat("unknown timeframe: ", timeframe)),
    }
}

/// Characters a symbol may keep when the front end switches to it.
pub open spec fn symbol_char_ok(c: char) -> bool {
    unicode_alphanumeric(c) || c == '/' || c == ':' || c == '_' || c == '-'
}

/// Characters a symbol may keep in a recording's file name.
pub open spec fn file_char_ok(c: char) -> bool {
    unicode_alphanumeric(c) || c == '_' || c == '-'
}

/// The characters of `s` that `for_files` (or, when false, a symbol switch)
/// keeps, in order.
pub open spec fn spec_keep(s: Seq<char>, for_files: bool) -> Seq<char>
    decreases s.len(),
{
    if s.len() == 0 {
        Seq::empty()
    } else {
        let c = s.last();
        let ok = if for_files { file_char_ok(c) } else { symbol_char_ok(c) };
        spec_keep(s.drop_last(), for_files) + if ok { seq![c] } else { Seq::empty() }
    }
}

fn keep_chars(s: &str, for_files: bool) -> (r: String)
    ensures
        r@ == spec_keep(s@, for_files),
{
    let n = s.unicode_len();
    let mut out = String::new();
    let mut i: usize = 0;
    while i < n
        invariant
            n == s@.len(),
            i <= n,
            out@ == spec_keep(s@.subrange(0, i as int), for_files),
        decreases n - i,
    {
        let c = s.get_char(i);
        proof {
            assert(s@.subrange(0, i + 1).drop_last() =~= s@.subrange(0, i as int));
        }
        let alnum = is_alphanumeric(c);
        let ok = if for_files {
            alnum || c == '_' || c == '-'
        } else {
            alnum || c == '/' || c == ':' || c == '_' || c == '-'
        };
        if ok {
            push_char(&mut out, c);
        } else {
            assert(out@ =~= out@ + Seq::<char>::empty());
        }
        i = i + 1;
    }
    assert(s@.subrange(0, n as int) =~= s@);
    out
}

/// The symbol a switch request leaves: its alphanumeric characters and
/// '/', ':', '_', '-', in order.
pub fn sanitize_symbol(symbol: &str) -> (r: String)
    ensures
        r@ == spec_keep(symbol@, false),
{
    keep_chars(symbol, false)
}

/// The symbol as it appears in a recording's file names: its alphanumeric
/// characters and '_', '-', in order.
pub fn recorder_symbol(symbol: &str) -> (r: String)
    ensures
        r@ == spec_keep(symbol@, true),
{
    keep_chars(symbol, true)
}

pub proof fn lemma_keep_all_ok(s: Seq<char>, for_files: bool)
    ensures
        forall|i: int|
            0 <= i < spec_keep(s, for_files).len() ==> if for_files {
                file_char_ok(#[trigger] spec_keep(s, for_files)[i])
            } else {
                symbol_char_ok(spec_keep(s, for_files)[i])
            },
        spec_keep(s, for_files).len() <= s.len(),
    decreases s.len(),
{
    if s.len() > 0 {
        lemma_keep_all_ok(s.drop_last(), for_files);
    }
}

pub proof fn lemma_keep_kept(s: Seq<char>, for_files: bool)
    requires
        forall|i: int|
            0 <= i < s.len() ==> if for_files {
                file_char_ok(#[trigger] s[i])
            } else {
                symbol_char_ok(s[i])
            },
    ensures
        spec_keep(s, for_files) == s,
    decreases s.len(),
{
    if s.len() > 0 {
        assert forall|i: int| 0 <= i < s.drop_last().len() implies if for_files {
            file_char_ok(#[trigger] s.drop_last()[i])
        } else {
            symbol_char_ok(s.drop_last()[i])
        } by {
            assert(s.drop_last()[i] == s[i]);
        }
        lemma_keep_kept(s.drop_last(), for_files);
        let c = s.last();
        assert(if for_files { file_char_ok(s[s.len() - 1]) } else { symbol_char_ok(s[s.len() - 1]) });
        assert(s.drop_last() + seq![c] =~= s);
    }
}

/// Sanitising keeps only allowed characters, and sanitising again changes
/// nothing.
pub proof fn lemma_sanitize_idempotent(s: Seq<char>, for_files: bool)
    ensures
        spec_keep(spec_keep(s, for_files), for_files) == spec_keep(s, for_files),
        forall|i: int|
            0 <= i < spec_keep(s, for_files).len() ==> if for_files {
                file_char_ok(#[trigger] spec_keep(s, for_files)[i])
            } else {
                symbol_char_ok(spec_keep(s, for_files)[i])
            },
{
    lemma_keep_all_ok(s, for_files);
    lemma_keep_kept(spec_keep(s, for_files), for_files);
}

/// The settings the front end may read back.
pub fn feed_config_out(ws_url: &str, symbol: &str, tf: Timeframe, api_key: &str) -> (r:
    FeedConfigOut)
    ensures
        r.ws_url@ == ws_url@,
        r.symbol@ == symbol@,
        r.timeframe@ == spec_label(tf),
        r.key_is_set == (api_key@.len() > 0),
{
    FeedConfigOut {
        ws_url: ws_url.to_owned(),
        symbol: symbol.to_owned(),
        timeframe: tf.label().to_owned(),
        key_is_set: !api_key.is_empty(),
    }
}

/// First line of a tick recording.
pub const TICK_CSV_HEADER: &'static str = "timestamp_ms,timestamp,symbol,bid,ask,spread,latency_us";

/// First line of a candle recording.
pub const CANDLE_CSV_HEADER: &'static str =
    "open_time,close_time,open,high,low,close,tick_vol,timeframe";

/// File name of the day's tick recording: `<symbol>_<date>.csv`.
pub fn tick_file_name(symbol: &str, date: &str) -> (r: String)
    ensures
        r@ == symbol@ + "_"@ + date@ + ".csv"@,
{
    let mut out = concat(symbol, "_");
    out.append(date);
    out.append(".csv");
    out
}

/// File name of the day's candle recording for one timeframe:
/// `<symbol>_<timeframe>_<date>.csv`.
pub fn candle_file_name(symbol: &str, tf_label: &str, date: &str) -> (r: String)
    ensures
        r@ == symbol@ + "_"@ + tf_label@ + "_"@ + date@ + ".csv"@,
{
    let mut out = concat(symbol, "_");
    out.append(tf_label);
    out.append("_");
    out.append(date);
    out.append(".csv");
    out
}

/// A recording day has passed: the open files belong to another date.
pub fn day_changed(today: &str, current: &str) -> (r: bool)
    ensures
        r == (today@ != current@),
{
    !crate::text::str_eq(today, current)
}

} // verus!
