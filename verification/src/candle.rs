//! OHLC candles and the per-timeframe candle buffer.
//!
//! Prices are held as *price keys*: unsigned integers whose order is the
//! order of the prices they stand for. Everything the buffer decides about a
//! price (is it a new high, a new low, is the candle bullish) depends on that
//! order alone, so the buffer never needs the price's numeric value.

use vstd::prelude::*;
use std::collections::VecDeque;

use crate::timeframe::{spec_duration_ms, Timeframe};

verus! {

/// How many closed candles a buffer keeps.
pub const MAX_CANDLES: usize = 1000;

/// Rust's `/` on integers: the quotient rounded toward zero.
pub open spec fn trunc_div(a: int, d: int) -> int {
    if a >= 0 {
        a / d
    } else {
        -((-a) / d)
    }
}

/// Start of the bucket that a timestamp falls into: the timestamp's quotient
/// by the duration, rounded toward zero, times the duration.
pub open spec fn spec_bucket_start(ts_ms: int, dur: int) -> int {
    trunc_div(ts_ms, dur) * dur
}

/// One OHLC candle over price keys.
#[derive(Clone, Copy, Debug, PartialEq, Eq, Structural)]
pub struct Candle {
    pub open_time: i64,
    pub close_time: i64,
    pub open: u64,
    pub high: u64,
    pub low: u64,
    pub close: u64,
    pub tick_vol: u64,
    pub timeframe: Timeframe,
    pub closed: bool,
}

/// The candle that a first price opens.
pub open spec fn spec_new_candle(price: u64, open_time: i64, tf: Timeframe) -> Candle {
    Candle {
        open_time,
        close_time: (open_time + spec_duration_ms(tf) - 1) as i64,
        open: price,
        high: price,
        low: price,
        close: price,
        tick_vol: 1,
        timeframe: tf,
        closed: false,
    }
}

pub open spec fn max_u64(a: u64, b: u64) -> u64 {
    if a > b { a } else { b }
}

pub open spec fn min_u64(a: u64, b: u64) -> u64 {
    if a < b { a } else { b }
}

/// The candle after one more price in its period.
pub open spec fn spec_update(c: Candle, price: u64) -> Candle {
    Candle {
        high: max_u64(c.high, price),
        low: min_u64(c.low, price),
        close: price,
        tick_vol: (c.tick_vol + 1) as u64,
        ..c
    }
}

impl Candle {
    pub fn new(price: u64, open_time: i64, tf: Timeframe) -> (r: Self)
        requires
            open_time + spec_duration_ms(tf) <= i64::MAX,
        ensures
            r == spec_new_candle(price, open_time, tf),
    {
        Candle {
            open_time,
            close_time: open_time + tf.duration_ms() - 1,
            open: price,
            high: price,
            low: price,
            close: price,
            tick_vol: 1,
            timeframe: tf,
            closed: false,
        }
    }

    pub fn update(&mut self, price: u64)
        requires
            old(self).tick_vol < u64::MAX,
        ensures
            *final(self) == spec_update(*old(self), price),
    {
        if price > self.high {
            self.high = price;
        }
        if price < self.low {
            self.low = price;
        }
        self.close = price;
        self.tick_vol = self.tick_vol + 1;
    }

    pub fn is_bullish(&self) -> (r: bool)
        ensures
            r == (self.close >= self.open),
    {
        self.close >= self.open
    }
}

/// Start of the bucket that `ts_ms` falls into for a period of `dur` ms.
pub fn bucket_start(ts_ms: i64, dur: i64) -> (r: i64)
    requires
        dur > 0,
    ensures
        r == spec_bucket_start(ts_ms as int, dur as int),
{
    let q = ts_ms / dur;
    proof {
        if ts_ms >= 0 {
            lemma_floor_mul_bounds(ts_ms as int, dur as int);
        } else {
            lemma_floor_mul_bounds(-(ts_ms as int), dur as int);
            assert(q * dur == -(((-(ts_ms as int)) / (dur as int)) * dur)) by (nonlinear_arith)
                requires
                    q == -((-(ts_ms as int)) / (dur as int)),
            ;
        }
    }
    q * dur
}

/// `(a / d) * d` lies in `(a - d, a]` for a non-negative `a`.
pub proof fn lemma_floor_mul_bounds(a: int, d: int)
    requires
        a >= 0,
        d > 0,
    ensures
        0 <= (a / d) * d <= a,
        a - d < (a / d) * d,
{
    vstd::arithmetic::div_mod::lemma_fundamental_div_mod(a, d);
    vstd::arithmetic::div_mod::lemma_mod_bound(a, d);
    vstd::arithmetic::div_mod::lemma_div_pos_is_pos(a, d);
    let q = a / d;
    assert(0 <= q * d <= a && a - d < q * d) by (nonlinear_arith)
        requires
            a == d * q + a % d,
            0 <= a % d < d,
            q >= 0,
            d > 0,
    ;
}

/// What a candle buffer holds: its timeframe, its closed candles, oldest
/// first, and the candle still forming, if any.
#[verifier::ext_equal]
pub struct CandleSeries {
    pub tf: Timeframe,
    pub closed: Seq<Candle>,
    pub live: Option<Candle>,
}

/// Closed candles after one more closes: the oldest leaves once the buffer
/// is full.
pub open spec fn spec_push_capped(s: Seq<Candle>, c: Candle) -> Seq<Candle> {
    if s.len() >= MAX_CANDLES {
        s.drop_first().push(c)
    } else {
        s.push(c)
    }
}

/// One tick applied to a series: the new series and the candle it closed.
pub open spec fn spec_process_tick(s: CandleSeries, price: u64, ts_ms: int) -> (
    CandleSeries,
    Option<Candle>,
) {
    let bucket = spec_bucket_start(ts_ms, spec_duration_ms(s.tf)) as i64;
    match s.live {
        None => (CandleSeries { live: Some(spec_new_candle(price, bucket, s.tf)), ..s }, None),
        Some(l) => if l.open_time == bucket {
            (CandleSeries { live: Some(spec_update(l, price)), ..s }, None)
        } else {
            let done = Candle { closed: true, ..l };
            (
                CandleSeries {
                    tf: s.tf,
                    closed: spec_push_capped(s.closed, done),
                    live: Some(spec_new_candle(price, bucket, s.tf)),
                },
                Some(done),
            )
        },
    }
}

/// The series is one the buffer can hold.
pub open spec fn series_wf(s: CandleSeries) -> bool {
    &&& s.closed.len() <= MAX_CANDLES
    &&& forall|i: int| 0 <= i < s.closed.len() ==> (#[trigger] s.closed[i]).timeframe == s.tf
    &&& forall|i: int| 0 <= i < s.closed.len() ==> (#[trigger] s.closed[i]).closed
    &&& s.live matches Some(l) ==> l.timeframe == s.tf && !l.closed
        && l.close_time == l.open_time + spec_duration_ms(s.tf) - 1
}

/// A tick can be taken without overflow: when it updates the forming
/// candle, that candle's tick count has room; when it opens a new candle,
/// the new candle's close time fits in an `i64`.
pub open spec fn series_can_take_tick(s: CandleSeries, ts_ms: int) -> bool {
    let d = spec_duration_ms(s.tf);
    let b = spec_bucket_start(ts_ms, d);
    match s.live {
        Some(l) => if l.open_time == b {
            l.tick_vol < u64::MAX
        } else {
            b + d <= i64::MAX
        },
        None => b + d <= i64::MAX,
    }
}

/// The candles of one timeframe: closed ones, oldest first, and the one
/// still forming.
pub struct CandleBuffer {
    tf: Timeframe,
    candles: VecDeque<Candle>,
    live: Option<Candle>,
}

impl View for CandleBuffer {
    type V = CandleSeries;

    closed spec fn view(&self) -> CandleSeries {
        CandleSeries { tf: self.tf, closed: self.candles@, live: self.live }
    }
}

impl CandleBuffer {
    pub closed spec fn wf(&self) -> bool {
        series_wf(self@)
    }

    pub fn new(tf: Timeframe) -> (r: Self)
        ensures
            r.wf(),
            r@ == (CandleSeries { tf, closed: Seq::empty(), live: None }),
    {
        let r = CandleBuffer { tf, candles: VecDeque::with_capacity(MAX_CANDLES), live: None };
        assert(r@.closed =~= Seq::<Candle>::empty());
        r
    }

    pub fn timeframe(&self) -> (r: Timeframe)
        ensures
            r == self@.tf,
    {
        self.tf
    }

    /// Adds one price at `ts_ms`; returns the candle it closed, if any.
    pub fn process_tick(&mut self, price: u64, ts_ms: i64) -> (r: Option<Candle>)
        requires
            old(self).wf(),
            series_can_take_tick(old(self)@, ts_ms as int),
        ensures
            final(self).wf(),
            (final(self)@, r) == spec_process_tick(old(self)@, price, ts_ms as int),
    {
        let dur = self.tf.duration_ms();
        let bucket = bucket_start(ts_ms, dur);
        proof {
            if ts_ms >= 0 {
                lemma_floor_mul_bounds(ts_ms as int, dur as int);
            } else {
                lemma_floor_mul_bounds(-(ts_ms as int), dur as int);
            }
        }
        match self.live {
            None => {
                self.live = Some(Candle::new(price, bucket, self.tf));
                None
            },
            Some(live) => {
                if live.open_time == bucket {
                    let mut c = live;
                    c.update(price);
                    self.live = Some(c);
                    None
                } else {
                    let mut done = live;
                    done.closed = true;
                    if self.candles.len() >= MAX_CANDLES {
                        self.candles.pop_front();
                    }
                    self.candles.push_back(done);
                    self.live = Some(Candle::new(price, bucket, self.tf));
                    proof {
                        let s = old(self)@;
                        assert(self@.closed =~= spec_push_capped(s.closed, done));
                    }
                    Some(done)
                }
            },
        }
    }

    pub fn live_candle(&self) -> (r: Option<Candle>)
        ensures
            r == self@.live,
    {
        self.live
    }

    /// Number of closed candles held.
    pub fn closed_len(&self) -> (r: usize)
        ensures
            r == self@.closed.len(),
    {
        self.candles.len()
    }

    /// The last `n` closed candles (all of them if fewer), oldest first.
    pub fn last_closed(&self, n: usize) -> (r: Vec<Candle>)
        ensures
            r@ == self@.closed.subrange(
                self@.closed.len() - spec_min_len(n as int, self@.closed.len() as int),
                self@.closed.len() as int,
            ),
    {
        let len = self.candles.len();
        if len == 0 {
            let r: Vec<Candle> = Vec::new();
            assert(r@ =~= self@.closed.subrange(0, 0));
            return r;
        }
        let start = if len > n { len - n } else { 0 };
        let mut out: Vec<Candle> = Vec::new();
        let mut i = start;
        while i < len
            invariant
                start <= i <= len,
                len == self@.closed.len(),
                out@ =~= self@.closed.subrange(start as int, i as int),
            decreases len - i,
        {
            out.push(self.candles[i]);
            i = i + 1;
        }
        out
    }

    /// The last `max` closed candles, oldest first, then the live candle.
    pub fn all_candles(&self, max: usize) -> (r: Vec<Candle>)
        ensures
            r@ == spec_with_live(
                self@.closed.subrange(
                    self@.closed.len() - spec_min_len(max as int, self@.closed.len() as int),
                    self@.closed.len() as int,
                ),
                self@.live,
            ),
    {
        let mut out = self.last_closed(max);
        if let Some(live) = self.live {
            out.push(live);
        }
        out
    }

    /// Forgets every candle, closed and live.
    pub fn clear(&mut self)
        requires
            old(self).wf(),
        ensures
            final(self).wf(),
            final(self)@ == (CandleSeries { tf: old(self)@.tf, closed: Seq::empty(), live: None }),
    {
        self.candles.clear();
        self.live = None;
        assert(self@.closed =~= Seq::<Candle>::empty());
    }
}

/// A buffer is well formed exactly when what it holds is a well-formed series.
pub proof fn reveal_buffer_wf(b: &CandleBuffer)
    ensures
        b.wf() <==> series_wf(b@),
{
}

pub open spec fn spec_min_len(n: int, len: int) -> int {
    if n < len { n } else { len }
}

pub open spec fn spec_with_live(s: Seq<Candle>, live: Option<Candle>) -> Seq<Candle> {
    match live {
        Some(l) => s.push(l),
        None => s,
    }
}

/// The series after a run of ticks, applied in order.
pub open spec fn spec_process_ticks(s: CandleSeries, ticks: Seq<(u64, i64)>) -> CandleSeries
    decreases ticks.len(),
{
    if ticks.len() == 0 {
        s
    } else {
        let last = ticks.last();
        spec_process_tick(spec_process_ticks(s, ticks.drop_last()), last.0, last.1 as int).0
    }
}

/// Highest price of a non-empty run of ticks.
pub open spec fn spec_max_price(ticks: Seq<(u64, i64)>) -> u64
    decreases ticks.len(),
{
    if ticks.len() <= 1 {
        ticks[0].0
    } else {
        max_u64(spec_max_price(ticks.drop_last()), ticks.last().0)
    }
}

/// Lowest price of a non-empty run of ticks.
pub open spec fn spec_min_price(ticks: Seq<(u64, i64)>) -> u64
    decreases ticks.len(),
{
    if ticks.len() <= 1 {
        ticks[0].0
    } else {
        min_u64(spec_min_price(ticks.drop_last()), ticks.last().0)
    }
}

/// Every tick of the run falls into the bucket that starts at `b`.
pub open spec fn all_in_bucket(ticks: Seq<(u64, i64)>, dur: int, b: int) -> bool {
    forall|i: int| 0 <= i < ticks.len() ==> spec_bucket_start((#[trigger] ticks[i]).1 as int, dur) == b
}

/// The bucket start of an `i64` timestamp is again an `i64`.
pub proof fn lemma_bucket_in_range(ts_ms: i64, dur: int)
    requires
        dur > 0,
    ensures
        i64::MIN <= spec_bucket_start(ts_ms as int, dur) <= i64::MAX,
        ts_ms >= 0 ==> 0 <= spec_bucket_start(ts_ms as int, dur) <= ts_ms,
        ts_ms < 0 ==> ts_ms <= spec_bucket_start(ts_ms as int, dur) <= 0,
{
    if ts_ms >= 0 {
        lemma_floor_mul_bounds(ts_ms as int, dur);
    } else {
        lemma_floor_mul_bounds(-(ts_ms as int), dur);
        let q = (-(ts_ms as int)) / dur;
        assert(-q * dur == -(q * dur)) by (nonlinear_arith);
    }
}

/// Bucket starts are whole multiples of the duration, and the bucket of a
/// bucket start is itself.
pub proof fn lemma_bucket_aligned(ts_ms: i64, dur: int)
    requires
        dur > 0,
    ensures
        spec_bucket_start(ts_ms as int, dur) % dur == 0,
        spec_bucket_start(spec_bucket_start(ts_ms as int, dur), dur) == spec_bucket_start(
            ts_ms as int,
            dur,
        ),
{
    let q = trunc_div(ts_ms as int, dur);
    let b = q * dur;
    vstd::arithmetic::div_mod::lemma_mod_multiples_basic(q, dur);
    assert(b == q * dur);
    if b >= 0 {
        vstd::arithmetic::div_mod::lemma_div_multiples_vanish(q, dur);
        assert(trunc_div(b, dur) == q) by {
            assert(b / dur == (dur * q) / dur) by {
                vstd::arithmetic::mul::lemma_mul_is_commutative(q, dur);
            }
        }
    } else {
        vstd::arithmetic::div_mod::lemma_div_multiples_vanish(-q, dur);
        assert(-b == (-q) * dur) by (nonlinear_arith)
            requires
                b == q * dur,
        ;
        assert(trunc_div(b, dur) == q) by {
            assert((-b) / dur == (dur * (-q)) / dur) by {
                vstd::arithmetic::mul::lemma_mul_is_commutative(-q, dur);
            }
        }
    }
}

/// Aggregation: a run of ticks that all fall into one bucket, arriving when
/// no candle of that bucket is forming, leaves a live candle of that bucket
/// whose open is the first price, high the highest, low the lowest, close
/// the last price and tick volume the number of ticks.
pub proof fn lemma_bucket_aggregates(s: CandleSeries, ticks: Seq<(u64, i64)>, b: int)
    requires
        ticks.len() > 0,
        all_in_bucket(ticks, spec_duration_ms(s.tf), b),
        b + spec_duration_ms(s.tf) <= i64::MAX,
        s.live matches Some(l) ==> l.open_time != b,
        ticks.len() < u64::MAX,
    ensures
        spec_process_ticks(s, ticks).live == Some(
            Candle {
                open_time: b as i64,
                close_time: (b + spec_duration_ms(s.tf) - 1) as i64,
                open: ticks[0].0,
                high: spec_max_price(ticks),
                low: spec_min_price(ticks),
                close: ticks.last().0,
                tick_vol: ticks.len() as u64,
                timeframe: s.tf,
                closed: false,
            },
        ),
        spec_process_ticks(s, ticks).tf == s.tf,
    decreases ticks.len(),
{
    let d = spec_duration_ms(s.tf);
    lemma_bucket_in_range(ticks.last().1, d);
    assert(spec_bucket_start(ticks.last().1 as int, d) == b);
    if ticks.len() == 1 {
        assert(ticks.drop_last() =~= Seq::<(u64, i64)>::empty());
        assert(spec_process_ticks(s, ticks.drop_last()) == s);
    } else {
        let prefix = ticks.drop_last();
        assert forall|i: int| 0 <= i < prefix.len() implies spec_bucket_start(
            (#[trigger] prefix[i]).1 as int,
            d,
        ) == b by {
            assert(prefix[i] == ticks[i]);
        }
        lemma_bucket_aggregates(s, prefix, b);
        assert(prefix[0] == ticks[0]);
    }
}

/// A candle closes exactly when a tick falls outside the bucket of the
/// candle that is forming, and the closed candle is that forming candle.
pub proof fn lemma_close_iff_new_bucket(s: CandleSeries, price: u64, ts_ms: i64)
    ensures
        ({
            let b = spec_bucket_start(ts_ms as int, spec_duration_ms(s.tf));
            let (next, closed) = spec_process_tick(s, price, ts_ms as int);
            &&& closed is Some <==> (s.live matches Some(l) && l.open_time != b)
            &&& closed matches Some(c) ==> c == (Candle { closed: true, ..s.live->0 })
            &&& next.live matches Some(l) && l.open_time == b
        }),
{
    lemma_bucket_in_range(ts_ms, spec_duration_ms(s.tf));
}

/// A non-negative timestamp lies inside the candle that its tick leaves
/// forming: between its open time and its close time.
pub proof fn lemma_tick_inside_live(s: CandleSeries, price: u64, ts_ms: i64)
    requires
        series_wf(s),
        ts_ms >= 0,
        series_can_take_tick(s, ts_ms as int),
    ensures
        ({
            let l = spec_process_tick(s, price, ts_ms as int).0.live->0;
            l.open_time <= ts_ms <= l.close_time
        }),
{
    let d = spec_duration_ms(s.tf);
    lemma_floor_mul_bounds(ts_ms as int, d);
    lemma_bucket_in_range(ts_ms, d);
}

/// Taking a tick keeps the series well formed; the buffer never holds more
/// than `MAX_CANDLES` closed candles.
pub proof fn lemma_tick_keeps_wf(s: CandleSeries, price: u64, ts_ms: i64)
    requires
        series_wf(s),
        series_can_take_tick(s, ts_ms as int),
    ensures
        series_wf(spec_process_tick(s, price, ts_ms as int).0),
        spec_process_tick(s, price, ts_ms as int).0.closed.len() <= MAX_CANDLES,
{
    lemma_bucket_in_range(ts_ms, spec_duration_ms(s.tf));
    let (n, c) = spec_process_tick(s, price, ts_ms as int);
    if c is Some {
        let done = c->0;
        let t = if s.closed.len() >= MAX_CANDLES { s.closed.drop_first() } else { s.closed };
        assert forall|i: int| 0 <= i < n.closed.len() implies (#[trigger] n.closed[i]).timeframe == s.tf
            && n.closed[i].closed by {
            if i < n.closed.len() - 1 {
                assert(n.closed[i] == t[i]);
            }
        }
    }
}

} // verus!
