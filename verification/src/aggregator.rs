//! The decisions of the candle aggregator: which candles every timeframe
//! forms from the tick stream, and what is reported for the timeframe on
//! screen. Sending the reports on is left to the caller.

use vstd::prelude::*;

use crate::candle::{
    bucket_start, reveal_buffer_wf, series_can_take_tick, series_wf, spec_min_len, spec_process_tick, spec_with_live,
    Candle, CandleBuffer, CandleSeries,
};
use crate::timeframe::Timeframe;

verus! {

/// How many of the latest closed candles pattern detection looks at.
pub const PATTERN_WINDOW: usize = 5;

/// How many of the latest closed candles the volume profile is built from.
pub const PROFILE_WINDOW: usize = 200;

/// How many closed candles a timeframe switch sends as history.
pub const HISTORY_WINDOW: usize = 500;

/// The timeframes the aggregator keeps, in order.
pub open spec fn spec_tf_at(i: int) -> Timeframe {
    if i == 0 {
        Timeframe::S5
    } else if i == 1 {
        Timeframe::S15
    } else if i == 2 {
        Timeframe::M1
    } else if i == 3 {
        Timeframe::M5
    } else if i == 4 {
        Timeframe::M15
    } else if i == 5 {
        Timeframe::M30
    } else {
        Timeframe::H1
    }
}

/// Position of a timeframe in that order.
pub open spec fn spec_tf_index(tf: Timeframe) -> int {
    match tf {
        Timeframe::S5 => 0,
        Timeframe::S15 => 1,
        Timeframe::M1 => 2,
        Timeframe::M5 => 3,
        Timeframe::M15 => 4,
        Timeframe::M30 => 5,
        Timeframe::H1 => 6,
    }
}

pub fn tf_at(i: usize) -> (r: Timeframe)
    requires
        i < 7,
    ensures
        r == spec_tf_at(i as int),
{
    if i == 0 {
        Timeframe::S5
    } else if i == 1 {
        Timeframe::S15
    } else if i == 2 {
        Timeframe::M1
    } else if i == 3 {
        Timeframe::M5
    } else if i == 4 {
        Timeframe::M15
    } else if i == 5 {
        Timeframe::M30
    } else {
        Timeframe::H1
    }
}

pub fn tf_index(tf: Timeframe) -> (r: usize)
    ensures
        r == spec_tf_index(tf),
        r < 7,
        spec_tf_at(r as int) == tf,
{
    match tf {
        Timeframe::S5 => 0,
        Timeframe::S15 => 1,
        Timeframe::M1 => 2,
        Timeframe::M5 => 3,
        Timeframe::M15 => 4,
        Timeframe::M30 => 5,
        Timeframe::H1 => 6,
    }
}

/// The aggregator's state: one series per timeframe, in the order of
/// `spec_tf_at`, and the timeframe on screen.
pub struct AggregatorState {
    pub series: Seq<CandleSeries>,
    pub active: Timeframe,
}

/// The last `n` candles of `s` (all of them if fewer).
pub open spec fn spec_last(s: Seq<Candle>, n: int) -> Seq<Candle> {
    s.subrange(s.len() - spec_min_len(n, s.len() as int), s.len() as int)
}

/// What a tick reports when it closes a candle of the timeframe on screen.
pub struct ClosedReport {
    /// The candle that closed.
    pub candle: Candle,
    /// The latest closed candles that pattern detection looks at.
    pub recent: Vec<Candle>,
    /// The latest closed candles that the volume profile is built from.
    pub profile_window: Vec<Candle>,
}

/// What a tick reports for the timeframe on screen.
pub struct TickReport {
    /// Set when the tick closed a candle of that timeframe.
    pub closed: Option<ClosedReport>,
    /// The candle of that timeframe that is forming after the tick.
    pub live: Option<Candle>,
}

/// Candle aggregation over every timeframe.
pub struct Aggregator {
    buffers: Vec<CandleBuffer>,
    active_tf: Timeframe,
}

impl View for Aggregator {
    type V = AggregatorState;

    closed spec fn view(&self) -> AggregatorState {
        AggregatorState { series: self.buffers@.map_values(|b: CandleBuffer| b@), active: self.active_tf }
    }
}

/// The state is one the aggregator can be in.
pub open spec fn state_wf(s: AggregatorState) -> bool {
    &&& s.series.len() == 7
    &&& forall|i: int| 0 <= i < 7 ==> (#[trigger] s.series[i]).tf == spec_tf_at(i)
    &&& forall|i: int| 0 <= i < 7 ==> series_wf(#[trigger] s.series[i])
}

/// Every timeframe can take a tick at `ts_ms`.
pub open spec fn state_can_take_tick(s: AggregatorState, ts_ms: int) -> bool {
    forall|i: int| 0 <= i < s.series.len() ==> series_can_take_tick(#[trigger] s.series[i], ts_ms)
}

impl Aggregator {
    pub closed spec fn wf(&self) -> bool {
        &&& self.buffers.len() == 7
        &&& forall|i: int| 0 <= i < 7 ==> (#[trigger] self.buffers@[i]).wf()
        &&& state_wf(self@)
    }

    /// Empty series for every timeframe; one minute on screen.
    pub fn new() -> (r: Self)
        ensures
            r.wf(),
            r@.active == Timeframe::M1,
            r@.series.len() == 7,
            forall|i: int|
                0 <= i < 7 ==> #[trigger] r@.series[i] == (CandleSeries {
                    tf: spec_tf_at(i),
                    closed: Seq::empty(),
                    live: None,
                }),
    {
        let mut buffers: Vec<CandleBuffer> = Vec::new();
        let mut i: usize = 0;
        while i < 7
            invariant
                i <= 7,
                buffers.len() == i,
                forall|j: int| 0 <= j < i ==> (#[trigger] buffers@[j]).wf(),
                forall|j: int|
                    0 <= j < i ==> #[trigger] buffers@[j]@ == (CandleSeries {
                        tf: spec_tf_at(j),
                        closed: Seq::empty(),
                        live: None,
                    }),
            decreases 7 - i,
        {
            buffers.push(CandleBuffer::new(tf_at(i)));
            i = i + 1;
        }
        let r = Aggregator { buffers, active_tf: Timeframe::M1 };
        proof {
            assert forall|j: int| 0 <= j < 7 implies series_wf(#[trigger] r@.series[j]) by {
                assert(r@.series[j] == r.buffers@[j]@);
                reveal_buffer_wf(&r.buffers@[j]);
            }
        }
        r
    }

    /// Whether every timeframe can take a tick at `ts_ms`: where the tick
    /// opens a new candle, that candle's close time fits in an `i64`; where
    /// it updates the forming candle, its tick count has room.
    pub fn can_take_tick(&self, ts_ms: i64) -> (r: bool)
        requires
            self.wf(),
        ensures
            r == state_can_take_tick(self@, ts_ms as int),
    {
        let mut i: usize = 0;
        while i < 7
            invariant
                i <= 7,
                self.wf(),
                forall|j: int| 0 <= j < i ==> series_can_take_tick(#[trigger] self@.series[j], ts_ms as int),
            decreases 7 - i,
        {
            proof {
                assert(self@.series[i as int] == self.buffers@[i as int]@);
            }
            let tf = self.buffers[i].timeframe();
            let d = tf.duration_ms();
            let b = bucket_start(ts_ms, d);
            let fresh_fits = b <= i64::MAX - d;
            let ok = match self.buffers[i].live_candle() {
                Some(l) => if l.open_time == b {
                    l.tick_vol < u64::MAX
                } else {
                    fresh_fits
                },
                None => fresh_fits,
            };
            if !ok {
                proof {
                    assert(!series_can_take_tick(self@.series[i as int], ts_ms as int));
                }
                return false;
            }
            i = i + 1;
        }
        true
    }

    /// The timeframe on screen.
    pub fn active_timeframe(&self) -> (r: Timeframe)
        ensures
            r == self@.active,
    {
        self.active_tf
    }

    /// Switches the timeframe on screen. Returns the history to show when
    /// that timeframe has closed candles: its last `HISTORY_WINDOW` closed
    /// candles followed by its forming candle.
    pub fn on_timeframe(&mut self, tf: Timeframe) -> (r: Option<Vec<Candle>>)
        requires
            old(self).wf(),
        ensures
            final(self).wf(),
            final(self)@.series == old(self)@.series,
            final(self)@.active == tf,
            ({
                let s = old(self)@.series[spec_tf_index(tf)];
                match r {
                    Some(h) => s.closed.len() > 0 && h@ == spec_with_live(
                        spec_last(s.closed, HISTORY_WINDOW as int),
                        s.live,
                    ),
                    None => s.closed.len() == 0,
                }
            }),
    {
        self.active_tf = tf;
        let i = tf_index(tf);
        proof {
            assert(self.buffers@[i as int]@ == old(self)@.series[i as int]);
        }
        if self.buffers[i].closed_len() > 0 {
            Some(self.buffers[i].all_candles(HISTORY_WINDOW))
        } else {
            None
        }
    }

    /// A new symbol: every candle of every timeframe is forgotten.
    pub fn on_symbol(&mut self)
        requires
            old(self).wf(),
        ensures
            final(self).wf(),
            final(self)@.active == old(self)@.active,
            final(self)@.series.len() == 7,
            forall|i: int|
                0 <= i < 7 ==> #[trigger] final(self)@.series[i] == (CandleSeries {
                    tf: spec_tf_at(i),
                    closed: Seq::empty(),
                    live: None,
                }),
    {
        proof {
            assert forall|j: int| 0 <= j < 7 implies (#[trigger] self.buffers@[j])@.tf == spec_tf_at(
                j,
            ) by {
                assert(self@.series[j] == self.buffers@[j]@);
            }
        }
        let mut i: usize = 0;
        while i < 7
            invariant
                i <= 7,
                self.buffers.len() == 7,
                self.active_tf == old(self).active_tf,
                forall|j: int| 0 <= j < 7 ==> (#[trigger] self.buffers@[j]).wf(),
                forall|j: int| 0 <= j < 7 ==> (#[trigger] self.buffers@[j])@.tf == spec_tf_at(j),
                forall|j: int|
                    0 <= j < i ==> #[trigger] self.buffers@[j]@ == (CandleSeries {
                        tf: spec_tf_at(j),
                        closed: Seq::empty(),
                        live: None,
                    }),
            decreases 7 - i,
        {
            self.buffers[i].clear();
            i = i + 1;
        }
        proof {
            assert forall|j: int| 0 <= j < 7 implies series_wf(#[trigger] self@.series[j]) by {
                assert(self@.series[j] == self.buffers@[j]@);
                reveal_buffer_wf(&self.buffers@[j]);
            }
        }
    }

    /// One tick: every timeframe takes it; the report covers the timeframe
    /// on screen.
    pub fn on_tick(&mut self, price: u64, ts_ms: i64) -> (r: TickReport)
        requires
            old(self).wf(),
            state_can_take_tick(old(self)@, ts_ms as int),
        ensures
            final(self).wf(),
            final(self)@.active == old(self)@.active,
            final(self)@.series.len() == 7,
            forall|i: int|
                0 <= i < 7 ==> #[trigger] final(self)@.series[i] == spec_process_tick(
                    old(self)@.series[i],
                    price,
                    ts_ms as int,
                ).0,
            ({
                let a = spec_tf_index(old(self)@.active);
                let (after, closed) = spec_process_tick(old(self)@.series[a], price, ts_ms as int);
                &&& r.live == after.live
                &&& match closed {
                    Some(c) => r.closed matches Some(rep) && rep.candle == c
                        && rep.recent@ == spec_last(after.closed, PATTERN_WINDOW as int)
                        && rep.profile_window@ == spec_last(after.closed, PROFILE_WINDOW as int),
                    None => r.closed is None,
                }
            }),
    {
        let active = tf_index(self.active_tf);
        let mut report = TickReport { closed: None, live: None };
        let mut i: usize = 0;
        while i < 7
            invariant
                i <= 7,
                active == spec_tf_index(old(self)@.active),
                self.active_tf == old(self).active_tf,
                self.buffers.len() == 7,
                forall|j: int| 0 <= j < 7 ==> (#[trigger] self.buffers@[j]).wf(),
                forall|j: int|
                    0 <= j < i ==> #[trigger] self.buffers@[j]@ == spec_process_tick(
                        old(self)@.series[j],
                        price,
                        ts_ms as int,
                    ).0,
                forall|j: int| i <= j < 7 ==> #[trigger] self.buffers@[j]@ == old(self)@.series[j],
                state_wf(old(self)@),
                state_can_take_tick(old(self)@, ts_ms as int),
                old(self)@.series == old(self).buffers@.map_values(|b: CandleBuffer| b@),
                i <= active ==> report.closed is None && report.live is None,
                i > active ==> ({
                    let (after, closed) = spec_process_tick(
                        old(self)@.series[active as int],
                        price,
                        ts_ms as int,
                    );
                    &&& report.live == after.live
                    &&& match closed {
                        Some(c) => report.closed matches Some(rep) && rep.candle == c
                            && rep.recent@ == spec_last(after.closed, PATTERN_WINDOW as int)
                            && rep.profile_window@ == spec_last(
                            after.closed,
                            PROFILE_WINDOW as int,
                        ),
                        None => report.closed is None,
                    }
                }),
            decreases 7 - i,
        {
            proof {
                assert(self.buffers@[i as int]@ == old(self)@.series[i as int]);
                assert(series_can_take_tick(old(self)@.series[i as int], ts_ms as int));
            }
            let closed = self.buffers[i].process_tick(price, ts_ms);
            if i == active {
                match closed {
                    Some(c) => {
                        let recent = self.buffers[i].last_closed(PATTERN_WINDOW);
                        let window = self.buffers[i].last_closed(PROFILE_WINDOW);
                        report.closed = Some(ClosedReport { candle: c, recent, profile_window: window });
                    },
                    None => {},
                }
                report.live = self.buffers[i].live_candle();
            }
            i = i + 1;
        }
        proof {
            assert forall|j: int| 0 <= j < 7 implies series_wf(#[trigger] self@.series[j])
                && self@.series[j].tf == spec_tf_at(j) by {
                assert(self@.series[j] == self.buffers@[j]@);
                reveal_buffer_wf(&self.buffers@[j]);
            }
        }
        report
    }
}

} // verus!
