use xauusd_fetcher::aggregator::{Aggregator, HISTORY_WINDOW};
use xauusd_fetcher::candle::{bucket_start, Candle, CandleBuffer, MAX_CANDLES};
use xauusd_fetcher::timeframe::Timeframe;

#[test]
fn candle_new_spans_its_timeframe() {
    let c = Candle::new(100, 60_000, Timeframe::M1);
    assert_eq!(c.open_time, 60_000);
    assert_eq!(c.close_time, 119_999);
    assert_eq!((c.open, c.high, c.low, c.close), (100, 100, 100, 100));
    assert_eq!(c.tick_vol, 1);
    assert_eq!(c.timeframe, Timeframe::M1);
    assert!(!c.closed);
}

#[test]
fn candle_update_tracks_high_low_close() {
    let mut c = Candle::new(100, 0, Timeframe::S5);
    c.update(120);
    c.update(90);
    c.update(105);
    assert_eq!((c.open, c.high, c.low, c.close), (100, 120, 90, 105));
    assert_eq!(c.tick_vol, 4);
    assert!(c.is_bullish());
    c.update(99);
    assert!(!c.is_bullish());
}

#[test]
fn bucket_start_rounds_toward_zero() {
    assert_eq!(bucket_start(12_345, 5_000), 10_000);
    assert_eq!(bucket_start(10_000, 5_000), 10_000);
    assert_eq!(bucket_start(0, 5_000), 0);
    assert_eq!(bucket_start(-7, 5), -5);
    assert_eq!(bucket_start(-1, 5_000), 0);
}

#[test]
fn ticks_in_one_bucket_aggregate_into_the_live_candle() {
    let mut b = CandleBuffer::new(Timeframe::M1);
    for (p, t) in [(50u64, 60_001i64), (70, 60_500), (40, 61_000), (60, 119_999)] {
        assert!(b.process_tick(p, t).is_none());
    }
    let live = b.live_candle().unwrap();
    assert_eq!(live.open_time, 60_000);
    assert_eq!(live.close_time, 119_999);
    assert_eq!((live.open, live.high, live.low, live.close), (50, 70, 40, 60));
    assert_eq!(live.tick_vol, 4);
    assert_eq!(b.closed_len(), 0);
}

#[test]
fn a_tick_in_a_new_bucket_closes_the_live_candle() {
    let mut b = CandleBuffer::new(Timeframe::S5);
    assert!(b.process_tick(10, 1_000).is_none());
    b.process_tick(12, 4_999);
    let closed = b.process_tick(11, 5_000).unwrap();
    assert!(closed.closed);
    assert_eq!(closed.open_time, 0);
    assert_eq!((closed.open, closed.high, closed.low, closed.close), (10, 12, 10, 12));
    assert_eq!(closed.tick_vol, 2);
    let live = b.live_candle().unwrap();
    assert_eq!(live.open_time, 5_000);
    assert_eq!(live.tick_vol, 1);
    assert_eq!(b.last_closed(5), vec![closed]);
    assert_eq!(b.all_candles(10), vec![closed, live]);
}

#[test]
fn buffer_keeps_at_most_max_candles() {
    let mut b = CandleBuffer::new(Timeframe::S5);
    for i in 0..(MAX_CANDLES as i64 + 5) {
        b.process_tick(i as u64, i * 5_000);
    }
    assert_eq!(b.closed_len(), MAX_CANDLES);
    let last = b.last_closed(2);
    assert_eq!(last.len(), 2);
    assert_eq!(last[1].open_time, (MAX_CANDLES as i64 + 3) * 5_000);
    let first = b.last_closed(MAX_CANDLES + 10);
    assert_eq!(first.len(), MAX_CANDLES);
    assert_eq!(first[0].open_time, 4 * 5_000);
    let all = b.all_candles(3);
    assert_eq!(all.len(), 4);
    assert!(!all[3].closed);
}

#[test]
fn clear_forgets_everything() {
    let mut b = CandleBuffer::new(Timeframe::H1);
    b.process_tick(1, 0);
    b.process_tick(1, 3_600_000);
    b.clear();
    assert_eq!(b.closed_len(), 0);
    assert!(b.live_candle().is_none());
    assert_eq!(b.timeframe(), Timeframe::H1);
}

#[test]
fn aggregator_reports_the_active_timeframe() {
    let mut a = Aggregator::new();
    assert_eq!(a.active_timeframe(), Timeframe::M1);
    assert!(a.can_take_tick(0));
    let r = a.on_tick(100, 0);
    assert!(r.closed.is_none());
    assert_eq!(r.live.unwrap().open, 100);
    let r = a.on_tick(110, 30_000);
    assert!(r.closed.is_none());
    assert_eq!(r.live.unwrap().high, 110);
    let r = a.on_tick(90, 60_000);
    let closed = r.closed.unwrap();
    assert_eq!(closed.candle.open_time, 0);
    assert_eq!(closed.candle.close_time, 59_999);
    assert_eq!((closed.candle.open, closed.candle.high, closed.candle.close), (100, 110, 110));
    assert_eq!(closed.candle.tick_vol, 2);
    assert_eq!(closed.recent, vec![closed.candle]);
    assert_eq!(closed.profile_window, vec![closed.candle]);
    assert_eq!(r.live.unwrap().open_time, 60_000);
}

#[test]
fn aggregator_timeframe_switch_sends_history_only_when_there_is_some() {
    let mut a = Aggregator::new();
    a.on_tick(1, 0);
    a.on_tick(2, 5_000);
    a.on_tick(3, 10_000);
    assert!(a.on_timeframe(Timeframe::H1).is_none());
    assert_eq!(a.active_timeframe(), Timeframe::H1);
    let h = a.on_timeframe(Timeframe::S5).unwrap();
    assert_eq!(h.len(), 3);
    assert_eq!(h[0].open_time, 0);
    assert_eq!(h[2].open_time, 10_000);
    assert!(h[0].closed && h[1].closed && !h[2].closed);
    assert!(HISTORY_WINDOW >= h.len());
}

#[test]
fn aggregator_symbol_change_forgets_all_candles() {
    let mut a = Aggregator::new();
    a.on_tick(1, 0);
    a.on_tick(2, 3_600_000);
    a.on_symbol();
    assert!(a.on_timeframe(Timeframe::S5).is_none());
    assert!(a.on_timeframe(Timeframe::H1).is_none());
    let r = a.on_tick(5, 3_600_001);
    assert!(r.closed.is_none());
    assert_eq!(r.live.unwrap().tick_vol, 1);
}

#[test]
fn aggregator_refuses_timestamps_without_room() {
    let a = Aggregator::new();
    assert!(!a.can_take_tick(i64::MAX));
    assert!(a.can_take_tick(i64::MAX - 3_600_000));
}

#[test]
fn bucket_starts_are_aligned_and_stable() {
    for ts in [0i64, 1, 4_999, 5_000, 123_456_789, -1, -5_001, -123_456_789] {
        for d in [5_000i64, 60_000, 3_600_000] {
            let b = bucket_start(ts, d);
            assert_eq!(b % d, 0);
            assert_eq!(bucket_start(b, d), b);
            if ts >= 0 {
                assert!(b <= ts && ts < b + d);
            }
        }
    }
}

#[test]
fn longer_buckets_contain_shorter_ones() {
    let all = [
        Timeframe::S5,
        Timeframe::S15,
        Timeframe::M1,
        Timeframe::M5,
        Timeframe::M15,
        Timeframe::M30,
        Timeframe::H1,
    ];
    for ts in [0i64, 7_777, 3_599_999, 3_600_000, 987_654_321, -1, -3_600_001] {
        for s in all {
            for l in all {
                let (ds, dl) = (s.duration_ms(), l.duration_ms());
                if ds <= dl {
                    assert_eq!(dl % ds, 0);
                    assert_eq!(bucket_start(bucket_start(ts, ds), dl), bucket_start(ts, dl));
                }
            }
        }
    }
}

#[test]
fn top_timestamps_are_taken_while_the_close_fits() {
    let mut b = CandleBuffer::new(Timeframe::S5);
    let ts = i64::MAX - 10_000;
    assert!(b.process_tick(1, ts).is_none());
    assert_eq!(b.live_candle().unwrap().close_time, (ts / 5_000) * 5_000 + 4_999);
    let a = Aggregator::new();
    assert!(!a.can_take_tick(i64::MAX));
    let mut a = Aggregator::new();
    assert!(a.can_take_tick(i64::MAX - 3_600_000));
    a.on_tick(1, i64::MAX - 3_600_000);
    assert!(a.can_take_tick(i64::MAX - 3_600_000 + 1));
}
