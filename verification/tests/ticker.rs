use pumpkin::ticker::{TickMetrics, TickSnapshot, TickWatchdog, Ticker};

fn snapshot(m: &TickMetrics) -> (u64, u64, f64) {
    let s = m.snapshot_totals();
    if s.count == 0 {
        return (0, 0, 0.0);
    }
    (s.min_ns, s.max_ns, s.sum_ns as f64 / s.count as f64)
}

#[test]
fn tick_metrics_empty() {
    let m = TickMetrics::new(10);
    let (min, max, avg) = snapshot(&m);
    assert_eq!(min, 0);
    assert_eq!(max, 0);
    assert_eq!(avg, 0.0);
}

#[test]
fn tick_metrics_record_and_snapshot() {
    let mut m = TickMetrics::new(5);
    m.record(10_000_000);
    m.record(20_000_000);
    m.record(15_000_000);

    let (min, max, avg) = snapshot(&m);
    assert_eq!(min, 10_000_000);
    assert_eq!(max, 20_000_000);
    assert!((avg - 15_000_000.0).abs() < 0.001);
}

#[test]
fn tick_metrics_window_size_clamping() {
    let mut m = TickMetrics::new(2);
    m.record(1);
    m.record(2);
    m.record(3); // this evicts `1`
    let (min, max, _avg) = snapshot(&m);
    assert_eq!(min, 2);
    assert_eq!(max, 3);
}

#[test]
fn tick_watchdog_threshold() {
    let mut w = TickWatchdog::new(50_000_000);
    assert!(!w.check(1, 10_000_000)); // under budget → silent
    assert!(w.check(2, 60_000_000)); // over budget → warns once
    assert!(!w.check(2, 70_000_000)); // same tick → suppressed
    assert!(w.check(3, 80_000_000)); // new tick → warns
}

#[test]
fn tick_count_and_clamp() {
    let mut m = TickMetrics::new(3);
    assert_eq!(m.tick_count(), 0);
    m.record(u64::MAX);
    assert_eq!(m.tick_count(), 1);
    assert_eq!(
        m.snapshot_totals(),
        TickSnapshot { min_ns: 4_294_967_295, max_ns: 4_294_967_295, sum_ns: 4_294_967_295, count: 1 }
    );
}

#[test]
fn window_keeps_latest_values() {
    let mut m = TickMetrics::new(3);
    for d in [5u64, 9, 1, 7, 8] {
        m.record(d);
    }
    // Window holds 7, 8, 1.
    assert_eq!(
        m.snapshot_totals(),
        TickSnapshot { min_ns: 1, max_ns: 8, sum_ns: 16, count: 3 }
    );
}

#[test]
fn deadline_advances_by_one_interval() {
    let mut t = Ticker::new(1_000);
    assert_eq!(t.schedule_after_tick(10, 50), 1_050);
    // Overran by less than two intervals: still one interval.
    assert_eq!(t.schedule_after_tick(140, 50), 1_100);
}

#[test]
fn deadline_skips_missed_periods() {
    let mut t = Ticker::new(0);
    // 50 over budget 50 -> overrun 200, 4 missed periods -> skip 5 intervals.
    assert_eq!(t.schedule_after_tick(250, 50), 250);
}

#[test]
fn sprinting_interval_zero() {
    let mut t = Ticker::new(7);
    assert_eq!(t.schedule_after_tick(0, 0), 7);
    // A sprint tick that took time starts the next one at once.
    assert_eq!(t.schedule_after_tick(1, 0), 7);
    assert_eq!(t.schedule_after_tick(60_000_000, 0), 7);
}

#[test]
fn watchdog_warns_on_first_overrun_of_tick_zero() {
    let mut w = TickWatchdog::new(50_000_000);
    assert!(w.check(0, 60_000_000));
    assert!(!w.check(0, 60_000_000));
    assert!(w.check(1, 60_000_000));
}

#[test]
fn deadline_skips_huge_overrun_without_truncation() {
    let mut t = Ticker::new(0);
    // Missed periods beyond u32::MAX are all skipped.
    let tick: u64 = 1 + 10 * (u32::MAX as u64);
    let expected = 1u128 * (u128::from(tick - 1) + 1);
    assert_eq!(t.schedule_after_tick(tick, 1), expected);
}

#[test]
fn death_spiral_reset() {
    let mut t = Ticker::new(1_000);
    assert!(!t.catch_up(1_000 + 5_000_000_000));
    assert_eq!(t.next_tick(), 1_000);
    assert!(t.catch_up(1_001 + 5_000_000_000));
    assert_eq!(t.next_tick(), 1_001 + 5_000_000_000);
}
