use pumpkin::leak_detector::{sample_resource, LeakDetector, SampleOutcome};
use std::sync::{Arc, Weak};

fn count(w: &Weak<()>) -> usize {
    w.strong_count()
}

#[test]
fn track_and_release() {
    let mut detector = LeakDetector::with_params(10, 1);
    let data = Arc::new(());
    let weak = Arc::downgrade(&data);

    let snapshot = weak.strong_count();
    detector.watch("test::data", weak, snapshot);
    assert_eq!(detector.tracked_count(), 1);

    // After the Arc is dropped, the next tick should clean it up.
    drop(data);
    detector.tick(0, count);
    assert_eq!(detector.tracked_count(), 0);
}

#[test]
fn survivor_under_threshold_not_reported() {
    let mut detector = LeakDetector::with_params(1_000_000, 1);
    let data = Arc::new(());
    let weak = Arc::downgrade(&data);

    let snapshot = weak.strong_count();
    detector.watch("test::survivor", weak, snapshot);
    let alive = [data.clone(), data];
    assert_eq!(Arc::strong_count(&alive[0]), 2);

    for i in 0..5u64 {
        let warnings = detector.tick(i * 50_000_000, count);
        assert!(warnings.is_empty());
    }

    assert_eq!(detector.tracked_count(), 1);
}

#[test]
fn explicit_unwatch() {
    let mut detector = LeakDetector::new();
    let data = Arc::new(());
    let weak = Arc::downgrade(&data);
    let snapshot = weak.strong_count();
    detector.watch("test::unwatch", weak, snapshot);
    assert_eq!(detector.tracked_count(), 1);

    detector.unwatch("test::unwatch");
    assert_eq!(detector.tracked_count(), 0);
}

#[test]
fn survivor_past_grace_is_reported_once_per_grace() {
    // Grace of 2 ticks = 100 ms; sample every tick.
    let mut detector = LeakDetector::with_params(2, 1);
    let data = Arc::new(());
    let extra = data.clone();
    let weak = Arc::downgrade(&data);
    let snapshot = weak.strong_count();
    detector.watch("test::leak", weak, snapshot);

    // First sample starts the grace timer.
    assert!(detector.tick(0, count).is_empty());
    // Still within the grace period.
    assert!(detector.tick(100_000_000, count).is_empty());
    // Past the grace period: reported with the strong count.
    let warnings = detector.tick(100_000_001, count);
    assert_eq!(warnings.len(), 1);
    assert_eq!(warnings[0].label, "test::leak");
    assert_eq!(warnings[0].strong_count, 2);
    // The timer restarted, so no report right after.
    assert!(detector.tick(100_000_002, count).is_empty());
    drop(extra);
}

#[test]
fn sampling_interval_skips_ticks() {
    let mut detector = LeakDetector::with_params(10, 3);
    let data = Arc::new(());
    let weak = Arc::downgrade(&data);
    detector.watch("test::interval", weak, 1);
    drop(data);
    detector.tick(0, count); // tick 0 samples: released
    assert_eq!(detector.tracked_count(), 0);

    let data2 = Arc::new(());
    detector.watch("test::interval2", Arc::downgrade(&data2), 1);
    drop(data2);
    detector.tick(0, count); // tick 1: no sample
    detector.tick(0, count); // tick 2: no sample
    assert_eq!(detector.tracked_count(), 1);
    detector.tick(0, count); // tick 3: samples
    assert_eq!(detector.tracked_count(), 0);
}

#[test]
fn rewatch_replaces_entry_and_report_lists_counts() {
    let mut detector = LeakDetector::new();
    let a = Arc::new(());
    let b = Arc::new(());
    let _b2 = b.clone();
    detector.watch("x", Arc::downgrade(&a), 1);
    detector.watch("x", Arc::downgrade(&b), 2);
    assert_eq!(detector.tracked_count(), 1);
    assert_eq!(detector.report(count), vec![("x", 2)]);
}

#[test]
fn sample_resource_decisions() {
    assert_eq!(sample_resource(2, None, 0, 0, 5, 10), SampleOutcome::Released);
    assert_eq!(
        sample_resource(2, None, 2, 2, 5, 10),
        SampleOutcome::Kept { snapshot_count: 2, first_seen: Some(5), warn: false }
    );
    assert_eq!(
        sample_resource(2, Some(5), 2, 2, 16, 10),
        SampleOutcome::Kept { snapshot_count: 2, first_seen: Some(16), warn: true }
    );
    assert_eq!(
        sample_resource(2, Some(5), 2, 2, 15, 10),
        SampleOutcome::Kept { snapshot_count: 2, first_seen: Some(5), warn: false }
    );
    assert_eq!(
        sample_resource(2, Some(5), 3, 3, 50, 10),
        SampleOutcome::Kept { snapshot_count: 3, first_seen: None, warn: false }
    );
    assert_eq!(
        sample_resource(1, Some(5), 1, 1, 50, 10),
        SampleOutcome::Kept { snapshot_count: 1, first_seen: None, warn: false }
    );
}
