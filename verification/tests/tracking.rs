use swipe_gestures::tracking::SwipeTracking;
use swipe_gestures::tracking::Velocity;

/// Axis units are carried as fixed-point integers in millionths.
fn scaled(x: f64) -> i64 {
    (x * 1_000_000.0).round() as i64
}

#[test]
fn new_tracker_is_idle() {
    let t = SwipeTracking::new();
    assert_eq!(t.tstart, 0);
    assert_eq!(t.vtotal, 0);
}

#[test]
fn flush_on_idle_returns_none_and_stays_idle() {
    let mut t = SwipeTracking::new();
    assert_eq!(t.flush(5), None);
    assert_eq!(t.tstart, 0);
    assert_eq!(t.vtotal, 0);
    assert_eq!(t.flush(1000), None);
}

#[test]
fn first_measure_fixes_start_time() {
    let mut t = SwipeTracking::new();
    t.measure_event(1000, -10);
    assert_eq!(t.tstart, 1000);
    assert_eq!(t.vtotal, -10);
    t.measure_event(1003, -5);
    assert_eq!(t.tstart, 1000);
    assert_eq!(t.vtotal, -15);
}

#[test]
fn flush_reports_sum_over_elapsed_time() {
    let mut t = SwipeTracking::new();
    t.measure_event(1000, -10);
    t.measure_event(1003, -5);
    let v = t.flush(1005).unwrap();
    assert_eq!(v, Velocity { vtotal: -15, tdelta: 5 });
    let avg = v.vtotal as f64 / v.tdelta as f64;
    assert_eq!(avg, -3.0);
    assert_eq!(t.tstart, 0);
    assert_eq!(t.vtotal, 0);
}

#[test]
fn measure_after_flush_starts_fresh() {
    let mut t = SwipeTracking::new();
    t.measure_event(1000, -10);
    t.flush(1005);
    t.measure_event(2000, -7);
    assert_eq!(t.tstart, 2000);
    assert_eq!(t.vtotal, -7);
    let v = t.flush(2010).unwrap();
    assert_eq!(v, Velocity { vtotal: -7, tdelta: 10 });
}

#[test]
fn accumulation_saturates_instead_of_wrapping() {
    let mut t = SwipeTracking::new();
    t.measure_event(1, i64::MAX);
    t.measure_event(2, 1);
    assert_eq!(t.vtotal, i64::MAX);
    let mut u = SwipeTracking::new();
    u.measure_event(1, i64::MIN + 1);
    u.measure_event(2, -2);
    assert_eq!(u.vtotal, i64::MIN);
}

#[test]
fn reaches_compares_magnitude_to_threshold() {
    let fast = Velocity { vtotal: scaled(-0.02), tdelta: 5 };
    assert!(fast.reaches(scaled(0.002) as u64));
    let slow = Velocity { vtotal: scaled(-0.02), tdelta: 99005 };
    assert!(!slow.reaches(scaled(0.002) as u64));
}

#[test]
fn reaches_holds_exactly_at_the_threshold() {
    let v = Velocity { vtotal: -10_000, tdelta: 5 };
    assert!(v.reaches(2_000));
    assert!(!v.reaches(2_001));
}

#[test]
fn reaches_with_zero_elapsed_time_meets_any_threshold() {
    let v = Velocity { vtotal: 1, tdelta: 0 };
    assert!(v.reaches(u64::MAX));
}
