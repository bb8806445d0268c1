use swipe_gestures::dispatch::GestureDispatcher;
use swipe_gestures::dispatch::SwipeDirection;
use swipe_gestures::event::Axis;
use swipe_gestures::event::AxisSource;
use swipe_gestures::event::InputEvent;
use swipe_gestures::event::PointerAxisEvent;

/// Axis units are carried as fixed-point integers in millionths.
fn scaled(x: f64) -> i64 {
    (x * 1_000_000.0).round() as i64
}

fn finger_h(t: u64, v: i64) -> InputEvent {
    InputEvent::PointerAxis(PointerAxisEvent {
        axis: Axis::Horizontal,
        source: AxisSource::Finger,
        value: v,
        time_usec: t,
    })
}

#[test]
fn fast_left_swipe_fires_left_action() {
    // Threshold 0.002, two samples of -0.01 over 5 microseconds:
    // average -0.02 / 5 = -0.004, and 0.004 >= 0.002.
    let mut d = GestureDispatcher::new(scaled(0.002) as u64);
    assert_eq!(d.handle_event(finger_h(1000, scaled(-0.01))), None);
    assert_eq!(d.handle_event(finger_h(1003, scaled(-0.01))), None);
    assert_eq!(d.handle_event(finger_h(1005, 0)), Some(SwipeDirection::Left));
    assert_eq!(d.left.tstart, 0);
    assert_eq!(d.right.tstart, 0);
}

#[test]
fn slow_left_swipe_fires_nothing() {
    // Same feed terminated much later: average magnitude 0.02 / 99005
    // drops below the 0.002 threshold.
    let mut d = GestureDispatcher::new(scaled(0.002) as u64);
    assert_eq!(d.handle_event(finger_h(1000, scaled(-0.01))), None);
    assert_eq!(d.handle_event(finger_h(1003, scaled(-0.01))), None);
    assert_eq!(d.handle_event(finger_h(100005, 0)), None);
}

#[test]
fn fast_right_swipe_fires_right_action() {
    let mut d = GestureDispatcher::new(scaled(0.002) as u64);
    assert_eq!(d.handle_event(finger_h(1000, scaled(0.01))), None);
    assert_eq!(d.handle_event(finger_h(1003, scaled(0.01))), None);
    assert_eq!(d.handle_event(finger_h(1005, 0)), Some(SwipeDirection::Right));
}

#[test]
fn both_directions_active_is_ambiguous() {
    // One sample each side, flushed by the same termination event: no action,
    // however fast either side was.
    let mut d = GestureDispatcher::new(1);
    assert_eq!(d.handle_event(finger_h(1000, -10_000)), None);
    assert_eq!(d.handle_event(finger_h(1002, 10_000)), None);
    assert_eq!(d.handle_event(finger_h(1005, 0)), None);
}

#[test]
fn termination_with_nothing_accumulated_is_a_no_op() {
    let mut d = GestureDispatcher::new(1);
    assert_eq!(d.handle_event(finger_h(1005, 0)), None);
    assert_eq!(d.left.tstart, 0);
    assert_eq!(d.right.tstart, 0);
}

#[test]
fn single_winner_below_threshold_fires_nothing() {
    let mut d = GestureDispatcher::new(u64::MAX);
    assert_eq!(d.handle_event(finger_h(1000, -10_000)), None);
    assert_eq!(d.handle_event(finger_h(2000, 0)), None);
}

#[test]
fn average_exactly_at_threshold_fires() {
    // -10000 over 5 microseconds is exactly a 2000 threshold.
    let mut d = GestureDispatcher::new(2_000);
    assert_eq!(d.handle_event(finger_h(1000, -10_000)), None);
    assert_eq!(d.handle_event(finger_h(1005, 0)), Some(SwipeDirection::Left));
}

#[test]
fn wheel_source_events_are_ignored() {
    let mut d = GestureDispatcher::new(1);
    let wheel = InputEvent::PointerAxis(PointerAxisEvent {
        axis: Axis::Horizontal,
        source: AxisSource::Wheel,
        value: -1_000_000,
        time_usec: 1000,
    });
    assert_eq!(d.handle_event(wheel), None);
    assert_eq!(d.left.tstart, 0);
    assert_eq!(d.left.vtotal, 0);
    // The termination sentinel finds nothing accumulated.
    assert_eq!(d.handle_event(finger_h(1005, 0)), None);
}

#[test]
fn vertical_axis_events_are_ignored() {
    let mut d = GestureDispatcher::new(1);
    let vertical = InputEvent::PointerAxis(PointerAxisEvent {
        axis: Axis::Vertical,
        source: AxisSource::Finger,
        value: -1_000_000,
        time_usec: 1000,
    });
    assert_eq!(d.handle_event(vertical), None);
    assert_eq!(d.left.tstart, 0);
    assert_eq!(d.right.tstart, 0);
    assert_eq!(d.handle_event(finger_h(1005, 0)), None);
}

#[test]
fn non_axis_events_are_ignored() {
    let mut d = GestureDispatcher::new(1);
    assert_eq!(d.handle_event(InputEvent::Other), None);
    assert_eq!(d.left.tstart, 0);
    assert_eq!(d.right.tstart, 0);
}

#[test]
fn tracker_is_reusable_after_an_ambiguous_flush() {
    let mut d = GestureDispatcher::new(2_000);
    assert_eq!(d.handle_event(finger_h(1000, -10_000)), None);
    assert_eq!(d.handle_event(finger_h(1002, 10_000)), None);
    assert_eq!(d.handle_event(finger_h(1005, 0)), None);
    // A clean left swipe right after the cancelled one still fires.
    assert_eq!(d.handle_event(finger_h(2000, -10_000)), None);
    assert_eq!(d.handle_event(finger_h(2005, 0)), Some(SwipeDirection::Left));
}
