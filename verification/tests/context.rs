use swipe_gestures::context::DeviceQueue;
use swipe_gestures::context::PollStep;
use swipe_gestures::event::Axis;
use swipe_gestures::event::AxisSource;
use swipe_gestures::event::InputEvent;
use swipe_gestures::event::PointerAxisEvent;

fn finger_h(t: u64, v: i64) -> InputEvent {
    InputEvent::PointerAxis(PointerAxisEvent {
        axis: Axis::Horizontal,
        source: AxisSource::Finger,
        value: v,
        time_usec: t,
    })
}

#[test]
fn events_come_out_in_decode_order() {
    let mut q = DeviceQueue::new();
    let a = finger_h(1, -10);
    let b = finger_h(2, -20);
    let c = finger_h(3, 0);
    q.push_decoded(a);
    q.push_decoded(b);
    q.push_decoded(c);
    assert_eq!(q.len(), 3);
    assert_eq!(q.pop_next(), a);
    assert_eq!(q.pop_next(), b);
    assert_eq!(q.pop_next(), c);
    assert_eq!(q.len(), 0);
}

#[test]
fn interleaved_pushes_keep_the_order() {
    let mut q = DeviceQueue::new();
    let a = finger_h(1, -10);
    let b = InputEvent::Other;
    let c = finger_h(3, 5);
    q.push_decoded(a);
    q.push_decoded(b);
    assert_eq!(q.pop_next(), a);
    q.push_decoded(c);
    assert_eq!(q.pop_next(), b);
    assert_eq!(q.pop_next(), c);
}

#[test]
fn next_suspends_only_while_empty() {
    let mut q = DeviceQueue::new();
    assert_eq!(q.next_step(), PollStep::Wait);
    q.push_decoded(finger_h(1, -10));
    assert_eq!(q.next_step(), PollStep::Deliver);
    q.pop_next();
    assert_eq!(q.next_step(), PollStep::Wait);
}
