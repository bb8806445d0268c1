//! Typed pointer events, as the decoding layer hands them to the dispatcher.

use vstd::prelude::*;

verus! {

/// Scroll axis of a pointer axis event.
#[derive(Clone, Copy, Debug, PartialEq, Eq, Structural)]
pub enum Axis {
    Horizontal,
    Vertical,
}

/// Origin of a pointer axis event.
#[derive(Clone, Copy, Debug, PartialEq, Eq, Structural)]
pub enum AxisSource {
    /// Two-finger motion on a touch surface; the only source the swipe
    /// recognizer acts on.
    Finger,
    /// A physical scroll wheel.
    Wheel,
    /// Tilting a scroll wheel sideways.
    WheelTilt,
    /// Continuous scrolling (e.g. a trackpoint).
    Continuous,
}

/// One decoded pointer axis event.  `value` is the signed fixed-point
/// magnitude; `0` is the device's sentinel for "the gesture segment just
/// ended", not for zero motion.  `time_usec` is the device-clock timestamp
/// in microseconds, non-decreasing within one device's stream.
#[derive(Clone, Copy, Debug, PartialEq, Eq, Structural)]
pub struct PointerAxisEvent {
    pub axis: Axis,
    pub source: AxisSource,
    pub value: i64,
    pub time_usec: u64,
}

/// A decoded device event: a pointer axis event, or anything else (button,
/// motion, device lifecycle, ...), which the swipe recognizer ignores.
#[derive(Clone, Copy, Debug, PartialEq, Eq, Structural)]
pub enum InputEvent {
    PointerAxis(PointerAxisEvent),
    Other,
}

/// Whether the swipe recognizer acts on this event: a pointer axis event on
/// the horizontal axis whose source is a finger.
pub open spec fn relevant(e: InputEvent) -> bool {
    match e {
        InputEvent::PointerAxis(p) => p.axis == Axis::Horizontal && p.source == AxisSource::Finger,
        InputEvent::Other => false,
    }
}

/// The signed magnitude of a pointer axis event; `0` for other events.
pub open spec fn event_value(e: InputEvent) -> int {
    match e {
        InputEvent::PointerAxis(p) => p.value as int,
        InputEvent::Other => 0,
    }
}

/// The timestamp of a pointer axis event; `0` for other events.
pub open spec fn event_time(e: InputEvent) -> int {
    match e {
        InputEvent::PointerAxis(p) => p.time_usec as int,
        InputEvent::Other => 0,
    }
}

} // verus!
