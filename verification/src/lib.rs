//! Core logic of a two-finger horizontal swipe recognizer.
//!
//! A pointer device emits axis events carrying a signed magnitude and a
//! microsecond timestamp; a zero magnitude is the device's sentinel for "the
//! gesture segment just ended".  Two [`tracking::SwipeTracking`] accumulators
//! (one per direction) measure an in-progress swipe, and the
//! [`dispatch::GestureDispatcher`] routes events, arbitrates between the two
//! directions when a swipe terminates, and applies the velocity threshold.
//!
//! Axis magnitudes and thresholds are carried as signed fixed-point integers:
//! the caller picks a scale (e.g. one millionth of an axis unit) and uses it
//! consistently for samples and for the threshold; every rule here is
//! scale-invariant.  An average velocity is reported as an exact ratio of
//! accumulated magnitude to elapsed time, so no precision is lost between a
//! swipe's termination and the threshold decision.

pub mod actions;
pub mod context;
pub mod dispatch;
pub mod event;
pub mod tracking;

pub use actions::split_action;
pub use context::BasicLibinputInterface;
pub use context::DeviceQueue;
pub use dispatch::GestureDispatcher;
pub use dispatch::SwipeDirection;
pub use event::InputEvent;
pub use event::PointerAxisEvent;
pub use tracking::SwipeTracking;
pub use tracking::Velocity;
