//! The gesture decision loop's core: route axis events into the two
//! direction trackers and, when a swipe terminates, arbitrate between them
//! and apply the velocity threshold.
//!
//! Directions follow natural scrolling: a negative axis value (fingers
//! moving right-to-left) accumulates toward the *left* action, a positive
//! one toward the *right* action.

use vstd::prelude::*;

use crate::event::event_time;
use crate::event::event_value;
use crate::event::relevant;
use crate::event::Axis;
use crate::event::AxisSource;
use crate::event::InputEvent;
use crate::tracking::flushed_result;
use crate::tracking::idle_model;
use crate::tracking::measured;
use crate::tracking::reaches_model;
use crate::tracking::SwipeTracking;
use crate::tracking::TrackerModel;
use crate::tracking::VelocityModel;

verus! {

/// Which of the two bound actions a finished swipe selects.
#[derive(Clone, Copy, Debug, PartialEq, Eq, Structural)]
pub enum SwipeDirection {
    Left,
    Right,
}

/// Mathematical state of the dispatcher: the two trackers and the velocity
/// threshold (fixed-point units per microsecond).
pub ghost struct DispatcherModel {
    pub left: TrackerModel,
    pub right: TrackerModel,
    pub threshold: int,
}

impl DispatcherModel {
    /// Well-formedness: both trackers are well-formed, the left one only
    /// ever accumulates non-positive magnitudes and the right one only
    /// non-negative ones, and the threshold fits its machine representation.
    pub open spec fn inv(self) -> bool {
        &&& self.left.inv()
        &&& self.right.inv()
        &&& self.left.vtotal <= 0
        &&& self.right.vtotal >= 0
        &&& 0 <= self.threshold <= u64::MAX
    }
}

/// Arbitration at a swipe termination: an action fires exactly when one
/// single direction accumulated a swipe and its average velocity meets the
/// threshold.  Two active directions (ambiguous input) or none (noise only)
/// select nothing.
pub open spec fn arbitrate(
    lr: Option<VelocityModel>,
    rr: Option<VelocityModel>,
    threshold: int,
) -> Option<SwipeDirection> {
    match (lr, rr) {
        (Some(l), None) => if reaches_model(l, threshold) {
            Some(SwipeDirection::Left)
        } else {
            None
        },
        (None, Some(r)) => if reaches_model(r, threshold) {
            Some(SwipeDirection::Right)
        } else {
            None
        },
        _ => None,
    }
}

/// One step of the decision loop: what the dispatcher's state becomes and
/// which action (if any) it selects on receiving `e`.
pub open spec fn step(d: DispatcherModel, e: InputEvent) -> (DispatcherModel, Option<
    SwipeDirection,
>) {
    if !relevant(e) {
        (d, None::<SwipeDirection>)
    } else {
        let v = event_value(e);
        let t = event_time(e);
        if v < 0 {
            (
                DispatcherModel { left: measured(d.left, t, v), right: d.right, threshold: d.threshold },
                None::<SwipeDirection>,
            )
        } else if v > 0 {
            (
                DispatcherModel { left: d.left, right: measured(d.right, t, v), threshold: d.threshold },
                None::<SwipeDirection>,
            )
        } else {
            (
                DispatcherModel { left: idle_model(), right: idle_model(), threshold: d.threshold },
                arbitrate(flushed_result(d.left, t), flushed_result(d.right, t), d.threshold),
            )
        }
    }
}

/// Routes decoded events into the two direction trackers, detects swipe
/// termination, arbitrates and applies the threshold.
pub struct GestureDispatcher {
    pub left: SwipeTracking,
    pub right: SwipeTracking,
    pub threshold: u64,
}

impl View for GestureDispatcher {
    type V = DispatcherModel;

    open spec fn view(&self) -> DispatcherModel {
        DispatcherModel { left: self.left@, right: self.right@, threshold: self.threshold as int }
    }
}

impl GestureDispatcher {
    /// A dispatcher with both trackers idle and the given velocity
    /// threshold (fixed-point units per microsecond).
    pub fn new(threshold: u64) -> (r: GestureDispatcher)
        ensures
            r@ == (DispatcherModel {
                left: idle_model(),
                right: idle_model(),
                threshold: threshold as int,
            }),
            r@.inv(),
    {
        GestureDispatcher {
            left: SwipeTracking::new(),
            right: SwipeTracking::new(),
            threshold,
        }
    }

    /// Process one decoded event and report which action (if any) it
    /// selects, exactly as [`step`] describes: irrelevant events change
    /// nothing; a negative magnitude accumulates left, a positive one right;
    /// the zero sentinel flushes both trackers and arbitrates.
    ///
    /// Timestamps of relevant events must be non-zero (the device clock's
    /// zero is the idle sentinel) and non-decreasing along the stream, which
    /// the two inequalities below express against the trackers' start times.
    pub fn handle_event(&mut self, e: InputEvent) -> (r: Option<SwipeDirection>)
        requires
            old(self)@.inv(),
            relevant(e) ==> {
                &&& event_time(e) != 0
                &&& old(self)@.left.tstart <= event_time(e)
                &&& old(self)@.right.tstart <= event_time(e)
            },
        ensures
            final(self)@ == step(old(self)@, e).0,
            r == step(old(self)@, e).1,
            final(self)@.inv(),
            !relevant(e) ==> final(self)@ == old(self)@ && r is None,
    {
        match e {
            InputEvent::PointerAxis(p) => {
                if p.axis == Axis::Horizontal && p.source == AxisSource::Finger {
                    if p.value < 0 {
                        self.left.measure_event(p.time_usec, p.value);
                        None
                    } else if p.value > 0 {
                        self.right.measure_event(p.time_usec, p.value);
                        None
                    } else {
                        let lr = self.left.flush(p.time_usec);
                        let rr = self.right.flush(p.time_usec);
                        match (lr, rr) {
                            (Some(l), None) => if l.reaches(self.threshold) {
                                Some(SwipeDirection::Left)
                            } else {
                                None
                            },
                            (None, Some(r)) => if r.reaches(self.threshold) {
                                Some(SwipeDirection::Right)
                            } else {
                                None
                            },
                            _ => None,
                        }
                    }
                } else {
                    None
                }
            },
            InputEvent::Other => None,
        }
    }
}

/// Law: at a termination event an action is selected exactly when one
/// single direction reports a velocity and that velocity's magnitude meets
/// the threshold; and the selected direction is the reporting one.
pub proof fn lemma_arbitration(lr: Option<VelocityModel>, rr: Option<VelocityModel>, threshold: int)
    ensures
        arbitrate(lr, rr, threshold) == Some(SwipeDirection::Left) <==> (lr matches Some(l)
            && rr is None && reaches_model(l, threshold)),
        arbitrate(lr, rr, threshold) == Some(SwipeDirection::Right) <==> (rr matches Some(r)
            && lr is None && reaches_model(r, threshold)),
        arbitrate(lr, rr, threshold) is Some <==> ((lr is Some) != (rr is Some)) && (match (
            lr,
            rr,
        ) {
            (Some(l), None) => reaches_model(l, threshold),
            (None, Some(r)) => reaches_model(r, threshold),
            _ => false,
        }),
{
}

/// Sum of the magnitudes of a sequence of events.
pub open spec fn event_sum(s: Seq<InputEvent>) -> int
    decreases s.len(),
{
    if s.len() == 0 {
        0
    } else {
        event_value(s[0]) + event_sum(s.drop_first())
    }
}

/// Dispatcher state after processing a sequence of events in order.
pub open spec fn dispatch_run(d: DispatcherModel, s: Seq<InputEvent>) -> DispatcherModel
    decreases s.len(),
{
    if s.len() == 0 {
        d
    } else {
        dispatch_run(step(d, s[0]).0, s.drop_first())
    }
}

proof fn lemma_event_sum_nonpos(s: Seq<InputEvent>)
    requires
        forall|i: int| 0 <= i < s.len() ==> event_value(#[trigger] s[i]) < 0,
    ensures
        event_sum(s) <= 0,
    decreases s.len(),
{
    if s.len() > 0 {
        assert(forall|i: int|
            0 <= i < s.drop_first().len() ==> event_value(#[trigger] s.drop_first()[i]) < 0);
        lemma_event_sum_nonpos(s.drop_first());
    }
}

proof fn lemma_event_sum_nonneg(s: Seq<InputEvent>)
    requires
        forall|i: int| 0 <= i < s.len() ==> event_value(#[trigger] s[i]) > 0,
    ensures
        event_sum(s) >= 0,
    decreases s.len(),
{
    if s.len() > 0 {
        assert(forall|i: int|
            0 <= i < s.drop_first().len() ==> event_value(#[trigger] s.drop_first()[i]) > 0);
        lemma_event_sum_nonneg(s.drop_first());
    }
}

proof fn lemma_dispatch_run_left(d: DispatcherModel, s: Seq<InputEvent>)
    requires
        d.inv(),
        !d.left.is_idle(),
        forall|i: int| relevant(#[trigger] s[i]) && event_value(s[i]) < 0 || !(0 <= i < s.len()),
        i64::MIN <= d.left.vtotal + event_sum(s),
    ensures
        dispatch_run(d, s) == (DispatcherModel {
            left: TrackerModel { tstart: d.left.tstart, vtotal: d.left.vtotal + event_sum(s) },
            right: d.right,
            threshold: d.threshold,
        }),
        dispatch_run(d, s).inv(),
    decreases s.len(),
{
    if s.len() == 0 {
        assert(d == (DispatcherModel {
            left: TrackerModel { tstart: d.left.tstart, vtotal: d.left.vtotal },
            right: d.right,
            threshold: d.threshold,
        }));
    } else {
        let e0 = s[0];
        let rest = s.drop_first();
        assert(relevant(e0) && event_value(e0) < 0);
        assert(forall|i: int|
            relevant(#[trigger] rest[i]) && event_value(rest[i]) < 0 || !(0 <= i < rest.len()));
        lemma_event_sum_nonpos(rest);
        assert(event_sum(s) == event_value(e0) + event_sum(rest));
        let d1 = step(d, e0).0;
        assert(d1.left == measured(d.left, event_time(e0), event_value(e0)));
        assert(d1.left.vtotal == d.left.vtotal + event_value(e0));
        lemma_dispatch_run_left(d1, rest);
    }
}

proof fn lemma_dispatch_run_right(d: DispatcherModel, s: Seq<InputEvent>)
    requires
        d.inv(),
        !d.right.is_idle(),
        forall|i: int| relevant(#[trigger] s[i]) && event_value(s[i]) > 0 || !(0 <= i < s.len()),
        d.right.vtotal + event_sum(s) <= i64::MAX,
    ensures
        dispatch_run(d, s) == (DispatcherModel {
            left: d.left,
            right: TrackerModel { tstart: d.right.tstart, vtotal: d.right.vtotal + event_sum(s) },
            threshold: d.threshold,
        }),
        dispatch_run(d, s).inv(),
    decreases s.len(),
{
    if s.len() == 0 {
        assert(d == (DispatcherModel {
            left: d.left,
            right: TrackerModel { tstart: d.right.tstart, vtotal: d.right.vtotal },
            threshold: d.threshold,
        }));
    } else {
        let e0 = s[0];
        let rest = s.drop_first();
        assert(relevant(e0) && event_value(e0) > 0);
        assert(forall|i: int|
            relevant(#[trigger] rest[i]) && event_value(rest[i]) > 0 || !(0 <= i < rest.len()));
        lemma_event_sum_nonneg(rest);
        assert(event_sum(s) == event_value(e0) + event_sum(rest));
        let d1 = step(d, e0).0;
        assert(d1.right == measured(d.right, event_time(e0), event_value(e0)));
        assert(d1.right.vtotal == d.right.vtotal + event_value(e0));
        lemma_dispatch_run_right(d1, rest);
    }
}

/// Law (natural-scrolling inversion, leftward): from an idle dispatcher, a
/// sustained sequence of finger-source horizontal events with negative
/// magnitudes, terminated by the zero sentinel, selects the *left* action
/// exactly when the average velocity's magnitude meets the threshold — and
/// leaves the dispatcher idle again.
pub proof fn lemma_natural_scroll_left(
    d: DispatcherModel,
    moves: Seq<InputEvent>,
    end: InputEvent,
)
    requires
        d.inv(),
        d.left == idle_model(),
        d.right == idle_model(),
        moves.len() > 0,
        forall|i: int|
            0 <= i < moves.len() ==> {
                &&& relevant(#[trigger] moves[i])
                &&& event_value(moves[i]) < 0
                &&& event_time(moves[i]) != 0
            },
        i64::MIN <= event_sum(moves),
        relevant(end),
        event_value(end) == 0,
    ensures
        step(dispatch_run(d, moves), end).1 == (if reaches_model(
            VelocityModel {
                vtotal: event_sum(moves),
                tdelta: event_time(end) - event_time(moves[0]),
            },
            d.threshold,
        ) {
            Some(SwipeDirection::Left)
        } else {
            None::<SwipeDirection>
        }),
        step(dispatch_run(d, moves), end).0 == (DispatcherModel {
            left: idle_model(),
            right: idle_model(),
            threshold: d.threshold,
        }),
{
    let e0 = moves[0];
    let rest = moves.drop_first();
    let d1 = step(d, e0).0;
    assert(d1.left == (TrackerModel { tstart: event_time(e0), vtotal: event_value(e0) }));
    assert(forall|i: int|
        relevant(#[trigger] rest[i]) && event_value(rest[i]) < 0 || !(0 <= i < rest.len()));
    assert(event_sum(moves) == event_value(e0) + event_sum(rest));
    lemma_dispatch_run_left(d1, rest);
    assert(dispatch_run(d, moves) == dispatch_run(d1, rest));
}

/// Law (natural-scrolling inversion, rightward): the positive-magnitude
/// counterpart of [`lemma_natural_scroll_left`] selects the *right* action.
pub proof fn lemma_natural_scroll_right(
    d: DispatcherModel,
    moves: Seq<InputEvent>,
    end: InputEvent,
)
    requires
        d.inv(),
        d.left == idle_model(),
        d.right == idle_model(),
        moves.len() > 0,
        forall|i: int|
            0 <= i < moves.len() ==> {
                &&& relevant(#[trigger] moves[i])
                &&& event_value(moves[i]) > 0
                &&& event_time(moves[i]) != 0
            },
        event_sum(moves) <= i64::MAX,
        relevant(end),
        event_value(end) == 0,
    ensures
        step(dispatch_run(d, moves), end).1 == (if reaches_model(
            VelocityModel {
                vtotal: event_sum(moves),
                tdelta: event_time(end) - event_time(moves[0]),
            },
            d.threshold,
        ) {
            Some(SwipeDirection::Right)
        } else {
            None::<SwipeDirection>
        }),
        step(dispatch_run(d, moves), end).0 == (DispatcherModel {
            left: idle_model(),
            right: idle_model(),
            threshold: d.threshold,
        }),
{
    let e0 = moves[0];
    let rest = moves.drop_first();
    let d1 = step(d, e0).0;
    assert(d1.right == (TrackerModel { tstart: event_time(e0), vtotal: event_value(e0) }));
    assert(forall|i: int|
        relevant(#[trigger] rest[i]) && event_value(rest[i]) > 0 || !(0 <= i < rest.len()));
    assert(event_sum(moves) == event_value(e0) + event_sum(rest));
    lemma_dispatch_run_right(d1, rest);
    assert(dispatch_run(d, moves) == dispatch_run(d1, rest));
}

} // verus!
