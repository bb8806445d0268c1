//! Per-direction swipe velocity accumulator.
//!
//! A tracker is idle until its first sample; the first sample's timestamp
//! becomes the swipe's start time, and every sample of the swipe adds its
//! magnitude to a running total.  Flushing reports the time-averaged velocity
//! of the finished swipe as an exact ratio and resets the tracker to idle.

use vstd::prelude::*;

verus! {

/// Mathematical state of a tracker: a start timestamp (`0` means idle) and
/// the accumulated magnitude of the in-progress swipe.
pub ghost struct TrackerModel {
    pub tstart: int,
    pub vtotal: int,
}

impl TrackerModel {
    /// No swipe is in progress.
    pub open spec fn is_idle(self) -> bool {
        self.tstart == 0
    }

    /// Well-formedness: an idle tracker has no accumulated magnitude, an
    /// active one has a non-zero total, and both fields fit their machine
    /// representation.
    pub open spec fn inv(self) -> bool {
        &&& self.tstart == 0 <==> self.vtotal == 0
        &&& 0 <= self.tstart <= u64::MAX
        &&& i64::MIN <= self.vtotal <= i64::MAX
    }
}

/// The idle tracker state.
pub open spec fn idle_model() -> TrackerModel {
    TrackerModel { tstart: 0, vtotal: 0 }
}

/// `i64` addition that clamps at the ends of the range instead of wrapping.
pub open spec fn sat_add_i64(a: int, b: int) -> int {
    if a + b > i64::MAX {
        i64::MAX as int
    } else if a + b < i64::MIN {
        i64::MIN as int
    } else {
        a + b
    }
}

/// Absolute value.
pub open spec fn abs_of(v: int) -> int {
    if v < 0 {
        -v
    } else {
        v
    }
}

/// State after measuring one sample: the first sample of a swipe fixes the
/// start time, and every sample adds its magnitude to the running total.
pub open spec fn measured(m: TrackerModel, t: int, v: int) -> TrackerModel {
    TrackerModel {
        tstart: if m.tstart == 0 {
            t
        } else {
            m.tstart
        },
        vtotal: sat_add_i64(m.vtotal, v),
    }
}

/// What a flush at time `t` reports: nothing when idle, otherwise the
/// accumulated magnitude over the elapsed time since the swipe started.
pub open spec fn flushed_result(m: TrackerModel, t: int) -> Option<VelocityModel> {
    if m.tstart == 0 {
        None
    } else {
        Some(VelocityModel { vtotal: m.vtotal, tdelta: t - m.tstart })
    }
}

/// Mathematical value of a reported average velocity: the exact ratio
/// `vtotal / tdelta`, kept as numerator and denominator.
pub ghost struct VelocityModel {
    pub vtotal: int,
    pub tdelta: int,
}

/// A finished swipe's time-averaged velocity, as the exact ratio of the
/// accumulated signed magnitude to the elapsed time in microseconds.
#[derive(Clone, Copy, Debug, PartialEq, Eq, Structural)]
pub struct Velocity {
    pub vtotal: i64,
    pub tdelta: u64,
}

impl View for Velocity {
    type V = VelocityModel;

    open spec fn view(&self) -> VelocityModel {
        VelocityModel { vtotal: self.vtotal as int, tdelta: self.tdelta as int }
    }
}

/// `|vtotal / tdelta| >= threshold`, stated without division so that it also
/// covers a zero elapsed time (where the ratio is unbounded and any
/// threshold is met).
pub open spec fn reaches_model(v: VelocityModel, threshold: int) -> bool {
    abs_of(v.vtotal) >= threshold * v.tdelta
}

impl Velocity {
    /// Whether the average velocity's magnitude meets `threshold`
    /// (in the same fixed-point unit per microsecond).
    pub fn reaches(&self, threshold: u64) -> (r: bool)
        ensures
            r == reaches_model(self@, threshold as int),
    {
        let magnitude: u128 = if self.vtotal >= 0 {
            self.vtotal as u128
        } else {
            (-(self.vtotal as i128)) as u128
        };
        assert(magnitude == abs_of(self.vtotal as int));
        assert((threshold as u128) * (self.tdelta as u128) <= u128::MAX) by (nonlinear_arith)
            requires
                threshold <= u64::MAX,
                self.tdelta <= u64::MAX,
        ;
        magnitude >= (threshold as u128) * (self.tdelta as u128)
    }
}

/// View of an optional reported velocity.
pub open spec fn opt_velocity_view(r: Option<Velocity>) -> Option<VelocityModel> {
    match r {
        Some(v) => Some(v@),
        None => None,
    }
}

/// Accumulates one direction's swipe samples and reports the average
/// velocity when the swipe ends.
pub struct SwipeTracking {
    /// Timestamp of the first sample of the in-progress swipe; `0` when idle.
    pub tstart: u64,
    /// Sum of the magnitudes seen since `tstart` was set.
    pub vtotal: i64,
}

impl View for SwipeTracking {
    type V = TrackerModel;

    open spec fn view(&self) -> TrackerModel {
        TrackerModel { tstart: self.tstart as int, vtotal: self.vtotal as int }
    }
}

impl SwipeTracking {
    /// A fresh, idle tracker.
    pub fn new() -> (r: SwipeTracking)
        ensures
            r@ == idle_model(),
            r@.inv(),
    {
        SwipeTracking { tstart: 0, vtotal: 0 }
    }

    /// Record one sample of the in-progress swipe.  The first sample since
    /// the last flush fixes the swipe's start time; every sample adds its
    /// magnitude to the running total (clamped at the ends of the `i64`
    /// range).  The caller routes each sample to the tracker of its own
    /// direction, so all samples of one swipe share a sign.
    pub fn measure_event(&mut self, t: u64, v: i64)
        requires
            old(self)@.inv(),
            t != 0,
            v != 0,
            old(self)@.vtotal < 0 ==> v < 0,
            old(self)@.vtotal > 0 ==> v > 0,
        ensures
            final(self)@ == measured(old(self)@, t as int, v as int),
            final(self)@.inv(),
            !final(self)@.is_idle(),
    {
        if self.tstart == 0 {
            self.tstart = t;
        }
        self.vtotal = if v > 0 && self.vtotal > i64::MAX - v {
            i64::MAX
        } else if v < 0 && self.vtotal < i64::MIN - v {
            i64::MIN
        } else {
            self.vtotal + v
        };
    }

    /// End the swipe at time `t`.  An idle tracker reports nothing; an
    /// active one reports the accumulated magnitude over the elapsed time
    /// since its first sample.  Either way the tracker is idle afterwards.
    pub fn flush(&mut self, t: u64) -> (r: Option<Velocity>)
        requires
            old(self)@.inv(),
            old(self)@.tstart <= t,
        ensures
            final(self)@ == idle_model(),
            final(self)@.inv(),
            opt_velocity_view(r) == flushed_result(old(self)@, t as int),
    {
        if self.tstart == 0 {
            return None;
        }
        let r = Velocity { vtotal: self.vtotal, tdelta: t - self.tstart };
        self.tstart = 0;
        self.vtotal = 0;
        Some(r)
    }
}

/// One measured sample: a timestamp and a signed magnitude.
pub ghost struct Sample {
    pub time: int,
    pub value: int,
}

/// Sum of the magnitudes of a sequence of samples.
pub open spec fn sample_sum(s: Seq<Sample>) -> int
    decreases s.len(),
{
    if s.len() == 0 {
        0
    } else {
        s[0].value + sample_sum(s.drop_first())
    }
}

/// State of a tracker after measuring a sequence of samples in order.
pub open spec fn run_model(m: TrackerModel, s: Seq<Sample>) -> TrackerModel
    decreases s.len(),
{
    if s.len() == 0 {
        m
    } else {
        run_model(measured(m, s[0].time, s[0].value), s.drop_first())
    }
}

/// Every sample has a magnitude of the same strict sign as `total`.
pub open spec fn same_sign_samples(s: Seq<Sample>, total: int) -> bool {
    forall|i: int|
        0 <= i < s.len() ==> {
            &&& #[trigger] s[i].value != 0
            &&& total < 0 ==> s[i].value < 0
            &&& total > 0 ==> s[i].value > 0
        }
}

proof fn lemma_sample_sum_nonpos(s: Seq<Sample>)
    requires
        forall|i: int| 0 <= i < s.len() ==> #[trigger] s[i].value < 0,
    ensures
        sample_sum(s) <= 0,
    decreases s.len(),
{
    if s.len() > 0 {
        assert(forall|i: int|
            0 <= i < s.drop_first().len() ==> #[trigger] s.drop_first()[i].value < 0);
        lemma_sample_sum_nonpos(s.drop_first());
    }
}

proof fn lemma_sample_sum_nonneg(s: Seq<Sample>)
    requires
        forall|i: int| 0 <= i < s.len() ==> #[trigger] s[i].value > 0,
    ensures
        sample_sum(s) >= 0,
    decreases s.len(),
{
    if s.len() > 0 {
        assert(forall|i: int|
            0 <= i < s.drop_first().len() ==> #[trigger] s.drop_first()[i].value > 0);
        lemma_sample_sum_nonneg(s.drop_first());
    }
}

/// Law: a sequence of same-sign samples measured on an active tracker keeps
/// the start time of the swipe's first sample and accumulates the exact sum
/// of the magnitudes, as long as that sum stays within the `i64` range.
pub proof fn lemma_run_active(m: TrackerModel, s: Seq<Sample>)
    requires
        m.inv(),
        !m.is_idle(),
        same_sign_samples(s, m.vtotal),
        i64::MIN <= m.vtotal + sample_sum(s) <= i64::MAX,
    ensures
        run_model(m, s) == (TrackerModel { tstart: m.tstart, vtotal: m.vtotal + sample_sum(s) }),
        run_model(m, s).inv(),
        !run_model(m, s).is_idle(),
    decreases s.len(),
{
    if s.len() == 0 {
        assert(run_model(m, s) == m);
        assert(m.vtotal + sample_sum(s) == m.vtotal);
    } else {
        let v0 = s[0].value;
        let rest = s.drop_first();
        assert(sample_sum(s) == v0 + sample_sum(rest));
        if m.vtotal < 0 {
            assert(forall|i: int| 0 <= i < rest.len() ==> #[trigger] rest[i].value < 0);
            lemma_sample_sum_nonpos(rest);
        } else {
            assert(forall|i: int| 0 <= i < rest.len() ==> #[trigger] rest[i].value > 0);
            lemma_sample_sum_nonneg(rest);
        }
        let m1 = measured(m, s[0].time, v0);
        assert(m1.vtotal == m.vtotal + v0);
        assert(same_sign_samples(rest, m1.vtotal));
        lemma_run_active(m1, rest);
    }
}

/// Law: measuring any non-empty, sign-uniform sequence of samples on an idle
/// tracker and then flushing at `t_end` reports exactly the sum of the
/// magnitudes over the time elapsed since the *first* sample, as long as the
/// sum stays within the `i64` range.
pub proof fn lemma_average_velocity(s: Seq<Sample>, t_end: int)
    requires
        s.len() > 0,
        forall|i: int| 0 <= i < s.len() ==> 0 < #[trigger] s[i].time <= u64::MAX,
        forall|i: int| 0 <= i < s.len() ==> i64::MIN <= #[trigger] s[i].value <= i64::MAX,
        (forall|i: int| 0 <= i < s.len() ==> #[trigger] s[i].value < 0) || (forall|i: int|
            0 <= i < s.len() ==> #[trigger] s[i].value > 0),
        i64::MIN <= sample_sum(s) <= i64::MAX,
    ensures
        flushed_result(run_model(idle_model(), s), t_end) == Some(
            VelocityModel { vtotal: sample_sum(s), tdelta: t_end - s[0].time },
        ),
{
    let v0 = s[0].value;
    let rest = s.drop_first();
    assert(sample_sum(s) == v0 + sample_sum(rest));
    let m1 = measured(idle_model(), s[0].time, v0);
    if v0 < 0 {
        assert(forall|i: int| 0 <= i < rest.len() ==> #[trigger] rest[i].value < 0);
        lemma_sample_sum_nonpos(rest);
    } else {
        assert(forall|i: int| 0 <= i < rest.len() ==> #[trigger] rest[i].value > 0);
        lemma_sample_sum_nonneg(rest);
    }
    assert(m1 == (TrackerModel { tstart: s[0].time, vtotal: v0 }));
    assert(same_sign_samples(rest, m1.vtotal));
    lemma_run_active(m1, rest);
    assert(run_model(idle_model(), s) == run_model(m1, rest));
}

/// Law: after a flush the tracker is idle, so the next measured sample
/// starts a fresh accumulation whose start time is that sample's own
/// timestamp and whose total is that sample's own magnitude.
pub proof fn lemma_fresh_after_flush(t: u64, v: i64)
    ensures
        measured(idle_model(), t as int, v as int) == (TrackerModel {
            tstart: t as int,
            vtotal: v as int,
        }),
{
}

} // verus!
