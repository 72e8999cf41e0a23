//! Keyframe timelines and the animator that plays them.
//!
//! Time is counted in whole nanoseconds. An [`Animator`] is a small state
//! machine (not started, running forwards or backwards, stopped); it turns
//! the clock into a [`Playback`]. An [`Animated`] timeline turns a playback
//! into a [`Sample`]: which keyframe holds, or which two keyframes are
//! blended and how far along. Blending the values themselves is floating
//! point work and is left to the caller.

use crate::time::{duration_as_nanos, instant_elapsed, instant_now, DURATION_MAX_NANOS};
use crate::sync::share;
use std::sync::{Arc, RwLock};
use std::time::Instant;
use vstd::cell::invcell::InvCell;
use vstd::predicate::Predicate;
use vstd::prelude::*;

verus! {

/// The easing applied between two keyframes.
#[derive(Debug, Clone, Copy, PartialEq, Eq, Structural)]
pub enum AnimationCurve {
    Instant,
    /// y = x
    Linear,
    /// - 2*x^3 + 3*x^2
    Poly,
    /// 1/2 + sin(pi*(x-1/2))/2
    Sine,
    /// y = 1/e * x*e^x
    Exponential,
}

impl Default for AnimationCurve {
    fn default() -> (r: Self)
        ensures
            r == AnimationCurve::Linear,
    {
        AnimationCurve::Linear
    }
}

/// What a timeline does once its last keyframe has passed.
#[derive(Debug, Clone, Copy, PartialEq, Eq, Structural)]
pub enum AnimationRepeat {
    /// Stop at the end, on the last keyframe
    StopReset,
    /// Stop at the end, on the last keyframe, and play backwards from then
    /// on
    StopInvert,
    /// Start over from the beginning, and continue
    ContinueReset,
    /// Play backwards to the beginning, then forwards again, and continue
    ContinueInvert,
}

impl Default for AnimationRepeat {
    fn default() -> (r: Self)
        ensures
            r == AnimationRepeat::StopReset,
    {
        AnimationRepeat::StopReset
    }
}

/// The state of an [`Animator`]. Running states hold the clock reading at
/// which they started, stopped states the time that had elapsed when they
/// were stopped.
#[derive(Debug, Clone, Copy, PartialEq, Eq, Structural)]
pub enum State {
    NotStarted,
    Running(u128),
    RunningReverse(u128),
    Stopped(u128),
    StoppedReverse(u128),
}

/// How far into its timeline an animation is.
#[derive(Debug, Clone, Copy, PartialEq, Eq, Structural)]
pub enum Playback {
    /// Not started: the initial value holds.
    Idle,
    /// This much time has been played forwards.
    Forward(u128),
    /// This much time has been played backwards from the end.
    Backward(u128),
}

/// `a - b`, or zero where `b` is the larger.
pub open spec fn saturating_diff(a: int, b: int) -> int {
    if a >= b {
        a - b
    } else {
        0
    }
}

/// `trigger`: start running forwards, unless already running forwards.
pub open spec fn triggered(s: State, now: u128) -> State {
    match s {
        State::Running(_) => s,
        _ => State::Running(now),
    }
}

/// `trigger_rev`: start running backwards, unless already doing so.
pub open spec fn triggered_rev(s: State, now: u128) -> State {
    match s {
        State::RunningReverse(_) => s,
        _ => State::RunningReverse(now),
    }
}

/// `stop`: freeze a running animator where it is.
pub open spec fn stopped(s: State, now: u128) -> State {
    match s {
        State::Running(start) => State::Stopped(saturating_diff(now as int, start as int) as u128),
        State::RunningReverse(start) => State::StoppedReverse(
            saturating_diff(now as int, start as int) as u128,
        ),
        _ => s,
    }
}

/// The playback that state `s` gives when the clock reads `now`.
pub open spec fn playback_of(s: State, now: u128) -> Playback {
    match s {
        State::NotStarted => Playback::Idle,
        State::Running(start) => Playback::Forward(saturating_diff(now as int, start as int) as u128),
        State::RunningReverse(start) => Playback::Backward(
            saturating_diff(now as int, start as int) as u128,
        ),
        State::Stopped(elapsed) => Playback::Forward(elapsed),
        State::StoppedReverse(elapsed) => Playback::Backward(elapsed),
    }
}

impl State {
    /// Starts running forwards at `now`, or keeps running.
    pub fn trigger(self, now: u128) -> (r: State)
        ensures
            r == triggered(self, now),
    {
        match self {
            State::Running(_) => self,
            _ => State::Running(now),
        }
    }

    /// Starts running backwards at `now`, or keeps running backwards.
    pub fn trigger_rev(self, now: u128) -> (r: State)
        ensures
            r == triggered_rev(self, now),
    {
        match self {
            State::RunningReverse(_) => self,
            _ => State::RunningReverse(now),
        }
    }

    /// Stops at `now`, keeping the time played so far.
    pub fn stop(self, now: u128) -> (r: State)
        ensures
            r == stopped(self, now),
    {
        match self {
            State::Running(start) => State::Stopped(now.saturating_sub(start)),
            State::RunningReverse(start) => State::StoppedReverse(now.saturating_sub(start)),
            _ => self,
        }
    }

    /// The playback of this state when the clock reads `now`.
    pub fn playback(self, now: u128) -> (r: Playback)
        ensures
            r == playback_of(self, now),
    {
        match self {
            State::NotStarted => Playback::Idle,
            State::Running(start) => Playback::Forward(now.saturating_sub(start)),
            State::RunningReverse(start) => Playback::Backward(now.saturating_sub(start)),
            State::Stopped(elapsed) => Playback::Forward(elapsed),
            State::StoppedReverse(elapsed) => Playback::Backward(elapsed),
        }
    }
}

/// Drives any number of timelines: they all read their playback from it.
#[derive(Debug)]
pub struct Animator {
    anchor: Instant,
    state: State,
}

impl View for Animator {
    type V = State;

    closed spec fn view(&self) -> State {
        self.state
    }
}

impl Animator {
    /// A new animator that has not started.
    pub fn new() -> (r: Self)
        ensures
            r@ == State::NotStarted,
    {
        Animator { anchor: instant_now(), state: State::NotStarted }
    }

    /// The clock, in nanoseconds since this animator was made.
    pub fn now(&self) -> (r: u128)
        ensures
            r <= DURATION_MAX_NANOS,
    {
        let elapsed = instant_elapsed(&self.anchor);
        duration_as_nanos(&elapsed)
    }

    /// triggers the animator or keeps it running
    pub fn trigger(&mut self)
        ensures
            exists|now: u128| final(self)@ == #[trigger] triggered(old(self)@, now),
            final(self)@ is Running,
    {
        let now = self.now();
        self.state = self.state.trigger(now);
        assert(self@ == triggered(old(self)@, now));
    }

    /// triggers or resets the animator
    pub fn re_trigger(&mut self)
        ensures
            final(self)@ is Running,
    {
        let now = self.now();
        self.state = State::Running(now);
    }

    /// triggers the animator or keeps it running
    pub fn trigger_rev(&mut self)
        ensures
            exists|now: u128| final(self)@ == #[trigger] triggered_rev(old(self)@, now),
            final(self)@ is RunningReverse,
    {
        let now = self.now();
        self.state = self.state.trigger_rev(now);
        assert(self@ == triggered_rev(old(self)@, now));
    }

    /// triggers or resets the animator
    pub fn re_trigger_rev(&mut self)
        ensures
            final(self)@ is RunningReverse,
    {
        let now = self.now();
        self.state = State::RunningReverse(now);
    }

    /// stops the animator
    pub fn stop(&mut self)
        ensures
            exists|now: u128| final(self)@ == #[trigger] stopped(old(self)@, now),
    {
        let now = self.now();
        self.state = self.state.stop(now);
        assert(self@ == stopped(old(self)@, now));
    }

    /// stops and resets the animator
    pub fn reset(&mut self)
        ensures
            final(self)@ == State::NotStarted,
    {
        self.state = State::NotStarted;
    }

    /// How far the animations driven by this animator are, now.
    pub fn playback(&self) -> (r: Playback)
        ensures
            exists|now: u128| r == #[trigger] playback_of(self@, now),
    {
        let now = self.now();
        let r = self.state.playback(now);
        assert(r == playback_of(self@, now));
        r
    }
}

/// Which value a timeline shows at some time.
#[derive(Debug, Clone, Copy, PartialEq, Eq, Structural)]
pub enum Sample {
    /// The initial value.
    Init,
    /// The value of this keyframe.
    Frame(usize),
    /// A blend from `from` (the initial value where `None`) towards keyframe
    /// `to`, eased by `curve`, `elapsed` nanoseconds into a span of `span`.
    Blend { from: Option<usize>, to: usize, curve: AnimationCurve, elapsed: u128, span: u128 },
}

/// Keyframe times never decrease, and the last fits in a `Duration`.
pub open spec fn keyframes_sorted<T>(kf: Seq<(u128, AnimationCurve, T)>) -> bool {
    &&& forall|i: int, j: int| 0 <= i <= j < kf.len() ==> kf[i].0 <= kf[j].0
    &&& kf.len() > 0 ==> kf[kf.len() - 1].0 <= DURATION_MAX_NANOS
}

/// The time of the last keyframe, zero where there is none.
pub open spec fn end_time<T>(kf: Seq<(u128, AnimationCurve, T)>) -> int {
    if kf.len() == 0 {
        0
    } else {
        kf[kf.len() - 1].0 as int
    }
}

/// The time from each keyframe's predecessor (the start, for the first)
/// to the keyframe: the durations the keyframes were added with.
pub open spec fn gaps<T>(kf: Seq<(u128, AnimationCurve, T)>) -> Seq<int> {
    Seq::new(kf.len(), |i: int| kf[i].0 - (if i == 0 { 0 } else { kf[i - 1].0 as int }))
}

/// The sum of `s`.
pub open spec fn sum(s: Seq<int>) -> int
    decreases s.len(),
{
    if s.len() == 0 {
        0
    } else {
        sum(s.drop_last()) + s.last()
    }
}

/// Whether a timeline that repeats as `repeat` has come to rest at `tp`.
pub open spec fn stops_at(repeat: AnimationRepeat, total: int, tp: int) -> bool {
    tp >= total && (repeat is StopReset || repeat is StopInvert)
}

/// Where in one pass a time point `tp` falls, for a looping timeline.
pub open spec fn looped_time(repeat: AnimationRepeat, total: int, tp: int) -> int {
    if tp >= total {
        match repeat {
            AnimationRepeat::ContinueReset => tp % total,
            AnimationRepeat::ContinueInvert => {
                let m = tp % (2 * total);
                if m >= total {
                    2 * total - m
                } else {
                    m
                }
            },
            _ => tp,
        }
    } else {
        tp
    }
}

/// The time looked up in the keyframes, after looping and inversion.
pub open spec fn effective_time(
    repeat: AnimationRepeat,
    total: int,
    tp: int,
    inverted: bool,
) -> int {
    let t = looped_time(repeat, total, tp);
    if inverted {
        total - t
    } else {
        t
    }
}

/// A looping timeline of zero length cannot be played.
pub open spec fn playable(repeat: AnimationRepeat, total: int) -> bool {
    (repeat is ContinueReset || repeat is ContinueInvert) ==> total > 0
}

/// The values the direction flag of a timeline may hold: `true` only where
/// the timeline may have been turned around.
pub struct FlagBound {
    pub may_invert: bool,
}

impl Predicate<bool> for FlagBound {
    open spec fn predicate(&self, v: bool) -> bool {
        v ==> self.may_invert
    }
}

/// A value that moves through keyframes as its animator plays.
pub struct Animated<T> {
    init: T,
    frames: Vec<(u128, AnimationCurve, T)>,
    repeat: AnimationRepeat,
    animator: Arc<RwLock<Animator>>,
    inverted: InvCell<bool, FlagBound>,
}

impl<T> Animated<T> {
    /// The value before the first keyframe.
    pub closed spec fn initial(&self) -> T {
        self.init
    }

    /// The keyframes: the time each is reached, its curve, its value.
    pub closed spec fn keyframes(&self) -> Seq<(u128, AnimationCurve, T)> {
        self.frames@
    }

    /// What happens after the last keyframe.
    pub closed spec fn repeat_mode(&self) -> AnimationRepeat {
        self.repeat
    }

    /// The animator the timeline plays by.
    pub closed spec fn animator_handle(&self) -> Arc<RwLock<Animator>> {
        self.animator
    }

    /// Whether the direction flag may have been set: only a timeline that
    /// has been given the `StopInvert` mode can be turned around.
    pub closed spec fn may_invert(&self) -> bool {
        self.inverted.predicate().may_invert
    }

    #[verifier::type_invariant]
    closed spec fn flag_allowed(self) -> bool {
        self.repeat is StopInvert ==> self.inverted.predicate().may_invert
    }

    pub open spec fn wf(&self) -> bool {
        keyframes_sorted(self.keyframes())
    }

    /// The length of the timeline.
    pub open spec fn total(&self) -> int {
        end_time(self.keyframes())
    }

    /// The sample that shows the last value.
    pub open spec fn last_sample(&self) -> Sample {
        if self.keyframes().len() == 0 {
            Sample::Init
        } else {
            Sample::Frame((self.keyframes().len() - 1) as usize)
        }
    }

    /// `s` is what the keyframes show at time `t`: the first keyframe
    /// reached exactly then, else a blend between the keyframes around `t`.
    pub open spec fn is_sample_of(&self, t: int, s: Sample) -> bool {
        let kf = self.keyframes();
        let n = kf.len();
        match s {
            Sample::Init => false,
            Sample::Frame(v) => {
                &&& v < n
                &&& kf[v as int].0 == t
                &&& forall|i: int| 0 <= i < v ==> kf[i].0 < t
            },
            Sample::Blend { from, to, curve, elapsed, span } => {
                let m: int = match from {
                    None => 0,
                    Some(k) => k + 1,
                };
                let left: int = match from {
                    None => 0,
                    Some(k) => kf[k as int].0 as int,
                };
                &&& 0 < n
                &&& m <= n
                &&& forall|i: int| 0 <= i < m ==> kf[i].0 < t
                &&& forall|i: int| m <= i < n ==> kf[i].0 > t
                &&& to == (if m < n {
                    m
                } else {
                    n - 1
                })
                &&& curve == kf[to as int].1
                &&& elapsed == t - left
                &&& span == kf[to as int].0 - left
            },
        }
    }

    /// What the timeline shows at time point `tp`, with the direction flag
    /// `inverted`, and the flag afterwards.
    pub open spec fn sampled_at(&self, tp: int, inverted: bool, s: Sample, inverted_after: bool) -> bool {
        if stops_at(self.repeat_mode(), self.total(), tp) {
            &&& s == self.last_sample()
            &&& inverted_after == (inverted || self.repeat_mode() is StopInvert)
        } else {
            &&& inverted_after == inverted
            &&& self.is_sample_of(effective_time(self.repeat_mode(), self.total(), tp, inverted), s)
        }
    }

    /// What the timeline shows for `playback`.
    pub open spec fn sampled(&self, playback: Playback, inverted: bool, s: Sample, inverted_after: bool) -> bool {
        match playback {
            Playback::Idle => s == Sample::Init && inverted_after == inverted,
            Playback::Forward(tp) => self.sampled_at(tp as int, inverted, s, inverted_after),
            Playback::Backward(tp) => self.sampled_at(
                saturating_diff(self.total(), tp as int),
                inverted,
                s,
                inverted_after,
            ),
        }
    }

    /// A timeline that holds `init` until keyframes are added, played by
    /// `animator`.
    pub fn new(init: T, animator: Arc<RwLock<Animator>>) -> (r: Self)
        ensures
            r.wf(),
            r.initial() == init,
            r.animator_handle() == animator,
            r.keyframes() == Seq::<(u128, AnimationCurve, T)>::empty(),
            r.repeat_mode() == AnimationRepeat::StopReset,
            !r.may_invert(),
    {
        Animated {
            init,
            frames: Vec::new(),
            repeat: AnimationRepeat::StopReset,
            animator,
            inverted: InvCell::new(false, Ghost(FlagBound { may_invert: false })),
        }
    }

    /// Adds a keyframe `duration` nanoseconds after the current end.
    pub fn then(self, duration: u128, curve: AnimationCurve, content: T) -> (r: Self)
        requires
            self.wf(),
            self.total() + duration <= DURATION_MAX_NANOS,
        ensures
            r.wf(),
            r.initial() == self.initial(),
            r.repeat_mode() == self.repeat_mode(),
            r.animator_handle() == self.animator_handle(),
            r.keyframes() == self.keyframes().push(((self.total() + duration) as u128, curve, content)),
            r.total() == self.total() + duration,
            gaps(r.keyframes()) == gaps(self.keyframes()).push(duration as int),
            r.may_invert() == self.may_invert(),
    {
        proof {
            use_type_invariant(&self);
        }
        let time_before = self.total_time();
        let Animated { init, mut frames, repeat, animator, inverted } = self;
        frames.push((time_before + duration, curve, content));
        let s = Animated { init, frames, repeat, animator, inverted };
        assert(gaps(s.keyframes()) =~= gaps(self.keyframes()).push(duration as int));
        s
    }

    /// Sets what happens after the last keyframe.
    pub fn repeat(self, repeat: AnimationRepeat) -> (r: Self)
        ensures
            r.initial() == self.initial(),
            r.keyframes() == self.keyframes(),
            r.repeat_mode() == repeat,
            r.animator_handle() == self.animator_handle(),
            r.may_invert() == (self.may_invert() || repeat is StopInvert),
    {
        let Animated { init, frames, repeat: _, animator, inverted } = self;
        let ghost bound = FlagBound { may_invert: self.may_invert() || repeat is StopInvert };
        let flag = inverted.into_inner();
        Animated { init, frames, repeat, animator, inverted: InvCell::new(flag, Ghost(bound)) }
    }

    /// The value before the first keyframe.
    pub fn initial_value(&self) -> (r: &T)
        ensures
            *r == self.initial(),
    {
        &self.init
    }

    /// The number of keyframes.
    pub fn frame_count(&self) -> (r: usize)
        ensures
            r == self.keyframes().len(),
    {
        self.frames.len()
    }

    /// The value of keyframe `index`.
    pub fn frame_value(&self, index: usize) -> (r: &T)
        requires
            index < self.keyframes().len(),
        ensures
            *r == self.keyframes()[index as int].2,
    {
        &self.frames[index].2
    }

    /// What happens after the last keyframe.
    pub fn get_repeat(&self) -> (r: AnimationRepeat)
        ensures
            r == self.repeat_mode(),
    {
        self.repeat
    }

    /// Whether the timeline can be played: a looping one must have length.
    pub fn is_playable(&self) -> (r: bool)
        ensures
            r == playable(self.repeat_mode(), self.total()),
    {
        match self.repeat {
            AnimationRepeat::ContinueReset | AnimationRepeat::ContinueInvert => self.total_time() > 0,
            _ => true,
        }
    }

    /// The animator the timeline plays by.
    pub fn animator(&self) -> (r: &Arc<RwLock<Animator>>)
        ensures
            *r == self.animator_handle(),
    {
        &self.animator
    }

    /// The time of the last keyframe.
    pub fn total_time(&self) -> (r: u128)
        ensures
            r == self.total(),
    {
        let n = self.frames.len();
        if n == 0 {
            0
        } else {
            self.frames[n - 1].0
        }
    }

    /// The sample that shows the last value: the last keyframe, or the
    /// initial value where there is none.
    pub fn last(&self) -> (r: Sample)
        ensures
            r == self.last_sample(),
    {
        let n = self.frames.len();
        if n == 0 {
            Sample::Init
        } else {
            Sample::Frame(n - 1)
        }
    }

    /// Finds the first keyframe reached exactly at `t`, or else the number
    /// of keyframes reached before `t`.
    fn search(&self, t: u128) -> (r: Result<usize, usize>)
        requires
            self.wf(),
        ensures
            match r {
                Ok(v) => {
                    &&& v < self.keyframes().len()
                    &&& self.keyframes()[v as int].0 == t
                    &&& forall|i: int| 0 <= i < v ==> self.keyframes()[i].0 < t
                },
                Err(m) => {
                    &&& m <= self.keyframes().len()
                    &&& forall|i: int| 0 <= i < m ==> self.keyframes()[i].0 < t
                    &&& forall|i: int| m <= i < self.keyframes().len() ==> self.keyframes()[i].0 > t
                },
            },
    {
        let ghost kf = self.frames@;
        let mut lo: usize = 0;
        let mut hi: usize = self.frames.len();
        while lo < hi
            invariant
                kf == self.frames@,
                keyframes_sorted(kf),
                lo <= hi <= kf.len(),
                forall|i: int| 0 <= i < lo ==> kf[i].0 < t,
                forall|i: int| hi <= i < kf.len() ==> kf[i].0 >= t,
            decreases hi - lo,
        {
            let mid = lo + (hi - lo) / 2;
            if self.frames[mid].0 < t {
                assert forall|i: int| 0 <= i < mid + 1 implies kf[i].0 < t by {
                    assert(kf[i].0 <= kf[mid as int].0);
                }
                lo = mid + 1;
            } else {
                assert forall|i: int| mid <= i < kf.len() implies kf[i].0 >= t by {
                    assert(kf[mid as int].0 <= kf[i].0);
                }
                hi = mid;
            }
        }
        if lo < self.frames.len() && self.frames[lo].0 == t {
            Ok(lo)
        } else {
            assert forall|i: int| lo <= i < kf.len() implies kf[i].0 > t by {
                assert(kf[lo as int].0 <= kf[i].0);
            }
            Err(lo)
        }
    }

    /// What the keyframes show at `t`, a time within the timeline.
    fn at_time(&self, t: u128) -> (r: Sample)
        requires
            self.wf(),
            t <= self.total(),
            self.keyframes().len() > 0,
        ensures
            self.is_sample_of(t as int, r),
    {
        let n = self.frames.len();
        match self.search(t) {
            Ok(v) => Sample::Frame(v),
            Err(m) => {
                let from: Option<usize> = if m == 0 {
                    None
                } else {
                    Some(m - 1)
                };
                let left: u128 = if m == 0 {
                    0
                } else {
                    self.frames[m - 1].0
                };
                let to: usize = if m < n {
                    m
                } else {
                    n - 1
                };
                let right = self.frames[to].0;
                proof {
                    assert(self.frames@[to as int].0 >= left);
                }
                Sample::Blend {
                    from,
                    to,
                    curve: self.frames[to].1,
                    elapsed: t - left,
                    span: right - left,
                }
            },
        }
    }

    /// What the timeline shows at time point `tp` when the direction flag
    /// holds `inverted`, and what the flag holds afterwards.
    pub fn sample_at(&self, tp: u128, inverted: bool) -> (r: (Sample, bool))
        requires
            self.wf(),
            playable(self.repeat_mode(), self.total()),
        ensures
            self.sampled_at(tp as int, inverted, r.0, r.1),
    {
        let total = self.total_time();
        let mut t = tp;
        if t >= total {
            match self.repeat {
                AnimationRepeat::StopReset => {
                    return (self.last(), inverted);
                },
                AnimationRepeat::StopInvert => {
                    return (self.last(), true);
                },
                AnimationRepeat::ContinueReset => {
                    t = t % total;
                },
                AnimationRepeat::ContinueInvert => {
                    let m = t % (2 * total);
                    t = if m >= total {
                        2 * total - m
                    } else {
                        m
                    };
                },
            }
        }
        assert(t == looped_time(self.repeat, total as int, tp as int));
        if inverted {
            t = total - t;
        }
        (self.at_time(t), inverted)
    }

    /// What the timeline shows for `playback`, with the direction flag
    /// `inverted`, and what the flag holds afterwards.
    pub fn sample_with(&self, playback: Playback, inverted: bool) -> (r: (Sample, bool))
        requires
            self.wf(),
            playable(self.repeat_mode(), self.total()),
        ensures
            self.sampled(playback, inverted, r.0, r.1),
    {
        match playback {
            Playback::Idle => (Sample::Init, inverted),
            Playback::Forward(tp) => self.sample_at(tp, inverted),
            Playback::Backward(tp) => {
                let total = self.total_time();
                self.sample_at(total.saturating_sub(tp), inverted)
            },
        }
    }

    /// What the timeline shows for `playback`, read with the direction flag
    /// the timeline holds, which is stored back as the sampling leaves it. A
    /// timeline that repeats with `StopInvert` runs backwards for good once
    /// it has come to its end; one that was never given that mode always
    /// runs forwards.
    pub fn sample(&self, playback: Playback) -> (r: Sample)
        requires
            self.wf(),
            playable(self.repeat_mode(), self.total()),
        ensures
            exists|inverted: bool, after: bool|
                (inverted ==> self.may_invert()) && #[trigger] self.sampled(playback, inverted, r, after),
            !self.may_invert() ==> exists|after: bool| #[trigger] self.sampled(playback, false, r, after),
    {
        proof {
            use_type_invariant(self);
        }
        let inverted = self.inverted.get();
        let (s, after) = self.sample_with(playback, inverted);
        if after != inverted {
            self.inverted.set(after);
        }
        s
    }
}

impl<T: Clone> Clone for Animated<T> {
    /// Copies the timeline, its repeat mode and its direction flag as it
    /// reads now; each value is cloned.
    fn clone(&self) -> (r: Self)
        ensures
            self.wf() ==> r.wf(),
            cloned::<T>(self.initial(), r.initial()),
            r.repeat_mode() == self.repeat_mode(),
            r.animator_handle() == self.animator_handle(),
            r.may_invert() == self.may_invert(),
            r.keyframes().len() == self.keyframes().len(),
            forall|i: int|
                #![trigger r.keyframes()[i]]
                0 <= i < r.keyframes().len() ==> {
                    &&& r.keyframes()[i].0 == self.keyframes()[i].0
                    &&& r.keyframes()[i].1 == self.keyframes()[i].1
                    &&& cloned::<T>(self.keyframes()[i].2, r.keyframes()[i].2)
                },
    {
        let mut frames: Vec<(u128, AnimationCurve, T)> = Vec::new();
        let n = self.frames.len();
        for k in 0..n
            invariant
                n == self.frames@.len(),
                frames@.len() == k,
                forall|i: int|
                    #![trigger frames@[i]]
                    0 <= i < k ==> {
                        &&& frames@[i].0 == self.frames@[i].0
                        &&& frames@[i].1 == self.frames@[i].1
                        &&& cloned::<T>(self.frames@[i].2, frames@[i].2)
                    },
        {
            let value = self.frames[k].2.clone();
            frames.push((self.frames[k].0, self.frames[k].1, value));
        }
        proof {
            use_type_invariant(self);
        }
        let inverted = self.inverted.get();
        let r = Animated {
            init: self.init.clone(),
            frames,
            repeat: self.repeat,
            animator: share(&self.animator),
            inverted: InvCell::new(inverted, Ghost(self.inverted.predicate())),
        };
        proof {
            if self.wf() {
                assert forall|i: int, j: int| 0 <= i <= j < r.frames@.len() implies r.frames@[i].0
                    <= r.frames@[j].0 by {
                    assert(self.frames@[i].0 <= self.frames@[j].0);
                }
            }
        }
        r
    }
}

/// Triggering makes an animator run forwards from any state: it starts at
/// `now` unless it already runs forwards, and then plays from the start.
/// Triggering in reverse does the same backwards.
pub proof fn lemma_trigger_runs(s: State, now: u128)
    ensures
        triggered(s, now) is Running,
        !(s is Running) ==> triggered(s, now) == State::Running(now),
        !(s is Running) ==> playback_of(triggered(s, now), now) == Playback::Forward(0),
        triggered_rev(s, now) is RunningReverse,
        !(s is RunningReverse) ==> triggered_rev(s, now) == State::RunningReverse(now),
        !(s is RunningReverse) ==> playback_of(triggered_rev(s, now), now) == Playback::Backward(0),
{
}

/// Stopping leaves no animator running, and a running animator keeps the
/// time it had played.
pub proof fn lemma_stop_halts(s: State, start: u128, now: u128)
    ensures
        !(stopped(s, now) is Running) && !(stopped(s, now) is RunningReverse),
        start <= now ==> stopped(State::Running(start), now) == State::Stopped((now - start) as u128),
        start <= now ==> stopped(State::RunningReverse(start), now) == State::StoppedReverse(
            (now - start) as u128,
        ),
        !(s is Running) && !(s is RunningReverse) ==> stopped(s, now) == s,
{
}

/// Triggering an animator that already runs forwards does not restart it:
/// a second trigger, at any time, leaves the state of the first.
pub proof fn lemma_trigger_keeps_running(s: State, first: u128, second: u128)
    ensures
        triggered(triggered(s, first), second) == triggered(s, first),
        triggered_rev(triggered_rev(s, first), second) == triggered_rev(s, first),
{
}

/// Stopping twice is stopping once.
pub proof fn lemma_stop_idempotent(s: State, first: u128, second: u128)
    ensures
        stopped(stopped(s, first), second) == stopped(s, first),
{
}

/// Stopping freezes an animation where it was: at any later time the
/// stopped animator plays what the running one played when it stopped.
pub proof fn lemma_stop_freezes(s: State, at: u128, later: u128)
    ensures
        playback_of(stopped(s, at), later) == playback_of(s, at),
{
}

/// A timeline that repeats with `ContinueReset` starts over after each pass:
/// what it shows at `tp` it shows again one timeline length later.
pub proof fn lemma_continue_reset_periodic(total: int, tp: int, inverted: bool)
    requires
        total > 0,
        tp >= 0,
    ensures
        effective_time(AnimationRepeat::ContinueReset, total, tp + total, inverted)
            == effective_time(AnimationRepeat::ContinueReset, total, tp, inverted),
{
    vstd::arithmetic::div_mod::lemma_mod_add_multiples_vanish(tp, total);
    if tp < total {
        vstd::arithmetic::div_mod::lemma_small_mod(tp as nat, total as nat);
    }
}

/// A timeline that repeats with `ContinueInvert` swings back and forth:
/// it repeats after two timeline lengths.
pub proof fn lemma_continue_invert_periodic(total: int, tp: int, inverted: bool)
    requires
        total > 0,
        tp >= 0,
    ensures
        effective_time(AnimationRepeat::ContinueInvert, total, tp + 2 * total, inverted)
            == effective_time(AnimationRepeat::ContinueInvert, total, tp, inverted),
{
    vstd::arithmetic::div_mod::lemma_mod_add_multiples_vanish(tp, 2 * total);
    if tp < total {
        vstd::arithmetic::div_mod::lemma_small_mod(tp as nat, (2 * total) as nat);
    }
}

/// After its end a `ContinueInvert` timeline plays backwards: at time
/// `2 * total - x` it is where it was at `x`.
pub proof fn lemma_continue_invert_mirror(total: int, x: int, inverted: bool)
    requires
        total > 0,
        0 <= x <= total,
    ensures
        effective_time(AnimationRepeat::ContinueInvert, total, 2 * total - x, inverted)
            == effective_time(AnimationRepeat::ContinueInvert, total, x, inverted),
{
    if x == 0 {
        vstd::arithmetic::div_mod::lemma_mod_self_0(2 * total);
    } else {
        vstd::arithmetic::div_mod::lemma_small_mod((2 * total - x) as nat, (2 * total) as nat);
    }
    if x == total {
        vstd::arithmetic::div_mod::lemma_small_mod(total as nat, (2 * total) as nat);
    }
}

/// Each keyframe is reached at the sum of the durations of it and of the
/// keyframes before it; with `then` adding one duration at a time, the
/// keyframe times are the running sums of the durations given.
pub proof fn lemma_times_are_sums<T>(kf: Seq<(u128, AnimationCurve, T)>, i: int)
    requires
        0 <= i < kf.len(),
    ensures
        kf[i].0 == sum(gaps(kf).take(i + 1)),
    decreases i,
{
    let g = gaps(kf);
    assert(g.take(i + 1).drop_last() =~= g.take(i));
    assert(g.take(i + 1).last() == g[i]);
    assert(sum(g.take(i + 1)) == sum(g.take(i)) + g[i]);
    if i > 0 {
        lemma_times_are_sums(kf, i - 1);
    } else {
        assert(gaps(kf).take(0) =~= Seq::<int>::empty());
    }
}

/// Durations are never negative, so keyframe times never decrease: the
/// keyframes of any timeline are sorted.
pub proof fn lemma_gaps_nonnegative<T>(a: Animated<T>)
    requires
        a.wf(),
    ensures
        forall|i: int| #![trigger gaps(a.keyframes())[i]] 0 <= i < a.keyframes().len() ==> gaps(a.keyframes())[i] >= 0,
{
}

/// A time shows one thing: the first keyframe reached then, or else one
/// blend between the keyframes around it.
pub proof fn lemma_sample_unique<T>(a: Animated<T>, t: int, s1: Sample, s2: Sample)
    requires
        a.is_sample_of(t, s1),
        a.is_sample_of(t, s2),
    ensures
        s1 == s2,
{
    let kf = a.keyframes();
    match s1 {
        Sample::Frame(v1) => {
            match s2 {
                Sample::Frame(v2) => {
                    if v1 < v2 {
                        assert(kf[v1 as int].0 < t);
                    } else if v2 < v1 {
                        assert(kf[v2 as int].0 < t);
                    }
                },
                Sample::Blend { from, .. } => {
                    let m: int = match from {
                        None => 0,
                        Some(k) => k + 1,
                    };
                    if v1 < m {
                        assert(kf[v1 as int].0 < t);
                    } else {
                        assert(kf[v1 as int].0 > t);
                    }
                },
                Sample::Init => {},
            }
        },
        Sample::Blend { from: f1, .. } => {
            let m1: int = match f1 {
                None => 0,
                Some(k) => k + 1,
            };
            match s2 {
                Sample::Frame(v2) => {
                    if v2 < m1 {
                        assert(kf[v2 as int].0 < t);
                    } else {
                        assert(kf[v2 as int].0 > t);
                    }
                },
                Sample::Blend { from: f2, .. } => {
                    let m2: int = match f2 {
                        None => 0,
                        Some(k) => k + 1,
                    };
                    if m1 < m2 {
                        assert(kf[m1].0 > t);
                    } else if m2 < m1 {
                        assert(kf[m2].0 > t);
                    }
                },
                Sample::Init => {},
            }
        },
        Sample::Init => {},
    }
}

/// A timeline shows one thing at each time point, with one flag afterwards.
pub proof fn lemma_sampled_at_unique<T>(
    a: Animated<T>,
    tp: int,
    inverted: bool,
    s1: Sample,
    after1: bool,
    s2: Sample,
    after2: bool,
)
    requires
        a.sampled_at(tp, inverted, s1, after1),
        a.sampled_at(tp, inverted, s2, after2),
    ensures
        s1 == s2,
        after1 == after2,
{
    if !stops_at(a.repeat_mode(), a.total(), tp) {
        lemma_sample_unique(a, effective_time(a.repeat_mode(), a.total(), tp, inverted), s1, s2);
    }
}

/// A timeline that repeats with `ContinueReset` starts over at each end:
/// at any time point `tp` it shows what it shows at `tp % total`.
pub proof fn lemma_continue_reset_samples<T>(
    a: Animated<T>,
    tp: int,
    inverted: bool,
    s1: Sample,
    after1: bool,
    s2: Sample,
    after2: bool,
)
    requires
        a.repeat_mode() is ContinueReset,
        a.total() > 0,
        tp >= 0,
        a.sampled_at(tp, inverted, s1, after1),
        a.sampled_at(tp % a.total(), inverted, s2, after2),
    ensures
        s1 == s2,
        after1 == after2,
{
    let total = a.total();
    if tp < total {
        vstd::arithmetic::div_mod::lemma_small_mod(tp as nat, total as nat);
    }
    assert(effective_time(a.repeat_mode(), total, tp, inverted) == effective_time(
        a.repeat_mode(),
        total,
        tp % total,
        inverted,
    ));
    lemma_sample_unique(a, effective_time(a.repeat_mode(), total, tp, inverted), s1, s2);
}

/// Where a timeline that swings back and forth stands at `tp`: forwards
/// through the first length of each double length, backwards through the
/// second.
pub open spec fn swing_time(total: int, tp: int) -> int {
    let d = tp % (2 * total) - total;
    total - (if d >= 0 {
        d
    } else {
        -d
    })
}

/// A timeline that repeats with `ContinueInvert` plays forwards, then
/// backwards, and so on: at any time point `tp` it shows what it shows at
/// `swing_time(total, tp)`.
pub proof fn lemma_continue_invert_samples<T>(
    a: Animated<T>,
    tp: int,
    inverted: bool,
    s1: Sample,
    after1: bool,
    s2: Sample,
    after2: bool,
)
    requires
        a.repeat_mode() is ContinueInvert,
        a.total() > 0,
        tp >= 0,
        a.sampled_at(tp, inverted, s1, after1),
        a.sampled_at(swing_time(a.total(), tp), inverted, s2, after2),
    ensures
        s1 == s2,
        after1 == after2,
{
    let total = a.total();
    if tp < total {
        vstd::arithmetic::div_mod::lemma_small_mod(tp as nat, (2 * total) as nat);
    }
    vstd::arithmetic::div_mod::lemma_small_mod(total as nat, (2 * total) as nat);
    assert(effective_time(a.repeat_mode(), total, tp, inverted) == effective_time(
        a.repeat_mode(),
        total,
        swing_time(total, tp),
        inverted,
    ));
    lemma_sample_unique(a, effective_time(a.repeat_mode(), total, tp, inverted), s1, s2);
}

/// At the time of a keyframe the timeline shows a keyframe of that time,
/// never a blend.
pub proof fn lemma_keyframe_time_shows_frame<T>(a: Animated<T>, k: int, s: Sample)
    requires
        0 <= k < a.keyframes().len(),
        a.is_sample_of(a.keyframes()[k].0 as int, s),
    ensures
        s matches Sample::Frame(v) && a.keyframes()[v as int].0 == a.keyframes()[k].0,
{
}

/// A timeline read with its direction flag unset plays forwards: before its
/// end, forward playback at `t` shows the keyframes at `t`, and the flag
/// stays unset.
pub proof fn lemma_unset_flag_plays_forwards<T>(a: Animated<T>, t: u128, s: Sample, after: bool)
    requires
        (t as int) < a.total(),
        a.sampled(Playback::Forward(t), false, s, after),
    ensures
        a.is_sample_of(t as int, s),
        !after,
{
}

/// Only a `StopInvert` timeline coming to rest at its end turns the
/// direction flag, and only from unset to set.
pub proof fn lemma_flag_turns_at_stop_invert<T>(
    a: Animated<T>,
    playback: Playback,
    inverted: bool,
    s: Sample,
    after: bool,
)
    requires
        a.sampled(playback, inverted, s, after),
        after != inverted,
    ensures
        a.repeat_mode() is StopInvert,
        !inverted && after,
        s == a.last_sample(),
{
}

/// A timeline that stops at its end shows its last value from then on.
pub proof fn lemma_stops_on_last<T>(a: Animated<T>, tp: int, inverted: bool, s: Sample, after: bool)
    requires
        a.repeat_mode() is StopReset || a.repeat_mode() is StopInvert,
        tp >= a.total(),
        a.sampled_at(tp, inverted, s, after),
    ensures
        s == a.last_sample(),
{
}

} // verus!
