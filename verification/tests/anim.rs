use srs2dge_gui::anim::{
    AnimationCurve, AnimationRepeat, Animated, Animator, Playback, Sample, State,
};
use std::sync::{Arc, RwLock};

const MS: u128 = 1_000_000;

fn animator() -> Arc<RwLock<Animator>> {
    Arc::new(RwLock::new(Animator::new()))
}

fn three_frames(repeat: AnimationRepeat) -> Animated<i32> {
    Animated::new(0, animator())
        .then(50 * MS, AnimationCurve::Linear, 10)
        .then(50 * MS, AnimationCurve::Poly, 20)
        .then(50 * MS, AnimationCurve::Sine, 30)
        .repeat(repeat)
}

#[test]
fn then_accumulates_time() {
    let a = three_frames(AnimationRepeat::StopReset);
    assert_eq!(a.total_time(), 150 * MS);
    let empty = Animated::new(5, animator());
    assert_eq!(empty.total_time(), 0);
    assert_eq!(empty.last(), Sample::Init);
    assert_eq!(a.last(), Sample::Frame(2));
}

#[test]
fn sample_at_keyframes_and_between() {
    let a = three_frames(AnimationRepeat::StopReset);
    assert_eq!(a.sample_at(50 * MS, false), (Sample::Frame(0), false));
    assert_eq!(a.sample_at(100 * MS, false), (Sample::Frame(1), false));
    assert_eq!(
        a.sample_at(25 * MS, false),
        (
            Sample::Blend { from: None, to: 0, curve: AnimationCurve::Linear, elapsed: 25 * MS, span: 50 * MS },
            false
        )
    );
    assert_eq!(
        a.sample_at(120 * MS, false),
        (
            Sample::Blend { from: Some(1), to: 2, curve: AnimationCurve::Sine, elapsed: 20 * MS, span: 50 * MS },
            false
        )
    );
    assert_eq!(
        a.sample_at(0, false),
        (
            Sample::Blend { from: None, to: 0, curve: AnimationCurve::Linear, elapsed: 0, span: 50 * MS },
            false
        )
    );
}

#[test]
fn stop_reset_rests_on_last_frame() {
    let a = three_frames(AnimationRepeat::StopReset);
    assert_eq!(a.sample_at(150 * MS, false), (Sample::Frame(2), false));
    assert_eq!(a.sample_at(10_000 * MS, false), (Sample::Frame(2), false));
}

#[test]
fn stop_invert_turns_the_direction_around() {
    let a = three_frames(AnimationRepeat::StopInvert);
    assert_eq!(a.sample_at(200 * MS, false), (Sample::Frame(2), true));
    // once inverted, time runs from the end
    assert_eq!(a.sample_at(50 * MS, true), (Sample::Frame(1), true));
    assert_eq!(
        a.sample_at(30 * MS, true),
        (
            Sample::Blend { from: Some(1), to: 2, curve: AnimationCurve::Sine, elapsed: 20 * MS, span: 50 * MS },
            true
        )
    );
    // the shared flag is set by `sample`
    assert_eq!(a.sample(Playback::Forward(200 * MS)), Sample::Frame(2));
    assert_eq!(a.sample(Playback::Forward(50 * MS)), Sample::Frame(1));
}

#[test]
fn continue_reset_loops() {
    let a = three_frames(AnimationRepeat::ContinueReset);
    for tp in [0u128, 10, 50, 75, 149] {
        assert_eq!(a.sample_at(tp * MS, false), a.sample_at((tp + 150) * MS, false));
        assert_eq!(a.sample_at(tp * MS, false), a.sample_at((tp + 300) * MS, false));
    }
    assert_eq!(
        a.sample_at(160 * MS, false),
        (
            Sample::Blend { from: None, to: 0, curve: AnimationCurve::Linear, elapsed: 10 * MS, span: 50 * MS },
            false
        )
    );
}

#[test]
fn continue_invert_swings() {
    let a = three_frames(AnimationRepeat::ContinueInvert);
    // after the end it plays backwards
    assert_eq!(a.sample_at(200 * MS, false), a.sample_at(100 * MS, false));
    assert_eq!(a.sample_at(250 * MS, false), a.sample_at(50 * MS, false));
    assert_eq!(a.sample_at(300 * MS, false), a.sample_at(0, false));
    // and forwards again
    assert_eq!(a.sample_at(350 * MS, false), a.sample_at(50 * MS, false));
}

#[test]
fn backward_playback_mirrors_time() {
    let a = three_frames(AnimationRepeat::StopReset);
    assert_eq!(a.sample_with(Playback::Backward(50 * MS), false), a.sample_at(100 * MS, false));
    assert_eq!(a.sample_with(Playback::Backward(500 * MS), false), a.sample_at(0, false));
    assert_eq!(a.sample_with(Playback::Idle, false), (Sample::Init, false));
    assert_eq!(a.sample_with(Playback::Forward(60 * MS), false), a.sample_at(60 * MS, false));
}

#[test]
fn state_transitions() {
    let s = State::NotStarted;
    assert_eq!(s.trigger(10), State::Running(10));
    assert_eq!(State::Running(10).trigger(99), State::Running(10));
    assert_eq!(State::RunningReverse(10).trigger(99), State::Running(99));
    assert_eq!(State::Running(10).trigger_rev(99), State::RunningReverse(99));
    assert_eq!(State::RunningReverse(10).trigger_rev(99), State::RunningReverse(10));
    assert_eq!(State::Running(10).stop(25), State::Stopped(15));
    assert_eq!(State::RunningReverse(10).stop(25), State::StoppedReverse(15));
    assert_eq!(State::Stopped(15).stop(1000), State::Stopped(15));
    assert_eq!(State::NotStarted.stop(1000), State::NotStarted);
    assert_eq!(State::Running(10).stop(5), State::Stopped(0));
}

#[test]
fn playback_of_states() {
    assert_eq!(State::NotStarted.playback(50), Playback::Idle);
    assert_eq!(State::Running(20).playback(50), Playback::Forward(30));
    assert_eq!(State::RunningReverse(20).playback(50), Playback::Backward(30));
    assert_eq!(State::Stopped(7).playback(50), Playback::Forward(7));
    assert_eq!(State::StoppedReverse(7).playback(50), Playback::Backward(7));
    // a stopped state is frozen where it stopped
    let stopped = State::Running(20).stop(50);
    assert_eq!(stopped.playback(1_000), State::Running(20).playback(50));
}

#[test]
fn animator_runs_on_the_clock() {
    let mut a = Animator::new();
    assert_eq!(a.playback(), Playback::Idle);
    a.trigger();
    assert!(matches!(a.playback(), Playback::Forward(_)));
    a.stop();
    let frozen = a.playback();
    assert_eq!(a.playback(), frozen);
    a.trigger_rev();
    assert!(matches!(a.playback(), Playback::Backward(_)));
    a.re_trigger();
    assert!(matches!(a.playback(), Playback::Forward(_)));
    a.re_trigger_rev();
    assert!(matches!(a.playback(), Playback::Backward(_)));
    a.reset();
    assert_eq!(a.playback(), Playback::Idle);
}

#[test]
fn clone_keeps_timeline() {
    let a = three_frames(AnimationRepeat::ContinueReset);
    let b = a.clone();
    assert_eq!(b.total_time(), a.total_time());
    for tp in [0u128, 30, 80, 149, 400] {
        assert_eq!(a.sample_at(tp * MS, false), b.sample_at(tp * MS, false));
    }
    assert!(Arc::ptr_eq(a.animator(), b.animator()));
}

#[test]
fn defaults() {
    assert_eq!(AnimationCurve::default(), AnimationCurve::Linear);
    assert_eq!(AnimationRepeat::default(), AnimationRepeat::StopReset);
}

#[test]
fn animator_clock_advances() {
    let a = Animator::new();
    let start = a.now();
    let mut later = a.now();
    while later == start {
        later = a.now();
    }
    assert!(later > start);
}

#[test]
fn keyframe_times_are_running_sums() {
    let a = Animated::new(0, animator())
        .then(10, AnimationCurve::Linear, 1)
        .then(0, AnimationCurve::Linear, 2)
        .then(25, AnimationCurve::Linear, 3)
        .then(5, AnimationCurve::Linear, 4);
    assert_eq!(a.frame_count(), 4);
    assert_eq!(a.total_time(), 40);
    assert_eq!(a.sample_at(10, false), (Sample::Frame(0), false));
    assert_eq!(a.sample_at(35, false), (Sample::Frame(2), false));
    assert_eq!(a.sample_at(40, false), (Sample::Frame(3), false));
}

#[test]
fn shared_time_shows_first_keyframe() {
    // two keyframes reached at the same time: the first of them shows
    let a = Animated::new(0, animator())
        .then(10, AnimationCurve::Linear, 1)
        .then(0, AnimationCurve::Linear, 2)
        .then(0, AnimationCurve::Linear, 3)
        .then(10, AnimationCurve::Linear, 4);
    assert_eq!(a.sample_at(10, false), (Sample::Frame(0), false));
    assert_eq!(
        a.sample_at(15, false),
        (
            Sample::Blend { from: Some(2), to: 3, curve: AnimationCurve::Linear, elapsed: 5, span: 10 },
            false
        )
    );
}

#[test]
fn continue_reset_shows_time_mod_total() {
    let a = three_frames(AnimationRepeat::ContinueReset);
    let total = 150 * MS;
    for tp in [150u128, 151, 200, 299, 300, 449, 1_000, 12_345] {
        let tp = tp * MS;
        assert_eq!(a.sample_at(tp, false), a.sample_at(tp % total, false));
        assert_eq!(a.sample_at(tp, true), a.sample_at(tp % total, true));
    }
}

#[test]
fn continue_invert_shows_swing_time() {
    let a = three_frames(AnimationRepeat::ContinueInvert);
    let total = 150 * MS;
    for tp in [0u128, 40, 150, 151, 200, 299, 300, 449, 1_000, 12_345] {
        let tp = tp * MS;
        let m = tp % (2 * total);
        let swing = if m >= total { 2 * total - m } else { m };
        assert_eq!(a.sample_at(tp, false), a.sample_at(swing, false));
        assert_eq!(a.sample_at(tp, true), a.sample_at(swing, true));
    }
    assert_eq!(a.sample_at(160 * MS, false), a.sample_at(140 * MS, false));
}
