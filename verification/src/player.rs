//! The frame-paced player core.
//!
//! The player advances an animation at a fixed target rate in one of three
//! run modes: to completion, for a fixed duration, or until an external
//! predicate turns true or a timeout expires. The per-frame decisions and
//! the frame pacing arithmetic are verified here; the thin real-time loop
//! around them (clock reads, terminal writes, sleeps) lives outside the
//! library and consults these functions every frame.
//!
//! Time is measured in milliseconds. The simulated runs (`play_for_sim`,
//! `play_until_sim`) drive an animation on an idealized clock that advances
//! by exactly one frame budget per iteration; their contracts pin down when
//! each run mode stops.

use crate::animation::Animation;
use crate::animation::framebased::FrameBasedAnimation;
use vstd::prelude::*;

verus! {

/// What a frame of the predicate-race mode decides.
#[derive(Clone, Copy, Debug, PartialEq, Eq, Structural)]
pub enum PlayerStep {
    /// The timeout has expired: stop and report that the wait goes on.
    TimedOut,
    /// The predicate turned true before the timeout: stop, completed.
    Completed,
    /// Neither: advance, render and flush one frame.
    RunFrame,
}

/// The decision the predicate-race mode takes at the top of each frame:
/// timeout expiry is checked first, then the predicate, and otherwise the
/// frame runs.
pub fn until_step(elapsed_ms: u64, timeout_ms: u64, done: bool) -> (s: PlayerStep)
    ensures
        (s is TimedOut) == (elapsed_ms >= timeout_ms),
        (s is Completed) == (elapsed_ms < timeout_ms && done),
        (s is RunFrame) == (elapsed_ms < timeout_ms && !done),
{
    if elapsed_ms >= timeout_ms {
        PlayerStep::TimedOut
    } else if done {
        PlayerStep::Completed
    } else {
        PlayerStep::RunFrame
    }
}

/// The nominal time slice of one frame at a target rate.
pub fn frame_budget_ms(target_fps: u64) -> (b: u64)
    requires
        target_fps > 0,
    ensures
        b == 1000int / target_fps as int,
{
    1000 / target_fps
}

/// How long to sleep after a frame that took `work_ms` of its `budget_ms`
/// slice: the remainder if any is left, otherwise nothing — an overrun is
/// never made up.
pub fn remaining_budget_ms(work_ms: u64, budget_ms: u64) -> (r: u64)
    ensures
        r == (if work_ms < budget_ms {
            budget_ms - work_ms
        } else {
            0int
        }),
{
    if work_ms < budget_ms {
        budget_ms - work_ms
    } else {
        0
    }
}

/// The first whole-frame instant at or after time `t`, on a clock that
/// ticks every `frame_ms`.
pub open spec fn first_frame_at(t: int, frame_ms: int) -> int {
    (t + frame_ms - 1) / frame_ms * frame_ms
}

/// The first frame instant at or after `t` lies within one frame budget
/// of `t`, and is a whole number of frames.
pub proof fn lemma_first_frame_at(t: int, frame_ms: int)
    requires
        frame_ms > 0,
        t >= 0,
    ensures
        t <= first_frame_at(t, frame_ms) < t + frame_ms,
        first_frame_at(t, frame_ms) % frame_ms == 0,
{
    let q = (t + frame_ms - 1) / frame_ms;
    vstd::arithmetic::div_mod::lemma_fundamental_div_mod(t + frame_ms - 1, frame_ms);
    assert(q * frame_ms == frame_ms * q) by (nonlinear_arith);
    vstd::arithmetic::div_mod::lemma_mod_multiples_basic(q, frame_ms);
}

/// Two whole-frame instants less than one frame apart are the same instant.
proof fn lemma_frame_multiple_unique(t: int, frame_ms: int, m: int)
    requires
        frame_ms > 0,
        t >= 0,
        m % frame_ms == 0,
        t <= m < t + frame_ms,
    ensures
        m == first_frame_at(t, frame_ms),
{
    lemma_first_frame_at(t, frame_ms);
    let ff = first_frame_at(t, frame_ms);
    if m < ff {
        lemma_multiple_gap(m, ff, frame_ms);
    } else if ff < m {
        lemma_multiple_gap(ff, m, frame_ms);
    }
}

/// Distinct whole-frame instants are at least one frame apart.
proof fn lemma_multiple_gap(a: int, b: int, f: int)
    requires
        f > 0,
        a % f == 0,
        b % f == 0,
        a < b,
    ensures
        a + f <= b,
{
    if b - a < f {
        vstd::arithmetic::div_mod::lemma_sub_mod_noop(b, a, f);
        vstd::arithmetic::div_mod::lemma_small_mod(0nat, f as nat);
        vstd::arithmetic::div_mod::lemma_small_mod((b - a) as nat, f as nat);
        assert(false);
    }
}

/// Run an animation for a fixed duration on an idealized clock that
/// advances one frame budget per iteration. The animation's own wish to
/// stop is ignored in this mode. The run always terminates, at the first
/// whole-frame instant at or after the requested duration — within one
/// frame budget of it, for every duration and budget.
pub fn play_for_sim<A: Animation>(animation: &mut A, duration_ms: u64, frame_ms: u64) -> (elapsed:
    u128)
    requires
        old(animation).inv(),
        frame_ms > 0,
    ensures
        final(animation).inv(),
        elapsed == first_frame_at(duration_ms as int, frame_ms as int),
        duration_ms <= elapsed < duration_ms + frame_ms,
{
    let mut elapsed: u128 = 0;
    while elapsed < duration_ms as u128
        invariant
            animation.inv(),
            frame_ms > 0,
            elapsed as int % frame_ms as int == 0,
            elapsed == 0 || elapsed - frame_ms < duration_ms,
            elapsed < duration_ms + frame_ms,
        decreases duration_ms + frame_ms - elapsed,
    {
        let _ = animation.update(frame_ms);
        proof {
            vstd::arithmetic::div_mod::lemma_mod_add_multiples_vanish(elapsed as int, frame_ms as int);
        }
        elapsed = elapsed + frame_ms as u128;
    }
    proof {
        lemma_frame_multiple_unique(duration_ms as int, frame_ms as int, elapsed as int);
    }
    elapsed
}

/// Run a non-looping frame playback to completion on an idealized clock:
/// the run-to-completion mode stops exactly when the animation declines to
/// continue, and a finite playback always eventually declines — each frame
/// tick either consumes part of the current frame's duration or moves to
/// the next frame, so the loop provably terminates with the playback
/// finished (or immediately, if there are no frames).
pub fn play_sim(animation: &mut FrameBasedAnimation, frame_ms: u64)
    requires
        old(animation).inv(),
        !old(animation).spec_looping(),
        frame_ms > 0,
    ensures
        final(animation).inv(),
        final(animation).spec_frames() == old(animation).spec_frames(),
        final(animation).spec_frames().len() == 0 || final(animation).spec_finished(),
{
    loop
        invariant
            animation.inv(),
            !animation.spec_looping(),
            frame_ms > 0,
            animation.spec_frames() == old(animation).spec_frames(),
        ensures
            animation.inv(),
            animation.spec_frames() == old(animation).spec_frames(),
            animation.spec_frames().len() == 0 || animation.spec_finished(),
        decreases
            animation.spec_frames().len() - animation.spec_current(),
            (if animation.spec_current() < animation.spec_frames().len()
                && animation.spec_frames()[animation.spec_current()].duration_ms
                >= animation.spec_elapsed() {
                animation.spec_frames()[animation.spec_current()].duration_ms
                    - animation.spec_elapsed()
            } else {
                0int
            }),
    {
        let keep = animation.update(frame_ms);
        if !keep {
            break;
        }
    }
}

/// Run an animation on an idealized clock until a predicate turns true or a
/// timeout expires, checking — as the real loop does — the timeout first and
/// the predicate second, once per frame. The predicate is modelled by the
/// instant `done_at_ms` from which it reports true; `None` is a predicate
/// that never turns true.
///
/// Returns whether the run completed before the timeout, and the elapsed
/// time at the stop: the first whole-frame instant at or after the
/// predicate's instant on completion, or at or after the timeout otherwise.
pub fn play_until_sim<A: Animation>(
    animation: &mut A,
    timeout_ms: u64,
    done_at_ms: Option<u64>,
    frame_ms: u64,
) -> (r: (bool, u128))
    requires
        old(animation).inv(),
        frame_ms > 0,
    ensures
        final(animation).inv(),
        r.0 == (done_at_ms matches Some(d) && first_frame_at(d as int, frame_ms as int)
            < timeout_ms),
        r.0 ==> r.1 == first_frame_at(done_at_ms.unwrap() as int, frame_ms as int),
        !r.0 ==> r.1 == first_frame_at(timeout_ms as int, frame_ms as int),
        timeout_ms <= r.1 < timeout_ms + frame_ms || (r.0 && r.1 < timeout_ms),
{
    let mut elapsed: u128 = 0;
    loop
        invariant
            animation.inv(),
            frame_ms > 0,
            elapsed as int % frame_ms as int == 0,
            elapsed == 0 || (elapsed - frame_ms < timeout_ms && (done_at_ms matches Some(d)
                ==> elapsed - frame_ms < d)),
            elapsed < timeout_ms + frame_ms,
        decreases timeout_ms + frame_ms - elapsed,
    {
        if elapsed >= timeout_ms as u128 {
            proof {
                lemma_frame_multiple_unique(timeout_ms as int, frame_ms as int, elapsed as int);
                if done_at_ms is Some {
                    let d = done_at_ms.unwrap();
                    let ff = first_frame_at(d as int, frame_ms as int);
                    lemma_first_frame_at(d as int, frame_ms as int);
                    if ff < timeout_ms {
                        lemma_multiple_gap(ff, elapsed as int, frame_ms as int);
                        assert(false);
                    }
                }
            }
            return (false, elapsed);
        }
        let done = match done_at_ms {
            Some(d) => elapsed >= d as u128,
            None => false,
        };
        if done {
            proof {
                let d = done_at_ms.unwrap();
                lemma_frame_multiple_unique(d as int, frame_ms as int, elapsed as int);
            }
            return (true, elapsed);
        }
        let _ = animation.update(frame_ms);
        proof {
            vstd::arithmetic::div_mod::lemma_mod_add_multiples_vanish(elapsed as int, frame_ms as int);
        }
        elapsed = elapsed + frame_ms as u128;
    }
}

/// When the predicate turns true at time `done_at` with at least one frame
/// budget to spare before the timeout, the predicate race completes, at an
/// elapsed time within one frame budget of `done_at`.
pub proof fn lemma_race_completes(done_at: int, timeout: int, frame_ms: int)
    requires
        frame_ms > 0,
        0 <= done_at,
        done_at + frame_ms <= timeout,
    ensures
        first_frame_at(done_at, frame_ms) < timeout,
        done_at <= first_frame_at(done_at, frame_ms) < done_at + frame_ms,
{
    lemma_first_frame_at(done_at, frame_ms);
}

/// A predicate race whose predicate never turns true times out, at an
/// elapsed time within one frame budget of the timeout.
pub proof fn lemma_race_times_out(timeout: int, frame_ms: int)
    requires
        frame_ms > 0,
        timeout >= 0,
    ensures
        timeout <= first_frame_at(timeout, frame_ms) < timeout + frame_ms,
{
    lemma_first_frame_at(timeout, frame_ms);
}

} // verus!
