use crabcrust::CommandResult;
use crabcrust::FrameBasedAnimation;
use crabcrust::executor::ProcessHandleState;
use crabcrust::PlayerStep;
use crabcrust::player::frame_budget_ms;
use crabcrust::Animation;
use crabcrust::player::play_for_sim;
use crabcrust::player::play_sim;
use crabcrust::player::play_until_sim;
use crabcrust::player::remaining_budget_ms;
use crabcrust::player::until_step;
use crabcrust::rendering::inline_auto_height;
use crabcrust::rendering::inline_region_rows;

#[test]
fn test_until_step_order() {
    // Timeout expiry wins over the predicate.
    assert_eq!(until_step(500, 500, true), PlayerStep::TimedOut);
    assert_eq!(until_step(499, 500, true), PlayerStep::Completed);
    assert_eq!(until_step(499, 500, false), PlayerStep::RunFrame);
    assert_eq!(until_step(0, 0, false), PlayerStep::TimedOut);
}

#[test]
fn test_frame_pacing() {
    assert_eq!(frame_budget_ms(60), 16);
    assert_eq!(remaining_budget_ms(5, 16), 11);
    // An overrun is not made up.
    assert_eq!(remaining_budget_ms(20, 16), 0);
    assert_eq!(remaining_budget_ms(16, 16), 0);
}

#[test]
fn test_run_for_fixed_duration_stops_within_one_frame() {
    // The fixed-duration mode ignores the animation's own wish to stop: an
    // empty frame animation reports "done" from the first update, yet the
    // run lasts the requested duration.
    let mut anim = FrameBasedAnimation::new(false);
    let elapsed = play_for_sim(&mut anim, 100, 16);
    assert!(elapsed >= 100 && elapsed < 116);
    assert_eq!(elapsed, 112);

    let mut anim2 = FrameBasedAnimation::new(false);
    assert_eq!(play_for_sim(&mut anim2, 0, 16), 0);
    let mut anim3 = FrameBasedAnimation::new(false);
    assert_eq!(play_for_sim(&mut anim3, 96, 16), 96);
}

#[test]
fn test_play_to_completion_finishes() {
    let mut anim = FrameBasedAnimation::new(false);
    anim.add_frame(vec![0u8; 1], 1, 1, 50);
    anim.add_frame(vec![0u8; 1], 1, 1, 50);
    play_sim(&mut anim, 16);
    // The playback ran out of frames and stays finished.
    assert_eq!(anim.current_frame(), 2);
    assert!(!anim.update(16));
}

#[test]
fn test_run_until_predicate_completes_near_t() {
    // Predicate turns true at simulated time 100 with timeout 500: the run
    // completes, within one frame budget of 100.
    let mut anim = FrameBasedAnimation::new(false);
    let (completed, elapsed) = play_until_sim(&mut anim, 500, Some(100), 16);
    assert!(completed);
    assert!(elapsed >= 100 && elapsed < 116);
    assert_eq!(elapsed, 112);
}

#[test]
fn test_run_until_timeout_when_predicate_never_true() {
    let mut anim = FrameBasedAnimation::new(false);
    let (completed, elapsed) = play_until_sim(&mut anim, 500, None, 16);
    assert!(!completed);
    assert!(elapsed >= 500 && elapsed < 516);
    assert_eq!(elapsed, 512);
}

#[test]
fn test_predicate_race_scenario() {
    // A 500 ms predicate race against an operation that finishes at 100 ms:
    // the race completes near 100 ms, and reading the recorded outcome
    // afterwards reports the command's success and captured output.
    let mut handle = ProcessHandleState::new();
    assert!(!handle.is_done());
    let mut anim = FrameBasedAnimation::new(false);
    let (completed, elapsed) = play_until_sim(&mut anim, 500, Some(100), 16);
    assert!(completed);
    assert!(elapsed >= 100 && elapsed < 116);

    handle.complete(Ok(CommandResult::from_parts(0, String::from("ok\n"), String::new())));
    assert!(handle.is_done());
    let outcome = handle.wait().as_ref().unwrap();
    assert!(outcome.success);
    assert_eq!(outcome.combined_output(), "ok\n");
}

#[test]
fn test_inline_region_decisions() {
    assert_eq!(inline_auto_height(30), 15);
    assert_eq!(inline_auto_height(90), 30);
    assert_eq!(inline_auto_height(200), 40);
    let rows = inline_region_rows(7, 3);
    assert_eq!(rows, vec![7, 8, 9]);
}
