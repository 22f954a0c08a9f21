use crabcrust::CliWrapper;
use crabcrust::CommandExecutor;
use crabcrust::CommandResult;
use crabcrust::GitWrapper;
use crabcrust::MergeAnimation;
use crabcrust::RabbitAnimation;
use crabcrust::TrophyAnimation;
use crabcrust::executor::ExecError;
use crabcrust::executor::ProcessHandleState;
use crabcrust::wrapper::git::GitCommandClass;

#[test]
fn test_git_wrapper_creation() {
    let wrapper = GitWrapper::new();
    assert!(wrapper.is_ok());
}

#[test]
fn test_cli_wrapper_creation() {
    let wrapper = CliWrapper::new();
    assert!(wrapper.is_ok());
}

#[test]
fn test_subcommand_classification() {
    assert_eq!(GitWrapper::classify_subcommand("commit"), GitCommandClass::Commit);
    assert_eq!(GitWrapper::classify_subcommand("push"), GitCommandClass::Push);
    assert_eq!(GitWrapper::classify_subcommand("pull"), GitCommandClass::Pull);
    assert_eq!(GitWrapper::classify_subcommand("merge"), GitCommandClass::Merge);
    assert_eq!(GitWrapper::classify_subcommand("status"), GitCommandClass::Status);
    assert_eq!(GitWrapper::classify_subcommand("diff"), GitCommandClass::Status);
    assert_eq!(GitWrapper::classify_subcommand("log"), GitCommandClass::Status);
    assert_eq!(GitWrapper::classify_subcommand("rebase"), GitCommandClass::Other);
}

#[test]
fn test_loading_timeouts() {
    assert_eq!(GitWrapper::loading_timeout_ms(GitCommandClass::Commit), Some(10000));
    assert_eq!(GitWrapper::loading_timeout_ms(GitCommandClass::Push), Some(15000));
    assert_eq!(GitWrapper::loading_timeout_ms(GitCommandClass::Pull), Some(12000));
    assert_eq!(GitWrapper::loading_timeout_ms(GitCommandClass::Merge), Some(10000));
    assert_eq!(GitWrapper::loading_timeout_ms(GitCommandClass::Status), Some(5000));
    assert_eq!(GitWrapper::loading_timeout_ms(GitCommandClass::Other), None);
}

#[test]
fn test_random_choice_bounds() {
    assert_eq!(GitWrapper::random_choice(1234567, 4), 1234567 % 4);
    assert_eq!(GitWrapper::random_choice(0, 3), 0);
    for n in 0..20u128 {
        assert!(GitWrapper::random_choice(n * 7919, 3) < 3);
    }
}

#[test]
fn test_command_executor_carries_request() {
    let e = CommandExecutor::new(String::from("git"), vec![String::from("status")]);
    assert_eq!(e.program, "git");
    assert_eq!(e.args, vec![String::from("status")]);
}

#[test]
fn test_command_result_success_flag() {
    let ok = CommandResult::from_parts(0, String::from("out"), String::from("err"));
    assert!(ok.success);
    assert_eq!(ok.combined_output(), "outerr");
    let failed = CommandResult::from_parts(3, String::new(), String::from("boom"));
    assert!(!failed.success);
    assert_eq!(failed.exit_code, 3);
    assert_eq!(failed.combined_output(), "boom");
}

#[test]
fn test_handle_completion_handshake() {
    let mut handle = ProcessHandleState::new();
    // Not done right after launch.
    assert!(!handle.is_done());
    let result = CommandResult::from_parts(0, String::from("done"), String::new());
    handle.complete(Ok(result));
    assert!(handle.is_done());
    // Reading the outcome twice yields the identical stored result.
    let first = handle.wait().as_ref().unwrap().clone();
    let second = handle.wait().as_ref().unwrap().clone();
    assert_eq!(first.exit_code, second.exit_code);
    assert_eq!(first.success, second.success);
    assert_eq!(first.stdout, second.stdout);
    assert_eq!(first.stderr, second.stderr);
    assert_eq!(first.stdout, "done");
}

#[test]
fn test_handle_surfaces_worker_failure() {
    let mut handle = ProcessHandleState::new();
    handle.complete(Err(ExecError::WorkerPanicked));
    assert!(handle.is_done());
    assert!(matches!(handle.wait(), Err(ExecError::WorkerPanicked)));
}

#[test]
fn test_timed_animation_states() {
    let mut m = MergeAnimation::new(1500);
    assert!(m.update(1000));
    assert!(!m.update(600));
    assert_eq!(m.duration_ms(), Some(1500));
    assert_eq!(m.progress_permille(), 1000);

    let mut r = RabbitAnimation::new(2000);
    assert!(r.update(500));
    assert_eq!(r.progress_permille(), 250);
    assert_eq!(r.duration_ms(), Some(2000));

    let mut t = TrophyAnimation::new(2000);
    assert!(t.update(1999));
    assert!(!t.update(1));
    assert_eq!(t.duration_ms(), Some(2000));
}
