use orion_core::process::{
    run_attempts, PopupState, ProcessError, ProcessManager, RetryDecision, RetryPolicy,
    RetryRun, StartDirective, StopDirective,
};

#[test]
fn always_failing_transport_exhausts_exactly_the_bound() {
    let policy = RetryPolicy { max_attempts: 3, delay_ms: 500 };
    let outcome = run_attempts(&policy, &vec![false, false, false]);
    assert_eq!(outcome, Err(ProcessError::RetriesExhausted));
    // A fourth good outcome past the bound is never reached.
    let outcome = run_attempts(&policy, &vec![false, false, false, true]);
    assert_eq!(outcome, Err(ProcessError::RetriesExhausted));
}

#[test]
fn success_stops_the_retrying() {
    let policy = RetryPolicy { max_attempts: 3, delay_ms: 500 };
    assert_eq!(run_attempts(&policy, &vec![false, true, false]), Ok(2));
    assert_eq!(run_attempts(&policy, &vec![true, false, false]), Ok(1));
}

#[test]
fn retry_steps_give_up_on_the_last_attempt_only() {
    let policy = RetryPolicy { max_attempts: 3, delay_ms: 500 };
    let mut run = RetryRun::new();
    assert_eq!(run.on_attempt(&policy, false), RetryDecision::RetryAfterDelay);
    assert_eq!(run.on_attempt(&policy, false), RetryDecision::RetryAfterDelay);
    assert_eq!(run.on_attempt(&policy, false), RetryDecision::GiveUp);
}

#[test]
fn successful_attempt_reports_success() {
    let policy = RetryPolicy { max_attempts: 3, delay_ms: 500 };
    let mut run = RetryRun::new();
    assert_eq!(run.on_attempt(&policy, true), RetryDecision::Succeeded);
}

#[test]
fn second_start_is_a_no_op() {
    let mut manager = ProcessManager::new();
    assert!(!manager.is_popup_running());
    assert_eq!(manager.on_start_request(), StartDirective::Spawn);
    assert!(manager.on_spawn_outcome(true).is_ok());
    assert!(manager.is_popup_running());
    // The second start in a row spawns nothing: still exactly one child.
    assert_eq!(manager.on_start_request(), StartDirective::AlreadyRunning);
    assert!(manager.is_popup_running());
}

#[test]
fn stop_terminates_then_warns() {
    let mut manager = ProcessManager::new();
    assert_eq!(manager.on_start_request(), StartDirective::Spawn);
    assert!(manager.on_spawn_outcome(true).is_ok());
    assert_eq!(manager.on_stop_request(), StopDirective::Terminate);
    assert!(!manager.is_popup_running());
    assert_eq!(manager.on_stop_request(), StopDirective::NotRunning);
    assert!(!manager.is_popup_running());
}

#[test]
fn failed_spawn_reports_launch_error() {
    let mut manager = ProcessManager::new();
    assert_eq!(manager.on_start_request(), StartDirective::Spawn);
    assert_eq!(manager.on_spawn_outcome(false), Err(ProcessError::LaunchFailed));
    assert!(!manager.is_popup_running());
}

#[test]
fn candidate_paths_are_ordered() {
    let manager = ProcessManager::new();
    let paths = manager.candidate_paths();
    assert_eq!(paths.len(), 7);
    assert_eq!(paths[0], "popup_ui");
    assert_eq!(paths[1], "./popup_ui");
    assert_eq!(paths[6], "./dist/bin/popup_ui");
}

#[test]
fn supervisor_constants_match_the_design() {
    let manager = ProcessManager::new();
    assert_eq!(manager.retry_policy(), RetryPolicy { max_attempts: 3, delay_ms: 500 });
    assert_eq!(manager.settle_delay_ms(), 500);
    assert_eq!(manager.restart_delay_ms(), 300);
    let _ = PopupState::Stopped;
}
