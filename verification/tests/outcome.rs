use nixpkgs_eval::outcome::{
    check_value_for_errors, conclude, EvaluationOutcome, Wait, WorkerEvent, EVAL_TIMEOUT_SECS,
};

#[test]
fn two_diagnostics_are_joined_by_a_newline() {
    let outcome = check_value_for_errors(None, vec!["D1".to_string(), "D2".to_string()]);
    assert_eq!(outcome.into_reply(), Err("```\nD1\nD2\n```".to_string()));
}

#[test]
fn a_value_wins_over_diagnostics() {
    let outcome = check_value_for_errors(Some("2".to_string()), vec!["warning".to_string()]);
    assert_eq!(outcome.into_reply(), Ok("2".to_string()));
}

#[test]
fn neither_value_nor_diagnostic_is_an_inconsistency() {
    let outcome = check_value_for_errors(None, Vec::new());
    assert!(matches!(outcome, EvaluationOutcome::Inconsistent));
    assert_eq!(
        outcome.into_reply(),
        Err("There was no result nor error! This shouldn't really happen.".to_string())
    );
}

#[test]
fn a_missed_deadline_is_a_timeout() {
    let outcome = conclude(WorkerEvent::Elapsed);
    assert!(matches!(outcome, EvaluationOutcome::Timeout));
    assert_eq!(
        outcome.into_reply(),
        Err("Evaluation took too long. Max eval time is 2 seconds.".to_string())
    );
}

#[test]
fn what_the_worker_hands_back_in_time_is_the_outcome() {
    let outcome = conclude(WorkerEvent::Finished(EvaluationOutcome::Value("2".to_string())));
    assert_eq!(outcome, EvaluationOutcome::Value("2".to_string()));
    let failed = conclude(WorkerEvent::Finished(EvaluationOutcome::Failure(vec!["D1".to_string()])));
    assert_eq!(failed, EvaluationOutcome::Failure(vec!["D1".to_string()]));
}

#[test]
fn a_late_worker_does_not_undo_the_timeout() {
    let mut wait = Wait::new();
    wait.on_event(WorkerEvent::Elapsed);
    wait.on_event(WorkerEvent::Finished(EvaluationOutcome::Value("stale".to_string())));
    wait.on_event(WorkerEvent::Finished(EvaluationOutcome::Failure(vec!["late".to_string()])));
    assert_eq!(wait.into_outcome(), Some(EvaluationOutcome::Timeout));
}

#[test]
fn a_worker_in_time_is_not_undone_by_the_deadline() {
    let mut wait = Wait::new();
    wait.on_event(WorkerEvent::Finished(EvaluationOutcome::Value("2".to_string())));
    wait.on_event(WorkerEvent::Elapsed);
    assert_eq!(wait.into_outcome(), Some(EvaluationOutcome::Value("2".to_string())));
    assert_eq!(Wait::new().into_outcome(), None);
}

#[test]
fn the_deadline_is_two_seconds() {
    assert_eq!(EVAL_TIMEOUT_SECS, 2);
}

#[test]
fn a_single_diagnostic_stands_alone_between_the_fences() {
    let outcome = check_value_for_errors(None, vec!["only".to_string()]);
    assert_eq!(outcome.into_reply(), Err("```\nonly\n```".to_string()));
}

#[test]
fn a_diagnostic_of_several_lines_is_kept_whole() {
    let outcome = check_value_for_errors(None, vec!["a\nb".to_string(), "".to_string()]);
    assert_eq!(outcome.into_reply(), Err("```\na\nb\n\n```".to_string()));
}

#[test]
fn a_worker_that_broke_down_is_a_failure() {
    let outcome = conclude(WorkerEvent::Crashed("task 7 panicked".to_string()));
    assert_eq!(outcome, EvaluationOutcome::Failure(vec!["task 7 panicked".to_string()]));
    let mut wait = Wait::new();
    wait.on_event(WorkerEvent::Crashed("task 7 panicked".to_string()));
    wait.on_event(WorkerEvent::Elapsed);
    assert_eq!(
        wait.into_outcome(),
        Some(EvaluationOutcome::Failure(vec!["task 7 panicked".to_string()]))
    );
}
