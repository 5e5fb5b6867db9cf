use athena::machine::{
    accept_submission, health_check_statement, on_poll, run_polls, Action, DriveResult, Outcome,
    PollReport, QueryState, ResponseFault,
};

fn report(state: QueryState, millis: Option<i64>) -> PollReport {
    PollReport { state: Some(state), total_millis: millis }
}

#[test]
fn health_check_is_select_one() {
    assert_eq!(health_check_statement(), "SELECT 1");
}

#[test]
fn submission_needs_an_execution_id() {
    let e = accept_submission(None).unwrap_err();
    assert_eq!(e, ResponseFault::MissingExecutionId);

    let h = accept_submission(Some("exec-1".to_string())).unwrap();
    assert_eq!(h.id, "exec-1");
    assert_eq!(h.state, QueryState::Queued);
    assert_eq!(h.waits, 0);
    assert!(h.outcome.is_none());
}

#[test]
fn queued_running_running_succeeded_polls_three_times() {
    let mut h = accept_submission(Some("exec-2".to_string())).unwrap();
    let reports = vec![
        report(QueryState::Queued, None),
        report(QueryState::Running, None),
        report(QueryState::Running, None),
        report(QueryState::Succeeded, Some(1234)),
    ];
    let r = run_polls(&mut h, &reports);
    assert_eq!(
        r,
        DriveResult::Done { waits: 3, outcome: Outcome::Succeeded { millis: 1234 } }
    );
    assert_eq!(h.outcome, Some(Outcome::Succeeded { millis: 1234 }));
}

#[test]
fn failed_on_first_poll_terminates_immediately() {
    let mut h = accept_submission(Some("exec-3".to_string())).unwrap();
    let reports = vec![report(QueryState::Failed, None)];
    let r = run_polls(&mut h, &reports);
    assert_eq!(
        r,
        DriveResult::Done {
            waits: 0,
            outcome: Outcome::Failed { state: QueryState::Failed }
        }
    );
    // The terminal response, successful or not, asks for the result fetch.
    let mut h2 = accept_submission(Some("exec-4".to_string())).unwrap();
    let action = on_poll(&mut h2, Some(QueryState::Failed), None).unwrap();
    assert_eq!(action, Action::Fetch);
}

#[test]
fn cancelled_is_reported_as_failed() {
    let mut h = accept_submission(Some("exec-5".to_string())).unwrap();
    let r = run_polls(&mut h, &vec![report(QueryState::Cancelled, Some(7))]);
    assert_eq!(
        r,
        DriveResult::Done {
            waits: 0,
            outcome: Outcome::Failed { state: QueryState::Cancelled }
        }
    );
}

#[test]
fn non_terminal_states_ask_for_a_wait() {
    let mut h = accept_submission(Some("exec-6".to_string())).unwrap();
    assert_eq!(
        on_poll(&mut h, Some(QueryState::Queued), None).unwrap(),
        Action::Wait
    );
    assert_eq!(
        on_poll(&mut h, Some(QueryState::Running), None).unwrap(),
        Action::Wait
    );
    assert_eq!(h.waits, 2);
    assert!(h.outcome.is_none());
}

#[test]
fn missing_fields_are_typed_faults() {
    let mut h = accept_submission(Some("exec-7".to_string())).unwrap();
    let e = on_poll(&mut h, None, None).unwrap_err();
    assert_eq!(e, ResponseFault::MissingState);

    let e = on_poll(&mut h, Some(QueryState::Succeeded), None).unwrap_err();
    assert_eq!(e, ResponseFault::MissingStatistics);
    assert!(h.outcome.is_none());
}

#[test]
fn exhausted_reports_keep_polling() {
    let mut h = accept_submission(Some("exec-8".to_string())).unwrap();
    let r = run_polls(&mut h, &vec![report(QueryState::Queued, None)]);
    assert_eq!(r, DriveResult::StillPolling { waits: 1 });
}
