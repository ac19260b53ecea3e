use snippets::retry::{RetryAction, RetryPolicy};

/// Feeds the outcomes to a fresh policy until it finishes; returns the
/// result, the number of reports and the number of waits.
fn drive(max_attempts: usize, outcomes: &[Result<(), String>]) -> (Result<(), String>, usize, usize) {
    let mut policy = RetryPolicy::new(max_attempts).unwrap();
    let mut reports = 0;
    let mut waits = 0;
    for outcome in outcomes {
        match policy.record(outcome.clone()) {
            RetryAction::Succeed => return (Ok(()), reports, waits),
            RetryAction::ReportAndWait { attempt, .. } => {
                assert_eq!(attempt, reports + 1);
                reports += 1;
                waits += 1;
            }
            RetryAction::ReportAndFail { attempt, error } => {
                assert_eq!(attempt, reports + 1);
                reports += 1;
                return (Err(error), reports, waits);
            }
        }
    }
    panic!("outcomes ran out before the policy finished");
}

#[test]
fn always_failing_reports_every_attempt() {
    let outcomes = vec![Err("e".to_string()); 5];
    let (result, reports, waits) = drive(3, &outcomes);
    assert_eq!(result, Err("e".to_string()));
    assert_eq!(reports, 3);
    assert_eq!(waits, 2);
}

#[test]
fn last_error_is_returned() {
    let outcomes = vec![Err("first".to_string()), Err("second".to_string()), Err("third".to_string())];
    let (result, reports, _) = drive(3, &outcomes);
    assert_eq!(result, Err("third".to_string()));
    assert_eq!(reports, 3);
}

#[test]
fn success_on_third_attempt() {
    let outcomes = vec![Err("a".to_string()), Err("b".to_string()), Ok(()), Err("c".to_string())];
    let (result, reports, waits) = drive(4, &outcomes);
    assert_eq!(result, Ok(()));
    assert_eq!(reports, 2);
    assert_eq!(waits, 2);
}

#[test]
fn immediate_success_reports_nothing() {
    let (result, reports, waits) = drive(1, &[Ok(())]);
    assert_eq!(result, Ok(()));
    assert_eq!(reports, 0);
    assert_eq!(waits, 0);
}

#[test]
fn zero_budget_is_refused() {
    assert!(RetryPolicy::new(0).is_none());
}

#[test]
fn policy_tracks_attempts() {
    let mut policy = RetryPolicy::new(2).unwrap();
    assert_eq!(policy.attempt(), 1);
    assert_eq!(policy.max_attempts(), 2);
    assert!(!policy.is_finished());
    let a = policy.record(Err(7));
    assert!(matches!(a, RetryAction::ReportAndWait { attempt: 1, error: 7 }));
    assert_eq!(policy.attempt(), 2);
    let b = policy.record(Err(8));
    assert!(matches!(b, RetryAction::ReportAndFail { attempt: 2, error: 8 }));
    assert!(policy.is_finished());
}
