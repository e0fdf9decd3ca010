use s3_algo::config::Config;
use s3_algo::retry::{run_with_retries, AttemptOutcome, RetryDecision, RetryError, RetrySession};
use s3_algo::timeout::Estimator;

fn default_estimator() -> Estimator {
    Estimator::new(Config::default())
}

#[test]
fn s3_upload_file_attempts_count() {
    // The operation fails its first three attempts and succeeds on the
    // fourth: the report counts exactly four attempts.
    const ATTEMPTS: usize = 4;
    let mut outcomes = vec![
        AttemptOutcome::Failed { elapsed_ms: 100 },
        AttemptOutcome::Failed { elapsed_ms: 100 },
        AttemptOutcome::Failed { elapsed_ms: 100 },
        AttemptOutcome::Success { elapsed_ms: 50 },
    ];
    while outcomes.len() < 10 {
        outcomes.push(AttemptOutcome::Failed { elapsed_ms: 1 });
    }
    let mut estimator = default_estimator();
    let result = run_with_retries(0, 5, 10, &outcomes, &mut estimator).unwrap();
    assert_eq!(result.attempts, ATTEMPTS);
    assert_eq!(result.success_time_ms, 50);
    assert_eq!(result.total_time_ms, 350);
}

#[test]
fn first_attempt_success() {
    let outcomes = vec![AttemptOutcome::Success { elapsed_ms: 10 }];
    let mut estimator = default_estimator();
    let result = run_with_retries(7, 123, 1, &outcomes, &mut estimator).unwrap();
    assert_eq!(result.attempts, 1);
    assert_eq!(result.seq, 7);
    assert_eq!(result.bytes, 123);
    assert_eq!(result.total_time_ms, 10);
}

#[test]
fn budget_exhausted_by_errors() {
    let outcomes = vec![
        AttemptOutcome::Failed { elapsed_ms: 10 },
        AttemptOutcome::Failed { elapsed_ms: 20 },
        AttemptOutcome::Failed { elapsed_ms: 30 },
    ];
    let mut estimator = default_estimator();
    let err = run_with_retries(0, 5, 3, &outcomes, &mut estimator).unwrap_err();
    assert_eq!(
        err,
        RetryError::OperationFailed {
            attempts: 3,
            total_time_ms: 60,
        }
    );
}

#[test]
fn budget_exhausted_by_timer() {
    let outcomes = vec![
        AttemptOutcome::Failed { elapsed_ms: 10 },
        AttemptOutcome::TimedOut { elapsed_ms: 40 },
    ];
    let mut estimator = default_estimator();
    let err = run_with_retries(0, 5, 2, &outcomes, &mut estimator).unwrap_err();
    assert_eq!(
        err,
        RetryError::TimeoutElapsed {
            attempts: 2,
            total_time_ms: 50,
        }
    );
}

#[test]
fn session_steps_and_backoff() {
    // Driving the session by hand: each failed attempt inflates the next
    // timer by the backoff factor, and a success ends the request.
    let mut estimator = default_estimator();
    let mut session = RetrySession::new(0, 2_000_000, 3);

    let t1 = session.attempt_timeout(&estimator);
    match session.record_outcome(AttemptOutcome::Failed { elapsed_ms: 5 }, &mut estimator) {
        RetryDecision::Retry => {}
        _ => panic!("expected a retry after the first failure"),
    }
    let t2 = session.attempt_timeout(&estimator);
    assert!(t2 >= t1);
    match session.record_outcome(AttemptOutcome::Success { elapsed_ms: 80 }, &mut estimator) {
        RetryDecision::Done(report) => {
            assert_eq!(report.attempts, 2);
            assert_eq!(report.success_time_ms, 80);
            assert_eq!(report.total_time_ms, 85);
            assert_eq!(report.est, estimator.get_estimate());
        }
        _ => panic!("expected the request to complete"),
    }
}

#[test]
fn success_feeds_estimator() {
    // A success at a rate far above the seed must move the estimate up.
    let mut estimator = default_estimator();
    let before = estimator.get_estimate();
    let outcomes = vec![AttemptOutcome::Success { elapsed_ms: 100 }];
    // 100 MB in 100 ms: 1e9 bytes/sec observed
    run_with_retries(0, 100_000_000, 1, &outcomes, &mut estimator).unwrap();
    assert!(estimator.get_estimate() > before);
}
