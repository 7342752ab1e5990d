use collab_store::retry::{RetryStep, TransactionRetry};

#[test]
fn defaults_match_the_documented_policy() {
    let retry = TransactionRetry::new();
    assert_eq!(retry.timeout_ms, 2000);
    assert_eq!(retry.retry_interval_ms, 50);
    assert_eq!(retry.elapsed_ms, 0);
}

#[test]
fn a_successful_try_is_granted_immediately() {
    let mut retry = TransactionRetry::new();
    assert!(matches!(retry.step_bounded(true), RetryStep::Granted));
    assert!(matches!(retry.step_blocking(true), RetryStep::Granted));
    assert_eq!(retry.elapsed_ms, 0);
}

#[test]
fn bounded_acquisition_times_out_after_the_deadline() {
    let mut retry = TransactionRetry::new();
    let mut waits: u64 = 0;
    loop {
        match retry.step_bounded(false) {
            RetryStep::Wait => waits += 1,
            RetryStep::TimedOut => break,
            _ => panic!("unexpected step"),
        }
        assert!(waits <= 100, "never reached the deadline");
    }
    // 2000 ms deadline at 50 ms per poll: 40 sleeps, then the timeout.
    assert_eq!(waits, 40);
    assert_eq!(retry.elapsed_ms, 2000);
}

#[test]
fn blocking_acquisition_falls_back_instead_of_failing() {
    let mut retry = TransactionRetry::with_policy(100, 50);
    assert!(matches!(retry.step_blocking(false), RetryStep::Wait));
    assert!(matches!(retry.step_blocking(false), RetryStep::Wait));
    assert!(matches!(retry.step_blocking(false), RetryStep::FallbackBlocking));
    assert!(matches!(retry.step_blocking(false), RetryStep::FallbackBlocking));
}

#[test]
fn a_grant_within_the_deadline_stops_the_polling() {
    let mut retry = TransactionRetry::with_policy(100, 50);
    assert!(matches!(retry.step_bounded(false), RetryStep::Wait));
    assert!(matches!(retry.step_bounded(true), RetryStep::Granted));
    assert_eq!(retry.elapsed_ms, 50);
}
