use chunk_embed::retry::{BackoffRetrier, RetryDecision, INITIAL_DELAY_MS, MAX_ATTEMPTS};

#[test]
fn constants_match_policy() {
    assert_eq!(MAX_ATTEMPTS, 3);
    assert_eq!(INITIAL_DELAY_MS, 100);
}

#[test]
fn fresh_retrier_waits_initial_delay_then_doubles() {
    let mut retrier = BackoffRetrier::new();
    assert_eq!(retrier.attempts_failed, 0);
    assert_eq!(retrier.delay_ms, 100);
    assert!(matches!(
        retrier.on_failure(),
        RetryDecision::Retry { delay_ms: 100 }
    ));
    assert_eq!(retrier.delay_ms, 200);
    assert!(matches!(
        retrier.on_failure(),
        RetryDecision::Retry { delay_ms: 200 }
    ));
}

#[test]
fn gives_up_after_budget() {
    let mut retrier = BackoffRetrier::new();
    assert!(matches!(retrier.on_failure(), RetryDecision::Retry { .. }));
    assert!(matches!(retrier.on_failure(), RetryDecision::Retry { .. }));
    // The third failure exhausts the budget of three invocations.
    assert!(matches!(retrier.on_failure(), RetryDecision::GiveUp));
    // Asking again does not revive the operation.
    assert!(matches!(retrier.on_failure(), RetryDecision::GiveUp));
}
