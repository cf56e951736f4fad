use leadforge::retry::{backoff_delay_ms, RetryState, RetryStep};
use leadforge::{HackerNewsItem, LeadForgeError, NetworkFailure};

fn failure(timeout: bool, connect: bool, request: bool, status: Option<u16>) -> LeadForgeError {
    LeadForgeError::NetworkError(NetworkFailure {
        timeout,
        connect,
        request,
        status,
        message: "boom".to_string(),
    })
}

#[test]
fn retryable_errors() {
    assert!(failure(true, false, false, None).is_retryable());
    assert!(failure(false, true, false, None).is_retryable());
    assert!(failure(false, false, true, None).is_retryable());
    assert!(failure(false, false, false, Some(500)).is_retryable());
    assert!(failure(false, false, false, Some(503)).is_retryable());
    assert!(failure(false, false, false, Some(599)).is_retryable());
    assert!(failure(false, false, false, Some(429)).is_retryable());
}

#[test]
fn non_retryable_errors() {
    assert!(!failure(false, false, false, None).is_retryable());
    assert!(!failure(false, false, false, Some(404)).is_retryable());
    assert!(!failure(false, false, false, Some(600)).is_retryable());
    assert!(!failure(false, false, false, Some(499)).is_retryable());
    assert!(!failure(false, false, false, Some(200)).is_retryable());
}

#[test]
fn error_message() {
    assert_eq!(failure(true, false, false, None).message(), "boom");
}

#[test]
fn backoff_values() {
    assert_eq!(backoff_delay_ms(1, 0), 200);
    assert_eq!(backoff_delay_ms(1, 5), 205);
    assert_eq!(backoff_delay_ms(2, 99), 499);
    assert_eq!(backoff_delay_ms(6, 99), 6499);
    assert_eq!(backoff_delay_ms(7, 0), 10_000);
    assert_eq!(backoff_delay_ms(57, 99), 10_000);
    assert_eq!(backoff_delay_ms(0, 0), 100);
    assert_eq!(backoff_delay_ms(58, 0), 10_000);
    assert_eq!(backoff_delay_ms(64, 0), 10_000);
    assert_eq!(backoff_delay_ms(usize::MAX, 99), 10_000);
    assert_eq!(backoff_delay_ms(6, 3_599), 9_999);
    assert_eq!(backoff_delay_ms(6, 3_600), 10_000);
    assert_eq!(backoff_delay_ms(0, u64::MAX), 10_000);
}

#[test]
fn backoff_never_shrinks_and_is_capped() {
    for jitter in [0u64, 1, 50, 99] {
        let mut last = 0;
        for retries in 1..=200usize {
            let d = backoff_delay_ms(retries, jitter);
            assert!(d >= last);
            assert!((200..=10_000).contains(&d));
            last = d;
        }
    }
}

#[test]
fn success_is_not_retried() {
    let mut s = RetryState::new(3);
    let step = s.step_with_jitter(Ok(HackerNewsItem::Other), 0);
    assert_eq!(step, RetryStep::Finish(Ok(HackerNewsItem::Other)));
    assert_eq!(s.retries, 0);
}

#[test]
fn non_retryable_failure_is_not_retried() {
    let mut s = RetryState::new(3);
    let e = failure(false, false, false, Some(404));
    let step = s.step_with_jitter(Err(e.clone()), 0);
    assert_eq!(step, RetryStep::Finish(Err(e)));
    assert_eq!(s.retries, 0);
}

#[test]
fn retries_run_out() {
    let mut s = RetryState::new(2);
    let e = failure(true, false, false, None);
    assert_eq!(s.step_with_jitter(Err(e.clone()), 7), RetryStep::Wait(207));
    assert_eq!(s.retries, 1);
    assert_eq!(s.step_with_jitter(Err(e.clone()), 3), RetryStep::Wait(403));
    assert_eq!(s.retries, 2);
    assert_eq!(s.step_with_jitter(Err(e.clone()), 3), RetryStep::Finish(Err(e)));
    assert_eq!(s.retries, 2);
}

#[test]
fn no_retries_allowed() {
    let mut s = RetryState::new(0);
    let e = failure(true, false, false, None);
    assert_eq!(s.step(Err(e.clone())), RetryStep::Finish(Err(e)));
}

#[test]
fn random_jitter_stays_in_range() {
    for _ in 0..200 {
        let mut s = RetryState::new(1);
        match s.step(Err(failure(false, true, false, None))) {
            RetryStep::Wait(d) => assert!((200..300).contains(&d)),
            other => panic!("unexpected {other:?}"),
        }
    }
}

#[test]
fn attempts_are_bounded() {
    for max in 0..6usize {
        let mut s = RetryState::new(max);
        let mut attempts = 0;
        loop {
            attempts += 1;
            let e = failure(false, false, false, Some(503));
            match s.step_with_jitter(Err(e), 0) {
                RetryStep::Wait(_) => {}
                RetryStep::Finish(_) => break,
            }
        }
        assert_eq!(attempts, max + 1);
    }
}

#[test]
fn late_retries_wait_the_cap() {
    let mut s = RetryState { max_retries: 100, retries: 60 };
    let e = failure(true, false, false, None);
    assert_eq!(s.step_with_jitter(Err(e.clone()), 42), RetryStep::Wait(10_000));
    assert_eq!(s.retries, 61);
    match s.step(Err(e)) {
        RetryStep::Wait(d) => assert_eq!(d, 10_000),
        other => panic!("unexpected {other:?}"),
    }
}
