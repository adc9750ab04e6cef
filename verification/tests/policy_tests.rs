use xau_tray::backoff::BackoffController;
use xau_tray::display::advance_rotate;
use xau_tray::error::FetchError;
use xau_tray::failover::FailoverFetcher;

#[test]
fn backoff_sequence_for_repeated_failures() {
    let mut b = BackoffController::new();
    assert_eq!(b.seconds, 0);
    let expected = [30u64, 60, 120, 240, 300, 300, 300];
    for e in expected {
        b.on_result(false, 10);
        assert_eq!(b.seconds, e);
    }
    b.on_result(true, 10);
    assert_eq!(b.seconds, 0);
}

#[test]
fn backoff_is_floored_at_the_base_interval() {
    let mut b = BackoffController::new();
    b.seconds = 4;
    b.on_result(false, 10);
    // 4 doubled is 8, below the base interval, so the floor applies.
    assert_eq!(b.seconds, 10);
}

#[test]
fn effective_delay_prefers_backoff() {
    let mut b = BackoffController::new();
    assert_eq!(b.effective_delay(10), 10);
    b.on_result(false, 10);
    assert_eq!(b.effective_delay(10), 30);
}

#[test]
fn failover_starts_at_index_and_reports_success_index() {
    // Credentials [A, B, C], start at 1, only C succeeds: attempts B then
    // C, two attempts in all, success index 2.
    let mut f: FailoverFetcher<&str> = FailoverFetcher::new(3, 1).unwrap();
    let mut attempts = Vec::new();
    loop {
        match f.next_attempt() {
            Some(i) => {
                attempts.push(i);
                if i == 2 {
                    f.record_success("payload");
                } else {
                    f.record_failure(FetchError::new(format!("fail {}", i)));
                }
            },
            None => break,
        }
    }
    assert_eq!(attempts, vec![1, 2]);
    match f.finish() {
        Ok((payload, idx)) => {
            assert_eq!(payload, "payload");
            assert_eq!(idx, 2);
        },
        Err(_) => panic!("expected success"),
    }
}

#[test]
fn failover_returns_the_last_error_when_all_fail() {
    let mut f: FailoverFetcher<()> = FailoverFetcher::new(2, 0).unwrap();
    let mut attempts = Vec::new();
    while let Some(i) = f.next_attempt() {
        attempts.push(i);
        f.record_failure(FetchError::new(format!("error from {}", i)));
    }
    assert_eq!(attempts, vec![0, 1]);
    match f.finish() {
        Ok(_) => panic!("expected failure"),
        Err(e) => assert_eq!(e.detail, "error from 1"),
    }
}

#[test]
fn failover_refuses_an_empty_credential_list() {
    assert!(FailoverFetcher::<()>::new(0, 0).is_none());
}

#[test]
fn failover_resets_an_out_of_range_start() {
    let f: FailoverFetcher<()> = FailoverFetcher::new(2, 7).unwrap();
    assert_eq!(f.next_attempt(), Some(0));
}

#[test]
fn rotation_advance_wraps_and_stays_in_range() {
    assert_eq!(advance_rotate(0, 3), 1);
    assert_eq!(advance_rotate(1, 3), 2);
    assert_eq!(advance_rotate(2, 3), 0);
    let mut i = 0;
    for _ in 0..10 {
        i = advance_rotate(i, 3);
        assert!(i < 3);
    }
}
