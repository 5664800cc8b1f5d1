use canvas::retry::{
    drive_call, retry_decision, backoff_bound_millis, draw_backoff_millis, Admission, CallOutcome,
    RetryDecision, MAX_RETRIES, REQUEST_CONCURRENCY,
};

#[test]
fn retry_two_transient_then_success_takes_three_attempts() {
    let statuses = vec![403u16, 403, 200];
    let outcome = drive_call(&statuses);
    assert_eq!(outcome, CallOutcome::Accepted { attempts: 3, status: 200 });
}

#[test]
fn retry_all_transient_exhausts_after_four_attempts() {
    let statuses = vec![403u16, 403, 403, 403];
    let outcome = drive_call(&statuses);
    assert_eq!(outcome, CallOutcome::Exhausted { attempts: 4 });
}

#[test]
fn retry_first_attempt_can_succeed() {
    let statuses = vec![200u16];
    let outcome = drive_call(&statuses);
    assert_eq!(outcome, CallOutcome::Accepted { attempts: 1, status: 200 });
}

#[test]
fn retry_non_transient_error_is_accepted_immediately() {
    // a 500 is not of the rate-limit class: returned to the caller at once
    let statuses = vec![500u16, 200];
    let outcome = drive_call(&statuses);
    assert_eq!(outcome, CallOutcome::Accepted { attempts: 1, status: 500 });
}

#[test]
fn retry_budget_ignores_responses_past_the_fourth() {
    let statuses = vec![403u16, 403, 403, 403, 200];
    let outcome = drive_call(&statuses);
    assert_eq!(outcome, CallOutcome::Exhausted { attempts: 4 });
}

#[test]
fn retry_no_responses_no_attempts() {
    let statuses: Vec<u16> = Vec::new();
    let outcome = drive_call(&statuses);
    assert_eq!(outcome, CallOutcome::Exhausted { attempts: 0 });
}

#[test]
fn retry_decision_accepts_success() {
    assert_eq!(retry_decision(0, 200), RetryDecision::Accept);
    assert_eq!(retry_decision(2, 404), RetryDecision::Accept);
}

#[test]
fn retry_decision_backs_off_on_transient() {
    assert_eq!(retry_decision(0, 403), RetryDecision::Backoff { retry: 0 });
    assert_eq!(retry_decision(2, 403), RetryDecision::Backoff { retry: 2 });
}

#[test]
fn retry_decision_gives_up_after_budget() {
    assert_eq!(retry_decision(MAX_RETRIES, 403), RetryDecision::GiveUp);
}

#[test]
fn backoff_bounds_double_per_retry() {
    assert_eq!(backoff_bound_millis(0), 1000);
    assert_eq!(backoff_bound_millis(1), 2000);
    assert_eq!(backoff_bound_millis(2), 4000);
}

#[test]
fn backoff_draws_stay_below_their_bound() {
    for _ in 0..100 {
        assert!(draw_backoff_millis(0) < 1000);
        assert!(draw_backoff_millis(1) < 2000);
        assert!(draw_backoff_millis(2) < 4000);
    }
}

#[test]
fn admission_never_exceeds_its_bound() {
    let mut pool = Admission::new(2);
    assert!(pool.try_acquire());
    assert!(pool.try_acquire());
    assert!(!pool.try_acquire());
    assert_eq!(pool.in_flight, 2);
    pool.release();
    assert!(pool.try_acquire());
    assert_eq!(pool.in_flight, 2);
}

#[test]
fn admission_close_marks_the_pool() {
    let mut pool = Admission::new(REQUEST_CONCURRENCY);
    assert!(pool.try_acquire());
    pool.release();
    pool.close();
    assert!(pool.closed);
}
