use hidpp::{RetryPolicy, Verdict};

#[test]
fn open_policy() {
    let policy = RetryPolicy::for_open();
    assert_eq!(policy.delay_millis, 10);
    assert_eq!(policy.retries, 5);
}

#[test]
fn write_policy() {
    let policy = RetryPolicy::for_write();
    assert_eq!(policy.delay_millis, 1);
    assert_eq!(policy.retries, 5);
}

#[test]
fn success_ends_the_attempts() {
    for attempt in [1u64, 5, 6, 7, u64::MAX] {
        assert_eq!(RetryPolicy::for_open().decide(attempt, true), Verdict::Succeed);
    }
}

#[test]
fn five_failures_are_retried_and_the_sixth_is_final() {
    let policy = RetryPolicy::for_open();
    for attempt in 1..=5u64 {
        assert_eq!(policy.decide(attempt, false), Verdict::Retry { delay_millis: 10 });
    }
    assert_eq!(policy.decide(6, false), Verdict::Fail);
    assert_eq!(policy.decide(7, false), Verdict::Fail);
    assert_eq!(policy.decide(u64::MAX, false), Verdict::Fail);
    let policy = RetryPolicy::for_write();
    for attempt in 1..=5u64 {
        assert_eq!(policy.decide(attempt, false), Verdict::Retry { delay_millis: 1 });
    }
    assert_eq!(policy.decide(6, false), Verdict::Fail);
}

#[test]
fn a_policy_of_its_own() {
    let policy = RetryPolicy { delay_millis: 250, retries: 0 };
    assert_eq!(policy.decide(1, false), Verdict::Fail);
    let policy = RetryPolicy { delay_millis: 250, retries: 2 };
    assert_eq!(policy.decide(2, false), Verdict::Retry { delay_millis: 250 });
    assert_eq!(policy.decide(3, false), Verdict::Fail);
}
