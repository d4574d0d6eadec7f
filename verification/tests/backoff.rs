use matrix_chatgpt::backoff::{Backoff, BackoffPolicy, DELAY_CEILING, INITIAL_DELAY};

#[test]
fn first_delay_is_two_seconds() {
    assert_eq!(INITIAL_DELAY, 2);
    assert_eq!(BackoffPolicy::decide(0), Backoff::Wait(2));
}

#[test]
fn delay_doubles_with_every_attempt() {
    let mut expected: u64 = 2;
    for doublings in 0..11u64 {
        assert_eq!(BackoffPolicy::decide(doublings), Backoff::Wait(expected));
        expected *= 2;
    }
}

#[test]
fn delay_is_two_to_the_attempt_plus_one() {
    assert_eq!(BackoffPolicy::decide(1), Backoff::Wait(4));
    assert_eq!(BackoffPolicy::decide(2), Backoff::Wait(8));
    assert_eq!(BackoffPolicy::decide(5), Backoff::Wait(64));
    assert_eq!(BackoffPolicy::decide(10), Backoff::Wait(2048));
}

#[test]
fn gives_up_once_the_delay_passes_the_ceiling() {
    assert_eq!(DELAY_CEILING, 3600);
    assert_eq!(BackoffPolicy::decide(10), Backoff::Wait(2048));
    assert_eq!(BackoffPolicy::decide(11), Backoff::GiveUp);
    assert_eq!(BackoffPolicy::decide(12), Backoff::GiveUp);
}

#[test]
fn gives_up_for_attempt_counts_beyond_any_machine_word() {
    assert_eq!(BackoffPolicy::decide(63), Backoff::GiveUp);
    assert_eq!(BackoffPolicy::decide(64), Backoff::GiveUp);
    assert_eq!(BackoffPolicy::decide(u64::MAX), Backoff::GiveUp);
}
