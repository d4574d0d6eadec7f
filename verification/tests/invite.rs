use matrix_chatgpt::backoff::{Backoff, BackoffPolicy};
use matrix_chatgpt::invite::{
    InviteAutoJoiner, RetryAction, RetryEvent, RetryOutcome, RetryPhase, RetryState,
};
use matrix_chatgpt::room::RoomStatus;

fn joiner() -> InviteAutoJoiner {
    InviteAutoJoiner::new("@bot:example".to_string())
}

#[test]
fn invite_for_someone_else_spawns_nothing() {
    let mut joiner = joiner();
    assert!(joiner.on_invite("!r:example", "@alice:example", RoomStatus::Invited).is_none());
    assert!(!joiner.is_retrying("!r:example"));
    assert!(joiner.on_invite("!r:example", "@alice:example", RoomStatus::Invited).is_none());
    assert!(!joiner.is_retrying("!r:example"));
    assert_eq!(joiner.identity(), "@bot:example");
}

#[test]
fn invite_to_a_room_that_is_not_in_invited_state_spawns_nothing() {
    let mut joiner = joiner();
    assert!(joiner.on_invite("!r:example", "@bot:example", RoomStatus::Joined).is_none());
    assert!(joiner.on_invite("!r:example", "@bot:example", RoomStatus::Left).is_none());
    assert!(!joiner.is_retrying("!r:example"));
}

#[test]
fn invite_for_the_session_identity_spawns_a_fresh_task() {
    let mut joiner = joiner();
    let state = joiner.on_invite("!r:example", "@bot:example", RoomStatus::Invited).unwrap();
    assert_eq!(state.room_id(), "!r:example");
    assert_eq!(state.attempt(), 0);
    assert_eq!(state.next_delay(), 2);
    assert_eq!(state.phase(), RetryPhase::Joining);
    assert!(joiner.is_retrying("!r:example"));
    assert!(!joiner.is_retrying("!other:example"));
}

#[test]
fn second_invite_to_a_retrying_room_spawns_no_duplicate() {
    let mut joiner = joiner();
    assert!(joiner.on_invite("!r:example", "@bot:example", RoomStatus::Invited).is_some());
    assert!(joiner.on_invite("!r:example", "@bot:example", RoomStatus::Invited).is_none());
    assert!(joiner.on_invite("!s:example", "@bot:example", RoomStatus::Invited).is_some());
    assert!(joiner.is_retrying("!r:example"));
    assert!(joiner.is_retrying("!s:example"));
}

#[test]
fn released_room_is_taken_up_again() {
    let mut joiner = joiner();
    assert!(joiner.on_invite("!r:example", "@bot:example", RoomStatus::Invited).is_some());
    assert!(joiner.on_invite("!s:example", "@bot:example", RoomStatus::Invited).is_some());
    joiner.release("!r:example");
    assert!(!joiner.is_retrying("!r:example"));
    assert!(joiner.is_retrying("!s:example"));
    joiner.release("!unknown:example");
    assert!(joiner.is_retrying("!s:example"));
    assert!(joiner.on_invite("!r:example", "@bot:example", RoomStatus::Invited).is_some());
}

#[test]
fn three_failures_then_success_waits_two_four_eight() {
    let mut joiner = joiner();
    let mut state = joiner.on_invite("!r:example", "@bot:example", RoomStatus::Invited).unwrap();
    let outcomes = [false, false, false, true];
    let mut joins = 0;
    let mut waits: Vec<u64> = Vec::new();
    let mut action = RetryAction::Join;
    let outcome = loop {
        let event = match action {
            RetryAction::Join => {
                let joined = outcomes[joins];
                joins += 1;
                if joined {
                    RetryEvent::JoinSucceeded
                } else {
                    RetryEvent::JoinFailed
                }
            }
            RetryAction::Wait(delay) => {
                waits.push(delay);
                RetryEvent::WaitElapsed
            }
            RetryAction::Finish(outcome) => break outcome,
        };
        action = state.step(event);
    };
    assert_eq!(outcome, RetryOutcome::Joined);
    assert_eq!(waits, vec![2, 4, 8]);
    assert_eq!(joins, 4);
    assert_eq!(state.attempt(), 3);
    assert_eq!(state.phase(), RetryPhase::Finished(RetryOutcome::Joined));
    assert_eq!(state.step(RetryEvent::JoinFailed), RetryAction::Finish(RetryOutcome::Joined));
}

#[test]
fn first_join_succeeding_ends_the_task_without_a_wait() {
    let mut state = RetryState::start("!r:example".to_string());
    assert_eq!(state.step(RetryEvent::JoinSucceeded), RetryAction::Finish(RetryOutcome::Joined));
    assert_eq!(state.attempt(), 0);
    assert_eq!(state.next_delay(), 2);
}

#[test]
fn joins_that_never_succeed_end_after_the_wait_of_2048() {
    let mut state = RetryState::start("!r:example".to_string());
    let mut waits: Vec<u64> = Vec::new();
    let mut joins = 0;
    let mut action = RetryAction::Join;
    let outcome = loop {
        let event = match action {
            RetryAction::Join => {
                joins += 1;
                RetryEvent::JoinFailed
            }
            RetryAction::Wait(delay) => {
                waits.push(delay);
                RetryEvent::WaitElapsed
            }
            RetryAction::Finish(outcome) => break outcome,
        };
        action = state.step(event);
    };
    assert_eq!(outcome, RetryOutcome::GaveUp);
    assert_eq!(waits, vec![2, 4, 8, 16, 32, 64, 128, 256, 512, 1024, 2048]);
    assert_eq!(joins, 11);
    assert_eq!(state.attempt(), 11);
    assert_eq!(state.next_delay(), 4096);
    assert_eq!(state.phase(), RetryPhase::Finished(RetryOutcome::GaveUp));
    assert_eq!(state.step(RetryEvent::WaitElapsed), RetryAction::Finish(RetryOutcome::GaveUp));
    assert_eq!(state.next_delay(), 4096);
}

#[test]
fn failed_join_asks_for_the_current_delay_and_keeps_it_until_the_wait_is_over() {
    let mut state = RetryState::start("!r:example".to_string());
    assert_eq!(state.step(RetryEvent::JoinFailed), RetryAction::Wait(2));
    assert_eq!(state.phase(), RetryPhase::Waiting);
    assert_eq!(state.attempt(), 0);
    assert_eq!(state.next_delay(), 2);
    assert_eq!(state.step(RetryEvent::WaitElapsed), RetryAction::Join);
    assert_eq!(state.phase(), RetryPhase::Joining);
    assert_eq!(state.attempt(), 1);
    assert_eq!(state.next_delay(), 4);
}

#[test]
fn report_that_answers_nothing_aborts_the_task() {
    let mut state = RetryState::start("!r:example".to_string());
    assert_eq!(state.step(RetryEvent::WaitElapsed), RetryAction::Finish(RetryOutcome::Aborted));
    assert_eq!(state.phase(), RetryPhase::Finished(RetryOutcome::Aborted));

    let mut state = RetryState::start("!r:example".to_string());
    assert_eq!(state.step(RetryEvent::JoinFailed), RetryAction::Wait(2));
    assert_eq!(state.step(RetryEvent::JoinFailed), RetryAction::Finish(RetryOutcome::Aborted));
    assert_eq!(state.step(RetryEvent::WaitElapsed), RetryAction::Finish(RetryOutcome::Aborted));

    let mut state = RetryState::start("!r:example".to_string());
    assert_eq!(state.step(RetryEvent::JoinFailed), RetryAction::Wait(2));
    assert_eq!(state.step(RetryEvent::JoinSucceeded), RetryAction::Finish(RetryOutcome::Aborted));
}

#[test]
fn fresh_task_begins_with_a_join() {
    let mut joiner = joiner();
    let state = joiner.on_invite("!r:example", "@bot:example", RoomStatus::Invited).unwrap();
    assert_eq!(state.pending_action(), RetryAction::Join);
    assert_eq!(RetryState::start("!r:example".to_string()).pending_action(), RetryAction::Join);
}

#[test]
fn pending_action_is_what_the_last_step_returned() {
    let mut state = RetryState::start("!r:example".to_string());
    let reports = [
        RetryEvent::JoinFailed,
        RetryEvent::WaitElapsed,
        RetryEvent::JoinFailed,
        RetryEvent::WaitElapsed,
        RetryEvent::JoinSucceeded,
        RetryEvent::JoinFailed,
    ];
    let expected = [
        RetryAction::Wait(2),
        RetryAction::Join,
        RetryAction::Wait(4),
        RetryAction::Join,
        RetryAction::Finish(RetryOutcome::Joined),
        RetryAction::Finish(RetryOutcome::Joined),
    ];
    for (report, action) in reports.into_iter().zip(expected) {
        assert_eq!(state.step(report), action);
        assert_eq!(state.pending_action(), action);
    }
}

#[test]
fn task_runs_from_its_pending_action_as_the_policy_says() {
    let mut state = RetryState::start("!r:example".to_string());
    let mut action = state.pending_action();
    let mut doublings: u64 = 0;
    loop {
        let report = match action {
            RetryAction::Join => RetryEvent::JoinFailed,
            RetryAction::Wait(delay) => {
                assert_eq!(BackoffPolicy::decide(doublings), Backoff::Wait(delay));
                doublings += 1;
                RetryEvent::WaitElapsed
            }
            RetryAction::Finish(outcome) => {
                assert_eq!(outcome, RetryOutcome::GaveUp);
                assert_eq!(BackoffPolicy::decide(doublings), Backoff::GiveUp);
                break;
            }
        };
        action = state.step(report);
        assert_eq!(state.attempt(), doublings);
    }
    assert_eq!(doublings, 11);
}
