//! Accepting invitations, with retries.
//!
//! A homeserver may announce an invitation before the invited user is able
//! to join, so a refused join is retried: after 2 seconds, then 4, then 8,
//! doubling until the delay would pass one hour. The caller performs the
//! joins and the waits; [`RetryState::step`] decides what comes next.

use crate::backoff::{
    delay_after, gives_up_after, lemma_delay_is_power_of_two, lemma_gives_up_iff_past_ceiling,
    Backoff, BackoffPolicy, DELAY_CEILING, INITIAL_DELAY,
};
use crate::room::RoomStatus;
use crate::text::{contains_text, same_text};
use vstd::arithmetic::power2::{lemma2_to64, lemma_pow2_strictly_increases, pow2};
use vstd::prelude::*;

verus! {

/// How a retry task ended.
#[derive(Clone, Copy, Debug, PartialEq, Eq, Structural)]
pub enum RetryOutcome {
    /// The invitation was accepted.
    Joined,
    /// The delay passed the ceiling; the room is never joined.
    GaveUp,
    /// The caller reported something that could not have happened.
    Aborted,
}

/// Where a retry task stands.
#[derive(Clone, Copy, Debug, PartialEq, Eq, Structural)]
pub enum RetryPhase {
    /// A join is under way.
    Joining,
    /// The last join failed and the delay is being waited out.
    Waiting,
    /// Nothing more will be done.
    Finished(RetryOutcome),
}

/// What the caller reports back to a retry task.
#[derive(Clone, Copy, Debug, PartialEq, Eq, Structural)]
pub enum RetryEvent {
    JoinSucceeded,
    JoinFailed,
    WaitElapsed,
}

/// What a retry task asks of the caller.
#[derive(Clone, Copy, Debug, PartialEq, Eq, Structural)]
pub enum RetryAction {
    /// Accept the invitation and report how it went.
    Join,
    /// Report the failure, wait this many seconds and report back.
    Wait(u64),
    /// Report the outcome and end the task.
    Finish(RetryOutcome),
}

/// How far a retry task has come.
#[derive(Clone, Copy, Debug, PartialEq, Eq, Structural)]
struct Progress {
    attempt: u64,
    next_delay: u64,
    phase: RetryPhase,
}

/// The retry task of one invitation.
#[derive(Debug)]
pub struct RetryState {
    room_id: String,
    progress: Progress,
}

/// What a [`RetryState`] holds, as plain values.
pub struct RetryView {
    pub room_id: Seq<char>,
    /// Times the delay has been doubled: once for each failed join whose
    /// wait is over.
    pub attempt: nat,
    /// Seconds that the wait after a failed join lasts; while waiting, the
    /// seconds of the wait under way.
    pub next_delay: nat,
    pub phase: RetryPhase,
}

/// The state in which every retry task starts.
pub open spec fn fresh_retry(room_id: Seq<char>) -> RetryView {
    RetryView {
        room_id,
        attempt: 0,
        next_delay: INITIAL_DELAY as nat,
        phase: RetryPhase::Joining,
    }
}

/// A state that a retry task can be in: the delay is the initial one doubled
/// `attempt` times, and the task goes on exactly as long as that delay is
/// within the ceiling.
pub open spec fn retry_wf(state: RetryView) -> bool {
    &&& state.next_delay == delay_after(state.attempt)
    &&& state.phase == RetryPhase::Finished(RetryOutcome::GaveUp) ==> gives_up_after(state.attempt)
    &&& state.phase != RetryPhase::Finished(RetryOutcome::GaveUp) ==> !gives_up_after(
        state.attempt,
    )
}

/// What a retry task in a given state is waiting for the caller to do.
pub open spec fn awaited(state: RetryView) -> RetryAction {
    match state.phase {
        RetryPhase::Joining => RetryAction::Join,
        RetryPhase::Waiting => RetryAction::Wait(state.next_delay as u64),
        RetryPhase::Finished(outcome) => RetryAction::Finish(outcome),
    }
}

/// One step of a retry task: the state after `event`, and what to do next.
///
/// A successful join ends the task. A failed join is followed by a wait of
/// the current delay. After the wait the delay doubles; if it then exceeds
/// the ceiling the task gives up, otherwise the join is tried again. A
/// finished task stays finished, and an event that does not answer the
/// pending action aborts the task.
pub open spec fn retry_step(state: RetryView, event: RetryEvent) -> (RetryView, RetryAction) {
    match (state.phase, event) {
        (RetryPhase::Finished(outcome), _) => (state, RetryAction::Finish(outcome)),
        (RetryPhase::Joining, RetryEvent::JoinSucceeded) => (
            RetryView { phase: RetryPhase::Finished(RetryOutcome::Joined), ..state },
            RetryAction::Finish(RetryOutcome::Joined),
        ),
        (RetryPhase::Joining, RetryEvent::JoinFailed) => (
            RetryView { phase: RetryPhase::Waiting, ..state },
            RetryAction::Wait(state.next_delay as u64),
        ),
        (RetryPhase::Waiting, RetryEvent::WaitElapsed) => {
            let doubled = 2 * state.next_delay;
            if doubled > DELAY_CEILING {
                (
                    RetryView {
                        attempt: state.attempt + 1,
                        next_delay: doubled,
                        phase: RetryPhase::Finished(RetryOutcome::GaveUp),
                        ..state
                    },
                    RetryAction::Finish(RetryOutcome::GaveUp),
                )
            } else {
                (
                    RetryView {
                        attempt: state.attempt + 1,
                        next_delay: doubled,
                        phase: RetryPhase::Joining,
                        ..state
                    },
                    RetryAction::Join,
                )
            }
        },
        _ => (
            RetryView { phase: RetryPhase::Finished(RetryOutcome::Aborted), ..state },
            RetryAction::Finish(RetryOutcome::Aborted),
        ),
    }
}

impl View for RetryState {
    type V = RetryView;

    closed spec fn view(&self) -> RetryView {
        RetryView {
            room_id: self.room_id@,
            attempt: self.progress.attempt as nat,
            next_delay: self.progress.next_delay as nat,
            phase: self.progress.phase,
        }
    }
}

impl RetryState {
    #[verifier::type_invariant]
    spec fn inv(self) -> bool {
        retry_wf(self@)
    }

    /// The retry task for a fresh invitation to `room_id`. It begins with a
    /// join: see [`RetryState::pending_action`].
    pub fn start(room_id: String) -> (state: RetryState)
        ensures
            state@ == fresh_retry(room_id@),
            retry_wf(state@),
    {
        RetryState {
            room_id,
            progress: Progress { attempt: 0, next_delay: INITIAL_DELAY, phase: RetryPhase::Joining },
        }
    }

    /// The room that is to be joined.
    pub fn room_id(&self) -> (id: &str)
        ensures
            id@ == self@.room_id,
    {
        self.room_id.as_str()
    }

    /// The number of times the delay has been doubled: once for each failed
    /// join whose wait is over.
    pub fn attempt(&self) -> (n: u64)
        ensures
            n == self@.attempt,
    {
        self.progress.attempt
    }

    /// The delay, in seconds, that follows a failed join; while waiting, the
    /// delay under way.
    pub fn next_delay(&self) -> (seconds: u64)
        ensures
            seconds == self@.next_delay,
            seconds == delay_after(self@.attempt),
    {
        proof {
            use_type_invariant(self);
        }
        self.progress.next_delay
    }

    /// Where the task stands.
    pub fn phase(&self) -> (phase: RetryPhase)
        ensures
            phase == self@.phase,
    {
        self.progress.phase
    }

    /// What the task is waiting for the caller to do. For a task that has
    /// just been started this is [`RetryAction::Join`]; after a step it is
    /// the action that the step returned.
    pub fn pending_action(&self) -> (action: RetryAction)
        ensures
            action == awaited(self@),
    {
        match self.progress.phase {
            RetryPhase::Joining => RetryAction::Join,
            RetryPhase::Waiting => RetryAction::Wait(self.progress.next_delay),
            RetryPhase::Finished(outcome) => RetryAction::Finish(outcome),
        }
    }

    /// Takes in what the caller reports and says what to do next. Whether
    /// to go on after a wait, and with what delay, is the backoff policy's
    /// decision.
    pub fn step(&mut self, event: RetryEvent) -> (action: RetryAction)
        ensures
            (final(self)@, action) == retry_step(old(self)@, event),
            retry_wf(final(self)@),
    {
        proof {
            use_type_invariant(&*self);
            lemma_step_keeps_wf(self@, event);
        }
        let now = self.progress;
        let (phase, action) = match now.phase {
            RetryPhase::Finished(outcome) => (now.phase, RetryAction::Finish(outcome)),
            RetryPhase::Joining => match event {
                RetryEvent::JoinSucceeded => finished(RetryOutcome::Joined),
                RetryEvent::JoinFailed => (RetryPhase::Waiting, RetryAction::Wait(now.next_delay)),
                RetryEvent::WaitElapsed => finished(RetryOutcome::Aborted),
            },
            RetryPhase::Waiting => match event {
                RetryEvent::WaitElapsed => {
                    proof {
                        lemma_gives_up_iff_past_ceiling(now.attempt as nat);
                    }
                    let attempt = now.attempt + 1;
                    let (next_delay, (phase, action)) = match BackoffPolicy::decide(attempt) {
                        Backoff::Wait(delay) => (delay, (RetryPhase::Joining, RetryAction::Join)),
                        // The policy names no delay once it gives up; the
                        // one that passed the ceiling is kept on record.
                        Backoff::GiveUp => (2 * now.next_delay, finished(RetryOutcome::GaveUp)),
                    };
                    self.progress = Progress { attempt, next_delay, phase };
                    return action;
                },
                _ => finished(RetryOutcome::Aborted),
            },
        };
        self.progress = Progress { phase, ..now };
        action
    }
}

/// The phase and the action with which a task ends.
fn finished(outcome: RetryOutcome) -> (end: (RetryPhase, RetryAction))
    ensures
        end == (RetryPhase::Finished(outcome), RetryAction::Finish(outcome)),
{
    (RetryPhase::Finished(outcome), RetryAction::Finish(outcome))
}

/// A step leads from a well-formed state to a well-formed state.
pub proof fn lemma_step_keeps_wf(state: RetryView, event: RetryEvent)
    requires
        retry_wf(state),
    ensures
        retry_wf(retry_step(state, event).0),
{
}

/// What a step returns is what the state it leads to is waiting for.
pub proof fn lemma_step_returns_what_is_awaited(state: RetryView, event: RetryEvent)
    ensures
        retry_step(state, event).1 == awaited(retry_step(state, event).0),
{
}

/// The retry task follows the backoff policy. With the delay doubled `n`
/// times, a failed join is followed by a wait of 2 to the power `n + 1`
/// seconds, which is at most 2048; once that wait is over the task gives up
/// exactly when the policy does for `n + 1` doublings, and joins again
/// otherwise.
pub proof fn lemma_retry_follows_policy(state: RetryView, event: RetryEvent)
    requires
        retry_wf(state),
    ensures
        retry_step(state, event).1 is Wait ==> retry_step(state, event).1 == RetryAction::Wait(
            pow2(state.attempt + 1) as u64,
        ) && pow2(state.attempt + 1) <= 2048 && state.attempt <= 10,
        state.phase == RetryPhase::Waiting && event == RetryEvent::WaitElapsed ==> retry_step(
            state,
            event,
        ).1 == if gives_up_after(state.attempt + 1) {
            RetryAction::Finish(RetryOutcome::GaveUp)
        } else {
            RetryAction::Join
        },
{
    lemma_delay_is_power_of_two(state.attempt);
    lemma_gives_up_iff_past_ceiling(state.attempt);
    lemma2_to64();
    if state.attempt < 10 {
        lemma_pow2_strictly_increases(state.attempt + 1, 11);
    }
}

/// Everything a retry task asks for while it is fed the given reports.
pub open spec fn retry_actions(state: RetryView, events: Seq<RetryEvent>) -> Seq<RetryAction>
    decreases events.len(),
{
    if events.len() == 0 {
        Seq::empty()
    } else {
        let (next, action) = retry_step(state, events[0]);
        seq![action] + retry_actions(next, events.drop_first())
    }
}

/// The reports of a caller whose joins fail `failures` times and then
/// succeed: each failure is followed by the end of its wait.
pub open spec fn failures_then_success(failures: nat) -> Seq<RetryEvent>
    decreases failures,
{
    if failures == 0 {
        seq![RetryEvent::JoinSucceeded]
    } else {
        seq![RetryEvent::JoinFailed, RetryEvent::WaitElapsed] + failures_then_success(
            (failures - 1) as nat,
        )
    }
}

/// A wait and a new join for each of `failures` failures, the first wait
/// being the delay after `doublings` doublings and each next one twice as
/// long; then the end of the task.
pub open spec fn waits_then_joined(doublings: nat, failures: nat) -> Seq<RetryAction>
    decreases failures,
{
    if failures == 0 {
        seq![RetryAction::Finish(RetryOutcome::Joined)]
    } else {
        seq![RetryAction::Wait(delay_after(doublings) as u64), RetryAction::Join]
            + waits_then_joined(doublings + 1, (failures - 1) as nat)
    }
}

/// A task whose joins fail a number of times and then succeed waits once
/// after each failure, for 2, 4, 8, ... seconds, joins again after each
/// wait, and ends as joined with nothing after it. This holds as long as
/// no more than ten joins fail in all; the wait after an eleventh failure
/// ends the task.
pub proof fn lemma_failures_then_success(state: RetryView, failures: nat)
    requires
        retry_wf(state),
        state.phase == RetryPhase::Joining,
        state.attempt + failures <= 10,
    ensures
        retry_actions(state, failures_then_success(failures)) == waits_then_joined(
            state.attempt,
            failures,
        ),
    decreases failures,
{
    let events = failures_then_success(failures);
    if failures == 0 {
        let joined = retry_step(state, RetryEvent::JoinSucceeded).0;
        assert(retry_actions(joined, events.drop_first()) =~= Seq::<RetryAction>::empty());
    } else {
        let rest = failures_then_success((failures - 1) as nat);
        let waiting = retry_step(state, RetryEvent::JoinFailed).0;
        let (joining, join) = retry_step(waiting, RetryEvent::WaitElapsed);
        lemma_retry_follows_policy(state, RetryEvent::JoinFailed);
        lemma_step_keeps_wf(state, RetryEvent::JoinFailed);
        lemma_retry_follows_policy(waiting, RetryEvent::WaitElapsed);
        lemma_step_keeps_wf(waiting, RetryEvent::WaitElapsed);
        lemma_gives_up_iff_past_ceiling(state.attempt + 1);
        assert(events.drop_first().drop_first() =~= rest);
        lemma_failures_then_success(joining, (failures - 1) as nat);
        assert(retry_actions(waiting, events.drop_first()) == seq![join] + retry_actions(
            joining,
            rest,
        ));
    }
}

/// Decides which invitations are taken up. Holds the session identity and the
/// rooms for which a retry task is running, so that no room has two.
#[derive(Debug)]
pub struct InviteAutoJoiner {
    identity: String,
    retrying: Vec<String>,
}

/// What an [`InviteAutoJoiner`] holds, as plain values.
pub struct JoinerView {
    pub identity: Seq<char>,
    /// The rooms with a running retry task.
    pub retrying: Set<Seq<char>>,
}

/// Whether an invitation starts a retry task: it must be addressed to the
/// session identity, the room must still be in the invited state, and no task
/// may be running for the room.
pub open spec fn takes_up(
    joiner: JoinerView,
    room_id: Seq<char>,
    invitee: Seq<char>,
    status: RoomStatus,
) -> bool {
    &&& invitee == joiner.identity
    &&& status == RoomStatus::Invited
    &&& !joiner.retrying.contains(room_id)
}

/// No room has two retry tasks: while the task that an invitation started
/// is running, no further invitation to the same room is taken up, whoever
/// it is addressed to and whatever the room's state.
pub proof fn lemma_one_task_per_room(
    joiner: JoinerView,
    room_id: Seq<char>,
    invitee: Seq<char>,
    status: RoomStatus,
)
    ensures
        !takes_up(
            JoinerView { retrying: joiner.retrying.insert(room_id), ..joiner },
            room_id,
            invitee,
            status,
        ),
{
}

impl View for InviteAutoJoiner {
    type V = JoinerView;

    closed spec fn view(&self) -> JoinerView {
        JoinerView { identity: self.identity@, retrying: self.retrying.deep_view().to_set() }
    }
}

impl InviteAutoJoiner {
    /// A joiner for the given session identity, with no task running.
    pub fn new(identity: String) -> (joiner: InviteAutoJoiner)
        ensures
            joiner@ == (JoinerView { identity: identity@, retrying: Set::empty() }),
    {
        let joiner = InviteAutoJoiner { identity, retrying: Vec::new() };
        assert(joiner@.retrying =~= Set::empty());
        joiner
    }

    /// The session identity.
    pub fn identity(&self) -> (identity: &str)
        ensures
            identity@ == self@.identity,
    {
        self.identity.as_str()
    }

    /// Whether a retry task is running for `room_id`.
    pub fn is_retrying(&self, room_id: &str) -> (running: bool)
        ensures
            running == self@.retrying.contains(room_id@),
    {
        contains_text(&self.retrying, room_id)
    }

    /// Handles an invitation to `room_id` addressed to `invitee`, where the
    /// session reports `status` for the room. Returns the retry task to run,
    /// or `None` where the invitation is ignored; then nothing changes.
    pub fn on_invite(&mut self, room_id: &str, invitee: &str, status: RoomStatus) -> (spawned:
        Option<RetryState>)
        ensures
            spawned is Some <==> takes_up(old(self)@, room_id@, invitee@, status),
            spawned matches Some(state) ==> state@ == fresh_retry(room_id@) && final(self)@ == (
            JoinerView { retrying: old(self)@.retrying.insert(room_id@), ..old(self)@ }),
            spawned is None ==> final(self)@ == old(self)@,
    {
        if !same_text(invitee, self.identity.as_str()) {
            return None;
        }
        match status {
            RoomStatus::Invited => {},
            _ => {
                return None;
            },
        }
        if contains_text(&self.retrying, room_id) {
            return None;
        }
        let ghost before = self.retrying.deep_view();
        self.retrying.push(room_id.to_owned());
        assert(self.retrying.deep_view() =~= before.push(room_id@));
        assert(self@.retrying =~= old(self)@.retrying.insert(room_id@)) by {
            assert forall|id: Seq<char>|
                before.push(room_id@).contains(id) <==> (before.contains(id) || id
                    == room_id@) by {
                lemma_push_contains(before, room_id@, id);
            }
        }
        Some(RetryState::start(room_id.to_owned()))
    }

    /// Records that the retry task for `room_id` has ended, so that a later
    /// invitation to the room is taken up again.
    pub fn release(&mut self, room_id: &str)
        ensures
            final(self)@ == (JoinerView {
                retrying: old(self)@.retrying.remove(room_id@),
                ..old(self)@
            }),
    {
        let mut kept: Vec<String> = Vec::new();
        let mut at: usize = 0;
        while at < self.retrying.len()
            invariant
                at <= self.retrying.len(),
                *self == *old(self),
                forall|id: Seq<char>| #[trigger]
                    kept.deep_view().contains(id) <==> (self.retrying.deep_view().take(at as int).contains(
                        id,
                    ) && id != room_id@),
            decreases self.retrying.len() - at,
        {
            let ghost seen = self.retrying.deep_view().take(at as int);
            let ghost kept_before = kept.deep_view();
            let ghost current = self.retrying[at as int]@;
            assert(self.retrying.deep_view().take(at + 1) =~= seen.push(current));
            if !same_text(self.retrying[at].as_str(), room_id) {
                kept.push(self.retrying[at].clone());
                assert(kept.deep_view() =~= kept_before.push(current));
            }
            assert forall|id: Seq<char>| #[trigger]
                kept.deep_view().contains(id) <==> (seen.push(current).contains(id) && id
                    != room_id@) by {
                lemma_push_contains(seen, current, id);
                lemma_push_contains(kept_before, current, id);
            }
            at = at + 1;
        }
        assert(self.retrying.deep_view().take(at as int) =~= self.retrying.deep_view());
        self.retrying = kept;
        assert(self@.retrying =~= old(self)@.retrying.remove(room_id@));
    }
}

/// What a sequence contains after one more item has been pushed.
proof fn lemma_push_contains(items: Seq<Seq<char>>, last: Seq<char>, id: Seq<char>)
    ensures
        items.push(last).contains(id) <==> (items.contains(id) || id == last),
{
    if items.push(last).contains(id) {
        let k = choose|k: int| 0 <= k < items.push(last).len() && items.push(last)[k] == id;
        if k < items.len() {
            assert(items[k] == id);
        }
    }
    if items.contains(id) {
        let k = choose|k: int| 0 <= k < items.len() && items[k] == id;
        assert(items.push(last)[k] == id);
    }
    if id == last {
        assert(items.push(last)[items.len() as int] == id);
    }
}

} // verus!
