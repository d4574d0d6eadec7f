//! Answering messages.
//!
//! A message is first held against the admission rules. An admitted message
//! opens a [`Turn`]: the relay acknowledges the message, shows that it is
//! composing, reads the room's history, asks the completion provider and
//! posts the reply. The caller performs each of these and reports back;
//! [`Turn::step`] decides what comes next. Whatever goes wrong ends the turn
//! in silence: nothing but a reply is ever posted.

use crate::auth::{permitted, AuthorizationSet};
use crate::context::{
    context_of, ContextBuilder, ContextError, ConversationMessage, MessageView,
};
use crate::reply::{markdown_html, outgoing, OutgoingMessage, OutgoingView};
use crate::room::RoomStatus;
use crate::text::same_text;
use vstd::prelude::*;

verus! {

/// The kind of content an incoming message carries.
#[derive(Clone, Copy, Debug, PartialEq, Eq, Structural)]
pub enum ContentKind {
    /// Plain text.
    Text,
    /// Anything else: media, notices, content that has been redacted.
    Other,
}

/// A message notification, reduced to what the admission rules read.
#[derive(Clone, Debug, PartialEq, Eq)]
pub struct IncomingMessage {
    pub event_id: String,
    pub sender: String,
    pub kind: ContentKind,
}

/// What an [`IncomingMessage`] holds, as plain values.
pub struct IncomingView {
    pub event_id: Seq<char>,
    pub sender: Seq<char>,
    pub kind: ContentKind,
}

impl View for IncomingMessage {
    type V = IncomingView;

    open spec fn view(&self) -> IncomingView {
        IncomingView { event_id: self.event_id@, sender: self.sender@, kind: self.kind }
    }
}

/// Why a message gets no answer.
#[derive(Clone, Copy, Debug, PartialEq, Eq, Structural)]
pub enum DropReason {
    /// The relay wrote it.
    OwnMessage,
    /// Its sender is not in the authorization set.
    Unauthorized,
    /// The relay is no active member of the room.
    NotJoined,
    /// It is no plain text.
    NotText,
}

/// The verdict of the admission rules.
#[derive(Clone, Copy, Debug, PartialEq, Eq, Structural)]
pub enum Admission {
    Admitted,
    Dropped(DropReason),
}

/// Why a turn ended without a reply in the room.
#[derive(Clone, Copy, Debug, PartialEq, Eq, Structural)]
pub enum AbandonReason {
    /// The history could not be fetched.
    HistoryUnavailable,
    /// The history was fetched but cannot be used.
    HistoryUnusable(ContextError),
    /// The completion provider failed.
    CompletionFailed,
    /// The reply could not be posted.
    PostFailed,
    /// The caller reported something that could not have happened.
    UnexpectedEvent,
}

/// How a turn ended.
#[derive(Clone, Copy, Debug, PartialEq, Eq, Structural)]
pub enum TurnOutcome {
    /// The message was not admitted.
    Dropped(DropReason),
    /// The turn was given up; the room sees nothing.
    Abandoned(AbandonReason),
    /// The reply is in the room.
    Replied,
}

/// Where a turn stands: what the relay is waiting for.
#[derive(Clone, Copy, Debug, PartialEq, Eq, Structural)]
pub enum TurnPhase {
    AwaitingReceipt,
    AwaitingComposing,
    AwaitingHistory,
    AwaitingCompletion,
    AwaitingPost,
    Finished(TurnOutcome),
}

/// What the caller reports back to a turn.
#[derive(Clone, Debug, PartialEq, Eq)]
pub enum TurnEvent {
    /// The read receipt was sent, or sending it failed.
    ReceiptSent(bool),
    /// The composing indicator was set, or setting it failed.
    ComposingSet(bool),
    /// The room's history, newest first, one JSON document per timeline
    /// entry; `None` where the fetch failed.
    HistoryFetched(Option<Vec<String>>),
    /// The provider's reply; `None` where the provider failed.
    Completed(Option<String>),
    /// The reply was posted, or posting it failed.
    Posted(bool),
}

/// What a turn asks of the caller.
#[derive(Clone, Debug, PartialEq, Eq)]
pub enum TurnAction {
    /// Mark the event as read. Best effort.
    SendReadReceipt { event_id: String },
    /// Show the composing indicator in the room. Best effort.
    SetComposing,
    /// Fetch the room's history, backwards from now.
    FetchHistory,
    /// Ask the completion provider for a reply to this conversation.
    Complete(Vec<ConversationMessage>),
    /// Post the reply into the room.
    Post(OutgoingMessage),
    /// Nothing more: the turn is over.
    Finish(TurnOutcome),
}

/// What a [`TurnAction`] holds, as plain values.
pub enum ActionView {
    SendReadReceipt { event_id: Seq<char> },
    SetComposing,
    FetchHistory,
    Complete(Seq<MessageView>),
    Post(OutgoingView),
    Finish(TurnOutcome),
}

impl View for TurnAction {
    type V = ActionView;

    open spec fn view(&self) -> ActionView {
        match self {
            TurnAction::SendReadReceipt { event_id } => ActionView::SendReadReceipt {
                event_id: event_id@,
            },
            TurnAction::SetComposing => ActionView::SetComposing,
            TurnAction::FetchHistory => ActionView::FetchHistory,
            TurnAction::Complete(messages) => ActionView::Complete(messages.deep_view()),
            TurnAction::Post(message) => ActionView::Post(message@),
            TurnAction::Finish(outcome) => ActionView::Finish(*outcome),
        }
    }
}

/// A report with the outside work done: the history has been run through
/// the context builder and the reply has been made ready for posting.
#[derive(Debug, PartialEq, Eq)]
pub enum Stimulus {
    ReceiptSent(bool),
    ComposingSet(bool),
    /// The history could not be fetched.
    HistoryUnavailable,
    /// The conversation built from the history, or why there is none.
    Context(Result<Vec<ConversationMessage>, ContextError>),
    /// The provider failed.
    CompletionFailed,
    /// The provider's reply as it is to be posted.
    Reply(OutgoingMessage),
    Posted(bool),
}

/// What a [`Stimulus`] holds, as plain values.
pub enum StimulusView {
    ReceiptSent(bool),
    ComposingSet(bool),
    HistoryUnavailable,
    Context(Result<Seq<MessageView>, ContextError>),
    CompletionFailed,
    Reply(OutgoingView),
    Posted(bool),
}

impl View for Stimulus {
    type V = StimulusView;

    open spec fn view(&self) -> StimulusView {
        match self {
            Stimulus::ReceiptSent(ok) => StimulusView::ReceiptSent(*ok),
            Stimulus::ComposingSet(ok) => StimulusView::ComposingSet(*ok),
            Stimulus::HistoryUnavailable => StimulusView::HistoryUnavailable,
            Stimulus::Context(Ok(messages)) => StimulusView::Context(Ok(messages.deep_view())),
            Stimulus::Context(Err(error)) => StimulusView::Context(Err(*error)),
            Stimulus::CompletionFailed => StimulusView::CompletionFailed,
            Stimulus::Reply(message) => StimulusView::Reply(message@),
            Stimulus::Posted(ok) => StimulusView::Posted(*ok),
        }
    }
}

/// The stimulus that a report amounts to for a relay with the given identity.
pub open spec fn stimulus_of(event: TurnEvent, identity: Seq<char>) -> StimulusView {
    match event {
        TurnEvent::ReceiptSent(ok) => StimulusView::ReceiptSent(ok),
        TurnEvent::ComposingSet(ok) => StimulusView::ComposingSet(ok),
        TurnEvent::HistoryFetched(None) => StimulusView::HistoryUnavailable,
        TurnEvent::HistoryFetched(Some(history)) => StimulusView::Context(
            context_of(history.deep_view(), identity),
        ),
        TurnEvent::Completed(None) => StimulusView::CompletionFailed,
        TurnEvent::Completed(Some(text)) => StimulusView::Reply(
            outgoing(text@, markdown_html(text@)),
        ),
        TurnEvent::Posted(ok) => StimulusView::Posted(ok),
    }
}

impl TurnEvent {
    /// Does the outside work that a report calls for: decodes a fetched
    /// history and builds the conversation for `identity` from it, and
    /// renders the provider's reply.
    pub fn resolve(self, identity: &str) -> (stimulus: Stimulus)
        ensures
            stimulus@ == stimulus_of(self, identity@),
    {
        match self {
            TurnEvent::ReceiptSent(ok) => Stimulus::ReceiptSent(ok),
            TurnEvent::ComposingSet(ok) => Stimulus::ComposingSet(ok),
            TurnEvent::HistoryFetched(None) => Stimulus::HistoryUnavailable,
            TurnEvent::HistoryFetched(Some(history)) => Stimulus::Context(
                ContextBuilder::build(&history, identity),
            ),
            TurnEvent::Completed(None) => Stimulus::CompletionFailed,
            TurnEvent::Completed(Some(text)) => Stimulus::Reply(
                OutgoingMessage::text_markdown(text),
            ),
            TurnEvent::Posted(ok) => Stimulus::Posted(ok),
        }
    }
}

/// The phase and the action with which a turn ends.
pub open spec fn ended(outcome: TurnOutcome) -> (TurnPhase, ActionView) {
    (TurnPhase::Finished(outcome), ActionView::Finish(outcome))
}

/// One step of a turn: the phase after a stimulus, and what to do next.
///
/// The read receipt and the composing indicator are best effort: the turn
/// goes on whether they succeeded or not. A failure of the history, of the
/// provider or of the post abandons the turn. A finished turn stays
/// finished, and a stimulus that does not answer the pending action abandons
/// the turn.
pub open spec fn turn_step(phase: TurnPhase, stimulus: StimulusView) -> (TurnPhase, ActionView) {
    match (phase, stimulus) {
        (TurnPhase::Finished(outcome), _) => ended(outcome),
        (TurnPhase::AwaitingReceipt, StimulusView::ReceiptSent(_)) => (
            TurnPhase::AwaitingComposing,
            ActionView::SetComposing,
        ),
        (TurnPhase::AwaitingComposing, StimulusView::ComposingSet(_)) => (
            TurnPhase::AwaitingHistory,
            ActionView::FetchHistory,
        ),
        (TurnPhase::AwaitingHistory, StimulusView::HistoryUnavailable) => ended(
            TurnOutcome::Abandoned(AbandonReason::HistoryUnavailable),
        ),
        (TurnPhase::AwaitingHistory, StimulusView::Context(Err(error))) => ended(
            TurnOutcome::Abandoned(AbandonReason::HistoryUnusable(error)),
        ),
        (TurnPhase::AwaitingHistory, StimulusView::Context(Ok(messages))) => (
            TurnPhase::AwaitingCompletion,
            ActionView::Complete(messages),
        ),
        (TurnPhase::AwaitingCompletion, StimulusView::CompletionFailed) => ended(
            TurnOutcome::Abandoned(AbandonReason::CompletionFailed),
        ),
        (TurnPhase::AwaitingCompletion, StimulusView::Reply(message)) => (
            TurnPhase::AwaitingPost,
            ActionView::Post(message),
        ),
        (TurnPhase::AwaitingPost, StimulusView::Posted(true)) => ended(TurnOutcome::Replied),
        (TurnPhase::AwaitingPost, StimulusView::Posted(false)) => ended(
            TurnOutcome::Abandoned(AbandonReason::PostFailed),
        ),
        _ => ended(TurnOutcome::Abandoned(AbandonReason::UnexpectedEvent)),
    }
}

/// The handling of one admitted or dropped message.
#[derive(Debug)]
pub struct Turn {
    phase: TurnPhase,
    identity: String,
}

/// What a [`Turn`] holds, as plain values.
pub struct TurnView {
    pub phase: TurnPhase,
    pub identity: Seq<char>,
}

impl View for Turn {
    type V = TurnView;

    closed spec fn view(&self) -> TurnView {
        TurnView { phase: self.phase, identity: self.identity@ }
    }
}

impl Turn {
    /// Where the turn stands.
    pub fn phase(&self) -> (phase: TurnPhase)
        ensures
            phase == self@.phase,
    {
        self.phase
    }

    /// How the turn ended, once it has.
    pub fn outcome(&self) -> (outcome: Option<TurnOutcome>)
        ensures
            outcome == match self@.phase {
                TurnPhase::Finished(o) => Some(o),
                _ => None,
            },
    {
        match self.phase {
            TurnPhase::Finished(o) => Some(o),
            _ => None,
        }
    }

    /// Ends the turn.
    fn end(&mut self, outcome: TurnOutcome) -> (action: TurnAction)
        ensures
            final(self)@.identity == old(self)@.identity,
            (final(self)@.phase, action@) == ended(outcome),
    {
        self.phase = TurnPhase::Finished(outcome);
        TurnAction::Finish(outcome)
    }

    /// Takes in a stimulus and says what to do next.
    pub fn advance(&mut self, stimulus: Stimulus) -> (action: TurnAction)
        ensures
            final(self)@.identity == old(self)@.identity,
            (final(self)@.phase, action@) == turn_step(old(self)@.phase, stimulus@),
    {
        let unexpected = TurnOutcome::Abandoned(AbandonReason::UnexpectedEvent);
        match self.phase {
            TurnPhase::Finished(outcome) => TurnAction::Finish(outcome),
            TurnPhase::AwaitingReceipt => match stimulus {
                Stimulus::ReceiptSent(_) => {
                    self.phase = TurnPhase::AwaitingComposing;
                    TurnAction::SetComposing
                },
                _ => self.end(unexpected),
            },
            TurnPhase::AwaitingComposing => match stimulus {
                Stimulus::ComposingSet(_) => {
                    self.phase = TurnPhase::AwaitingHistory;
                    TurnAction::FetchHistory
                },
                _ => self.end(unexpected),
            },
            TurnPhase::AwaitingHistory => match stimulus {
                Stimulus::HistoryUnavailable => self.end(
                    TurnOutcome::Abandoned(AbandonReason::HistoryUnavailable),
                ),
                Stimulus::Context(Err(error)) => self.end(
                    TurnOutcome::Abandoned(AbandonReason::HistoryUnusable(error)),
                ),
                Stimulus::Context(Ok(messages)) => {
                    self.phase = TurnPhase::AwaitingCompletion;
                    TurnAction::Complete(messages)
                },
                _ => self.end(unexpected),
            },
            TurnPhase::AwaitingCompletion => match stimulus {
                Stimulus::CompletionFailed => self.end(
                    TurnOutcome::Abandoned(AbandonReason::CompletionFailed),
                ),
                Stimulus::Reply(message) => {
                    self.phase = TurnPhase::AwaitingPost;
                    TurnAction::Post(message)
                },
                _ => self.end(unexpected),
            },
            TurnPhase::AwaitingPost => match stimulus {
                Stimulus::Posted(true) => self.end(TurnOutcome::Replied),
                Stimulus::Posted(false) => self.end(
                    TurnOutcome::Abandoned(AbandonReason::PostFailed),
                ),
                _ => self.end(unexpected),
            },
        }
    }

    /// Takes in what the caller reports and says what to do next: does the
    /// outside work that the report calls for, then advances the turn.
    pub fn step(&mut self, event: TurnEvent) -> (action: TurnAction)
        ensures
            final(self)@.identity == old(self)@.identity,
            (final(self)@.phase, action@) == turn_step(
                old(self)@.phase,
                stimulus_of(event, old(self)@.identity),
            ),
    {
        let stimulus = event.resolve(self.identity.as_str());
        self.advance(stimulus)
    }
}

/// Admits messages and opens turns. Holds the session identity and the
/// authorization set, both fixed for the life of the process.
#[derive(Debug)]
pub struct MessageDispatcher {
    identity: String,
    authorized: AuthorizationSet,
}

/// What a [`MessageDispatcher`] holds, as plain values.
pub struct DispatcherView {
    pub identity: Seq<char>,
    /// The authorized senders; empty where nobody is restricted.
    pub authorized: Seq<Seq<char>>,
}

impl View for MessageDispatcher {
    type V = DispatcherView;

    closed spec fn view(&self) -> DispatcherView {
        DispatcherView { identity: self.identity@, authorized: self.authorized@ }
    }
}

/// The admission rules, in the order in which they apply: the relay never
/// answers itself; where senders are restricted, the sender must be
/// authorized; the relay must be an active member of the room; the message
/// must be plain text.
pub open spec fn admission(
    dispatcher: DispatcherView,
    message: IncomingView,
    room: RoomStatus,
) -> Admission {
    if message.sender == dispatcher.identity {
        Admission::Dropped(DropReason::OwnMessage)
    } else if !permitted(dispatcher.authorized, message.sender) {
        Admission::Dropped(DropReason::Unauthorized)
    } else if room != RoomStatus::Joined {
        Admission::Dropped(DropReason::NotJoined)
    } else if message.kind != ContentKind::Text {
        Admission::Dropped(DropReason::NotText)
    } else {
        Admission::Admitted
    }
}

/// How the handling of a message begins: an admitted message opens a turn
/// that first asks for the read receipt, any other message is over at once.
pub open spec fn opening(dispatcher: DispatcherView, message: IncomingView, room: RoomStatus) -> (
    TurnView,
    ActionView,
) {
    match admission(dispatcher, message, room) {
        Admission::Admitted => (
            TurnView { phase: TurnPhase::AwaitingReceipt, identity: dispatcher.identity },
            ActionView::SendReadReceipt { event_id: message.event_id },
        ),
        Admission::Dropped(reason) => (
            TurnView {
                phase: TurnPhase::Finished(TurnOutcome::Dropped(reason)),
                identity: dispatcher.identity,
            },
            ActionView::Finish(TurnOutcome::Dropped(reason)),
        ),
    }
}

impl MessageDispatcher {
    /// A dispatcher for the given session identity and authorization set.
    pub fn new(identity: String, authorized: AuthorizationSet) -> (dispatcher: MessageDispatcher)
        ensures
            dispatcher@ == (DispatcherView { identity: identity@, authorized: authorized@ }),
    {
        MessageDispatcher { identity, authorized }
    }

    /// The session identity.
    pub fn identity(&self) -> (identity: &str)
        ensures
            identity@ == self@.identity,
    {
        self.identity.as_str()
    }

    /// Holds a message against the admission rules.
    pub fn screen(&self, message: &IncomingMessage, room: RoomStatus) -> (verdict: Admission)
        ensures
            verdict == admission(self@, message@, room),
    {
        if same_text(message.sender.as_str(), self.identity.as_str()) {
            return Admission::Dropped(DropReason::OwnMessage);
        }
        if !self.authorized.permits(message.sender.as_str()) {
            return Admission::Dropped(DropReason::Unauthorized);
        }
        match room {
            RoomStatus::Joined => {},
            _ => {
                return Admission::Dropped(DropReason::NotJoined);
            },
        }
        match message.kind {
            ContentKind::Text => Admission::Admitted,
            ContentKind::Other => Admission::Dropped(DropReason::NotText),
        }
    }

    /// Handles a message notification: returns the turn that handles it and
    /// the first thing to do.
    pub fn on_message(&self, message: &IncomingMessage, room: RoomStatus) -> (begun: (
        Turn,
        TurnAction,
    ))
        ensures
            (begun.0@, begun.1@) == opening(self@, message@, room),
    {
        match self.screen(message, room) {
            Admission::Admitted => (
                Turn { phase: TurnPhase::AwaitingReceipt, identity: self.identity.clone() },
                TurnAction::SendReadReceipt { event_id: message.event_id.clone() },
            ),
            Admission::Dropped(reason) => (
                Turn {
                    phase: TurnPhase::Finished(TurnOutcome::Dropped(reason)),
                    identity: self.identity.clone(),
                },
                TurnAction::Finish(TurnOutcome::Dropped(reason)),
            ),
        }
    }
}

/// Everything a turn asks for while it is fed the given stimuli, in order.
pub open spec fn actions(phase: TurnPhase, stimuli: Seq<StimulusView>) -> Seq<ActionView>
    decreases stimuli.len(),
{
    if stimuli.len() == 0 {
        Seq::empty()
    } else {
        let (next, action) = turn_step(phase, stimuli[0]);
        seq![action] + actions(next, stimuli.drop_first())
    }
}

/// Everything the handling of a message asks for, from the first action on,
/// while the caller reports the given stimuli.
pub open spec fn run(
    dispatcher: DispatcherView,
    message: IncomingView,
    room: RoomStatus,
    stimuli: Seq<StimulusView>,
) -> Seq<ActionView> {
    let (turn, first) = opening(dispatcher, message, room);
    seq![first] + actions(turn.phase, stimuli)
}

/// Whether an action touches the session or the completion provider.
pub open spec fn is_side_effect(action: ActionView) -> bool {
    !(action is Finish)
}

/// A finished turn asks for nothing, whatever is reported to it.
pub proof fn lemma_finished_turn_is_silent(outcome: TurnOutcome, stimuli: Seq<StimulusView>)
    ensures
        actions(TurnPhase::Finished(outcome), stimuli).len() == stimuli.len(),
        forall|i: int|
            0 <= i < stimuli.len() ==> #[trigger] actions(TurnPhase::Finished(outcome), stimuli)[i]
                == ActionView::Finish(outcome),
    decreases stimuli.len(),
{
    if stimuli.len() > 0 {
        lemma_finished_turn_is_silent(outcome, stimuli.drop_first());
    }
}

/// A message that is not admitted causes no side effect, whatever the caller
/// reports afterwards: every action of its handling is the same `Finish`.
pub proof fn lemma_dropped_message_is_silent(
    dispatcher: DispatcherView,
    message: IncomingView,
    room: RoomStatus,
    stimuli: Seq<StimulusView>,
)
    requires
        admission(dispatcher, message, room) is Dropped,
    ensures
        run(dispatcher, message, room, stimuli).len() == stimuli.len() + 1,
        forall|i: int|
            0 <= i <= stimuli.len() ==> #[trigger] run(dispatcher, message, room, stimuli)[i]
                == ActionView::Finish(
                TurnOutcome::Dropped(admission(dispatcher, message, room)->Dropped_0),
            ),
{
    let reason = admission(dispatcher, message, room)->Dropped_0;
    lemma_finished_turn_is_silent(TurnOutcome::Dropped(reason), stimuli);
}

/// A message written by the session identity never reaches the completion
/// provider: its handling asks for nothing at all.
pub proof fn lemma_own_message_never_completed(
    dispatcher: DispatcherView,
    message: IncomingView,
    room: RoomStatus,
    stimuli: Seq<StimulusView>,
)
    requires
        message.sender == dispatcher.identity,
    ensures
        admission(dispatcher, message, room) == Admission::Dropped(DropReason::OwnMessage),
        forall|i: int|
            0 <= i < run(dispatcher, message, room, stimuli).len() ==> !(#[trigger] run(
                dispatcher,
                message,
                room,
                stimuli,
            )[i] is Complete),
        forall|i: int|
            0 <= i < run(dispatcher, message, room, stimuli).len() ==> !is_side_effect(
                #[trigger] run(dispatcher, message, room, stimuli)[i],
            ),
{
    lemma_dropped_message_is_silent(dispatcher, message, room, stimuli);
}

/// Where senders are restricted, a message from a sender outside the
/// authorization set is dropped before any side effect: no read receipt, no
/// composing indicator, no history fetch, no completion, no post.
pub proof fn lemma_unauthorized_sender_causes_nothing(
    dispatcher: DispatcherView,
    message: IncomingView,
    room: RoomStatus,
    stimuli: Seq<StimulusView>,
)
    requires
        dispatcher.authorized.len() > 0,
        !dispatcher.authorized.contains(message.sender),
    ensures
        admission(dispatcher, message, room) is Dropped,
        message.sender != dispatcher.identity ==> admission(dispatcher, message, room)
            == Admission::Dropped(DropReason::Unauthorized),
        forall|i: int|
            0 <= i < run(dispatcher, message, room, stimuli).len() ==> !is_side_effect(
                #[trigger] run(dispatcher, message, room, stimuli)[i],
            ),
{
    lemma_dropped_message_is_silent(dispatcher, message, room, stimuli);
}

/// The place of an action in a turn: the side effects come in this order.
pub open spec fn order(action: ActionView) -> int {
    match action {
        ActionView::SendReadReceipt { .. } => 0,
        ActionView::SetComposing => 1,
        ActionView::FetchHistory => 2,
        ActionView::Complete(_) => 3,
        ActionView::Post(_) => 4,
        ActionView::Finish(_) => 5,
    }
}

/// The place of the action that a phase is waiting on.
pub open spec fn pending(phase: TurnPhase) -> int {
    match phase {
        TurnPhase::AwaitingReceipt => 0,
        TurnPhase::AwaitingComposing => 1,
        TurnPhase::AwaitingHistory => 2,
        TurnPhase::AwaitingCompletion => 3,
        TurnPhase::AwaitingPost => 4,
        TurnPhase::Finished(_) => 5,
    }
}

/// From any phase on, side effects come in their fixed order with none left
/// out: a side effect at position `at` is the one due there, and so are all
/// before it. What is handed to the provider is the conversation that was
/// reported, and what is posted is the reply that was reported.
pub proof fn lemma_actions_in_order(phase: TurnPhase, stimuli: Seq<StimulusView>, at: int)
    requires
        0 <= at < stimuli.len(),
        is_side_effect(actions(phase, stimuli)[at]),
    ensures
        actions(phase, stimuli).len() == stimuli.len(),
        order(actions(phase, stimuli)[at]) == pending(phase) + at + 1,
        forall|k: int|
            0 <= k < at ==> order(#[trigger] actions(phase, stimuli)[k]) == pending(phase) + k + 1,
        actions(phase, stimuli)[at] matches ActionView::Complete(messages) ==> stimuli[at]
            == StimulusView::Context(Ok(messages)),
        actions(phase, stimuli)[at] matches ActionView::Post(message) ==> stimuli[at]
            == StimulusView::Reply(message),
    decreases stimuli.len(),
{
    let (next, first) = turn_step(phase, stimuli[0]);
    let rest = stimuli.drop_first();
    lemma_actions_len(next, rest);
    if at > 0 {
        if next is Finished {
            lemma_finished_turn_is_silent(next->Finished_0, rest);
        } else {
            lemma_actions_in_order(next, rest, at - 1);
            assert forall|k: int| 0 <= k < at implies order(#[trigger] actions(phase, stimuli)[k])
                == pending(phase) + k + 1 by {
                if k > 0 {
                    assert(actions(phase, stimuli)[k] == actions(next, rest)[k - 1]);
                }
            }
        }
    }
}

/// A turn answers every stimulus with one action.
pub proof fn lemma_actions_len(phase: TurnPhase, stimuli: Seq<StimulusView>)
    ensures
        actions(phase, stimuli).len() == stimuli.len(),
    decreases stimuli.len(),
{
    if stimuli.len() > 0 {
        lemma_actions_len(turn_step(phase, stimuli[0]).0, stimuli.drop_first());
    }
}

/// In the handling of any message, side effects come in one fixed order:
/// read receipt, composing indicator, history fetch, completion, post. Each
/// happens at most once and only after all that come before it. The
/// completion provider is handed the conversation built from the reported
/// history, and the post carries the reply that the provider gave.
pub proof fn lemma_side_effects_in_order(
    dispatcher: DispatcherView,
    message: IncomingView,
    room: RoomStatus,
    stimuli: Seq<StimulusView>,
    at: int,
)
    requires
        0 <= at <= stimuli.len(),
        is_side_effect(run(dispatcher, message, room, stimuli)[at]),
    ensures
        run(dispatcher, message, room, stimuli).len() == stimuli.len() + 1,
        admission(dispatcher, message, room) == Admission::Admitted,
        order(run(dispatcher, message, room, stimuli)[at]) == at,
        forall|k: int|
            0 <= k < at ==> order(#[trigger] run(dispatcher, message, room, stimuli)[k]) == k,
        run(dispatcher, message, room, stimuli)[at] matches ActionView::Complete(messages)
            ==> stimuli[at - 1] == StimulusView::Context(Ok(messages)),
        run(dispatcher, message, room, stimuli)[at] matches ActionView::Post(reply) ==> stimuli[at
            - 1] == StimulusView::Reply(reply),
{
    let (turn, first) = opening(dispatcher, message, room);
    let all = run(dispatcher, message, room, stimuli);
    lemma_actions_len(turn.phase, stimuli);
    if admission(dispatcher, message, room) is Dropped {
        lemma_dropped_message_is_silent(dispatcher, message, room, stimuli);
    } else {
        if at > 0 {
            lemma_actions_in_order(turn.phase, stimuli, at - 1);
            assert forall|k: int| 0 <= k < at implies order(#[trigger] all[k]) == k by {
                if k > 0 {
                    assert(all[k] == actions(turn.phase, stimuli)[k - 1]);
                }
            }
        }
    }
}

} // verus!
