//! From a room's history to the conversation handed to the completion
//! provider.
//!
//! History arrives newest first, one JSON document per timeline entry. Each
//! document is decoded, entries that are no authored text are left out, and
//! what remains is returned oldest first with a role on every message.
//!
//! What kind of entry a document is, the decoder says. A message counts as a
//! replacement where the decoder reads its relation as one; where it reads a
//! message that names both a reply and a replacement as a reply, the message
//! is a reply here too and stays in the conversation. A document that the
//! decoder rejects, such as a replacement that lacks its new content, is no
//! entry at all: the history that holds it cannot be used.

use crate::nesting::{nesting, within_nesting, MAX_NESTING};
use crate::text::same_text;
use ruma::events::room::message::{MessageType, Relation};
use ruma::events::{AnyMessageLikeEvent, AnyTimelineEvent, MessageLikeEvent};
use vstd::prelude::*;

verus! {

/// Whose turn a message of the conversation is.
#[derive(Clone, Copy, Debug, PartialEq, Eq, Structural)]
pub enum Role {
    /// Written by anyone but the relay itself.
    User,
    /// Written by the relay.
    Assistant,
}

/// One message of the conversation given to the completion provider.
#[derive(Clone, Debug, PartialEq, Eq)]
pub struct ConversationMessage {
    pub role: Role,
    /// The literal text of the message.
    pub content: String,
    /// Display name of the author; the builder always leaves it empty.
    pub name: Option<String>,
}

/// What a [`ConversationMessage`] holds, as plain values.
pub struct MessageView {
    pub role: Role,
    pub content: Seq<char>,
    pub name: Option<Seq<char>>,
}

impl View for ConversationMessage {
    type V = MessageView;

    open spec fn view(&self) -> MessageView {
        MessageView {
            role: self.role,
            content: self.content@,
            name: match self.name {
                Some(n) => Some(n@),
                None => None,
            },
        }
    }
}

impl DeepView for ConversationMessage {
    type V = MessageView;

    open spec fn deep_view(&self) -> MessageView {
        self@
    }
}

/// One entry of a room's timeline, reduced to what the builder reads.
#[derive(Clone, Debug, PartialEq, Eq)]
pub enum TimelineEntry {
    /// A room message with text content that has not been redacted.
    Text {
        sender: String,
        body: String,
        /// Whether the decoder reads the message as the replacement of an
        /// earlier one.
        replaces: bool,
    },
    /// A room message with any other content: an image, a notice, an emote.
    OtherMessage,
    /// A room message whose content has been redacted.
    Redacted,
    /// A message-like event that is no room message, such as a reaction.
    OtherMessageLike,
    /// A state event, such as a membership change.
    State,
}

/// What a [`TimelineEntry`] holds, as plain values.
pub enum EntryView {
    Text { sender: Seq<char>, body: Seq<char>, replaces: bool },
    OtherMessage,
    Redacted,
    OtherMessageLike,
    State,
}

impl View for TimelineEntry {
    type V = EntryView;

    open spec fn view(&self) -> EntryView {
        match self {
            TimelineEntry::Text { sender, body, replaces } => EntryView::Text {
                sender: sender@,
                body: body@,
                replaces: *replaces,
            },
            TimelineEntry::OtherMessage => EntryView::OtherMessage,
            TimelineEntry::Redacted => EntryView::Redacted,
            TimelineEntry::OtherMessageLike => EntryView::OtherMessageLike,
            TimelineEntry::State => EntryView::State,
        }
    }
}

impl DeepView for TimelineEntry {
    type V = EntryView;

    open spec fn deep_view(&self) -> EntryView {
        self@
    }
}

/// The decoder's error, carried through without a look inside.
#[verifier::external_type_specification]
#[verifier::external_body]
pub struct ExJsonError(serde_json::Error);

/// The timeline entry that a JSON document decodes to, or `None` where the
/// decoder rejects the document. What the decoder accepts is a matter of the
/// event types it knows; nothing is stated of it here but that it is a
/// function of the document. Only documents within [`MAX_NESTING`] are ever
/// decoded, so only of those does it say anything.
pub uninterp spec fn decoded_entry(json: Seq<char>) -> Option<EntryView>;

/// Decodes one timeline entry by `serde_json::from_str` at the type
/// `AnyTimelineEvent`, and keeps of the event what [`TimelineEntry`] holds:
/// which kind of event it is and, for a text message, its sender, its body
/// and whether its relation is a replacement.
///
/// The decoder calls itself once for each event or message content that
/// lies inside another, with nothing to stop it but the end of the stack,
/// and each such level is a level of nesting of the document. So the
/// nesting is bounded here; at the bound the descent takes a few hundred
/// kilobytes of stack.
///
/// Not proved, but taken on trust: the call returns, and its outcome is a
/// function of the document's text, so the same document always decodes to
/// the same entry or is always rejected.
#[verifier::external_body]
fn decode_entry(json: &str) -> (decoded: Result<TimelineEntry, serde_json::Error>)
    requires
        nesting(json@) <= MAX_NESTING,
    ensures
        match decoded {
            Ok(entry) => decoded_entry(json@) == Some(entry@),
            Err(_) => decoded_entry(json@) is None,
        },
{
    Ok(match serde_json::from_str::<AnyTimelineEvent>(json)? {
        AnyTimelineEvent::State(_) => TimelineEntry::State,
        AnyTimelineEvent::MessageLike(AnyMessageLikeEvent::RoomMessage(message)) => match message {
            MessageLikeEvent::Redacted(_) => TimelineEntry::Redacted,
            MessageLikeEvent::Original(event) => match event.content.msgtype {
                MessageType::Text(text) => TimelineEntry::Text {
                    sender: event.sender.to_string(),
                    body: text.body,
                    replaces: matches!(event.content.relates_to, Some(Relation::Replacement(_))),
                },
                _ => TimelineEntry::OtherMessage,
            },
        },
        AnyTimelineEvent::MessageLike(_) => TimelineEntry::OtherMessageLike,
    })
}

/// The message that an entry contributes to the conversation: authored text
/// that replaces nothing becomes a message, anything else contributes nothing.
/// The relay's own messages are the assistant's, all others the user's.
pub open spec fn message_of(entry: EntryView, identity: Seq<char>) -> Option<MessageView> {
    match entry {
        EntryView::Text { sender, body, replaces } => if replaces {
            None
        } else {
            Some(
                MessageView {
                    role: if sender == identity {
                        Role::Assistant
                    } else {
                        Role::User
                    },
                    content: body,
                    name: None,
                },
            )
        },
        _ => None,
    }
}

/// The rule that [`message_of`] applies for one identity, as a function of the entry.
pub open spec fn contribution(identity: Seq<char>) -> spec_fn(EntryView) -> Option<MessageView> {
    |entry: EntryView| message_of(entry, identity)
}

/// The conversation that a history holds: the history is given newest first,
/// the conversation runs oldest first and holds what each entry contributes.
pub open spec fn conversation(newest_first: Seq<EntryView>, identity: Seq<char>) -> Seq<
    MessageView,
> {
    newest_first.reverse().filter_map(contribution(identity))
}

/// Whether every document of a history nests shallowly enough to be decoded.
pub open spec fn all_within_nesting(documents: Seq<Seq<char>>) -> bool {
    forall|i: int| 0 <= i < documents.len() ==> (#[trigger] nesting(documents[i])) <= MAX_NESTING
}

/// Whether the decoder accepts every document of a history.
pub open spec fn all_decodable(documents: Seq<Seq<char>>) -> bool {
    forall|i: int| 0 <= i < documents.len() ==> (#[trigger] decoded_entry(documents[i])) is Some
}

/// What stands in the way of using a history, if anything: a document that
/// nests too deeply, or else a document that the decoder rejects.
pub open spec fn history_error(documents: Seq<Seq<char>>) -> Option<ContextError> {
    if !all_within_nesting(documents) {
        Some(ContextError::TooDeep)
    } else if !all_decodable(documents) {
        Some(ContextError::Undecodable)
    } else {
        None
    }
}

/// The conversation that a history of JSON documents holds for an identity,
/// or why it holds none.
pub open spec fn context_of(history: Seq<Seq<char>>, identity: Seq<char>) -> Result<
    Seq<MessageView>,
    ContextError,
> {
    match history_error(history) {
        Some(error) => Err(error),
        None => Ok(conversation(decoded_history(history), identity)),
    }
}

/// The entries that the documents of a history decode to, in the same order.
pub open spec fn decoded_history(documents: Seq<Seq<char>>) -> Seq<EntryView> {
    Seq::new(documents.len(), |i: int| decoded_entry(documents[i]).unwrap())
}

/// Why no conversation could be built.
#[derive(Clone, Copy, Debug, PartialEq, Eq, Structural)]
pub enum ContextError {
    /// The history holds a document that nests deeper than
    /// [`MAX_NESTING`]; nothing of the history was decoded.
    TooDeep,
    /// The history holds a document that the decoder rejects.
    Undecodable,
}

/// Builds conversations out of room history.
pub struct ContextBuilder {}

impl ContextBuilder {
    /// The message that `entry` contributes, if any.
    pub fn message(entry: &TimelineEntry, identity: &str) -> (message: Option<ConversationMessage>)
        ensures
            message.deep_view() == message_of(entry@, identity@),
    {
        match entry {
            TimelineEntry::Text { sender, body, replaces } => {
                if *replaces {
                    None
                } else {
                    let role = if same_text(sender.as_str(), identity) {
                        Role::Assistant
                    } else {
                        Role::User
                    };
                    Some(ConversationMessage { role, content: body.clone(), name: None })
                }
            },
            _ => None,
        }
    }

    /// The conversation held by a decoded history, given newest first.
    pub fn from_entries(newest_first: &Vec<TimelineEntry>, identity: &str) -> (messages: Vec<
        ConversationMessage,
    >)
        ensures
            messages.deep_view() == conversation(newest_first.deep_view(), identity@),
    {
        let ghost oldest_first = newest_first.deep_view().reverse();
        let ghost rule = contribution(identity@);
        let mut messages: Vec<ConversationMessage> = Vec::new();
        let mut left: usize = newest_first.len();
        while left > 0
            invariant
                left <= newest_first.len(),
                oldest_first == newest_first.deep_view().reverse(),
                rule == contribution(identity@),
                messages.deep_view() == oldest_first.take(newest_first.len() - left).filter_map(
                    rule,
                ),
            decreases left,
        {
            let ghost done = newest_first.len() - left;
            left = left - 1;
            let entry = &newest_first[left];
            proof {
                oldest_first.lemma_filter_map_take_succ(rule, done);
            }
            match Self::message(entry, identity) {
                Some(message) => {
                    messages.push(message);
                },
                None => {},
            }
        }
        assert(oldest_first.take(newest_first.len() as int) =~= oldest_first);
        messages
    }

    /// Decodes every document of a history, in the order given. No document
    /// is decoded unless all of them are within [`MAX_NESTING`].
    pub fn decode(documents: &Vec<String>) -> (decoded: Result<Vec<TimelineEntry>, ContextError>)
        ensures
            match decoded {
                Ok(entries) => history_error(documents.deep_view()) is None && entries.deep_view()
                    == decoded_history(documents.deep_view()),
                Err(error) => history_error(documents.deep_view()) == Some(error),
            },
    {
        let mut checked: usize = 0;
        while checked < documents.len()
            invariant
                checked <= documents.len(),
                forall|i: int| 0 <= i < checked ==> nesting(#[trigger] documents[i]@) <= MAX_NESTING,
            decreases documents.len() - checked,
        {
            if !within_nesting(documents[checked].as_str()) {
                assert(documents.deep_view()[checked as int] == documents[checked as int]@);
                return Err(ContextError::TooDeep);
            }
            checked = checked + 1;
        }
        assert(all_within_nesting(documents.deep_view()));
        let mut entries: Vec<TimelineEntry> = Vec::new();
        let mut at: usize = 0;
        while at < documents.len()
            invariant
                at <= documents.len(),
                entries.len() == at,
                forall|i: int|
                    0 <= i < documents.len() ==> nesting(#[trigger] documents[i]@) <= MAX_NESTING,
                forall|i: int|
                    0 <= i < at ==> decoded_entry(#[trigger] documents[i]@) == Some(entries[i]@),
            decreases documents.len() - at,
        {
            match decode_entry(documents[at].as_str()) {
                Ok(entry) => {
                    entries.push(entry);
                },
                Err(_) => {
                    assert(documents.deep_view()[at as int] == documents[at as int]@);
                    return Err(ContextError::Undecodable);
                },
            }
            at = at + 1;
        }
        assert(entries.deep_view() =~= decoded_history(documents.deep_view()));
        Ok(entries)
    }

    /// Builds the conversation of a room out of its history: one JSON
    /// document per timeline entry, newest first. Fails where a document
    /// nests too deeply or cannot be decoded.
    pub fn build(history: &Vec<String>, identity: &str) -> (built: Result<
        Vec<ConversationMessage>,
        ContextError,
    >)
        ensures
            match built {
                Ok(messages) => context_of(history.deep_view(), identity@) == Ok::<
                    Seq<MessageView>,
                    ContextError,
                >(messages.deep_view()),
                Err(error) => context_of(history.deep_view(), identity@) == Err::<
                    Seq<MessageView>,
                    ContextError,
                >(error),
            },
    {
        match Self::decode(history) {
            Ok(entries) => Ok(Self::from_entries(&entries, identity)),
            Err(error) => Err(error),
        }
    }
}

/// What is kept of the concatenation of two sequences is what is kept of
/// the first followed by what is kept of the second.
proof fn lemma_filter_map_concat(
    first: Seq<EntryView>,
    second: Seq<EntryView>,
    rule: spec_fn(EntryView) -> Option<MessageView>,
)
    ensures
        (first + second).filter_map(rule) == first.filter_map(rule) + second.filter_map(rule),
    decreases second.len(),
{
    if second.len() > 0 {
        assert((first + second).drop_last() =~= first + second.drop_last());
        lemma_filter_map_concat(first, second.drop_last(), rule);
        match rule(second.last()) {
            Some(message) => {
                assert(first.filter_map(rule) + (second.drop_last().filter_map(rule)
                    + seq![message]) =~= (first.filter_map(rule) + second.drop_last().filter_map(
                    rule,
                )) + seq![message]);
            },
            None => {},
        }
    }
}

/// A history of one entry holds what that entry contributes.
pub proof fn lemma_conversation_of_one(entry: EntryView, identity: Seq<char>)
    ensures
        conversation(seq![entry], identity) == match message_of(entry, identity) {
            Some(message) => seq![message],
            None => Seq::empty(),
        },
{
    assert(seq![entry].reverse() =~= seq![entry]);
    Seq::lemma_filter_map_singleton(entry, contribution(identity));
}

/// The conversation runs against the history: where a history consists of a
/// newer part followed by an older part, the conversation of the older part
/// comes first and that of the newer part after it.
pub proof fn lemma_conversation_runs_oldest_first(
    newer: Seq<EntryView>,
    older: Seq<EntryView>,
    identity: Seq<char>,
)
    ensures
        conversation(newer + older, identity) == conversation(older, identity) + conversation(
            newer,
            identity,
        ),
{
    assert((newer + older).reverse() =~= older.reverse() + newer.reverse());
    lemma_filter_map_concat(older.reverse(), newer.reverse(), contribution(identity));
}

/// An entry that is no authored text leaves no trace in the conversation,
/// wherever in the history it stands.
pub proof fn lemma_conversation_skips_what_is_no_text(
    newer: Seq<EntryView>,
    entry: EntryView,
    older: Seq<EntryView>,
    identity: Seq<char>,
)
    requires
        message_of(entry, identity) is None,
    ensures
        conversation(newer + seq![entry] + older, identity) == conversation(
            newer + older,
            identity,
        ),
{
    lemma_conversation_runs_oldest_first(newer + seq![entry], older, identity);
    lemma_conversation_runs_oldest_first(newer, seq![entry], identity);
    lemma_conversation_of_one(entry, identity);
    lemma_conversation_runs_oldest_first(newer, older, identity);
    assert(Seq::<MessageView>::empty() + conversation(newer, identity) =~= conversation(
        newer,
        identity,
    ));
}

/// Whether an entry is authored text that replaces nothing.
pub open spec fn is_authored_text(entry: EntryView) -> bool {
    entry matches EntryView::Text { replaces, .. } && !replaces
}

/// Where every entry of a history is authored text, the conversation is the
/// history read backwards: as many messages as entries, the oldest first,
/// each with the body of its entry, the role of its author and no name.
pub proof fn lemma_conversation_of_texts(newest_first: Seq<EntryView>, identity: Seq<char>)
    requires
        forall|i: int| 0 <= i < newest_first.len() ==> is_authored_text(#[trigger] newest_first[i]),
    ensures
        conversation(newest_first, identity).len() == newest_first.len(),
        forall|i: int|
            0 <= i < newest_first.len() ==> (#[trigger] conversation(newest_first, identity)[i])
                == (MessageView {
                role: if newest_first[newest_first.len() - 1 - i]->sender == identity {
                    Role::Assistant
                } else {
                    Role::User
                },
                content: newest_first[newest_first.len() - 1 - i]->body,
                name: None,
            }),
    decreases newest_first.len(),
{
    if newest_first.len() > 0 {
        let newest = newest_first[0];
        let older = newest_first.drop_first();
        assert(newest_first =~= seq![newest] + older);
        assert forall|i: int| 0 <= i < older.len() implies is_authored_text(#[trigger] older[i]) by {
            assert(older[i] == newest_first[i + 1]);
        }
        lemma_conversation_of_texts(older, identity);
        lemma_conversation_runs_oldest_first(seq![newest], older, identity);
        lemma_conversation_of_one(newest, identity);
        assert forall|i: int| 0 <= i < newest_first.len() implies (#[trigger] conversation(
            newest_first,
            identity,
        )[i]) == (MessageView {
            role: if newest_first[newest_first.len() - 1 - i]->sender == identity {
                Role::Assistant
            } else {
                Role::User
            },
            content: newest_first[newest_first.len() - 1 - i]->body,
            name: None,
        }) by {
            if i < older.len() {
                assert(older[older.len() - 1 - i] == newest_first[newest_first.len() - 1 - i]);
            }
        }
    }
}

/// No message of a conversation carries a name.
pub proof fn lemma_conversation_names_nobody(newest_first: Seq<EntryView>, identity: Seq<char>)
    ensures
        forall|i: int|
            0 <= i < conversation(newest_first, identity).len() ==> (#[trigger] conversation(
                newest_first,
                identity,
            )[i]).name is None,
{
    let built = conversation(newest_first, identity);
    assert forall|i: int| 0 <= i < built.len() implies (#[trigger] built[i]).name is None by {
        newest_first.reverse().lemma_filter_map_contains(contribution(identity), built[i]);
    }
}

} // verus!
