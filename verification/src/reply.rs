//! The message that carries a reply back into the room.

use matrix_sdk::ruma::events::room::message::FormattedBody;
use vstd::prelude::*;

verus! {

/// A text message to be posted: the plain text that every client can show,
/// and an HTML rendering of it where there is one.
#[derive(Clone, Debug, PartialEq, Eq)]
pub struct OutgoingMessage {
    pub body: String,
    pub formatted_body: Option<String>,
}

/// What an [`OutgoingMessage`] holds, as plain values.
pub struct OutgoingView {
    pub body: Seq<char>,
    pub formatted_body: Option<Seq<char>>,
}

impl View for OutgoingMessage {
    type V = OutgoingView;

    open spec fn view(&self) -> OutgoingView {
        OutgoingView { body: self.body@, formatted_body: self.formatted_body.deep_view() }
    }
}

impl DeepView for OutgoingMessage {
    type V = OutgoingView;

    open spec fn deep_view(&self) -> OutgoingView {
        self@
    }
}

/// The HTML that the Markdown renderer gives for a text, or `None` where the
/// renderer finds no formatting in it. Nothing is stated of the rendering
/// here but that it is a function of the text.
pub uninterp spec fn markdown_html(text: Seq<char>) -> Option<Seq<char>>;

/// Renders a text by `FormattedBody::markdown` and hands out the HTML of the
/// formatted body, if there is one.
///
/// Not proved, but taken on trust: the outcome is a function of the text, so
/// the same text always gets the same rendering or never one.
#[verifier::external_body]
fn render_markdown(text: &str) -> (html: Option<String>)
    ensures
        html.deep_view() == markdown_html(text@),
{
    FormattedBody::markdown(text).map(|formatted| formatted.body)
}

/// The message that carries `text` with the rendering `html`.
pub open spec fn outgoing(text: Seq<char>, html: Option<Seq<char>>) -> OutgoingView {
    OutgoingView { body: text, formatted_body: html }
}

impl OutgoingMessage {
    /// A message with the given plain text and, where there is one, its HTML
    /// rendering. The plain text is carried unchanged.
    pub fn with_rendering(text: String, html: Option<String>) -> (message: OutgoingMessage)
        ensures
            message@ == outgoing(text@, html.deep_view()),
    {
        OutgoingMessage { body: text, formatted_body: html }
    }

    /// A message whose plain text is `text` and whose HTML is `text` read as
    /// Markdown.
    pub fn text_markdown(text: String) -> (message: OutgoingMessage)
        ensures
            message@ == outgoing(text@, markdown_html(text@)),
    {
        let html = render_markdown(text.as_str());
        Self::with_rendering(text, html)
    }
}

} // verus!
