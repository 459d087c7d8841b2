//! The dialogue with a chat: a caption may come as a message of its own,
//! before the document that it belongs to.

use vstd::prelude::*;
use vstd::string::*;

verus! {

/// Where the dialogue with a chat stands.
#[derive(Debug)]
pub enum State {
    /// Nothing is waited for.
    Start,
    /// A caption has come; the document is waited for.
    ReceivedCaption(String),
}

/// A [`State`] as plain values.
pub enum StateView {
    Start,
    ReceivedCaption(Seq<char>),
}

impl View for State {
    type V = StateView;

    open spec fn view(&self) -> StateView {
        match *self {
            State::Start => StateView::Start,
            State::ReceivedCaption(caption) => StateView::ReceivedCaption(caption@),
        }
    }
}

impl Default for State {
    fn default() -> (state: State)
        ensures
            state@ == StateView::Start,
    {
        State::Start
    }
}

impl Clone for State {
    fn clone(&self) -> (copy: State)
        ensures
            copy@ == self@,
    {
        match self {
            State::Start => State::Start,
            State::ReceivedCaption(caption) => State::ReceivedCaption(caption.clone()),
        }
    }
}

/// What a message holds, as far as the dialogue goes by it.
#[derive(Debug)]
pub struct Incoming {
    /// The text of a message that is a text.
    pub text: Option<String>,
    /// The caption of a message that carries one.
    pub caption: Option<String>,
    /// Whether the message carries a document.
    pub has_document: bool,
}

/// What is to be done about a message.
#[derive(Debug, PartialEq, Eq)]
pub enum Reaction {
    /// Nothing.
    Nothing,
    /// The document of the message is to be taken in, with this caption.
    Upload { caption: Option<String> },
}

/// A [`Reaction`] as plain values.
pub enum ReactionView {
    Nothing,
    Upload { caption: Option<Seq<char>> },
}

/// The text of an optional string.
pub open spec fn caption_view(caption: Option<String>) -> Option<Seq<char>> {
    match caption {
        Some(text) => Some(text@),
        None => None,
    }
}

impl View for Reaction {
    type V = ReactionView;

    open spec fn view(&self) -> ReactionView {
        match *self {
            Reaction::Nothing => ReactionView::Nothing,
            Reaction::Upload { caption } => ReactionView::Upload { caption: caption_view(caption) },
        }
    }
}

/// The state after `message`, and what is to be done about it. At the start
/// a text is kept as the caption of the document to come, and a document is
/// taken in with the caption that it carries. After a caption the document
/// is taken in with that caption, and the dialogue starts over whatever the
/// message was.
pub open spec fn received(state: StateView, message: Incoming) -> (StateView, ReactionView) {
    match state {
        StateView::Start => (
            match message.text {
                Some(text) => StateView::ReceivedCaption(text@),
                None => StateView::Start,
            },
            if message.has_document {
                ReactionView::Upload { caption: caption_view(message.caption) }
            } else {
                ReactionView::Nothing
            },
        ),
        StateView::ReceivedCaption(caption) => (
            StateView::Start,
            if message.has_document {
                ReactionView::Upload { caption: Some(caption) }
            } else {
                ReactionView::Nothing
            },
        ),
    }
}

/// Takes a message into the dialogue.
pub fn receive(state: State, message: Incoming) -> (r: (State, Reaction))
    ensures
        (r.0@, r.1@) == received(state@, message),
{
    match state {
        State::Start => {
            let reaction = if message.has_document {
                Reaction::Upload { caption: message.caption }
            } else {
                Reaction::Nothing
            };
            let state = match message.text {
                Some(text) => State::ReceivedCaption(text),
                None => State::Start,
            };
            (state, reaction)
        },
        State::ReceivedCaption(caption) => {
            let reaction = if message.has_document {
                Reaction::Upload { caption: Some(caption) }
            } else {
                Reaction::Nothing
            };
            (State::Start, reaction)
        },
    }
}

} // verus!
