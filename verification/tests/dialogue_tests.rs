use archivist::dialogue::{receive, Incoming, Reaction, State};

fn message(text: Option<&str>, caption: Option<&str>, has_document: bool) -> Incoming {
    Incoming {
        text: text.map(|s| s.to_string()),
        caption: caption.map(|s| s.to_string()),
        has_document,
    }
}

#[test]
fn dialogue_begins_at_start() {
    assert!(matches!(State::default(), State::Start));
}

#[test]
fn text_is_kept_as_caption() {
    let (state, reaction) = receive(State::Start, message(Some("invoice 2024"), None, false));
    assert!(matches!(state, State::ReceivedCaption(ref c) if c == "invoice 2024"));
    assert_eq!(reaction, Reaction::Nothing);
    assert!(matches!(state.clone(), State::ReceivedCaption(ref c) if c == "invoice 2024"));
}

#[test]
fn document_is_taken_in_with_its_own_caption() {
    let (state, reaction) = receive(State::Start, message(None, Some("tax"), true));
    assert!(matches!(state, State::Start));
    assert_eq!(reaction, Reaction::Upload { caption: Some("tax".to_string()) });
    let (_, reaction) = receive(State::Start, message(None, None, true));
    assert_eq!(reaction, Reaction::Upload { caption: None });
}

#[test]
fn document_after_caption_takes_the_kept_caption() {
    let kept = State::ReceivedCaption("invoice".to_string());
    let (state, reaction) = receive(kept, message(None, Some("other"), true));
    assert!(matches!(state, State::Start));
    assert_eq!(reaction, Reaction::Upload { caption: Some("invoice".to_string()) });
}

#[test]
fn anything_but_a_document_after_a_caption_starts_over() {
    let kept = State::ReceivedCaption("invoice".to_string());
    let (state, reaction) = receive(kept, message(Some("more"), None, false));
    assert!(matches!(state, State::Start));
    assert_eq!(reaction, Reaction::Nothing);
}

#[test]
fn message_without_text_or_document_changes_nothing() {
    let (state, reaction) = receive(State::Start, message(None, None, false));
    assert!(matches!(state, State::Start));
    assert_eq!(reaction, Reaction::Nothing);
}
