use archivist::commit_messages::{message_of, CommitMessageGenerator, WhatTheCommitMessageGenerator};

#[test]
fn message_is_the_paragraph_of_the_content() {
    let page = "<html><body>\n<div id=\"content\">\n<p>Fixed a bug, maybe\n</p>\n<p class=\"permalink\">x</p>\n</div></body></html>";
    assert_eq!(WhatTheCommitMessageGenerator::new().generate(Some(page)), "Fixed a bug, maybe");
}

#[test]
fn page_without_content_gives_the_empty_message() {
    let generator = WhatTheCommitMessageGenerator::new();
    assert_eq!(generator.generate(Some("<html><p>nothing here</p></html>")), "");
    assert_eq!(generator.generate(Some("")), "");
}

#[test]
fn unreachable_service_gives_the_empty_message() {
    assert_eq!(WhatTheCommitMessageGenerator::new().generate(None), "");
}

#[test]
fn capture_is_the_message() {
    assert_eq!(message_of(Some("wip".to_string())), "wip");
    assert_eq!(message_of(None), "");
}
