//! Commit messages taken from the page of a message service.

use vstd::prelude::*;
use vstd::string::*;

verus! {

/// What the first capture group of the regular expression `pattern` holds at
/// the leftmost match of `pattern` in `text`; `None` where `pattern` is no
/// valid expression, where `text` has no match, and where the group takes no
/// part in the match.
pub uninterp spec fn first_group(pattern: Seq<char>, text: Seq<char>) -> Option<Seq<char>>;

/// The text of an optional string.
pub open spec fn capture_view(capture: Option<String>) -> Option<Seq<char>> {
    match capture {
        Some(s) => Some(s@),
        None => None,
    }
}

/// `regex::Regex::new`, `Regex::captures` and `Captures::get` with index 1:
/// compiles `pattern`, searches `text` for its leftmost match and hands out
/// what the first capture group matched. The result is a function of the two
/// texts alone; it is named, not described.
#[verifier::external_body]
fn capture_first_group(pattern: &str, text: &str) -> (found: Option<String>)
    ensures
        capture_view(found) == first_group(pattern@, text@),
{
    match regex::Regex::new(pattern) {
        Ok(expression) => match expression.captures(text) {
            Some(groups) => match groups.get(1) {
                Some(group) => Some(group.as_str().to_string()),
                None => None,
            },
            None => None,
        },
        Err(_) => None,
    }
}

/// The regular expression that finds the message in the page of the service:
/// the paragraph of the element with the identifier `content`.
pub open spec fn content_pattern() -> Seq<char> {
    r#"(?m)id="content">\s*<p>(.+)\s*<\/p>"#@
}

/// The message that a capture stands for: the captured text, and the empty
/// message where nothing was captured.
pub open spec fn message_from(capture: Option<Seq<char>>) -> Seq<char> {
    match capture {
        Some(message) => message,
        None => Seq::empty(),
    }
}

/// Turns what was captured from a page into a commit message.
pub fn message_of(capture: Option<String>) -> (message: String)
    ensures
        message@ == message_from(capture_view(capture)),
{
    match capture {
        Some(message) => message,
        None => String::new(),
    }
}

/// Makes commit messages from what a message service sends.
pub trait CommitMessageGenerator {
    /// The message made from the page `page`, or from its absence where the
    /// service could not be reached.
    spec fn message(&self, page: Option<Seq<char>>) -> Seq<char>;

    /// Makes the message from the page that the service sent, where it
    /// sent one.
    fn generate(&self, page: Option<&str>) -> (message: String)
        ensures
            message@ == self.message(
                match page {
                    Some(text) => Some(text@),
                    None => None,
                },
            ),
    ;
}

/// Takes the message from the page of `whatthecommit.com`.
pub struct WhatTheCommitMessageGenerator {}

impl WhatTheCommitMessageGenerator {
    /// The generator; it holds nothing of its own.
    pub fn new() -> WhatTheCommitMessageGenerator {
        WhatTheCommitMessageGenerator {  }
    }
}

impl CommitMessageGenerator for WhatTheCommitMessageGenerator {
    open spec fn message(&self, page: Option<Seq<char>>) -> Seq<char> {
        match page {
            Some(text) => message_from(first_group(content_pattern(), text)),
            None => Seq::empty(),
        }
    }

    fn generate(&self, page: Option<&str>) -> (message: String) {
        match page {
            Some(text) => message_of(
                capture_first_group(r#"(?m)id="content">\s*<p>(.+)\s*<\/p>"#, text),
            ),
            None => String::new(),
        }
    }
}

} // verus!
