//! Authentication of a chat: the secret is what the pinned message of the
//! chat says after the command that stored it.

use vstd::prelude::*;
use vstd::string::*;
use crate::text::{begins_with, remove_all, starts_with, without};

verus! {

/// The command that stores credentials, as it opens a message.
pub open spec fn auth_command() -> Seq<char> {
    seq!['/', 'a', 'u', 't', 'h']
}

/// The command and the space that parts it from the secret.
pub open spec fn auth_prefix() -> Seq<char> {
    auth_command().push(' ')
}

/// The secret that a chat has stored: its pinned message without the
/// command, where there is a pinned message with a text.
pub open spec fn stored_secret(pinned: Option<Seq<char>>) -> Option<Seq<char>> {
    match pinned {
        Some(text) => Some(without(text, auth_prefix())),
        None => None,
    }
}

/// Reads the secret of a chat from its pinned message.
pub struct Authenticator {}

impl Authenticator {
    /// The authenticator; it holds nothing of its own.
    pub fn new() -> Authenticator {
        Authenticator {  }
    }

    /// Tells whether a message with the text `text` is the command that
    /// stores credentials.
    pub fn is_auth_command(&self, text: &str) -> (r: bool)
        ensures
            r == begins_with(text@, auth_command()),
    {
        proof {
            reveal_strlit("/auth");
        }
        assert("/auth"@ == auth_command());
        starts_with(text, "/auth")
    }

    /// The secret that the chat has stored, given the text of its pinned
    /// message; `None` where the chat has no pinned message with a text, and
    /// so has yet to authenticate.
    pub fn get_auth(&self, pinned: Option<&str>) -> (secret: Option<String>)
        ensures
            match secret {
                Some(s) => pinned is Some && stored_secret(Some(pinned->0@)) == Some(s@),
                None => pinned is None,
            },
    {
        match pinned {
            Some(text) => {
                proof {
                    reveal_strlit("/auth ");
                }
                assert("/auth "@ == auth_prefix());
                Some(remove_all(text, "/auth "))
            },
            None => None,
        }
    }
}

} // verus!
