//! A cache that keeps one message for each chat.

use std::collections::HashMap;
use vstd::prelude::*;

verus! {

broadcast use vstd::std_specs::hash::group_hash_axioms;

/// Keeps messages until they are asked for, one for each chat.
pub trait MessageCache<M> {
    /// The message kept for each chat that has one.
    spec fn held(&self) -> Map<i64, M>;

    /// Makes ready to keep a message for the chat.
    fn lock_chat(&mut self, chat_id: i64)
        ensures
            final(self).held() == old(self).held(),
    ;

    /// Keeps `message` for the chat, in place of the one kept before.
    fn put(&mut self, chat_id: i64, message: M)
        ensures
            final(self).held() == old(self).held().insert(chat_id, message),
    ;

    /// Takes the message kept for the chat out of the cache.
    fn pop(&mut self, chat_id: i64) -> (message: Option<M>)
        ensures
            final(self).held() == old(self).held().remove(chat_id),
            match message {
                Some(m) => old(self).held().contains_key(chat_id) && old(self).held()[chat_id] == m,
                None => !old(self).held().contains_key(chat_id),
            },
    ;
}

/// A cache in the memory of the process.
pub struct InMemoryMessageCache<M> {
    cache: HashMap<i64, M>,
}

impl<M> InMemoryMessageCache<M> {
    /// A cache that keeps nothing yet.
    pub fn new() -> (cache: InMemoryMessageCache<M>)
        ensures
            cache.held() == Map::<i64, M>::empty(),
    {
        InMemoryMessageCache { cache: HashMap::new() }
    }
}

impl<M> MessageCache<M> for InMemoryMessageCache<M> {
    closed spec fn held(&self) -> Map<i64, M> {
        self.cache@
    }

    fn lock_chat(&mut self, chat_id: i64) {
    }

    fn put(&mut self, chat_id: i64, message: M) {
        self.cache.insert(chat_id, message);
    }

    fn pop(&mut self, chat_id: i64) -> (message: Option<M>) {
        self.cache.remove(&chat_id)
    }
}

} // verus!
