//! Messages as the chat backend takes them.
use vstd::prelude::*;

verus! {

/// One role-tagged message of a chat request.
#[derive(Debug)]
pub struct Message {
    pub role: String,
    pub content: String,
}

impl Clone for Message {
    fn clone(&self) -> (r: Self)
        ensures
            r == *self,
    {
        Message { role: self.role.clone(), content: self.content.clone() }
    }
}

/// A request for the embedding of `prompt` by `model`.
#[derive(Debug)]
pub struct EmbedRequest {
    pub model: String,
    pub prompt: String,
}

} // verus!
