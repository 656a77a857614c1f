//! Prompt pieces: the plain system prompt, the retrieved context, and the
//! message sequence of a chat request.
use vstd::prelude::*;

use crate::llm::types::Message;
use crate::text::{join, join_strings, views};

verus! {

/// The plain system prompt around `knowledge_context`.
pub open spec fn plain_prompt(knowledge_context: Seq<char>) -> Seq<char> {
    "You are a helpful personal assistant running locally. Use the following information from your knowledge base to help answer questions:\n\n"@
        + knowledge_context
        + "\n\nBe helpful, concise, and friendly. If you don't know something, say so honestly."@
}

/// The retrieved passages separated by blank lines, or a note that nothing
/// relevant was found.
pub open spec fn context_of(documents: Seq<Seq<char>>) -> Seq<char> {
    if documents.len() == 0 {
        "No relevant information in knowledge base."@
    } else {
        join(documents, "\n\n"@)
    }
}

/// The system prompt of a plain assistant, around `knowledge_context`.
pub fn build_system_prompt(knowledge_context: &str) -> (r: String)
    ensures
        r@ == plain_prompt(knowledge_context@),
{
    let mut s = String::from_str(
        "You are a helpful personal assistant running locally. Use the following information from your knowledge base to help answer questions:\n\n",
    );
    s.append(knowledge_context);
    s.append(
        "\n\nBe helpful, concise, and friendly. If you don't know something, say so honestly.",
    );
    s
}

/// The retrieved passages as one context text.
pub fn format_context(documents: &Vec<String>) -> (r: String)
    ensures
        r@ == context_of(views(documents@)),
{
    if documents.len() == 0 {
        String::from_str("No relevant information in knowledge base.")
    } else {
        join_strings(documents, "\n\n")
    }
}


/// Whether `m` is the message `role: content`.
pub open spec fn is_tagged(m: Message, role: Seq<char>, content: String) -> bool {
    m.role@ == role && m.content == content
}

/// A chat request: the system prompt, then the history oldest first, then
/// the user's message.
pub fn build_messages(
    system_prompt: String,
    conversation_history: Vec<Message>,
    user_message: String,
) -> (r: Vec<Message>)
    ensures
        r@.len() == conversation_history@.len() + 2,
        is_tagged(r@[0], "system"@, system_prompt),
        r@.subrange(1, r@.len() - 1) == conversation_history@,
        is_tagged(r@.last(), "user"@, user_message),
{
    let mut messages: Vec<Message> = Vec::new();
    messages.push(Message { role: String::from_str("system"), content: system_prompt });
    let mut history = conversation_history;
    messages.append(&mut history);
    messages.push(Message { role: String::from_str("user"), content: user_message });
    assert(messages@.subrange(1, messages@.len() - 1) =~= conversation_history@);
    messages
}

} // verus!
