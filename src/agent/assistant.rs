//! The decisions of one conversation turn: what the model is asked, and what
//! is kept once it has answered. Retrieval of the query embedding, the model
//! call and persistence happen around these steps.
use vstd::prelude::*;

use crate::agent::chain::{build_messages, context_of, format_context};
use crate::agent::personality::{persona_prompt, with_memory, PersonalityProfile};
use crate::knowledge::documents::Document;
use crate::llm::types::Message as LlmMessage;
use crate::memory::conversation::{ConversationManager, Message};
use crate::memory::fifo::{keep_last, lemma_keep_last_push};
use crate::text::{prefix, take_chars, views};

verus! {

/// A user message longer than this many characters leaves a memory snippet.
pub const MEMORY_THRESHOLD: usize = 10;

/// How many characters of each side of an exchange a snippet keeps.
pub const SNIPPET_CHARS: usize = 100;

/// A summary of the assistant's state.
#[derive(Debug)]
pub struct AssistantInfo {
    pub model: String,
    pub embedding_model: String,
    pub knowledge_count: usize,
    pub conversation_count: usize,
    pub ollama_available: bool,
    pub data_dir: String,
    pub personality_name: String,
    pub user_name: Option<String>,
    pub memories_count: usize,
}

/// The snippet that remembers one exchange.
pub open spec fn snippet_of(user_message: Seq<char>, response: Seq<char>) -> Seq<char> {
    "User said: "@ + prefix(user_message, SNIPPET_CHARS as nat) + " | I responded: "@ + prefix(
        response,
        SNIPPET_CHARS as nat,
    )
}

/// The snippet that remembers one exchange: the start of each side.
pub fn memory_snippet(user_message: &str, response: &str) -> (r: String)
    ensures
        r@ == snippet_of(user_message@, response@),
{
    let mut s = String::from_str("User said: ");
    let u = take_chars(user_message, SNIPPET_CHARS);
    s.append(u.as_str());
    s.append(" | I responded: ");
    let a = take_chars(response, SNIPPET_CHARS);
    s.append(a.as_str());
    s
}

/// The contents of the retrieved documents, in order.
pub open spec fn contents(docs: Seq<Document>) -> Seq<Seq<char>> {
    docs.map_values(|d: Document| d.content@)
}

fn contents_of(docs: &Vec<Document>) -> (r: Vec<String>)
    ensures
        views(r@) == contents(docs@),
{
    let mut out: Vec<String> = Vec::new();
    let mut i: usize = 0;
    while i < docs.len()
        invariant
            i <= docs@.len(),
            out@.len() == i,
            views(out@) == contents(docs@.subrange(0, i as int)),
        decreases docs@.len() - i,
    {
        let ghost before = out@;
        out.push(docs[i].content.clone());
        i = i + 1;
        proof {
            let c = contents(docs@.subrange(0, i as int));
            let p = contents(docs@.subrange(0, i - 1));
            assert forall|j: int| 0 <= j < i implies views(out@)[j] == c[j] by {
                if j < i - 1 {
                    assert(out@[j] == before[j]);
                    assert(views(before)[j] == p[j]);
                    assert(docs@.subrange(0, i as int)[j] == docs@.subrange(0, i - 1)[j]);
                }
            }
            assert(views(out@) =~= c);
        }
    }
    assert(docs@.subrange(0, docs@.len() as int) =~= docs@);
    out
}

/// The chat request of a turn: the persona's prompt around the retrieved
/// documents, then the retained history oldest first, then the user's
/// message.
pub fn compose_request(
    personality: &PersonalityProfile,
    conversation: &ConversationManager,
    retrieved: &Vec<Document>,
    user_message: &str,
) -> (r: Vec<LlmMessage>)
    ensures
        r@.len() == conversation@.len() + 2,
        r@[0].role@ == "system"@,
        r@[0].content@ == persona_prompt(*personality, context_of(contents(retrieved@))),
        r@.subrange(1, r@.len() - 1) == conversation@.map_values(|m: Message| m.to_llm_spec()),
        r@.last().role@ == "user"@,
        r@.last().content@ == user_message@,
{
    let texts = contents_of(retrieved);
    let context = format_context(&texts);
    let system_prompt = personality.build_system_prompt(context.as_str());
    let history = conversation.get_recent_llm_messages();
    build_messages(system_prompt, history, String::from_str(user_message))
}

/// Whether a user message is long enough to be remembered.
pub fn worth_remembering(user_message: &str) -> (r: bool)
    ensures
        r == (user_message@.len() > MEMORY_THRESHOLD),
{
    user_message.unicode_len() > MEMORY_THRESHOLD
}

/// Whether `m` is the turn `role: content` stamped `timestamp`.
pub open spec fn is_turn(m: Message, role: Seq<char>, content: Seq<char>, timestamp: i64) -> bool {
    m.role@ == role && m.content@ == content && m.timestamp == timestamp
}

/// Records a completed exchange: the user's message and then the reply join
/// the history, both stamped `timestamp`; a user message of more than
/// `MEMORY_THRESHOLD` characters also leaves a snippet in the persona's memory.
/// Returns whether the persona changed.
pub fn commit_turn(
    conversation: &mut ConversationManager,
    personality: &mut PersonalityProfile,
    user_message: &str,
    response: &str,
    timestamp: i64,
) -> (r: bool)
    requires
        old(conversation).wf(),
    ensures
        final(conversation).wf(),
        final(conversation).cap() == old(conversation).cap(),
        exists|u: Message, a: Message|
            is_turn(u, "user"@, user_message@, timestamp) && is_turn(a, "assistant"@, response@, timestamp)
                && #[trigger] final(conversation)@ == keep_last(
                old(conversation)@ + seq![u, a],
                old(conversation).cap(),
            ),
        r == (user_message@.len() > MEMORY_THRESHOLD),
        r ==> exists|m: String|
            m@ == snippet_of(user_message@, response@) && #[trigger] final(personality).memory_context@
                == with_memory(old(personality).memory_context@, m),
        !r ==> final(personality).memory_context == old(personality).memory_context,
        final(personality).name == old(personality).name,
        final(personality).personality_traits == old(personality).personality_traits,
        final(personality).communication_style == old(personality).communication_style,
        final(personality).interests == old(personality).interests,
        final(personality).relationship_context == old(personality).relationship_context,
        final(personality).user_preferences == old(personality).user_preferences,
{
    let ghost start = conversation@;
    let ghost cap = conversation.cap();
    let u = Message { role: String::from_str("user"), content: String::from_str(user_message), timestamp };
    let a = Message { role: String::from_str("assistant"), content: String::from_str(response), timestamp };
    let ghost (gu, ga) = (u, a);
    conversation.push_message(u);
    conversation.push_message(a);
    proof {
        lemma_keep_last_push(start.push(gu), ga, cap);
        assert(start.push(gu).push(ga) =~= start + seq![gu, ga]);
        assert(is_turn(gu, "user"@, user_message@, timestamp));
    }
    let remember = worth_remembering(user_message);
    if remember {
        let m = memory_snippet(user_message, response);
        personality.add_memory(m);
    }
    remember
}

} // verus!
