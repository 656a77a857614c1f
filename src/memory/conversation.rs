//! The conversation history: the most recent turns, oldest first, never more
//! than a fixed number.
use vstd::prelude::*;
use std::collections::VecDeque;

use crate::clock::now_millis;
use crate::llm::types::Message as LlmMessage;
use crate::memory::fifo::{keep_last, lemma_keep_last_push};

verus! {

/// One turn of the conversation: who spoke, what was said, and when
/// (milliseconds since the Unix epoch, UTC).
#[derive(Debug)]
pub struct Message {
    pub role: String,
    pub content: String,
    pub timestamp: i64,
}

impl Clone for Message {
    fn clone(&self) -> (r: Self)
        ensures
            r == *self,
    {
        Message { role: self.role.clone(), content: self.content.clone(), timestamp: self.timestamp }
    }
}

impl Message {
    /// A turn stamped with the current time.
    pub fn new(role: String, content: String) -> (r: Self)
        ensures
            r.role == role,
            r.content == content,
    {
        Message { role, content, timestamp: now_millis() }
    }

    /// The turn as the chat backend takes it, without its timestamp.
    pub open spec fn to_llm_spec(self) -> LlmMessage {
        LlmMessage { role: self.role, content: self.content }
    }

    /// The turn as the chat backend takes it, without its timestamp.
    pub fn to_llm_message(&self) -> (r: LlmMessage)
        ensures
            r == self.to_llm_spec(),
    {
        LlmMessage { role: self.role.clone(), content: self.content.clone() }
    }
}

/// The history after pushing each of `items` in turn onto `h`, capping at
/// `cap` after every push.
pub open spec fn appended_all(h: Seq<Message>, items: Seq<Message>, cap: nat) -> Seq<Message>
    decreases items.len(),
{
    if items.len() == 0 {
        h
    } else {
        keep_last(appended_all(h, items.drop_last(), cap).push(items.last()), cap)
    }
}

/// However many turns are appended, the history never holds more than its
/// cap, and it holds exactly the most recent turns in the order they came.
pub proof fn lemma_history_keeps_latest(h: Seq<Message>, items: Seq<Message>, cap: nat)
    requires
        h.len() <= cap,
    ensures
        appended_all(h, items, cap) == keep_last(h + items, cap),
        appended_all(h, items, cap).len() <= cap,
    decreases items.len(),
{
    if items.len() > 0 {
        let init = items.drop_last();
        lemma_history_keeps_latest(h, init, cap);
        lemma_keep_last_push(h + init, items.last(), cap);
        assert((h + init).push(items.last()) =~= h + items);
        lemma_keep_last_push(h + items, items.last(), cap);
    } else {
        assert(h + items =~= h);
    }
}

/// `after` is the history `before` once `m` has been appended under cap
/// `cap`: one step of `push_message` or `add_message`.
pub open spec fn appends(before: Seq<Message>, after: Seq<Message>, m: Message, cap: nat) -> bool {
    after == keep_last(before.push(m), cap)
}

/// Along any run of appends that starts within the cap, every history holds
/// at most `cap` turns, and exactly the most recent ones of all turns seen
/// so far, oldest first. `states[i]` is the history after the first `i`
/// appends and `items[i]` is the turn the next append made.
pub proof fn lemma_appends_keep_latest(states: Seq<Seq<Message>>, items: Seq<Message>, cap: nat)
    requires
        states.len() == items.len() + 1,
        states[0].len() <= cap,
        forall|i: int|
            0 <= i < items.len() ==> appends(states[i], #[trigger] states[i + 1], items[i], cap),
    ensures
        forall|i: int|
            0 <= i < states.len() ==> #[trigger] states[i] == keep_last(
                states[0] + items.subrange(0, i),
                cap,
            ) && states[i].len() <= cap,
{
    assert forall|i: int| 0 <= i < states.len() implies #[trigger] states[i] == keep_last(
        states[0] + items.subrange(0, i),
        cap,
    ) && states[i].len() <= cap by {
        lemma_appends_prefix(states, items, cap, i);
    }
}

proof fn lemma_appends_prefix(states: Seq<Seq<Message>>, items: Seq<Message>, cap: nat, i: int)
    requires
        states.len() == items.len() + 1,
        states[0].len() <= cap,
        forall|j: int|
            0 <= j < items.len() ==> appends(states[j], #[trigger] states[j + 1], items[j], cap),
        0 <= i < states.len(),
    ensures
        states[i] == keep_last(states[0] + items.subrange(0, i), cap),
        states[i].len() <= cap,
    decreases i,
{
    if i == 0 {
        assert(states[0] + items.subrange(0, 0) =~= states[0]);
    } else {
        lemma_appends_prefix(states, items, cap, i - 1);
        let j = i - 1;
        assert(appends(states[j], states[j + 1], items[j], cap));
        assert(j + 1 == i);
        let base = states[0] + items.subrange(0, i - 1);
        lemma_keep_last_push(base, items[i - 1], cap);
        assert(base.push(items[i - 1]) =~= states[0] + items.subrange(0, i));
    }
}

/// The bounded history of turns.
#[derive(Debug)]
pub struct ConversationManager {
    messages: VecDeque<Message>,
    max_history: usize,
}

impl View for ConversationManager {
    type V = Seq<Message>;

    closed spec fn view(&self) -> Seq<Message> {
        self.messages@
    }
}

impl ConversationManager {
    /// The most turns the history holds.
    pub closed spec fn cap(&self) -> nat {
        self.max_history as nat
    }

    /// The history never holds more than its cap.
    pub open spec fn wf(&self) -> bool {
        self@.len() <= self.cap()
    }

    /// An empty history holding at most `max_history` turns.
    pub fn new(max_history: usize) -> (r: Self)
        ensures
            r@ == Seq::<Message>::empty(),
            r.cap() == max_history,
            r.wf(),
    {
        ConversationManager { messages: VecDeque::new(), max_history }
    }

    /// A history restored from `history`, oldest first, keeping only its
    /// last `max_history` turns.
    pub fn new_with_history(max_history: usize, history: Vec<Message>) -> (r: Self)
        ensures
            r@ == keep_last(history@, max_history as nat),
            r.cap() == max_history,
            r.wf(),
    {
        let mut messages: VecDeque<Message> = VecDeque::new();
        let mut history = history;
        let ghost all = history@;
        let mut i: usize = 0;
        let n = history.len();
        while i < n
            invariant
                n == all.len(),
                i <= n,
                history@ == all.subrange(i as int, n as int),
                messages@ == all.subrange(0, i as int),
            decreases n - i,
        {
            let m = history.remove(0);
            messages.push_back(m);
            i = i + 1;
            assert(messages@ =~= all.subrange(0, i as int));
            assert(history@ =~= all.subrange(i as int, n as int));
        }
        assert(messages@ =~= all);
        while messages.len() > max_history
            invariant
                keep_last(messages@, max_history as nat) == keep_last(all, max_history as nat),
            decreases messages@.len(),
        {
            let ghost before = messages@;
            messages.pop_front();
            assert(keep_last(messages@, max_history as nat) =~= keep_last(before, max_history as nat));
        }
        ConversationManager { messages, max_history }
    }

    /// Appends `message`, then drops the oldest turn while the history holds
    /// more than its cap.
    pub fn push_message(&mut self, message: Message)
        requires
            old(self).wf(),
        ensures
            final(self)@ == keep_last(old(self)@.push(message), old(self).cap()),
            appends(old(self)@, final(self)@, message, old(self).cap()),
            final(self).cap() == old(self).cap(),
            final(self).wf(),
    {
        let ghost pushed = self@.push(message);
        self.messages.push_back(message);
        while self.messages.len() > self.max_history
            invariant
                self.max_history == old(self).max_history,
                pushed == old(self)@.push(message),
                keep_last(self.messages@, self.max_history as nat) == keep_last(pushed, self.max_history as nat),
            decreases self.messages@.len(),
        {
            let ghost before = self.messages@;
            self.messages.pop_front();
            assert(keep_last(self.messages@, self.max_history as nat) =~= keep_last(before, self.max_history as nat));
        }
    }

    /// Appends a turn by `role` saying `content`, stamped with the current
    /// time, keeping only the most recent turns.
    pub fn add_message(&mut self, role: String, content: String)
        requires
            old(self).wf(),
        ensures
            final(self).cap() == old(self).cap(),
            final(self).wf(),
            exists|m: Message|
                m.role == role && m.content == content && #[trigger] appends(
                    old(self)@,
                    final(self)@,
                    m,
                    old(self).cap(),
                ),
    {
        let message = Message::new(role, content);
        let ghost m = message;
        self.push_message(message);
        assert(appends(old(self)@, self@, m, old(self).cap()));
    }

    /// Every retained turn, oldest first.
    pub fn get_recent_messages(&self) -> (r: Vec<Message>)
        ensures
            r@ == self@,
    {
        self.export()
    }

    /// Every retained turn, oldest first, as the chat backend takes it.
    pub fn get_recent_llm_messages(&self) -> (r: Vec<LlmMessage>)
        ensures
            r@ == self@.map_values(|m: Message| m.to_llm_spec()),
    {
        let mut out: Vec<LlmMessage> = Vec::new();
        let mut i: usize = 0;
        while i < self.messages.len()
            invariant
                i <= self@.len(),
                out@ == self@.subrange(0, i as int).map_values(|m: Message| m.to_llm_spec()),
            decreases self@.len() - i,
        {
            out.push(self.messages[i].to_llm_message());
            i = i + 1;
            assert(out@ =~= self@.subrange(0, i as int).map_values(|m: Message| m.to_llm_spec()));
        }
        assert(self@.subrange(0, self@.len() as int) =~= self@);
        out
    }

    /// Forgets every turn.
    pub fn clear(&mut self)
        ensures
            final(self)@ == Seq::<Message>::empty(),
            final(self).cap() == old(self).cap(),
            final(self).wf(),
    {
        self.messages.clear();
    }

    /// The number of retained turns.
    pub fn count(&self) -> (r: usize)
        ensures
            r == self@.len(),
    {
        self.messages.len()
    }

    /// A copy of every retained turn, oldest first.
    pub fn export(&self) -> (r: Vec<Message>)
        ensures
            r@ == self@,
    {
        let mut out: Vec<Message> = Vec::new();
        let mut i: usize = 0;
        while i < self.messages.len()
            invariant
                i <= self@.len(),
                out@ == self@.subrange(0, i as int),
            decreases self@.len() - i,
        {
            out.push(self.messages[i].clone());
            i = i + 1;
            assert(out@ =~= self@.subrange(0, i as int));
        }
        assert(self@.subrange(0, self@.len() as int) =~= self@);
        out
    }
}

/// Restoring a history of at most `cap` turns with cap `cap` keeps every
/// turn, in order; so restoring what `export` returned gives back the same
/// history.
pub proof fn lemma_restore_within_cap(h: Seq<Message>, cap: nat)
    requires
        h.len() <= cap,
    ensures
        keep_last(h, cap) == h,
{
}

} // verus!
