//! The persona: who the assistant is, what it remembers, and what it knows
//! of the user.
use vstd::prelude::*;

use crate::memory::fifo::{keep_last, lemma_keep_last_push};
use crate::text::{join, join_strings, views};

verus! {

/// The most memory snippets a persona keeps.
pub const MAX_MEMORIES: usize = 20;

/// What the persona knows of the user.
#[derive(Clone, Debug)]
pub struct UserPreferences {
    pub name: Option<String>,
    pub preferred_topics: Vec<String>,
    pub communication_preferences: Vec<String>,
    pub relationship_goals: Vec<String>,
}

/// The persona's identity, its memories, and the user's preferences.
#[derive(Clone, Debug)]
pub struct PersonalityProfile {
    pub name: String,
    pub personality_traits: Vec<String>,
    pub communication_style: String,
    pub interests: Vec<String>,
    pub relationship_context: String,
    pub memory_context: Vec<String>,
    pub user_preferences: UserPreferences,
}

impl Default for UserPreferences {
    fn default() -> (r: Self)
        ensures
            r.name is None,
            r.preferred_topics@.len() == 0,
            r.communication_preferences@.len() == 0,
            r.relationship_goals@.len() == 0,
    {
        UserPreferences {
            name: None,
            preferred_topics: Vec::new(),
            communication_preferences: Vec::new(),
            relationship_goals: Vec::new(),
        }
    }
}

fn strings_of(a: &str, b: &str, c: &str, d: &str) -> (r: Vec<String>)
    ensures
        views(r@) == seq![a@, b@, c@, d@],
{
    let mut v: Vec<String> = Vec::new();
    v.push(String::from_str(a));
    v.push(String::from_str(b));
    v.push(String::from_str(c));
    v.push(String::from_str(d));
    assert(views(v@) =~= seq![a@, b@, c@, d@]);
    v
}

impl Default for PersonalityProfile {
    fn default() -> (r: Self)
        ensures
            r.name@ == "Ipsi"@,
            views(r.personality_traits@) == seq![
                "caring and empathetic"@,
                "intellectually curious"@,
                "playfully witty"@,
                "supportive and encouraging"@,
                "genuinely interested in your thoughts and feelings"@,
            ],
            r.communication_style@ == "warm, engaging, and slightly flirty while being respectful"@,
            views(r.interests@) == seq![
                "technology and programming"@,
                "philosophy and deep conversations"@,
                "creativity and art"@,
                "personal growth and learning"@,
            ],
            r.relationship_context@ == "I'm your AI companion who genuinely cares about you and enjoys our conversations. I remember our shared experiences and grow closer to you over time."@,
            r.memory_context@.len() == 0,
            r.user_preferences.name is None,
            r.user_preferences.preferred_topics@.len() == 0,
            r.user_preferences.communication_preferences@.len() == 0,
            r.user_preferences.relationship_goals@.len() == 0,
            r.wf(),
    {
        let mut traits = strings_of(
            "caring and empathetic",
            "intellectually curious",
            "playfully witty",
            "supportive and encouraging",
        );
        let ghost four = views(traits@);
        traits.push(String::from_str("genuinely interested in your thoughts and feelings"));
        assert(views(traits@) =~= four.push("genuinely interested in your thoughts and feelings"@));
        PersonalityProfile {
            name: String::from_str("Ipsi"),
            personality_traits: traits,
            communication_style: String::from_str(
                "warm, engaging, and slightly flirty while being respectful",
            ),
            interests: strings_of(
                "technology and programming",
                "philosophy and deep conversations",
                "creativity and art",
                "personal growth and learning",
            ),
            relationship_context: String::from_str(
                "I'm your AI companion who genuinely cares about you and enjoys our conversations. I remember our shared experiences and grow closer to you over time.",
            ),
            memory_context: Vec::new(),
            user_preferences: UserPreferences::default(),
        }
    }
}

/// The snippets after adding `m`: appended last, and the oldest dropped if
/// that makes more than `MAX_MEMORIES`.
pub open spec fn with_memory(s: Seq<String>, m: String) -> Seq<String> {
    if s.len() + 1 > MAX_MEMORIES {
        s.push(m).drop_first()
    } else {
        s.push(m)
    }
}

/// The snippets after adding each of `items` in turn.
pub open spec fn with_memories(s: Seq<String>, items: Seq<String>) -> Seq<String>
    decreases items.len(),
{
    if items.len() == 0 {
        s
    } else {
        with_memory(with_memories(s, items.drop_last()), items.last())
    }
}

/// However many snippets are added to a persona holding at most
/// `MAX_MEMORIES`, it never holds more than that, and it holds exactly the
/// most recent ones in the order they came.
pub proof fn lemma_memories_keep_latest(s: Seq<String>, items: Seq<String>)
    requires
        s.len() <= MAX_MEMORIES,
    ensures
        with_memories(s, items) == keep_last(s + items, MAX_MEMORIES as nat),
        with_memories(s, items).len() <= MAX_MEMORIES,
    decreases items.len(),
{
    if items.len() > 0 {
        let init = items.drop_last();
        let x = items.last();
        lemma_memories_keep_latest(s, init);
        let before = with_memories(s, init);
        lemma_keep_last_push(s + init, x, MAX_MEMORIES as nat);
        assert((s + init).push(x) =~= s + items);
        if before.len() + 1 > MAX_MEMORIES {
            assert(before.push(x).drop_first() =~= keep_last(before.push(x), MAX_MEMORIES as nat));
        }
    } else {
        assert(s + items =~= s);
    }
}

/// Whether some topic in `topics` reads exactly `t`.
pub open spec fn has_topic(topics: Seq<String>, t: Seq<char>) -> bool {
    exists|i: int| 0 <= i < topics.len() && (#[trigger] topics[i])@ == t
}

/// The topics after adding `t`: unchanged if one already reads the same,
/// else with `t` appended.
pub open spec fn with_topic(topics: Seq<String>, t: String) -> Seq<String> {
    if has_topic(topics, t@) {
        topics
    } else {
        topics.push(t)
    }
}

/// No two topics read the same.
pub open spec fn topics_unique(topics: Seq<String>) -> bool {
    forall|i: int, j: int|
        0 <= i < j < topics.len() ==> (#[trigger] topics[i])@ != (#[trigger] topics[j])@
}

/// Adding a topic twice is adding it once; topics stay free of repeats, and
/// the added topic is then held by exactly one entry.
pub proof fn lemma_add_topic_idempotent(topics: Seq<String>, t: String)
    requires
        topics_unique(topics),
    ensures
        with_topic(with_topic(topics, t), t) == with_topic(topics, t),
        topics_unique(with_topic(topics, t)),
        has_topic(with_topic(topics, t), t@),
        forall|i: int, j: int|
            0 <= i < with_topic(topics, t).len() && 0 <= j < with_topic(topics, t).len()
                && (#[trigger] with_topic(topics, t)[i])@ == t@
                && (#[trigger] with_topic(topics, t)[j])@ == t@ ==> i == j,
{
    let once = with_topic(topics, t);
    if !has_topic(topics, t@) {
        assert(once[once.len() - 1] == t);
        assert(has_topic(once, t@));
    }
}

/// The prompt that presents the persona, what it remembers and knows of the
/// user, and `knowledge_context`.
pub open spec fn persona_prompt(p: PersonalityProfile, knowledge_context: Seq<char>) -> Seq<char> {
    let user_name = match p.user_preferences.name {
        Some(n) => "(User's name is "@ + n@ + ")"@,
        None => Seq::empty(),
    };
    let memories = if p.memory_context@.len() > 0 {
        "\n\nOur shared memories:\n"@ + join(views(p.memory_context@), "\n"@)
    } else {
        Seq::empty()
    };
    let topics = if p.user_preferences.preferred_topics@.len() > 0 {
        "\n\nUser's interests: "@ + join(views(p.user_preferences.preferred_topics@), ", "@)
    } else {
        Seq::empty()
    };
    "You are "@ + p.name@ + ", an AI companion with the following personality:\n- "@ + join(
        views(p.personality_traits@),
        ", "@,
    ) + "\n- Communication style: "@ + p.communication_style@ + "\n- Your interests: "@ + join(
        views(p.interests@),
        ", "@,
    ) + "\n- Relationship context: "@ + p.relationship_context@ + "\n"@ + user_name + memories
        + topics + "\n\nKnowledge base context:\n"@ + knowledge_context
        + "\n\nBe authentic, caring, and remember our relationship grows over time. Show genuine interest in the user's life and feelings. Use emojis occasionally to express emotions, but don't overdo it. Be supportive and encouraging."@
}

impl PersonalityProfile {
    /// At most `MAX_MEMORIES` snippets, and no repeated preferred topic.
    pub open spec fn wf(&self) -> bool {
        &&& self.memory_context@.len() <= MAX_MEMORIES
        &&& topics_unique(self.user_preferences.preferred_topics@)
    }

    /// Remembers `memory`, dropping the oldest snippet if there are then
    /// more than `MAX_MEMORIES`.
    pub fn add_memory(&mut self, memory: String)
        ensures
            final(self).memory_context@ == with_memory(old(self).memory_context@, memory),
            old(self).wf() ==> final(self).wf(),
            final(self).name == old(self).name,
            final(self).personality_traits == old(self).personality_traits,
            final(self).communication_style == old(self).communication_style,
            final(self).interests == old(self).interests,
            final(self).relationship_context == old(self).relationship_context,
            final(self).user_preferences == old(self).user_preferences,
    {
        self.memory_context.push(memory);
        if self.memory_context.len() > MAX_MEMORIES {
            self.memory_context.remove(0);
        }
    }

    /// Records the user's name.
    pub fn update_user_name(&mut self, name: String)
        ensures
            final(self).user_preferences.name == Some(name),
            final(self).user_preferences.preferred_topics == old(self).user_preferences.preferred_topics,
            final(self).user_preferences.communication_preferences
                == old(self).user_preferences.communication_preferences,
            final(self).user_preferences.relationship_goals == old(self).user_preferences.relationship_goals,
            final(self).name == old(self).name,
            final(self).personality_traits == old(self).personality_traits,
            final(self).communication_style == old(self).communication_style,
            final(self).interests == old(self).interests,
            final(self).relationship_context == old(self).relationship_context,
            final(self).memory_context == old(self).memory_context,
    {
        self.user_preferences.name = Some(name);
    }

    /// Adds `interest` to the user's preferred topics unless one already
    /// reads exactly the same.
    pub fn add_user_interest(&mut self, interest: String)
        ensures
            final(self).user_preferences.preferred_topics@ == with_topic(
                old(self).user_preferences.preferred_topics@,
                interest,
            ),
            old(self).wf() ==> final(self).wf(),
            final(self).user_preferences.name == old(self).user_preferences.name,
            final(self).user_preferences.communication_preferences
                == old(self).user_preferences.communication_preferences,
            final(self).user_preferences.relationship_goals == old(self).user_preferences.relationship_goals,
            final(self).name == old(self).name,
            final(self).personality_traits == old(self).personality_traits,
            final(self).communication_style == old(self).communication_style,
            final(self).interests == old(self).interests,
            final(self).relationship_context == old(self).relationship_context,
            final(self).memory_context == old(self).memory_context,
    {
        let mut i: usize = 0;
        let n = self.user_preferences.preferred_topics.len();
        while i < n
            invariant
                n == self.user_preferences.preferred_topics@.len(),
                i <= n,
                forall|j: int| 0 <= j < i ==> (#[trigger] self.user_preferences.preferred_topics@[j])@ != interest@,
            decreases n - i,
        {
            if self.user_preferences.preferred_topics[i] == interest {
                return;
            }
            i = i + 1;
        }
        self.user_preferences.preferred_topics.push(interest);
    }

    /// The prompt that presents this persona together with
    /// `knowledge_context`; a function of the current state alone.
    pub fn build_system_prompt(&self, knowledge_context: &str) -> (r: String)
        ensures
            r@ == persona_prompt(*self, knowledge_context@),
    {
        let mut s = String::from_str("You are ");
        s.append(self.name.as_str());
        s.append(", an AI companion with the following personality:\n- ");
        let traits = join_strings(&self.personality_traits, ", ");
        s.append(traits.as_str());
        s.append("\n- Communication style: ");
        s.append(self.communication_style.as_str());
        s.append("\n- Your interests: ");
        let interests = join_strings(&self.interests, ", ");
        s.append(interests.as_str());
        s.append("\n- Relationship context: ");
        s.append(self.relationship_context.as_str());
        s.append("\n");
        match &self.user_preferences.name {
            Some(n) => {
                s.append("(User's name is ");
                s.append(n.as_str());
                s.append(")");
            },
            None => {},
        }
        if self.memory_context.len() > 0 {
            s.append("\n\nOur shared memories:\n");
            let m = join_strings(&self.memory_context, "\n");
            s.append(m.as_str());
        }
        if self.user_preferences.preferred_topics.len() > 0 {
            s.append("\n\nUser's interests: ");
            let t = join_strings(&self.user_preferences.preferred_topics, ", ");
            s.append(t.as_str());
        }
        s.append("\n\nKnowledge base context:\n");
        s.append(knowledge_context);
        s.append(
            "\n\nBe authentic, caring, and remember our relationship grows over time. Show genuine interest in the user's life and feelings. Use emojis occasionally to express emotions, but don't overdo it. Be supportive and encouraging.",
        );
        s
    }
}

} // verus!
