use assistant_agent::memory::conversation::{ConversationManager, Message};
use assistant_agent::memory::storage::get_persistent_conversation_path;

fn contents(m: &ConversationManager) -> Vec<String> {
    m.get_recent_messages().into_iter().map(|t| t.content).collect()
}

#[test]
fn seven_turns_with_cap_six_drop_the_first() {
    let mut m = ConversationManager::new(6);
    for i in 1..=7 {
        m.add_message("user".to_string(), format!("turn {}", i));
    }
    assert_eq!(m.count(), 6);
    let expected: Vec<String> = (2..=7).map(|i| format!("turn {}", i)).collect();
    assert_eq!(contents(&m), expected);
}

#[test]
fn history_always_holds_latest_within_cap() {
    let mut m = ConversationManager::new(3);
    let mut all: Vec<String> = Vec::new();
    for i in 0..10 {
        let text = format!("m{}", i);
        all.push(text.clone());
        m.add_message(if i % 2 == 0 { "user" } else { "assistant" }.to_string(), text);
        assert!(m.count() <= 3);
        let start = all.len().saturating_sub(3);
        assert_eq!(contents(&m), all[start..].to_vec());
    }
    let roles: Vec<String> = m.export().into_iter().map(|t| t.role).collect();
    assert_eq!(roles, vec!["assistant", "user", "assistant"]);
}

#[test]
fn zero_cap_keeps_nothing() {
    let mut m = ConversationManager::new(0);
    m.add_message("user".to_string(), "hi".to_string());
    assert_eq!(m.count(), 0);
}

#[test]
fn restore_keeps_the_last_turns() {
    let history: Vec<Message> = (0..5)
        .map(|i| Message { role: "user".to_string(), content: format!("h{}", i), timestamp: i })
        .collect();
    let m = ConversationManager::new_with_history(2, history.clone());
    assert_eq!(contents(&m), vec!["h3", "h4"]);
    let m = ConversationManager::new_with_history(10, history);
    assert_eq!(m.count(), 5);
    let restored = ConversationManager::new_with_history(10, m.export());
    assert_eq!(contents(&restored), contents(&m));
    let stamps: Vec<i64> = restored.export().iter().map(|t| t.timestamp).collect();
    assert_eq!(stamps, vec![0, 1, 2, 3, 4]);
}

#[test]
fn push_and_clear() {
    let mut m = ConversationManager::new(2);
    m.push_message(Message { role: "user".to_string(), content: "a".to_string(), timestamp: 7 });
    m.push_message(Message { role: "assistant".to_string(), content: "b".to_string(), timestamp: 8 });
    let llm = m.get_recent_llm_messages();
    assert_eq!(llm.len(), 2);
    assert_eq!(llm[0].role, "user");
    assert_eq!(llm[1].content, "b");
    m.clear();
    assert_eq!(m.count(), 0);
    assert!(m.export().is_empty());
}

#[test]
fn message_to_llm_drops_timestamp() {
    let t = Message::new("user".to_string(), "hey".to_string());
    let l = t.to_llm_message();
    assert_eq!(l.role, "user");
    assert_eq!(l.content, "hey");
}

#[test]
fn conversation_path_joins() {
    assert_eq!(get_persistent_conversation_path("data"), "data/conversations/persistent_chat.json");
    assert_eq!(get_persistent_conversation_path("data/"), "data/conversations/persistent_chat.json");
    assert_eq!(get_persistent_conversation_path(""), "conversations/persistent_chat.json");
}
