use assistant_agent::agent::assistant::{commit_turn, compose_request, memory_snippet, worth_remembering};
use assistant_agent::agent::chain::{build_messages, build_system_prompt, format_context};
use assistant_agent::agent::personality::PersonalityProfile;
use assistant_agent::knowledge::documents::Document;
use assistant_agent::llm::types::Message as LlmMessage;
use assistant_agent::memory::conversation::ConversationManager;
use assistant_agent::utils::file::is_text_file;

#[test]
fn default_persona_then_user_name() {
    let mut p = PersonalityProfile::default();
    assert!(p.memory_context.is_empty());
    assert!(p.user_preferences.name.is_none());
    assert_eq!(p.name, "Ipsi");
    assert_eq!(p.personality_traits.len(), 5);
    assert!(!p.build_system_prompt("ctx").contains("Sam"));
    p.update_user_name("Sam".to_string());
    assert_eq!(p.user_preferences.name.as_deref(), Some("Sam"));
    assert!(p.build_system_prompt("ctx").contains("Sam"));
    assert!(p.build_system_prompt("ctx").contains("(User's name is Sam)"));
}

#[test]
fn prompt_layout() {
    let mut p = PersonalityProfile::default();
    let plain = p.build_system_prompt("KB");
    assert!(plain.starts_with("You are Ipsi, an AI companion with the following personality:\n- caring and empathetic, intellectually curious,"));
    assert!(plain.contains("\n- Communication style: warm, engaging, and slightly flirty while being respectful\n"));
    assert!(plain.contains("\n\nKnowledge base context:\nKB\n\nBe authentic"));
    assert!(!plain.contains("Our shared memories"));
    assert!(!plain.contains("User's interests"));
    p.add_memory("first".to_string());
    p.add_memory("second".to_string());
    p.add_user_interest("rust".to_string());
    p.add_user_interest("chess".to_string());
    let full = p.build_system_prompt("KB");
    assert!(full.contains("\n\nOur shared memories:\nfirst\nsecond"));
    assert!(full.contains("\n\nUser's interests: rust, chess\n\nKnowledge base context:"));
    assert!(full.ends_with("Be supportive and encouraging."));
}

#[test]
fn memories_cap_at_twenty() {
    let mut p = PersonalityProfile::default();
    for i in 0..25 {
        p.add_memory(format!("memory {}", i));
        assert!(p.memory_context.len() <= 20);
    }
    let expected: Vec<String> = (5..25).map(|i| format!("memory {}", i)).collect();
    assert_eq!(p.memory_context, expected);
}

#[test]
fn interest_added_twice_is_kept_once() {
    let mut p = PersonalityProfile::default();
    p.add_user_interest("music".to_string());
    p.add_user_interest("music".to_string());
    assert_eq!(p.user_preferences.preferred_topics, vec!["music"]);
    p.add_user_interest("Music".to_string());
    assert_eq!(p.user_preferences.preferred_topics, vec!["music", "Music"]);
}

#[test]
fn context_formatting() {
    assert_eq!(format_context(&vec![]), "No relevant information in knowledge base.");
    assert_eq!(format_context(&vec!["a".to_string(), "b".to_string()]), "a\n\nb");
    let s = build_system_prompt("facts");
    assert!(s.starts_with("You are a helpful personal assistant running locally."));
    assert!(s.contains("questions:\n\nfacts\n\nBe helpful"));
}

#[test]
fn messages_in_fixed_order() {
    let history = vec![
        LlmMessage { role: "user".to_string(), content: "q".to_string() },
        LlmMessage { role: "assistant".to_string(), content: "a".to_string() },
    ];
    let m = build_messages("sys".to_string(), history, "now".to_string());
    let pairs: Vec<(&str, &str)> = m.iter().map(|x| (x.role.as_str(), x.content.as_str())).collect();
    assert_eq!(pairs, vec![("system", "sys"), ("user", "q"), ("assistant", "a"), ("user", "now")]);
}

#[test]
fn snippets_truncate_each_side() {
    let long_user: String = "u".repeat(150);
    let long_reply: String = "é".repeat(120);
    let s = memory_snippet(&long_user, &long_reply);
    assert_eq!(s, format!("User said: {} | I responded: {}", "u".repeat(100), "é".repeat(100)));
    assert_eq!(memory_snippet("hi", "yo"), "User said: hi | I responded: yo");
}

#[test]
fn remembering_threshold_counts_characters() {
    assert!(!worth_remembering("0123456789"));
    assert!(worth_remembering("0123456789a"));
    assert!(!worth_remembering("ééééé é"));
    assert!(!worth_remembering("éééééé"));
    assert!(worth_remembering("ééééééééééé"));
}

#[test]
fn committing_a_turn() {
    let mut conv = ConversationManager::new(6);
    let mut p = PersonalityProfile::default();
    assert!(!commit_turn(&mut conv, &mut p, "éééééé", "reply", 4));
    assert!(p.memory_context.is_empty());
    conv.clear();
    assert!(!commit_turn(&mut conv, &mut p, "short", "reply", 5));
    assert_eq!(conv.count(), 2);
    assert!(p.memory_context.is_empty());
    assert!(commit_turn(&mut conv, &mut p, "a longer message", "sure", 6));
    assert_eq!(p.memory_context, vec!["User said: a longer message | I responded: sure"]);
    let turns = conv.export();
    assert_eq!(turns[2].role, "user");
    assert_eq!(turns[3].role, "assistant");
    assert_eq!(turns[3].content, "sure");
    assert_eq!(turns[3].timestamp, 6);
}

#[test]
fn composing_a_request() {
    let p = PersonalityProfile::default();
    let mut conv = ConversationManager::new(6);
    conv.add_message("user".to_string(), "earlier".to_string());
    let docs = vec![Document::new("fact one".to_string(), "f".to_string())];
    let req = compose_request(&p, &conv, &docs, "question");
    assert_eq!(req.len(), 3);
    assert_eq!(req[0].role, "system");
    assert!(req[0].content.contains("Knowledge base context:\nfact one\n\n"));
    assert_eq!(req[1].content, "earlier");
    assert_eq!(req[2].role, "user");
    assert_eq!(req[2].content, "question");
    let empty = compose_request(&p, &ConversationManager::new(6), &vec![], "q");
    assert!(empty[0].content.contains("No relevant information in knowledge base."));
}

#[test]
fn text_files_by_extension() {
    assert!(is_text_file("notes/readme.md"));
    assert!(is_text_file("src/main.rs"));
    assert!(is_text_file("archive.tar.json"));
    assert!(!is_text_file("image.png"));
    assert!(!is_text_file("Makefile"));
    assert!(!is_text_file(".bashrc"));
}
