use assistant_agent::cli::commands::{classify, parse_command, Command};

fn text(c: Command) -> (String, String) {
    match c {
        Command::Ignore => ("ignore".into(), String::new()),
        Command::Quit => ("quit".into(), String::new()),
        Command::Clear => ("clear".into(), String::new()),
        Command::Save => ("save".into(), String::new()),
        Command::Info => ("info".into(), String::new()),
        Command::Name(s) => ("name".into(), s),
        Command::Interest(s) => ("interest".into(), s),
        Command::Learn(s) => ("learn".into(), s),
        Command::File(s) => ("file".into(), s),
        Command::Chat(s) => ("chat".into(), s),
    }
}

fn parsed(line: &str) -> (String, String) {
    text(parse_command(line))
}

#[test]
fn plain_commands_in_any_case() {
    assert_eq!(parsed("quit").0, "quit");
    assert_eq!(parsed("  EXIT \n").0, "quit");
    assert_eq!(parsed("Clear").0, "clear");
    assert_eq!(parsed("SAVE").0, "save");
    assert_eq!(parsed("info\n").0, "info");
}

#[test]
fn blank_lines_are_ignored() {
    assert_eq!(parsed("").0, "ignore");
    assert_eq!(parsed("  \t\n").0, "ignore");
    assert_eq!(parsed("name:   ").0, "ignore");
    assert_eq!(parsed("interest:").0, "ignore");
}

#[test]
fn commands_with_text() {
    assert_eq!(parsed("name:  Sam \n"), ("name".to_string(), "Sam".to_string()));
    assert_eq!(parsed("interest: chess"), ("interest".to_string(), "chess".to_string()));
    assert_eq!(parsed("learn: the sky is blue"), ("learn".to_string(), "the sky is blue".to_string()));
    assert_eq!(parsed("learn:"), ("learn".to_string(), String::new()));
    assert_eq!(parsed("file: notes.md"), ("file".to_string(), "notes.md".to_string()));
}

#[test]
fn anything_else_is_chat() {
    assert_eq!(parsed("  hello there  "), ("chat".to_string(), "hello there".to_string()));
    assert_eq!(parsed("Name: Sam"), ("chat".to_string(), "Name: Sam".to_string()));
    assert_eq!(parsed("quit now"), ("chat".to_string(), "quit now".to_string()));
}

#[test]
fn classify_uses_the_given_lowercase() {
    assert_eq!(text(classify("Whatever", "quit")).0, "quit");
    assert_eq!(text(classify("QUIT", "QUIT")).0, "chat");
}
