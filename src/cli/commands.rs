//! Reading one line of input as a command of the interactive shell.
use vstd::prelude::*;

use crate::knowledge::documents::is_white_space;

verus! {

/// What one line of input asks for.
#[derive(Debug)]
pub enum Command {
    /// Nothing: a blank line, or a name or interest left empty.
    Ignore,
    Quit,
    Clear,
    Save,
    Info,
    /// Remember the user's name.
    Name(String),
    /// Remember one of the user's interests.
    Interest(String),
    /// Learn the given text.
    Learn(String),
    /// Learn the file at the given path.
    File(String),
    /// Chat with the given message.
    Chat(String),
}

/// A command with its text as characters.
pub enum CommandView {
    Ignore,
    Quit,
    Clear,
    Save,
    Info,
    Name(Seq<char>),
    Interest(Seq<char>),
    Learn(Seq<char>),
    File(Seq<char>),
    Chat(Seq<char>),
}

impl View for Command {
    type V = CommandView;

    open spec fn view(&self) -> CommandView {
        match self {
            Command::Ignore => CommandView::Ignore,
            Command::Quit => CommandView::Quit,
            Command::Clear => CommandView::Clear,
            Command::Save => CommandView::Save,
            Command::Info => CommandView::Info,
            Command::Name(s) => CommandView::Name(s@),
            Command::Interest(s) => CommandView::Interest(s@),
            Command::Learn(s) => CommandView::Learn(s@),
            Command::File(s) => CommandView::File(s@),
            Command::Chat(s) => CommandView::Chat(s@),
        }
    }
}

/// `s` without its leading white space.
pub open spec fn trim_start(s: Seq<char>) -> Seq<char>
    decreases s.len(),
{
    if s.len() > 0 && is_white_space(s[0]) {
        trim_start(s.drop_first())
    } else {
        s
    }
}

/// `s` without its trailing white space.
pub open spec fn trim_end(s: Seq<char>) -> Seq<char>
    decreases s.len(),
{
    if s.len() > 0 && is_white_space(s.last()) {
        trim_end(s.drop_last())
    } else {
        s
    }
}

/// `s` without leading or trailing white space.
pub open spec fn trim(s: Seq<char>) -> Seq<char> {
    trim_end(trim_start(s))
}

/// What `str::to_lowercase` makes of `s`.
pub uninterp spec fn lower_of(s: Seq<char>) -> Seq<char>;

/// Relies on `str::trim`: leading and trailing characters with the Unicode
/// `White_Space` property removed.
#[verifier::external_body]
fn trim_str(s: &str) -> (r: &str)
    ensures
        r@ == trim(s@),
{
    s.trim()
}

/// Relies on `str::to_lowercase`: the lowercase form of `s`, which depends
/// on its characters alone.
#[verifier::external_body]
fn lowercase(s: &str) -> (r: String)
    ensures
        r@ == lower_of(s@),
{
    s.to_lowercase()
}

/// `s` begins with `p`.
pub open spec fn begins_with(s: Seq<char>, p: Seq<char>) -> bool {
    s.len() >= p.len() && s.subrange(0, p.len() as int) == p
}

/// The command that a trimmed, non-empty line `t`, whose lowercase form is
/// `l`, asks for.
pub open spec fn command_of(t: Seq<char>, l: Seq<char>) -> CommandView {
    if t.len() == 0 {
        CommandView::Ignore
    } else if l == "quit"@ || l == "exit"@ {
        CommandView::Quit
    } else if l == "clear"@ {
        CommandView::Clear
    } else if l == "save"@ {
        CommandView::Save
    } else if l == "info"@ {
        CommandView::Info
    } else if begins_with(t, "name:"@) {
        let name = trim(t.subrange(5, t.len() as int));
        if name.len() == 0 {
            CommandView::Ignore
        } else {
            CommandView::Name(name)
        }
    } else if begins_with(t, "interest:"@) {
        let topic = trim(t.subrange(9, t.len() as int));
        if topic.len() == 0 {
            CommandView::Ignore
        } else {
            CommandView::Interest(topic)
        }
    } else if begins_with(t, "learn:"@) {
        CommandView::Learn(trim(t.subrange(6, t.len() as int)))
    } else if begins_with(t, "file:"@) {
        CommandView::File(trim(t.subrange(5, t.len() as int)))
    } else {
        CommandView::Chat(t)
    }
}

fn has_prefix(s: &str, p: &str) -> (r: bool)
    ensures
        r == begins_with(s@, p@),
{
    let n = p.unicode_len();
    if s.unicode_len() < n {
        return false;
    }
    let head = String::from_str(s.substring_char(0, n));
    head == String::from_str(p)
}

fn rest_trimmed(t: &str, from: usize) -> (r: String)
    requires
        from <= t@.len(),
    ensures
        r@ == trim(t@.subrange(from as int, t@.len() as int)),
{
    let rest = t.substring_char(from, t.unicode_len());
    String::from_str(trim_str(rest))
}

/// The command asked for by the trimmed line `trimmed`, whose lowercase form
/// is `lowered`.
pub fn classify(trimmed: &str, lowered: &str) -> (r: Command)
    ensures
        r@ == command_of(trimmed@, lowered@),
{
    proof {
        reveal_strlit("name:");
        reveal_strlit("interest:");
        reveal_strlit("learn:");
        reveal_strlit("file:");
    }
    if trimmed.unicode_len() == 0 {
        return Command::Ignore;
    }
    let l = String::from_str(lowered);
    if l == String::from_str("quit") || l == String::from_str("exit") {
        Command::Quit
    } else if l == String::from_str("clear") {
        Command::Clear
    } else if l == String::from_str("save") {
        Command::Save
    } else if l == String::from_str("info") {
        Command::Info
    } else if has_prefix(trimmed, "name:") {
        let name = rest_trimmed(trimmed, 5);
        if name.unicode_len() == 0 {
            Command::Ignore
        } else {
            Command::Name(name)
        }
    } else if has_prefix(trimmed, "interest:") {
        let topic = rest_trimmed(trimmed, 9);
        if topic.unicode_len() == 0 {
            Command::Ignore
        } else {
            Command::Interest(topic)
        }
    } else if has_prefix(trimmed, "learn:") {
        Command::Learn(rest_trimmed(trimmed, 6))
    } else if has_prefix(trimmed, "file:") {
        Command::File(rest_trimmed(trimmed, 5))
    } else {
        Command::Chat(String::from_str(trimmed))
    }
}

/// The command asked for by one line of input: the line is trimmed, and
/// the plain commands are recognised in any case.
pub fn parse_command(input: &str) -> (r: Command)
    ensures
        r@ == command_of(trim(input@), lower_of(trim(input@))),
{
    let trimmed = trim_str(input);
    let lowered = lowercase(trimmed);
    classify(trimmed, lowered.as_str())
}

} // verus!
