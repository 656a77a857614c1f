//! Which files hold text worth learning from.
use vstd::prelude::*;

verus! {

/// The extension of the file that `path` names, as `std::path::Path`
/// finds it.
pub uninterp spec fn extension_of(path: Seq<char>) -> Option<Seq<char>>;

/// Relies on `std::path::Path::extension`: the extension of the file that
/// `path` names, if it has one. Taken from a `str`, it is valid UTF-8, so
/// the lossless conversion keeps it as it is.
#[verifier::external_body]
fn path_extension(path: &str) -> (r: Option<String>)
    ensures
        r is Some <==> extension_of(path@) is Some,
        r is Some ==> extension_of(path@) == Some(r->0@),
{
    match std::path::Path::new(path).extension() {
        Some(e) => Some(e.to_string_lossy().into_owned()),
        None => None,
    }
}

/// The extensions of the text formats the assistant reads.
pub open spec fn is_text_extension(e: Seq<char>) -> bool {
    e == "txt"@ || e == "md"@ || e == "rs"@ || e == "py"@ || e == "js"@ || e == "json"@
        || e == "toml"@ || e == "yaml"@ || e == "yml"@
}

fn extension_is_text(e: &String) -> (r: bool)
    ensures
        r == is_text_extension(e@),
{
    *e == String::from_str("txt") || *e == String::from_str("md") || *e == String::from_str("rs")
        || *e == String::from_str("py") || *e == String::from_str("js") || *e == String::from_str(
        "json",
    ) || *e == String::from_str("toml") || *e == String::from_str("yaml") || *e
        == String::from_str("yml")
}

/// Whether `path` names a file of a text format the assistant reads.
pub fn is_text_file(path: &str) -> (r: bool)
    ensures
        r == match extension_of(path@) {
            Some(e) => is_text_extension(e),
            None => false,
        },
{
    match path_extension(path) {
        Some(e) => extension_is_text(&e),
        None => false,
    }
}

} // verus!
