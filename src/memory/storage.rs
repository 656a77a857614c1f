//! Where the conversation is kept on disk.
use vstd::prelude::*;

verus! {

/// `base` with the relative path `rel` appended, a `/` between them unless
/// `base` is empty or already ends with one.
pub open spec fn join_path(base: Seq<char>, rel: Seq<char>) -> Seq<char> {
    if base.len() == 0 || base.last() == '/' {
        base + rel
    } else {
        base + seq!['/'] + rel
    }
}

/// The file that holds the persistent conversation under `data_dir`.
pub fn get_persistent_conversation_path(data_dir: &str) -> (r: String)
    ensures
        r@ == join_path(data_dir@, "conversations/persistent_chat.json"@),
{
    let mut path = String::from_str(data_dir);
    let n = data_dir.unicode_len();
    if n > 0 && data_dir.get_char(n - 1) != '/' {
        path.append("/");
    }
    path.append("conversations/persistent_chat.json");
    proof {
        reveal_strlit("/");
    }
    path
}

} // verus!
