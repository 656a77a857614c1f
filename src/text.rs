//! Joining strings and taking character prefixes.
use vstd::prelude::*;

verus! {

/// The pieces one after another with `sep` between neighbours.
pub open spec fn join(parts: Seq<Seq<char>>, sep: Seq<char>) -> Seq<char>
    decreases parts.len(),
{
    if parts.len() == 0 {
        Seq::empty()
    } else if parts.len() == 1 {
        parts[0]
    } else {
        join(parts.drop_last(), sep) + sep + parts.last()
    }
}

/// The character sequences of a sequence of strings.
pub open spec fn views(v: Seq<String>) -> Seq<Seq<char>> {
    v.map_values(|s: String| s@)
}

/// The first `n` characters of `s` (all of them if it is shorter).
pub open spec fn prefix(s: Seq<char>, n: nat) -> Seq<char> {
    if s.len() <= n {
        s
    } else {
        s.subrange(0, n as int)
    }
}

/// The strings of `parts` joined with `sep` between neighbours.
pub fn join_strings(parts: &Vec<String>, sep: &str) -> (r: String)
    ensures
        r@ == join(views(parts@), sep@),
{
    let mut out = String::new();
    let mut i: usize = 0;
    while i < parts.len()
        invariant
            i <= parts@.len(),
            out@ == join(views(parts@.subrange(0, i as int)), sep@),
        decreases parts@.len() - i,
    {
        let ghost before = views(parts@.subrange(0, i as int));
        if i > 0 {
            out.append(sep);
        }
        out.append(parts[i].as_str());
        i = i + 1;
        proof {
            let now = views(parts@.subrange(0, i as int));
            assert(now.drop_last() =~= before);
            assert(now.last() == parts@[i - 1]@);
            if i == 1 {
                assert(now.len() == 1);
            }
        }
    }
    assert(parts@.subrange(0, parts@.len() as int) =~= parts@);
    out
}

/// The first `n` characters of `s`.
pub fn take_chars(s: &str, n: usize) -> (r: String)
    ensures
        r@ == prefix(s@, n as nat),
{
    let len = s.unicode_len();
    let end = if len <= n { len } else { n };
    let r = String::from_str(s.substring_char(0, end));
    proof {
        if len <= n {
            assert(s@.subrange(0, end as int) =~= s@);
        }
    }
    r
}

} // verus!
