//! Small path-text helpers. The library never touches the file system; these
//! work on the textual form of a path, and the embedding application does any
//! actual file work.

use vstd::prelude::*;
use vstd::string::*;
use crate::text::{find_from, split_on, split_str};

verus! {

/// The final slash-separated component of a path text, taken literally.
pub open spec fn file_name_of(s: Seq<char>) -> Seq<char> {
    split_on(s, '/').last()
}

/// Index of the last `.` in `s`, or `-1` when there is none.
pub open spec fn rfind_dot(s: Seq<char>) -> int
    decreases s.len()
{
    if s.len() == 0 {
        -1
    } else if s.last() == '.' {
        s.len() - 1
    } else {
        rfind_dot(s.drop_last())
    }
}

/// The extension of a path text: what follows the last `.` of its final
/// component, unless that component has no `.` or starts with its only `.`.
pub open spec fn extension_of(s: Seq<char>) -> Option<Seq<char>> {
    let name = file_name_of(s);
    let d = rfind_dot(name);
    if d <= 0 {
        None
    } else {
        Some(name.skip(d + 1))
    }
}

proof fn lemma_rfind_dot_is(s: Seq<char>, j: int)
    requires
        -1 <= j < s.len(),
        j >= 0 ==> s[j] == '.',
        forall|k: int| j < k < s.len() ==> s[k] != '.',
    ensures
        rfind_dot(s) == j,
    decreases s.len(),
{
    if s.len() > 0 && s.last() != '.' {
        lemma_rfind_dot_is(s.drop_last(), j);
    }
}

/// Extracts the extension from a path text, as the standard path methods
/// report it for ordinary file names.
pub fn get_extension(path: &str) -> (r: Option<String>)
    ensures
        r.deep_view() == extension_of(path@),
{
    let parts = split_str(path, '/');
    let ghost ps = split_on(path@, '/');
    proof {
        assert(ps.len() > 0) by {
            crate::text::lemma_find_from_bounds(path@, '/', 0);
        }
        assert(parts.deep_view()[ps.len() - 1] == parts@[ps.len() - 1]@);
    }
    let name = &parts[parts.len() - 1];
    let n = name.as_str().unicode_len();
    let mut j: usize = n;
    let mut found = false;
    while !found && j > 0
        invariant
            n == name@.len(),
            j <= n,
            !found ==> forall|k: int| j <= k < n ==> name@[k] != '.',
            found ==> j < n && name@[j as int] == '.' && forall|k: int|
                j < k < n ==> name@[k] != '.',
        decreases j + (if found { 0int } else { 1int }),
    {
        if name.as_str().get_char(j - 1) == '.' {
            j -= 1;
            found = true;
        } else {
            j -= 1;
        }
    }
    if !found {
        proof {
            lemma_rfind_dot_is(name@, -1);
        }
        return None;
    }
    if j == 0 {
        proof {
            lemma_rfind_dot_is(name@, 0);
        }
        return None;
    }
    proof {
        lemma_rfind_dot_is(name@, j as int);
    }
    let ext = name.as_str().substring_char(j + 1, n).to_owned();
    proof {
        assert(ext@ =~= name@.skip(j + 1));
    }
    Some(ext)
}

} // verus!
