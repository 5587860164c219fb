//! The naming policy of the shared store: which names may stand for a file
//! directly under the store directory.

use vstd::prelude::*;

verus! {

/// A character that may not appear in a stored file's name: the path
/// separators, in either of their usual forms, and NUL.
pub open spec fn forbidden_char(c: char) -> bool {
    c == '/' || c == '\\' || c == '\0'
}

/// A name that stays a single entry of the flat store: not empty, neither
/// `.` nor `..`, and free of forbidden characters.
pub open spec fn safe_name(s: Seq<char>) -> bool {
    &&& s.len() > 0
    &&& !(s.len() == 1 && s[0] == '.')
    &&& !(s.len() == 2 && s[0] == '.' && s[1] == '.')
    &&& forall|i: int| 0 <= i < s.len() ==> !forbidden_char(#[trigger] s[i])
}

/// A path separator, in either of its usual forms.
pub open spec fn separator(c: char) -> bool {
    c == '/' || c == '\\'
}

/// A `..` segment starts at `i`: two dots bounded by the ends of the name or
/// by separators.
pub open spec fn parent_segment_at(s: Seq<char>, i: int) -> bool {
    &&& 0 <= i && i + 2 <= s.len()
    &&& s[i] == '.' && s[i + 1] == '.'
    &&& (i == 0 || separator(s[i - 1]))
    &&& (i + 2 == s.len() || separator(s[i + 2]))
}

/// A name that, joined to the store directory, could leave it: one that
/// starts at the root or holds a parent-directory segment.
pub open spec fn escapes_store(s: Seq<char>) -> bool {
    (s.len() > 0 && separator(s[0])) || exists|i: int| parent_segment_at(s, i)
}

/// Tells a character that names may not hold.
pub fn is_forbidden_char(c: char) -> (r: bool)
    ensures
        r == forbidden_char(c),
{
    c == '/' || c == '\\' || c == '\0'
}

/// Tells whether `name` may be used as a file name in the store.
pub fn is_safe_name(name: &str) -> (r: bool)
    ensures
        r == safe_name(name@),
{
    let n = name.unicode_len();
    if n == 0 {
        return false;
    }
    if n == 1 && name.get_char(0) == '.' {
        return false;
    }
    if n == 2 && name.get_char(0) == '.' && name.get_char(1) == '.' {
        return false;
    }
    let mut i: usize = 0;
    while i < n
        invariant
            n == name@.len(),
            i <= n,
            forall|j: int| 0 <= j < i ==> !forbidden_char(#[trigger] name@[j]),
        decreases n - i,
    {
        if is_forbidden_char(name.get_char(i)) {
            return false;
        }
        i = i + 1;
    }
    true
}

/// No name that could leave the store directory is a safe name.
pub proof fn lemma_escaping_name_is_unsafe(s: Seq<char>)
    requires
        escapes_store(s),
    ensures
        !safe_name(s),
{
    if s.len() > 0 && separator(s[0]) {
        assert(forbidden_char(s[0]));
    } else {
        let i = choose|i: int| parent_segment_at(s, i);
        if i > 0 {
            assert(forbidden_char(s[i - 1]));
        } else if i + 2 < s.len() {
            assert(forbidden_char(s[i + 2]));
        }
    }
}

} // verus!
