//! Safety of relative paths inside a sync root.
//!
//! Every path the synchronizer handles is relative to one sync root,
//! slash-separated, and must not be able to escape that root.  Both
//! the scanner and the inbound content writer reject a path that fails
//! this check; a rejected path is never coerced into another one.

use vstd::prelude::*;

verus! {

use vstd::string::StrSliceExecFns;

/// A parent-directory segment (`..`) starts at position `i` of `s`.
pub open spec fn dotdot_at(s: Seq<char>, i: int) -> bool {
    &&& 0 <= i
    &&& i + 2 <= s.len()
    &&& s[i] == '.'
    &&& s[i + 1] == '.'
    &&& (i == 0 || s[i - 1] == '/')
    &&& (i + 2 == s.len() || s[i + 2] == '/')
}

/// A canonical relative path: nonempty, not absolute, slash-separated
/// (no backslash left unnormalized), and without any parent-directory
/// segment, so it cannot name anything outside the sync root.
pub open spec fn path_safe(s: Seq<char>) -> bool {
    &&& s.len() > 0
    &&& s[0] != '/'
    &&& forall|i: int| 0 <= i < s.len() ==> s[i] != '\\'
    &&& forall|i: int| !dotdot_at(s, i)
}

/// Whether `p` is a canonical relative path that stays inside the
/// sync root.
pub fn check_path(p: &str) -> (r: bool)
    ensures
        r == path_safe(p@),
{
    let n = p.unicode_len();
    if n == 0 {
        return false;
    }
    if p.get_char(0) == '/' {
        return false;
    }
    let mut i: usize = 0;
    while i < n
        invariant
            i <= n,
            n == p@.len(),
            p@.len() > 0,
            p@[0] != '/',
            forall|j: int| 0 <= j < i ==> p@[j] != '\\',
            forall|j: int| j < i ==> !dotdot_at(p@, j),
        decreases n - i,
    {
        let c = p.get_char(i);
        if c == '\\' {
            return false;
        }
        if c == '.' && i + 1 < n && p.get_char(i + 1) == '.' {
            let left_boundary = i == 0 || p.get_char(i - 1) == '/';
            let right_boundary = i + 2 == n || p.get_char(i + 2) == '/';
            if left_boundary && right_boundary {
                assert(dotdot_at(p@, i as int));
                return false;
            }
        }
        assert(!dotdot_at(p@, i as int));
        i = i + 1;
    }
    true
}

} // verus!
