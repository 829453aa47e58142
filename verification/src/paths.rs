//! Path text helpers. Menu labels show only the basename of a stored path:
//! the substring after the last `/` or `\` separator, or the whole path when
//! neither occurs.

use vstd::prelude::*;
use vstd::string::StrSliceExecFns;

verus! {

/// The two separators recognized in stored paths.
pub open spec fn is_sep(c: char) -> bool {
    c == '/' || c == '\\'
}

/// The part of `s` after its last separator; all of `s` when it has none.
pub open spec fn basename_of(s: Seq<char>) -> Seq<char>
    decreases s.len(),
{
    if s.len() == 0 {
        s
    } else if is_sep(s.last()) {
        Seq::empty()
    } else {
        basename_of(s.drop_last()).push(s.last())
    }
}

/// The suffix that starts right after a separator (or at the very start,
/// when nothing before it is a separator) and holds no separator itself is
/// the basename.
proof fn lemma_basename_suffix(s: Seq<char>, j: int)
    requires
        0 <= j <= s.len(),
        forall|k: int| j <= k < s.len() ==> !is_sep(s[k]),
        j == 0 || is_sep(s[j - 1]),
    ensures
        basename_of(s) == s.subrange(j, s.len() as int),
    decreases s.len() - j,
{
    if j == s.len() {
        if j == 0 {
            assert(basename_of(s) =~= s.subrange(j, s.len() as int));
        } else {
            assert(is_sep(s.last()));
            assert(basename_of(s) =~= s.subrange(j, s.len() as int));
        }
    } else {
        let s2 = s.drop_last();
        assert(forall|k: int| 0 <= k < s2.len() ==> s2[k] == s[k]);
        assert(!is_sep(s.last()));
        lemma_basename_suffix(s2, j);
        assert(basename_of(s) =~= s.subrange(j, s.len() as int));
    }
}

/// The label shown for a path: everything after the last `/` or `\`, or the
/// path itself when it holds no separator.
pub fn path_basename(path: &str) -> (r: &str)
    ensures
        r@ == basename_of(path@),
{
    let n = path.unicode_len();
    let mut j = n;
    while j > 0
        invariant
            j <= n,
            n == path@.len(),
            forall|k: int| j <= k < n ==> !is_sep(path@[k]),
        decreases j,
    {
        let c = path.get_char(j - 1);
        if c == '/' || c == '\\' {
            let r = path.substring_char(j, n);
            proof {
                lemma_basename_suffix(path@, j as int);
            }
            return r;
        }
        j = j - 1;
    }
    proof {
        lemma_basename_suffix(path@, 0);
        assert(path@.subrange(0, n as int) =~= path@);
    }
    path
}

} // verus!
