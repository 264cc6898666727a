//! Paths that stay where they are put: a path made of package names is
//! joined below a directory only if it cannot lead out of it.

use vstd::prelude::*;
use crate::text::concat3;

verus! {

/// Whether the characters from `from` up to `to` are a component of the
/// path: a stretch without `/`, bounded by `/` or by the ends of the path.
pub open spec fn component_at(s: Seq<char>, from: int, to: int) -> bool {
    &&& 0 <= from <= to <= s.len()
    &&& (from == 0 || s[from - 1] == '/')
    &&& (to == s.len() || s[to] == '/')
    &&& forall|k: int| from <= k < to ==> s[k] != '/'
}

/// Whether the component `..` starts at `from`.
pub open spec fn parent_at(s: Seq<char>, from: int) -> bool {
    component_at(s, from, from + 2) && s[from] == '.' && s[from + 1] == '.'
}

/// Whether the path can lead out of the directory below which it is put:
/// it starts at the root, or one of its components is `..`.
pub open spec fn leaves(s: Seq<char>) -> bool {
    (s.len() > 0 && s[0] == '/') || exists|from: int| parent_at(s, from)
}

/// Whether the path can lead out of the directory below which it is put.
pub fn escapes(path: &str) -> (r: bool)
    ensures
        r == leaves(path@),
{
    let n = path.unicode_len();
    if n > 0 && path.get_char(0) == '/' {
        return true;
    }
    let ghost s = path@;
    let mut start: usize = 0;
    let mut i: usize = 0;
    while i < n
        invariant
            0 <= start <= i <= n,
            n == s.len(),
            s == path@,
            start == 0 || s[start - 1] == '/',
            forall|k: int| start <= k < i ==> s[k] != '/',
            forall|from: int| from < start ==> !parent_at(s, from),
        decreases n - i,
    {
        if path.get_char(i) == '/' {
            if i - start == 2 && path.get_char(start) == '.' && path.get_char(start + 1) == '.' {
                assert(parent_at(s, start as int));
                return true;
            }
            assert forall|from: int| from < i + 1 implies !parent_at(s, from) by {
                if from > start && from >= 1 {
                    assert(s[from - 1] != '/');
                }
                if from == start && parent_at(s, from) {
                    assert(from + 2 <= i ==> s[from + 2] == '/' || from + 2 == s.len());
                    if from + 2 < i {
                        assert(s[from + 2] != '/');
                    }
                    if from + 2 > i {
                        assert(s[i as int] == '/');
                    }
                }
            }
            start = i + 1;
        }
        i = i + 1;
    }
    if n - start == 2 && path.get_char(start) == '.' && path.get_char(start + 1) == '.' {
        assert(parent_at(s, start as int));
        return true;
    }
    assert forall|from: int| !parent_at(s, from) by {
        if from > start && from >= 1 && from <= n {
            assert(s[from - 1] != '/');
        }
        if from == start && parent_at(s, from) {
            if from + 2 < n {
                assert(s[from + 2] != '/');
            }
        }
    }
    false
}

/// A path that would lead out of its directory.
#[derive(Debug, Clone, PartialEq, Eq)]
pub struct ScopeError {
    pub path: String,
}

/// The path `path` below the directory `base`, unless it can lead out of
/// it.
pub fn scoped_join(base: &str, path: &str) -> (r: Result<String, ScopeError>)
    ensures
        match r {
            Ok(joined) => !leaves(path@) && joined@ == base@ + "/"@ + path@,
            Err(e) => leaves(path@) && e.path@ == path@,
        },
{
    if escapes(path) {
        Err(ScopeError { path: String::from_str(path) })
    } else {
        Ok(concat3(base, "/", path))
    }
}

} // verus!
