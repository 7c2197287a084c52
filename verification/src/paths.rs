//! Pure path arithmetic on path strings: joining a working directory onto a
//! base directory and taking the parent of a path. Canonicalization and any
//! look at the real filesystem stay with the caller.

use vstd::prelude::*;
use vstd::string::*;

verus! {

/// A path is absolute when it starts with a separator.
pub open spec fn is_absolute(path: Seq<char>) -> bool {
    path.len() > 0 && path[0] == '/'
}

/// Joining a path onto a base directory: an absolute path overrides the
/// base entirely, a relative one is appended behind a separator.
pub open spec fn joined_path(base: Seq<char>, rel: Seq<char>) -> Seq<char> {
    if is_absolute(rel) {
        rel
    } else {
        base + "/"@ + rel
    }
}

/// The position of the last occurrence of `c` in `text`, or `-1` when
/// there is none.
pub open spec fn last_index_of(text: Seq<char>, c: char) -> int
    decreases text.len(),
{
    if text.len() == 0 {
        -1
    } else if text.last() == c {
        text.len() - 1
    } else {
        last_index_of(text.drop_last(), c)
    }
}

/// The position of the last separator in the path, or `-1` when the path
/// holds none.
pub open spec fn last_slash(path: Seq<char>) -> int {
    last_index_of(path, '/')
}

/// The parent of a path: everything before its last separator, or nothing
/// when the path holds no separator at all.
pub open spec fn parent_of(path: Seq<char>) -> Option<Seq<char>> {
    if last_slash(path) < 0 {
        None
    } else {
        Some(path.take(last_slash(path)))
    }
}

/// Whether the given path is absolute.
pub fn path_is_absolute(path: &str) -> (r: bool)
    ensures
        r == is_absolute(path@),
{
    if path.unicode_len() == 0 {
        false
    } else {
        path.get_char(0) == '/'
    }
}

/// Joins `rel` onto `base`: `rel` alone when it is absolute, otherwise
/// `base`, a separator, and `rel`.
pub fn join_path(base: &str, rel: &str) -> (r: String)
    ensures
        r@ == joined_path(base@, rel@),
{
    if path_is_absolute(rel) {
        rel.to_owned()
    } else {
        let mut out = base.to_owned();
        out.append("/");
        out.append(rel);
        out
    }
}

/// `last_index_of` is the index of the last occurrence: an occurrence at
/// `k` with none behind it pins the value down.
pub proof fn lemma_last_index_at(text: Seq<char>, c: char, k: int)
    requires
        0 <= k < text.len(),
        text[k] == c,
        forall|j: int| k < j < text.len() ==> text[j] != c,
    ensures
        last_index_of(text, c) == k,
    decreases text.len(),
{
    if k == text.len() - 1 {
    } else {
        assert(text.last() != c);
        assert(text.drop_last()[k] == text[k]);
        lemma_last_index_at(text.drop_last(), c, k);
    }
}

/// A text without the character at all has no last occurrence of it.
pub proof fn lemma_last_index_none(text: Seq<char>, c: char)
    requires
        forall|j: int| 0 <= j < text.len() ==> text[j] != c,
    ensures
        last_index_of(text, c) == -1,
    decreases text.len(),
{
    if text.len() > 0 {
        lemma_last_index_none(text.drop_last(), c);
    }
}

/// The position of the last occurrence of `c` in `text`, if any.
pub fn find_last(text: &str, c: char) -> (r: Option<usize>)
    ensures
        match r {
            None => last_index_of(text@, c) == -1,
            Some(k) => k < text@.len() && last_index_of(text@, c) == k as int,
        },
{
    let n = text.unicode_len();
    let mut i: usize = n;
    while i > 0
        invariant
            i <= n,
            n == text@.len(),
            forall|j: int| i <= j < text@.len() ==> text@[j] != c,
        decreases i,
    {
        if text.get_char(i - 1) == c {
            proof {
                lemma_last_index_at(text@, c, i - 1);
            }
            return Some(i - 1);
        }
        i = i - 1;
    }
    proof {
        lemma_last_index_none(text@, c);
    }
    None
}

/// The parent directory of `path`: the prefix before the last separator,
/// or nothing when the path has no separator.
pub fn parent_dir_of(path: &str) -> (r: Option<String>)
    ensures
        match r {
            None => parent_of(path@) is None,
            Some(p) => parent_of(path@) matches Some(v) && p@ == v,
        },
{
    match find_last(path, '/') {
        None => None,
        Some(k) => {
            let parent = path.substring_char(0, k);
            proof {
                assert(path@.subrange(0, k as int) =~= path@.take(last_slash(path@)));
            }
            Some(parent.to_owned())
        },
    }
}

} // verus!
