//! Path splitting for the watcher: finding the final component (file name)
//! and the parent directory of a `/`-separated path.

use vstd::prelude::*;
use vstd::string::StrSliceExecFns;

verus! {

/// Index of the last `/` in `s`, or `-1` if `s` holds none.
pub open spec fn last_slash_at(s: Seq<char>) -> int
    decreases s.len(),
{
    if s.len() == 0 {
        -1
    } else if s[s.len() - 1] == '/' {
        s.len() - 1
    } else {
        last_slash_at(s.drop_last())
    }
}

/// `last_slash_at` points at a `/` (when there is one) and nothing after it
/// is a `/`.
pub proof fn lemma_last_slash_at(s: Seq<char>)
    ensures
        -1 <= last_slash_at(s) < s.len(),
        last_slash_at(s) >= 0 ==> s[last_slash_at(s)] == '/',
        forall|j: int| last_slash_at(s) < j < s.len() ==> s[j] != '/',
    decreases s.len(),
{
    if s.len() == 0 {
    } else if s[s.len() - 1] == '/' {
    } else {
        lemma_last_slash_at(s.drop_last());
        assert forall|j: int| last_slash_at(s) < j < s.len() implies s[j] != '/' by {
            if j < s.len() - 1 {
                assert(s.drop_last()[j] == s[j]);
            }
        }
    }
}

/// A path names a file when it is nonempty and does not end in `/`.
pub open spec fn has_file_name(s: Seq<char>) -> bool {
    s.len() > 0 && s[s.len() - 1] != '/'
}

/// The final component of `s`: everything after the last `/` (all of `s`
/// when it holds no `/`). Nonempty exactly when `has_file_name(s)`.
pub open spec fn file_name_part(s: Seq<char>) -> Seq<char> {
    s.subrange(last_slash_at(s) + 1, s.len() as int)
}

/// The parent directory of an absolute path: everything before the last `/`,
/// or `/` itself when the last `/` is the leading one.
pub open spec fn parent_dir_part(s: Seq<char>) -> Seq<char> {
    if last_slash_at(s) <= 0 {
        seq!['/']
    } else {
        s.subrange(0, last_slash_at(s))
    }
}

/// A path may be watched when it is absolute and names a file: it starts
/// with `/` and its final component is nonempty.
pub open spec fn is_valid_target_path(s: Seq<char>) -> bool {
    s.len() >= 2 && s[0] == '/' && s[s.len() - 1] != '/'
}

/// Index of the last `/` in `s`, or `None` if `s` holds none.
pub fn find_last_slash(s: &str) -> (r: Option<usize>)
    ensures
        match r {
            Some(i) => i == last_slash_at(s@),
            None => last_slash_at(s@) == -1,
        },
{
    let n = s.unicode_len();
    let mut i: usize = n;
    while i > 0
        invariant
            i <= n,
            n == s@.len(),
            forall|j: int| i <= j < n ==> s@[j] != '/',
        decreases i,
    {
        i = i - 1;
        let c = s.get_char(i);
        if c == '/' {
            proof {
                lemma_last_slash_at(s@);
            }
            return Some(i);
        }
    }
    proof {
        lemma_last_slash_at(s@);
    }
    None
}

/// The final component of `s` as an owned string, or `None` when `s` names
/// no file (it is empty or ends in `/`).
pub fn file_name_of(s: &str) -> (r: Option<String>)
    ensures
        r is Some <==> has_file_name(s@),
        r matches Some(name) ==> name@ == file_name_part(s@),
{
    let n = s.unicode_len();
    if n == 0 {
        return None;
    }
    if s.get_char(n - 1) == '/' {
        return None;
    }
    let start: usize = match find_last_slash(s) {
        Some(i) => {
            proof {
                lemma_last_slash_at(s@);
            }
            i + 1
        },
        None => 0,
    };
    let name = s.substring_char(start, n);
    Some(name.to_owned())
}

} // verus!
