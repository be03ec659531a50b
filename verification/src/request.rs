//! Which request paths must not be served.
use vstd::prelude::*;

use crate::text::{split_chars, split_on};

verus! {

/// Some `/`-separated segment of `path` is `.git`.
pub open spec fn names_git_dir(path: Seq<char>) -> bool {
    exists|i: int| 0 <= i < split_on(path, '/').len() && #[trigger] split_on(path, '/')[i] == ".git"@
}

/// Whether the request path reaches into a repository's `.git` directory,
/// which is never served.
pub fn touches_git_dir(path: &str) -> (forbidden: bool)
    ensures
        forbidden == names_git_dir(path@),
{
    let segments = split_chars(path, '/');
    let git = ".git".to_owned();
    let ghost pieces = split_on(path@, '/');
    assert(segments@.len() == pieces.len());
    let mut i: usize = 0;
    while i < segments.len()
        invariant
            i <= segments@.len(),
            segments@.len() == pieces.len(),
            pieces == split_on(path@, '/'),
            segments@.map_values(|p: String| p@) == pieces,
            git@ == ".git"@,
            forall|j: int| 0 <= j < i ==> pieces[j] != ".git"@,
        decreases segments@.len() - i,
    {
        assert(segments@[i as int]@ == pieces[i as int]);
        if segments[i] == git {
            assert(split_on(path@, '/')[i as int] == ".git"@);
            return true;
        }
        i = i + 1;
    }
    false
}

} // verus!
