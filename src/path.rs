//! Path relativization against the table location.

use vstd::prelude::*;

use crate::error::TableError;

verus! {

/// The part of `path` after `location`, when `location` is a prefix of it.
pub open spec fn spec_relativize(path: Seq<char>, location: Seq<char>) -> Option<Seq<char>> {
    if location.is_prefix_of(path) {
        Some(path.subrange(location.len() as int, path.len() as int))
    } else {
        None
    }
}

/// `r` is what relativizing `path` against `location` gives: the remainder of
/// the path, or `PathNotUnderRoot` naming the path.
pub open spec fn relativize_outcome(
    r: Result<String, TableError>,
    path: Seq<char>,
    location: Seq<char>,
) -> bool {
    match spec_relativize(path, location) {
        Some(rel) => r is Ok && r->Ok_0@ == rel,
        None => r is Err && r->Err_0 is PathNotUnderRoot && r->Err_0->path@ == path,
    }
}

/// Strips `location` from the front of `path`, comparing character by
/// character with no normalization.
pub fn relativize(path: &str, location: &str) -> (r: Result<String, TableError>)
    ensures
        relativize_outcome(r, path@, location@),
{
    let n = location.unicode_len();
    let m = path.unicode_len();
    if n > m {
        return Err(TableError::PathNotUnderRoot { path: path.to_owned() });
    }
    let mut i: usize = 0;
    while i < n
        invariant
            n == location@.len(),
            m == path@.len(),
            n <= m,
            i <= n,
            forall|j: int| 0 <= j < i ==> path@[j] == location@[j],
        decreases n - i,
    {
        if path.get_char(i) != location.get_char(i) {
            return Err(TableError::PathNotUnderRoot { path: path.to_owned() });
        }
        i = i + 1;
    }
    assert(location@.is_prefix_of(path@)) by {
        assert(path@.subrange(0, n as int) =~= location@);
    }
    Ok(path.substring_char(n, m).to_owned())
}

/// Relativizing a path made of the location followed by any suffix gives back
/// exactly that suffix; a path that the location does not prefix is refused.
pub proof fn lemma_relativize_round_trip(location: Seq<char>, suffix: Seq<char>, other: Seq<char>)
    requires
        !location.is_prefix_of(other),
    ensures
        spec_relativize(location + suffix, location) == Some(suffix),
        spec_relativize(other, location) is None,
{
    let whole = location + suffix;
    assert(whole.subrange(0, location.len() as int) =~= location);
    assert(whole.subrange(location.len() as int, whole.len() as int) =~= suffix);
}

} // verus!
