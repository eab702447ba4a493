//! A lower-bound-style binary search over an ascending slice.
//!
//! The search returns either the index of an element equal to the probe (when
//! one is present) or the index at which the probe could be inserted while
//! keeping the slice ascending. Callers never need to know which of the two
//! happened, so a single index is returned for both.

use vstd::prelude::*;
use vstd::slice::slice_index_get;

use crate::sorted::is_ascending;

verus! {

/// Binary search over an ascending slice for a position of `x`.
///
/// The result `r` splits the slice into a prefix of elements at most `*x` and
/// a suffix of elements at least `*x`; when `*x` occurs in the slice, `r` is
/// the position of one of its occurrences. On an empty slice the result is 0.
pub fn binary_search_by(t: &[u32], x: &u32) -> (r: usize)
    requires
        is_ascending(t@),
    ensures
        r <= t@.len(),
        forall|i: int| 0 <= i < r ==> t@[i] <= *x,
        forall|i: int| r <= i < t@.len() ==> t@[i] >= *x,
        t@.contains(*x) ==> r < t@.len() && t@[r as int] == *x,
{
    let mut base: usize = 0;
    let mut len: usize = t.len();

    while len > 0
        invariant
            is_ascending(t@),
            t@.len() <= usize::MAX,
            base + len <= t@.len(),
            forall|i: int| 0 <= i < base ==> t@[i] < *x,
            forall|i: int| base + len <= i < t@.len() ==> t@[i] > *x,
        decreases len,
    {
        let half = len / 2;
        let probe = base + half;
        let v = *slice_index_get(t, probe);
        if v < *x {
            base = probe + 1;
            len = len - half - 1;
        } else if v > *x {
            len = half;
        } else {
            return probe;
        }
    }
    base
}

/// Binary search over an ascending slice, with the same contract as
/// `binary_search_by`.
pub fn binary_search(t: &[u32], x: &u32) -> (r: usize)
    requires
        is_ascending(t@),
    ensures
        r <= t@.len(),
        forall|i: int| 0 <= i < r ==> t@[i] <= *x,
        forall|i: int| r <= i < t@.len() ==> t@[i] >= *x,
        t@.contains(*x) ==> r < t@.len() && t@[r as int] == *x,
{
    binary_search_by(t, x)
}

} // verus!
