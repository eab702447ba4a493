//! Properties of the tracker that relate several operations, stated and
//! proved in their own right.

use vstd::prelude::*;
use vstd::seq_lib::group_to_multiset_ensures;

use crate::median::StreamingMedian;
use crate::sorted::lemma_ascending_arrangement_unique;

verus! {

/// The window left behind by a run of insertions: each one drops the oldest
/// element and appends the inserted value, exactly as `insert_and_calculate`
/// ensures of the window.
pub open spec fn window_after_inserts(w: Seq<u32>, vals: Seq<u32>) -> Seq<u32>
    decreases vals.len(),
{
    if vals.len() == 0 {
        w
    } else {
        window_after_inserts(w.drop_first().push(vals[0]), vals.drop_first())
    }
}

/// Splitting a run of insertions splits the window computation.
pub proof fn lemma_window_after_inserts_append(w: Seq<u32>, a: Seq<u32>, b: Seq<u32>)
    ensures
        window_after_inserts(w, a + b) == window_after_inserts(window_after_inserts(w, a), b),
    decreases a.len(),
{
    if a.len() == 0 {
        assert(a + b =~= b);
    } else {
        assert((a + b)[0] == a[0]);
        assert((a + b).drop_first() =~= a.drop_first() + b);
        lemma_window_after_inserts_append(w.drop_first().push(a[0]), a.drop_first(), b);
    }
}

/// A run of insertions keeps the window's length.
pub proof fn lemma_window_after_inserts_len(w: Seq<u32>, vals: Seq<u32>)
    requires
        w.len() >= 1,
    ensures
        window_after_inserts(w, vals).len() == w.len(),
    decreases vals.len(),
{
    if vals.len() > 0 {
        lemma_window_after_inserts_len(w.drop_first().push(vals[0]), vals.drop_first());
    }
}

/// Inserting at most 64 values shifts the old window contents forward by
/// that many positions and places the inserted values, in order, at the back.
proof fn lemma_window_after_at_most_full(w: Seq<u32>, vals: Seq<u32>)
    requires
        w.len() == 64,
        vals.len() <= 64,
    ensures
        window_after_inserts(w, vals).len() == 64,
        forall|i: int|
            0 <= i < 64 - vals.len() ==> window_after_inserts(w, vals)[i] == w[i + vals.len()],
        forall|i: int|
            64 - vals.len() <= i < 64 ==> window_after_inserts(w, vals)[i]
                == vals[i - (64 - vals.len())],
    decreases vals.len(),
{
    if vals.len() > 0 {
        lemma_window_after_at_most_full(w.drop_first().push(vals[0]), vals.drop_first());
    }
}

/// Window flush, first half: after inserting the same value at least 64
/// times in a row, the window holds that value alone — every older value has
/// been evicted.
pub proof fn lemma_repeated_inserts_fill_window(w: Seq<u32>, vals: Seq<u32>, v: u32)
    requires
        w.len() == 64,
        vals.len() >= 64,
        forall|i: int| 0 <= i < vals.len() ==> vals[i] == v,
    ensures
        window_after_inserts(w, vals).len() == 64,
        forall|i: int| 0 <= i < 64 ==> window_after_inserts(w, vals)[i] == v,
{
    let cut = vals.len() - 64;
    let a = vals.subrange(0, cut);
    let b = vals.subrange(cut, vals.len() as int);
    assert(vals =~= a + b);
    lemma_window_after_inserts_append(w, a, b);
    lemma_window_after_inserts_len(w, a);
    lemma_window_after_at_most_full(window_after_inserts(w, a), b);
}

/// Window flush, second half: a well-formed tracker whose window holds `v`
/// everywhere has no other value — the construction seed included — anywhere
/// in its sorted view.
pub proof fn lemma_window_flush(s: &StreamingMedian, v: u32, seed: u32)
    requires
        s.wf(),
        forall|i: int| 0 <= i < 64 ==> s.window()[i] == v,
        seed != v,
    ensures
        forall|i: int| 0 <= i < 64 ==> s.sorted_view()[i] != seed,
{
    broadcast use group_to_multiset_ensures;

    assert forall|i: int| 0 <= i < 64 implies s.sorted_view()[i] != seed by {
        if s.sorted_view()[i] == seed {
            assert(s.sorted_view().contains(seed));
            assert(s.sorted_view().to_multiset().count(seed) > 0);
            assert(s.window().to_multiset().count(seed) > 0);
            assert(s.window().contains(seed));
            let j = choose|j: int| 0 <= j < s.window().len() && s.window()[j] == seed;
            assert(s.window()[j] == v);
        }
    }
}

/// Determinism: the tracker's observable state is a function of the window's
/// contents alone. Two well-formed trackers whose windows hold the same
/// values in the same order have the same sorted view and the same cached
/// median — so an identical seed and an identical run of inserted values
/// give an identical run of returned medians.
pub proof fn lemma_state_determined_by_window(a: &StreamingMedian, b: &StreamingMedian)
    requires
        a.wf(),
        b.wf(),
        a.window() == b.window(),
    ensures
        a.sorted_view() == b.sorted_view(),
        a.cached() == b.cached(),
{
    lemma_ascending_arrangement_unique(a.sorted_view(), b.sorted_view());
}

} // verus!
