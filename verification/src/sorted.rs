//! What it means for a sequence to be in ascending order, and the fact that
//! an ascending arrangement of given contents is unique.

use vstd::prelude::*;
use vstd::seq_lib::group_to_multiset_ensures;

verus! {

/// The sequence is in non-descending order.
pub open spec fn is_ascending(s: Seq<u32>) -> bool {
    forall|i: int, j: int| 0 <= i <= j < s.len() ==> s[i] <= s[j]
}

/// Removing the element at one position and inserting `v` at another changes
/// the sequence's contents by exactly that one exchange.
pub proof fn lemma_replace_multiset(o: Seq<u32>, ri: int, p: int, v: u32)
    requires
        0 <= ri < o.len(),
        0 <= p <= o.len() - 1,
    ensures
        o.remove(ri).insert(p, v).to_multiset() == o.to_multiset().remove(o[ri]).insert(v),
{
    broadcast use group_to_multiset_ensures;

    assert(o.remove(ri).to_multiset() == o.to_multiset().remove(o[ri]));
    assert(o.remove(ri).insert(p, v).to_multiset() == o.remove(ri).to_multiset().insert(v));
}

/// Two ascending sequences holding the same values with the same
/// multiplicities are equal: a multiset has exactly one ascending
/// arrangement.
pub proof fn lemma_ascending_arrangement_unique(a: Seq<u32>, b: Seq<u32>)
    requires
        is_ascending(a),
        is_ascending(b),
        a.to_multiset() == b.to_multiset(),
    ensures
        a == b,
    decreases a.len(),
{
    broadcast use group_to_multiset_ensures;

    assert(a.len() == a.to_multiset().len());
    assert(b.len() == b.to_multiset().len());
    assert(a.len() == b.len());
    if a.len() == 0 {
        assert(a =~= b);
    } else {
        assert(a.contains(a[0]));
        assert(a.to_multiset().count(a[0]) > 0);
        assert(b.to_multiset().count(a[0]) > 0);
        assert(b.contains(a[0]));
        let ja = choose|j: int| 0 <= j < b.len() && b[j] == a[0];
        assert(b[0] <= a[0]);
        assert(b.contains(b[0]));
        assert(b.to_multiset().count(b[0]) > 0);
        assert(a.to_multiset().count(b[0]) > 0);
        assert(a.contains(b[0]));
        let jb = choose|j: int| 0 <= j < a.len() && a[j] == b[0];
        assert(a[0] <= b[0]);
        assert(a[0] == b[0]);

        assert(a.drop_first() =~= a.remove(0));
        assert(b.drop_first() =~= b.remove(0));
        assert(a.drop_first().to_multiset() == a.to_multiset().remove(a[0]));
        assert(b.drop_first().to_multiset() == b.to_multiset().remove(b[0]));
        assert(is_ascending(a.drop_first()));
        assert(is_ascending(b.drop_first()));
        lemma_ascending_arrangement_unique(a.drop_first(), b.drop_first());
        assert forall|i: int| 0 <= i < a.len() implies a[i] == b[i] by {
            if i > 0 {
                assert(a[i] == a.drop_first()[i - 1]);
                assert(b[i] == b.drop_first()[i - 1]);
            }
        }
        assert(a =~= b);
    }
}

} // verus!
