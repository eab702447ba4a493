//! The sliding-window median tracker.

use vstd::prelude::*;

use vstd::pervasive::VecAdditionalExecFns;
use vstd::seq_lib::group_to_multiset_ensures;
use vstd::slice::slice_subrange;

use crate::ring::Ring;
use crate::ring::ring_contents;
use crate::ring::ring_filled;
use crate::ring::ring_pop_front;
use crate::ring::ring_push_back;
use crate::search::binary_search;
use crate::sorted::is_ascending;
use crate::sorted::lemma_replace_multiset;

verus! {

/// A running median over a fixed window of the last 64 inserted values.
///
/// The same 64 values are held twice: `data` in insertion order (oldest at
/// the front, so the next value to evict is known) and `sorted` in ascending
/// order (so the median is the element at index 31, the lower of the two
/// middle elements). `last_median` caches the most recently read median.
pub struct StreamingMedian {
    data: Ring,
    sorted: Vec<u32>,
    last_median: u32,
}

impl StreamingMedian {
    /// The window's contents in insertion order, oldest first.
    pub closed spec fn window(&self) -> Seq<u32> {
        ring_contents(self.data)
    }

    /// The window's contents in ascending order.
    pub closed spec fn sorted_view(&self) -> Seq<u32> {
        self.sorted@
    }

    /// The cached median: the value last read from the middle of the sorted
    /// view.
    pub closed spec fn cached(&self) -> u32 {
        self.last_median
    }

    /// Well-formedness: the window holds exactly 64 values, the sorted view
    /// is an ascending arrangement of the same values, and the cache holds
    /// the sorted view's lower-middle element.
    pub open spec fn wf(&self) -> bool {
        &&& self.window().len() == 64
        &&& self.sorted_view().len() == 64
        &&& is_ascending(self.sorted_view())
        &&& self.sorted_view().to_multiset() == self.window().to_multiset()
        &&& self.cached() == self.sorted_view()[31]
    }

    /// Builds a tracker whose window and sorted view both hold 64 copies of
    /// `initial_median`, so the tracker answers median queries at once; the
    /// seed's influence persists until 64 real insertions have evicted it.
    pub fn new(initial_median: u32) -> (r: StreamingMedian)
        ensures
            r.wf(),
            r.window() == Seq::new(64, |i: int| initial_median),
            r.sorted_view() == Seq::new(64, |i: int| initial_median),
            r.cached() == initial_median,
    {
        let data = ring_filled(initial_median);
        let mut sorted: Vec<u32> = Vec::new();
        let mut i: usize = 0;
        while i < 64
            invariant
                i <= 64,
                sorted@.len() == i,
                forall|j: int| 0 <= j < i ==> sorted@[j] == initial_median,
            decreases 64 - i,
        {
            sorted.push(initial_median);
            i += 1;
        }
        proof {
            assert(sorted@ =~= Seq::new(64, |i: int| initial_median));
        }
        StreamingMedian { data, sorted, last_median: initial_median }
    }

    /// Returns the cached median without recomputation.
    pub fn last(&self) -> (r: u32)
        ensures
            r == self.cached(),
    {
        self.last_median
    }

    /// The window's contents in ascending order: a vector of 64 values whose
    /// lower-middle element (index 31) is the median.
    pub fn sorted_values(&self) -> (r: &Vec<u32>)
        ensures
            r@ == self.sorted_view(),
    {
        &self.sorted
    }

    /// Evicts the oldest value of the window, inserts `value` in its place,
    /// and returns the new median (the lower-middle element of the sorted
    /// view), which is also cached.
    ///
    /// The sorted view stays an ascending arrangement of the window's
    /// contents after every call. When the evicted value equals the inserted
    /// one, the sorted view is untouched and the median is unchanged.
    pub fn insert_and_calculate(&mut self, value: u32) -> (r: u32)
        requires
            old(self).wf(),
        ensures
            final(self).wf(),
            final(self).window() == old(self).window().drop_first().push(value),
            r == final(self).sorted_view()[31],
            r == final(self).cached(),
            old(self).window()[0] == value ==> final(self).sorted_view()
                == old(self).sorted_view() && r == old(self).cached(),
    {
        let ghost w = old(self).window();
        let ghost o = old(self).sorted_view();

        let removed_opt = ring_pop_front(&mut self.data);
        let removed = removed_opt.unwrap();
        let _pushed = ring_push_back(&mut self.data, value);

        proof {
            broadcast use group_to_multiset_ensures;
            broadcast use vstd::multiset::group_multiset_axioms;

            assert(removed == w[0]);
            assert(self.window() == w.drop_first().push(value));
            assert(w.drop_first() =~= w.remove(0));
            assert(w.remove(0).to_multiset() == w.to_multiset().remove(w[0]));
            assert(w.drop_first().push(value).to_multiset()
                == w.drop_first().to_multiset().insert(value));
            assert(self.window().to_multiset() == w.to_multiset().remove(w[0]).insert(value));
        }

        if removed == value {
            proof {
                broadcast use group_to_multiset_ensures;
                broadcast use vstd::multiset::group_multiset_axioms;

                assert(w.contains(w[0]));
                assert(w.to_multiset().count(w[0]) > 0);
                assert(w.to_multiset().remove(w[0]).insert(w[0]) =~= w.to_multiset());
            }
            return self.sorted[31];
        }

        proof {
            broadcast use group_to_multiset_ensures;

            assert(w.contains(w[0]));
            assert(w.to_multiset().count(w[0]) > 0);
            assert(o.to_multiset().count(removed) > 0);
            assert(o.contains(removed));
        }

        let remove_index = binary_search(self.sorted.as_slice(), &removed);
        let ghost ri = remove_index as int;
        proof {
            assert(o[ri] == removed);
        }

        let insert_index: usize;
        if removed > value {
            let sub = slice_subrange(self.sorted.as_slice(), 0, remove_index);
            insert_index = binary_search(sub, &value);
            proof {
                assert forall|i: int| 0 <= i < insert_index implies o[i] <= value by {
                    assert(sub@[i] == o[i]);
                }
                assert forall|i: int| insert_index <= i < 64 && i != ri implies o[i]
                    >= value by {
                    if i < ri {
                        assert(sub@[i] == o[i]);
                    } else {
                        assert(o[ri] <= o[i]);
                    }
                }
                assert(insert_index <= ri);
            }
        } else {
            let sub = slice_subrange(self.sorted.as_slice(), remove_index, 64);
            let rel = binary_search(sub, &value);
            proof {
                assert(rel >= 1) by {
                    if rel == 0 {
                        assert(sub@[0] >= value);
                    }
                }
            }
            insert_index = remove_index + rel;
            proof {
                assert forall|i: int| 0 <= i < insert_index implies o[i] <= value by {
                    if i < ri {
                        assert(o[i] <= o[ri]);
                    } else {
                        assert(sub@[i - ri] == o[i]);
                    }
                }
                assert forall|i: int| insert_index <= i < 64 && i != ri implies o[i]
                    >= value by {
                    assert(sub@[i - ri] == o[i]);
                }
                assert(ri < insert_index);
            }
        }
        let ghost ii = insert_index as int;

        proof {
            assert(forall|i: int| 0 <= i < ii ==> o[i] <= value);
            assert(forall|i: int| ii <= i < 64 && i != ri ==> o[i] >= value);
            if removed > value {
                assert(ii <= ri);
            } else {
                assert(ri < ii);
            }
        }

        if remove_index < insert_index {
            // The inserted value sorts later than the evicted one: the
            // elements strictly between the two positions shift left by one,
            // and the value lands just before the insertion point.
            let mut j: usize = remove_index;
            while j + 1 < insert_index
                invariant
                    remove_index <= j < insert_index,
                    insert_index <= 64,
                    self.sorted@.len() == 64,
                    self.window() == w.drop_first().push(value),
                    forall|k: int|
                        0 <= k < 64 && !(remove_index <= k < j) ==> self.sorted@[k] == o[k],
                    forall|k: int| remove_index <= k < j ==> self.sorted@[k] == o[k + 1],
                decreases insert_index - j,
            {
                let nextv = self.sorted[j + 1];
                self.sorted.set(j, nextv);
                j += 1;
            }
            self.sorted.set(insert_index - 1, value);

            proof {
                let n = self.sorted@;
                o.remove_ensures(ri);
                o.remove(ri).insert_ensures(ii - 1, value);
                assert(n =~= o.remove(ri).insert(ii - 1, value));
            }
        } else {
            // The inserted value sorts no later than the evicted one: the
            // elements from the insertion point up to the evicted position
            // shift right by one, and the value lands at the insertion point.
            let mut k: usize = remove_index;
            while k > insert_index
                invariant
                    insert_index <= k <= remove_index,
                    remove_index < 64,
                    self.sorted@.len() == 64,
                    self.window() == w.drop_first().push(value),
                    forall|t: int|
                        0 <= t < 64 && !(k < t <= remove_index) ==> self.sorted@[t] == o[t],
                    forall|t: int| k < t <= remove_index ==> self.sorted@[t] == o[t - 1],
                decreases k,
            {
                let prev = self.sorted[k - 1];
                self.sorted.set(k, prev);
                k -= 1;
            }
            self.sorted.set(insert_index, value);

            proof {
                let n = self.sorted@;
                o.remove_ensures(ri);
                o.remove(ri).insert_ensures(ii, value);
                assert(n =~= o.remove(ri).insert(ii, value));
            }
        }

        proof {
            broadcast use group_to_multiset_ensures;

            let n = self.sorted@;
            let ghost p = if ri < ii { ii - 1 } else { ii };
            assert(n == o.remove(ri).insert(p, value));
            lemma_replace_multiset(o, ri, p, value);
            assert(n.to_multiset() == self.window().to_multiset());
            assert forall|a: int, b: int| 0 <= a <= b < 64 implies n[a] <= n[b] by {
                if a < p && b == p {
                    assert(o.remove(ri).insert(p, value)[a] <= value);
                } else if a == p && b > p {
                    assert(value <= o.remove(ri).insert(p, value)[b]);
                }
            }
            assert(is_ascending(n));
        }

        let median = self.sorted[31];
        self.last_median = median;
        median
    }
}

} // verus!
