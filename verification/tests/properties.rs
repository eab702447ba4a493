use streaming_median::binary_search;
use streaming_median::binary_search_by;
use streaming_median::StreamingMedian;

#[test]
fn median_of_fresh_tracker_is_the_seed() {
    let stream = StreamingMedian::new(123_000);
    assert_eq!(stream.last(), 123_000);
}

#[test]
fn single_low_outlier_leaves_median_at_seed() {
    // The sorted view becomes [31_000, 123_000 x 63]; index 31 still holds
    // the seed, so the returned median is 123_000.
    let mut stream = StreamingMedian::new(123_000);
    assert_eq!(stream.insert_and_calculate(31_000), 123_000);
    assert_eq!(stream.last(), 123_000);
}

#[test]
fn fast_path_keeps_sorted_view_and_median() {
    let mut stream = StreamingMedian::new(7);
    let before = stream.sorted_values().clone();
    let previous_median = stream.last();
    // The evicted value is the seed 7, equal to the inserted value.
    let median = stream.insert_and_calculate(7);
    assert_eq!(median, previous_median);
    assert_eq!(stream.sorted_values(), &before);
}

#[test]
fn median_moves_once_half_the_window_is_replaced() {
    // With k copies of 1 inserted into a window of 100s, the sorted view is
    // [1 x k, 100 x (64 - k)], so index 31 reads 100 until k reaches 32.
    let mut stream = StreamingMedian::new(100);
    let mut median = stream.last();
    for _ in 0..31 {
        median = stream.insert_and_calculate(1);
    }
    assert_eq!(median, 100);
    median = stream.insert_and_calculate(1);
    assert_eq!(median, 1);
}

#[test]
fn oldest_value_is_the_one_evicted() {
    let mut stream = StreamingMedian::new(99);
    for v in 0..64 {
        stream.insert_and_calculate(v);
    }
    // The window now holds 0..=63 in insertion order; the next insertion
    // evicts 0, the oldest.
    stream.insert_and_calculate(1000);
    let sorted = stream.sorted_values();
    assert!(!sorted.contains(&0));
    assert!(sorted.contains(&1000));
    assert_eq!(sorted[0], 1);
    assert_eq!(sorted[63], 1000);
}

#[test]
fn identical_input_streams_give_identical_medians() {
    let mut a = StreamingMedian::new(42);
    let mut b = StreamingMedian::new(42);
    let mut x: u32 = 123_456_789;
    let mut medians_a = Vec::new();
    let mut medians_b = Vec::new();
    for _ in 0..500 {
        // A small linear congruential step keeps the inputs deterministic.
        x = x.wrapping_mul(1_664_525).wrapping_add(1_013_904_223);
        medians_a.push(a.insert_and_calculate(x));
        medians_b.push(b.insert_and_calculate(x));
    }
    assert_eq!(medians_a, medians_b);
}

#[test]
fn sorted_view_stays_ascending_after_one_arbitrary_insert() {
    let pairs: [(u32, u32); 6] = [
        (0, u32::MAX),
        (u32::MAX, 0),
        (5, 5),
        (1, 2),
        (1_000_000, 3),
        (3, 1_000_000),
    ];
    for (seed, value) in pairs {
        let mut stream = StreamingMedian::new(seed);
        stream.insert_and_calculate(value);
        for w in stream.sorted_values().windows(2) {
            assert!(w[0] <= w[1]);
        }
    }
}

#[test]
fn window_flush_evicts_the_seed_for_any_other_value() {
    let mut stream = StreamingMedian::new(0);
    for _ in 0..64 {
        stream.insert_and_calculate(u32::MAX);
    }
    for v in stream.sorted_values().iter() {
        assert_eq!(*v, u32::MAX);
    }
}

#[test]
fn binary_search_finds_a_present_value() {
    let data: [u32; 6] = [2, 3, 4, 5, 7, 8];
    assert_eq!(binary_search(&data, &2), 0);
    assert_eq!(binary_search(&data, &5), 3);
    assert_eq!(binary_search(&data, &8), 5);
}

#[test]
fn binary_search_returns_the_insertion_point_when_absent() {
    let data: [u32; 6] = [2, 3, 4, 5, 7, 8];
    assert_eq!(binary_search(&data, &1), 0);
    assert_eq!(binary_search(&data, &6), 4);
    assert_eq!(binary_search(&data, &9), 6);
}

#[test]
fn binary_search_on_an_empty_slice_returns_zero() {
    let data: [u32; 0] = [];
    assert_eq!(binary_search_by(&data, &10), 0);
}

#[test]
fn binary_search_with_repeated_values_lands_on_one_of_them() {
    let data: [u32; 5] = [1, 4, 4, 4, 9];
    let r = binary_search_by(&data, &4);
    assert!((1..=3).contains(&r));
    assert_eq!(data[r], 4);
}
