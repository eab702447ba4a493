use std::time::Duration;
use std::time::SystemTime;
use std::time::UNIX_EPOCH;

use streaming_median::StreamingMedian;
use xorshift::Rng;
use xorshift::SeedableRng;
use xorshift::Xoroshiro128;

const NANOS_PER_MILLI: u32 = 1000_000;
const MILLIS_PER_SEC: u64 = 1000;

pub fn millis(d: Duration) -> u64 {
    // A proper Duration will not overflow, because MIN and MAX are defined
    // such that the range is exactly i64 milliseconds.
    let secs_part = d.as_secs() * MILLIS_PER_SEC;
    let nanos_part = d.subsec_nanos() / NANOS_PER_MILLI;
    secs_part + nanos_part as u64
}

#[test]
fn test_median_random() {
    let t = millis(SystemTime::now().duration_since(UNIX_EPOCH).unwrap());
    let mut rng = Xoroshiro128::from_seed(&[t, 71, 1223]);

    let mut median_tracker = StreamingMedian::new(123_000);
    for _ in 0..100_000 {
        median_tracker.insert_and_calculate(rng.gen());
    }

    for i in median_tracker.sorted_values().windows(2) {
        assert!(i[0] <= i[1]);
    }
}

#[test]
fn test_median_ascending() {
    let mut median_tracker = StreamingMedian::new(123_000);

    let mut ascending_iter = 0..;
    for _ in 0..100_000 {
        median_tracker.insert_and_calculate(ascending_iter.next().unwrap());
    }

    for i in median_tracker.sorted_values().windows(2) {
        assert!(i[0] <= i[1]);
    }
}

#[test]
fn test_median_descending() {
    let mut median_tracker = StreamingMedian::new(123_000);

    let mut ascending_iter = 200_000..;
    for _ in 0..100_000 {
        median_tracker.insert_and_calculate(ascending_iter.next().unwrap());
    }

    for i in median_tracker.sorted_values().windows(2) {
        assert!(i[0] <= i[1]);
    }
}

#[test]
fn test_poison_absence() {
    let mut median_tracker = StreamingMedian::new(123_000);

    for _ in 0..64 {
        median_tracker.insert_and_calculate(1);
    }

    for i in median_tracker.sorted_values().iter() {
        assert_ne!(*i, 123_000);
    }
}
