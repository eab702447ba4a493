//! A sliding-window median tracker over unsigned 32-bit integers.
//!
//! The tracker keeps the last 64 inserted values twice: once in insertion
//! order (a ring buffer, so the oldest value can be evicted) and once in
//! ascending order (so the median is a single array read). Every insertion
//! evicts the oldest value and re-sorts incrementally in O(window) time.

pub mod laws;
pub mod median;
pub mod ring;
pub mod search;
pub mod sorted;

pub use median::StreamingMedian;
pub use search::binary_search;
pub use search::binary_search_by;
