//! The temporal ring buffer: a fixed-capacity deque from the `arraydeque`
//! crate, seen by the verifier only through the contracts below.
//!
//! Verus refuses a declaration of `arraydeque::ArrayDeque` itself (its
//! behaviour type parameter is bound by an outside trait), so the deque is
//! held in a field of an opaque struct instead. `ring_contents` names the
//! deque's front-to-back contents; every wrapper states what the called
//! method does to those contents, as `arraydeque`'s source shows it.

use vstd::prelude::*;

use arraydeque::ArrayDeque;
use arraydeque::Saturating;

verus! {

/// A ring buffer of unsigned 32-bit integers with capacity 64.
#[verifier::external_body]
pub struct Ring {
    inner: ArrayDeque<u32, 64, Saturating>,
}

/// The front-to-back contents of the ring buffer, in the order in which
/// `arraydeque` iterates them (front first).
pub uninterp spec fn ring_contents(d: Ring) -> Seq<u32>;

/// Relies on `arraydeque::ArrayDeque`'s `FromIterator` impl (`Saturating`):
/// collecting an iterator of at most CAP items pushes each to the back of an
/// empty deque, so 64 copies of `value` fill the deque with `value`.
#[verifier::external_body]
pub(crate) fn ring_filled(value: u32) -> (r: Ring)
    ensures
        ring_contents(r) == Seq::new(64, |i: int| value),
{
    Ring { inner: ArrayDeque::from_iter(std::iter::repeat(value).take(64)) }
}

/// Relies on `arraydeque::ArrayDeque::pop_front`: removes and returns the
/// front element, or returns `None` and changes nothing when the deque is
/// empty.
#[verifier::external_body]
pub(crate) fn ring_pop_front(d: &mut Ring) -> (r: Option<u32>)
    ensures
        ring_contents(*old(d)).len() > 0 ==> r == Some(ring_contents(*old(d))[0])
            && ring_contents(*final(d)) == ring_contents(*old(d)).drop_first(),
        ring_contents(*old(d)).len() == 0 ==> r is None && ring_contents(*final(d))
            == ring_contents(*old(d)),
{
    d.inner.pop_front()
}

/// Relies on `arraydeque::ArrayDeque::push_back` (`Saturating`): appends the
/// element at the back and returns `Ok` when the deque holds fewer than CAP
/// elements; returns `Err` and changes nothing when it is full.
#[verifier::external_body]
pub(crate) fn ring_push_back(d: &mut Ring, value: u32) -> (r: bool)
    ensures
        ring_contents(*old(d)).len() < 64 ==> r && ring_contents(*final(d))
            == ring_contents(*old(d)).push(value),
        ring_contents(*old(d)).len() >= 64 ==> !r && ring_contents(*final(d))
            == ring_contents(*old(d)),
{
    d.inner.push_back(value).is_ok()
}

} // verus!
