//! The queue of workers parked on a slot that another worker is computing.
//!
//! The queue is a `SmallVec` of the crate `smallvec`, which keeps the first
//! two entries inline: rarely do more than two workers wait for one slot.
//! What is said here of the `SmallVec` is taken on trust from its source.

use vstd::prelude::*;
use smallvec::SmallVec;

verus! {

/// Workers waiting for a slot, each entered by the counter of its id.
#[verifier::external_body]
pub struct WaitQueue {
    inner: SmallVec<[usize; 2]>,
}

/// The workers in a queue, oldest first, each by the counter of its id.
pub uninterp spec fn queued(queue: WaitQueue) -> Seq<usize>;

/// `SmallVec::new`: a vector without elements.
#[verifier::external_body]
pub(crate) fn queue_new() -> (queue: WaitQueue)
    ensures
        queued(queue) == Seq::<usize>::empty(),
{
    WaitQueue { inner: SmallVec::new() }
}

/// `SmallVec::len`: the number of elements.
#[verifier::external_body]
pub(crate) fn queue_len(queue: &WaitQueue) -> (n: usize)
    ensures
        n == queued(*queue).len(),
{
    queue.inner.len()
}

/// `SmallVec::push`: the element is appended behind those already there.
/// When the vector is full, `push` grows it to the next power of two and
/// panics if that many elements take more room than can be addressed; the
/// bound asked of the caller keeps far below that on every machine.
#[verifier::external_body]
pub(crate) fn queue_push(queue: &mut WaitQueue, worker: usize)
    requires
        queued(*old(queue)).len() < 0x1000_0000,
    ensures
        queued(*final(queue)) == queued(*old(queue)).push(worker),
{
    queue.inner.push(worker)
}

/// `SmallVec::into_vec`: the elements as a `Vec`, in the same order.
#[verifier::external_body]
pub(crate) fn queue_into_vec(queue: WaitQueue) -> (workers: Vec<usize>)
    ensures
        workers@ == queued(queue),
{
    queue.inner.into_vec()
}

} // verus!
