use vstd::prelude::*;
use crossbeam::sync::SegQueue;

verus! {

/// `crossbeam::sync::SegQueue`, the lock-free queue through which frames
/// travel from a connection's users to the thread that writes its socket.
#[verifier::external_type_specification]
#[verifier::external_body]
#[verifier::reject_recursive_types(T)]
pub struct ExSegQueue<T>(SegQueue<T>);

/// Calls `SegQueue::new`. The queue is shared between threads and changed
/// through shared references, so no contract speaks of what it holds.
#[verifier::external_body]
pub(crate) fn new_queue<T>() -> SegQueue<T> {
    SegQueue::new()
}

/// Calls `SegQueue::push`, which appends `value` at the back of the queue.
/// Nothing is stated: the queue's contents are not visible to the contracts.
#[verifier::external_body]
pub(crate) fn queue_push<T>(queue: &SegQueue<T>, value: T) {
    queue.push(value)
}

/// Calls `SegQueue::try_pop`, which takes the value at the front of the queue,
/// or gives nothing back when the queue is seen empty. Other threads push at
/// any time, so nothing is stated of which outcome comes.
#[verifier::external_body]
pub(crate) fn queue_try_pop<T>(queue: &SegQueue<T>) -> Option<T> {
    queue.try_pop()
}

/// Calls `Arc::clone`, which gives another pointer to the same queue.
#[verifier::external_body]
pub(crate) fn share_queue<T>(queue: &std::sync::Arc<SegQueue<T>>) -> (r: std::sync::Arc<SegQueue<T>>)
    ensures
        r == *queue,
{
    queue.clone()
}

} // verus!
