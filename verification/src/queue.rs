//! The priority queues that hold runnable jobs, by job id and priority.
//!
//! The queues are `priority_queue::PriorityQueue`s. What a queue holds is
//! modelled as a map from job id to priority: the crate keeps each item at most
//! once, and `pop` hands out an item of greatest priority.
use vstd::prelude::*;
use priority_queue::PriorityQueue;
use std::hash::Hash;

verus! {

/// Declares `priority_queue::PriorityQueue` to Verus; its contents are opaque
/// and described by [`queue_contents`].
#[verifier::external_type_specification]
#[verifier::external_body]
#[verifier::reject_recursive_types(I)]
#[verifier::reject_recursive_types(P)]
#[verifier::reject_recursive_types(H)]
pub struct ExPriorityQueue<I: Hash + Eq, P: Ord, H>(PriorityQueue<I, P, H>);

/// A queue of job ids, ordered by priority.
pub type JobQueue = PriorityQueue<u64, u32>;

/// What a queue of job ids holds: each id mapped to its priority.
pub uninterp spec fn queue_contents(q: PriorityQueue<u64, u32>) -> Map<u64, u32>;

/// The contents of an empty queue.
pub open spec fn empty_contents() -> Map<u64, u32> {
    Map::empty()
}

/// The greatest priority in a queue's contents is `p`.
pub open spec fn is_max_priority(m: Map<u64, u32>, p: u32) -> bool {
    forall|k: u64| #[trigger] m.contains_key(k) ==> m[k] <= p
}

/// Going from `before` to `after` took out `item`, whose priority `p` is the
/// greatest in `before`.
pub open spec fn pops_max(before: Map<u64, u32>, after: Map<u64, u32>, item: u64, p: u32) -> bool {
    &&& before.contains_key(item)
    &&& before[item] == p
    &&& is_max_priority(before, p)
    &&& after == before.remove(item)
}

/// Calls `PriorityQueue::new`, which creates an empty queue.
#[verifier::external_body]
pub(crate) fn queue_new() -> (fresh: JobQueue)
    ensures
        queue_contents(fresh) == empty_contents(),
{
    PriorityQueue::new()
}

/// Calls `PriorityQueue::is_empty`, which tells whether the queue holds no item.
#[verifier::external_body]
pub(crate) fn queue_is_empty(q: &PriorityQueue<u64, u32>) -> (b: bool)
    ensures
        b == (queue_contents(*q) == empty_contents()),
{
    q.is_empty()
}

/// Calls `PriorityQueue::push`: the item is inserted with the given priority
/// (an item already present gets the new priority), and the old priority of an
/// item already present is returned.
#[verifier::external_body]
pub(crate) fn queue_push(q: &mut PriorityQueue<u64, u32>, item: u64, priority: u32) -> (old_priority:
    Option<u32>)
    ensures
        queue_contents(*final(q)) == queue_contents(*old(q)).insert(item, priority),
        old_priority == (if queue_contents(*old(q)).contains_key(item) {
            Some(queue_contents(*old(q))[item])
        } else {
            None::<u32>
        }),
{
    q.push(item, priority)
}

/// Calls `PriorityQueue::pop`: on an empty queue it returns `None` and changes
/// nothing; otherwise it removes and returns an item of greatest priority,
/// with that priority. Which of several items of equal priority comes out is
/// not stated.
#[verifier::external_body]
pub(crate) fn queue_pop(q: &mut PriorityQueue<u64, u32>) -> (r: Option<(u64, u32)>)
    ensures
        queue_contents(*old(q)) == empty_contents() ==> r is None && queue_contents(
            *final(q),
        ) == queue_contents(*old(q)),
        queue_contents(*old(q)) != empty_contents() ==> (r matches Some((item, p)) && pops_max(
            queue_contents(*old(q)),
            queue_contents(*final(q)),
            item,
            p,
        )),
{
    q.pop()
}

} // verus!
