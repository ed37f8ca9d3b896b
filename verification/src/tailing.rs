//! The bounded trail of recent positions behind a moving ball.
//!
//! The trail is a `CircularQueue` of the `circular-queue` crate. What it
//! holds is named by [`queue_items`], oldest position first, and the limit
//! it was made with by [`queue_capacity`].

use circular_queue::CircularQueue;
use vstd::prelude::*;

verus! {

/// Makes `circular_queue::CircularQueue` known to the verifier as a type
/// it cannot look inside.
#[verifier::external_type_specification]
#[verifier::external_body]
#[verifier::reject_recursive_types(T)]
pub struct ExCircularQueue<T>(CircularQueue<T>);

/// The positions a trail holds, from the oldest to the newest.
pub uninterp spec fn queue_items(q: CircularQueue<(i64, i64)>) -> Seq<(i64, i64)>;

/// The number of positions a trail was made to hold.
pub uninterp spec fn queue_capacity(q: CircularQueue<(i64, i64)>) -> nat;

/// What a trail holds after one more position is recorded: the new position
/// comes last, and the oldest one leaves once the trail is full.
pub open spec fn trail_after_push(items: Seq<(i64, i64)>, capacity: nat, item: (i64, i64)) -> Seq<
    (i64, i64),
> {
    if capacity == 0 {
        items
    } else if items.len() < capacity {
        items.push(item)
    } else {
        items.drop_first().push(item)
    }
}

/// Trusted wrapper of `CircularQueue::with_capacity`: an empty queue with
/// the requested capacity. The bound keeps the allocation request within
/// what `Vec::with_capacity` accepts.
#[verifier::external_body]
pub(crate) fn queue_with_capacity(capacity: usize) -> (q: CircularQueue<(i64, i64)>)
    requires
        capacity <= 0x7FF_FFFF,
    ensures
        queue_items(q) == Seq::<(i64, i64)>::empty(),
        queue_capacity(q) == capacity,
{
    CircularQueue::with_capacity(capacity)
}

/// Trusted wrapper of `CircularQueue::push`: the capacity stays, and the
/// items change as [`trail_after_push`] says.
#[verifier::external_body]
pub(crate) fn queue_push(q: &mut CircularQueue<(i64, i64)>, item: (i64, i64))
    ensures
        queue_capacity(*final(q)) == queue_capacity(*old(q)),
        queue_items(*final(q)) == trail_after_push(
            queue_items(*old(q)),
            queue_capacity(*old(q)),
            item,
        ),
{
    q.push(item);
}

/// Trusted wrapper of `CircularQueue::iter`: the items copied out, from the
/// newest to the oldest.
#[verifier::external_body]
pub(crate) fn queue_newest_first(q: &CircularQueue<(i64, i64)>) -> (items: Vec<(i64, i64)>)
    ensures
        items@ == queue_items(*q).reverse(),
{
    q.iter().copied().collect()
}

} // verus!
