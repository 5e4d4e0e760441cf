//! Resolution of buffered directional input.
//!
//! Between ticks the host pushes directional intents into a queue. At
//! each tick the queue is drained and resolved to a single direction:
//! the last queued direction that is neither the current direction nor
//! its exact reverse wins. A queued exact reversal is never applied at
//! this tick (it would turn the snake back into its own neck); if no
//! other direction overrode the current one, the reversal alone is
//! re-queued so the intent survives to the next tick.

use vstd::prelude::*;
use crate::geometry::MoveDirection;

verus! {

/// The direction a drained queue resolves to: the last element of
/// `queue` that is neither `last` nor the reverse of `last`, or `last`
/// itself if there is no such element.
pub open spec fn resolved_direction(queue: Seq<MoveDirection>, last: MoveDirection) -> MoveDirection
    decreases queue.len(),
{
    if queue.len() == 0 {
        last
    } else {
        let d = queue.last();
        if d != MoveDirection::reverse_of(last) && d != last {
            d
        } else {
            resolved_direction(queue.drop_last(), last)
        }
    }
}

/// What the queue holds after a drain: the reverse of `last` alone, if
/// it was queued and no other direction overrode `last`; nothing
/// otherwise.
pub open spec fn requeued(queue: Seq<MoveDirection>, last: MoveDirection) -> Seq<MoveDirection> {
    if queue.contains(MoveDirection::reverse_of(last)) && resolved_direction(queue, last) == last {
        seq![MoveDirection::reverse_of(last)]
    } else {
        Seq::<MoveDirection>::empty()
    }
}

/// The resolved direction is never the reverse of the direction the
/// snake last moved in: a direct reversal is withheld, not applied.
pub proof fn lemma_resolved_never_reverses(queue: Seq<MoveDirection>, last: MoveDirection)
    ensures
        resolved_direction(queue, last) != MoveDirection::reverse_of(last),
    decreases queue.len(),
{
    if queue.len() > 0 {
        lemma_resolved_never_reverses(queue.drop_last(), last);
    }
}

/// A queue holding only exact reversals of `last` resolves to `last`
/// itself, and the reversal is re-queued for the next tick.
pub proof fn lemma_pure_reversal_is_deferred(queue: Seq<MoveDirection>, last: MoveDirection)
    requires
        queue.len() > 0,
        forall|i: int| 0 <= i < queue.len() ==> queue[i] == MoveDirection::reverse_of(last),
    ensures
        resolved_direction(queue, last) == last,
        requeued(queue, last) == seq![MoveDirection::reverse_of(last)],
    decreases queue.len(),
{
    assert(queue.last() == MoveDirection::reverse_of(last));
    if queue.len() == 1 {
        assert(queue.drop_last().len() == 0);
    } else {
        assert(forall|i: int|
            0 <= i < queue.drop_last().len()
                ==> queue.drop_last()[i] == MoveDirection::reverse_of(last));
        lemma_pure_reversal_is_deferred(queue.drop_last(), last);
    }
    assert(resolved_direction(queue, last) == last);
    assert(queue.contains(MoveDirection::reverse_of(last))) by {
        assert(queue[0] == MoveDirection::reverse_of(last));
    }
}

} // verus!
