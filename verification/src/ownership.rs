//! The counting that decides when a table slot is released.
//!
//! The wrappers of one slot share a counter. This module states, over a plain
//! count, what each wrapper decides when it is destroyed, and proves that the
//! decisions of all of them together release the slot exactly once.
use vstd::prelude::*;

verus! {

/// Destroying one of `owners` owners releases the slot: the wrapper holds a
/// handle and no other owner is left.
pub open spec fn releases(is_handle: bool, owners: int) -> bool {
    is_handle && owners == 1
}

/// What can happen to the owners of one counter.
pub enum OwnerEvent {
    /// An owner is duplicated: one owner more.
    Duplicate,
    /// An owner is destroyed: one owner less.
    Destroy,
}

/// The number of owners after `events`, where there were `start` before.
pub open spec fn owners_after(start: int, events: Seq<OwnerEvent>) -> int
    decreases events.len(),
{
    if events.len() == 0 {
        start
    } else {
        owners_after(start, events.drop_last()) + (if events.last() is Duplicate {
            1int
        } else {
            -1int
        })
    }
}

/// Each of `events` happens to an owner that is there: before each, at least
/// one owner is left.
pub open spec fn orderly(start: int, events: Seq<OwnerEvent>) -> bool {
    forall|i: int| 0 <= i < events.len() ==> #[trigger] owners_after(start, events.take(i)) >= 1
}

/// The number of releases that the destructions among `events` ask for.
pub open spec fn release_count(is_handle: bool, start: int, events: Seq<OwnerEvent>) -> nat
    decreases events.len(),
{
    if events.len() == 0 {
        0
    } else {
        let before = events.drop_last();
        release_count(is_handle, start, before) + (if events.last() is Destroy && releases(
            is_handle,
            owners_after(start, before),
        ) {
            1nat
        } else {
            0nat
        })
    }
}

/// While an owner is left after every event, nothing is released.
pub proof fn lemma_none_released_early(is_handle: bool, start: int, events: Seq<OwnerEvent>)
    requires
        forall|i: int| 0 <= i <= events.len() ==> #[trigger] owners_after(start, events.take(i)) >= 1,
    ensures
        release_count(is_handle, start, events) == 0,
    decreases events.len(),
{
    if events.len() > 0 {
        let before = events.drop_last();
        assert forall|i: int| 0 <= i <= before.len() implies #[trigger] owners_after(
            start,
            before.take(i),
        ) >= 1 by {
            assert(before.take(i) == events.take(i));
        }
        lemma_none_released_early(is_handle, start, before);
        assert(events.take(events.len() as int) == events);
        assert(owners_after(start, events) >= 1);
    }
}

/// A slot is released exactly once, by the destruction of its last owner.
///
/// Start with one wrapper that holds a handle. Duplicate and destroy its
/// owners in any order, until none is left. Then the destructions ask for one
/// release in all, and it is the last of them that asks.
pub proof fn lemma_released_exactly_once(events: Seq<OwnerEvent>)
    requires
        orderly(1, events),
        owners_after(1, events) == 0,
    ensures
        events.len() > 0,
        events.last() is Destroy,
        release_count(true, 1, events.drop_last()) == 0,
        release_count(true, 1, events) == 1,
{
    let before = events.drop_last();
    assert forall|i: int| 0 <= i <= before.len() implies #[trigger] owners_after(
        1,
        before.take(i),
    ) >= 1 by {
        assert(before.take(i) == events.take(i));
    }
    lemma_none_released_early(true, 1, before);
    assert(owners_after(1, events.take(events.len() - 1)) >= 1);
}

/// One owner that is duplicated `copies` times, and then the destruction of
/// all of them.
pub open spec fn copied_then_destroyed(copies: nat) -> Seq<OwnerEvent> {
    Seq::new(
        2 * copies + 1,
        |i: int|
            if i < copies {
                OwnerEvent::Duplicate
            } else {
                OwnerEvent::Destroy
            },
    )
}

/// The owners that are left after the first `done` events of `copied_then_destroyed`.
proof fn lemma_owners_while_copied_then_destroyed(copies: nat, done: int)
    requires
        0 <= done <= 2 * copies + 1,
    ensures
        owners_after(1, copied_then_destroyed(copies).take(done)) == (if done <= copies {
            1 + done
        } else {
            2 * copies + 1 - done
        }),
    decreases done,
{
    let events = copied_then_destroyed(copies);
    if done > 0 {
        lemma_owners_while_copied_then_destroyed(copies, done - 1);
        assert(events.take(done).drop_last() == events.take(done - 1));
    }
}

/// A wrapper that holds a handle is duplicated any number of times, and all
/// the copies are destroyed: the slot is released once, by the last of them.
pub proof fn lemma_copies_release_once(copies: nat)
    ensures
        release_count(true, 1, copied_then_destroyed(copies).drop_last()) == 0,
        release_count(true, 1, copied_then_destroyed(copies)) == 1,
{
    let events = copied_then_destroyed(copies);
    assert forall|i: int| 0 <= i < events.len() implies #[trigger] owners_after(
        1,
        events.take(i),
    ) >= 1 by {
        lemma_owners_while_copied_then_destroyed(copies, i);
    }
    lemma_owners_while_copied_then_destroyed(copies, events.len() as int);
    assert(events.take(events.len() as int) == events);
    lemma_released_exactly_once(events);
}

/// Destroying the owners of a primitive never asks for a release.
pub proof fn lemma_primitive_never_released(start: int, events: Seq<OwnerEvent>)
    ensures
        release_count(false, start, events) == 0,
    decreases events.len(),
{
    if events.len() > 0 {
        lemma_primitive_never_released(start, events.drop_last());
    }
}

} // verus!
