//! Names and tasks agree: a name stands for the place of the one task that carries it,
//! and every task that carries a name is found by it. Every operation keeps this so.

use crate::scheduler::ops::{
    cancel_named_outcome, cancel_outcome, cancelled, cancelled_named, reschedule_named_outcome,
    reschedule_outcome, rescheduled, rescheduled_named, schedule_outcome, scheduled,
};
use crate::scheduler::state::{
    agenda_of, live_name, names_agree, placed, slot_at, slot_cleared, unnamed, SchedulerState,
};
use crate::scheduler::types::{BlockNumber, DispatchTime, Origin, Task, TaskAddress};
use vstd::prelude::*;

verus! {

/// Where names and tasks agree, no two tasks carry the same name.
pub proof fn lemma_names_are_unique(
    s: SchedulerState,
    block: BlockNumber,
    index: u32,
    other_block: BlockNumber,
    other_index: u32,
)
    requires
        names_agree(s),
        live_name(s, block, index) is Some,
        live_name(s, block, index) == live_name(s, other_block, other_index),
    ensures
        block == other_block,
        index == other_index,
{
}

/// Scheduling keeps names and tasks in agreement.
pub proof fn lemma_scheduled_names_agree(s: SchedulerState, task: Task, when: DispatchTime)
    requires
        names_agree(s),
    ensures
        names_agree(scheduled(s, task, when)),
{
    let after = scheduled(s, task, when);
    match schedule_outcome(s, task, when) {
        Ok((at, index)) => {
            assert forall|w: BlockNumber, i: u32| #![trigger live_name(after, w, i)]
                live_name(after, w, i) == if w == at && i == index {
                    task.maybe_id
                } else {
                    live_name(s, w, i)
                } by {}
            assert forall|n: Seq<u8>| #[trigger] after.lookup.contains_key(n) implies live_name(
                after,
                after.lookup[n].0,
                after.lookup[n].1,
            ) == Some(n) by {
                if task.maybe_id != Some(n) {
                    assert(s.lookup.contains_key(n));
                }
            }
        },
        Err(_) => {},
    }
}

/// After a slot was emptied no task is there, and every other place holds what it
/// held.
pub proof fn lemma_live_names_after_clearing(s: SchedulerState, at: BlockNumber, slot: u32)
    ensures
        forall|w: BlockNumber, i: u32| #![trigger live_name(slot_cleared(s, at, slot), w, i)]
            live_name(slot_cleared(s, at, slot), w, i) == if w == at && i == slot {
                None
            } else {
                live_name(s, w, i)
            },
{
    let after = slot_cleared(s, at, slot);
    assert forall|w: BlockNumber, i: u32| #![trigger live_name(after, w, i)]
        live_name(after, w, i) == if w == at && i == slot {
            None
        } else {
            live_name(s, w, i)
        } by {
        if slot_at(s, at, slot) is Some && w == at && i != slot {
            let rest = agenda_of(s, at).update(slot as int, None);
            if i < rest.len() {
                assert(rest[i as int] == agenda_of(s, at)[i as int]);
            }
        }
    }
}

/// After a task was placed it is at its place, and every other place holds what it
/// held.
pub proof fn lemma_live_names_after_placing(s: SchedulerState, at: BlockNumber, task: Task)
    requires
        agenda_of(s, at).len() < u32::MAX,
    ensures
        forall|w: BlockNumber, i: u32| #![trigger live_name(placed(s, at, task), w, i)]
            live_name(placed(s, at, task), w, i) == if w == at && i == agenda_of(s, at).len() {
                task.maybe_id
            } else {
                live_name(s, w, i)
            },
{
}

/// Emptying the slot of a task and taking its name out of the index keeps names and
/// tasks in agreement.
pub proof fn lemma_removed_names_agree(s: SchedulerState, at: BlockNumber, slot: u32)
    requires
        names_agree(s),
    ensures
        names_agree(unnamed(slot_cleared(s, at, slot), live_name(s, at, slot))),
        live_name(s, at, slot) is Some ==> !unnamed(
            slot_cleared(s, at, slot),
            live_name(s, at, slot),
        ).lookup.contains_key(live_name(s, at, slot)->0),
{
    let after = unnamed(slot_cleared(s, at, slot), live_name(s, at, slot));
    lemma_live_names_after_clearing(s, at, slot);
    assert forall|w: BlockNumber, i: u32| #![trigger live_name(after, w, i)]
        live_name(after, w, i) == live_name(slot_cleared(s, at, slot), w, i) by {}
    assert forall|n: Seq<u8>| #[trigger] after.lookup.contains_key(n) implies live_name(
        after,
        after.lookup[n].0,
        after.lookup[n].1,
    ) == Some(n) by {
        assert(s.lookup.contains_key(n));
    }
    assert forall|w: BlockNumber, i: u32|
        (#[trigger] live_name(after, w, i)) is Some implies after.lookup.contains_key(
        live_name(after, w, i)->0,
    ) && after.lookup[live_name(after, w, i)->0] == (w, i) by {
        assert(live_name(s, w, i) is Some);
    }
}

/// Placing a task whose name is free keeps names and tasks in agreement.
pub proof fn lemma_placed_names_agree(s: SchedulerState, at: BlockNumber, task: Task)
    requires
        names_agree(s),
        agenda_of(s, at).len() < u32::MAX,
        task.maybe_id is Some ==> !s.lookup.contains_key(task.maybe_id->0),
    ensures
        names_agree(placed(s, at, task)),
{
    let after = placed(s, at, task);
    lemma_live_names_after_placing(s, at, task);
    assert forall|n: Seq<u8>| #[trigger] after.lookup.contains_key(n) implies live_name(
        after,
        after.lookup[n].0,
        after.lookup[n].1,
    ) == Some(n) by {
        if task.maybe_id != Some(n) {
            assert(s.lookup.contains_key(n));
        }
    }
    assert forall|w: BlockNumber, i: u32|
        (#[trigger] live_name(after, w, i)) is Some implies after.lookup.contains_key(
        live_name(after, w, i)->0,
    ) && after.lookup[live_name(after, w, i)->0] == (w, i) by {
        if !(w == at && i == agenda_of(s, at).len()) {
            assert(live_name(s, w, i) is Some);
        }
    }
}

/// Cancelling keeps names and tasks in agreement.
pub proof fn lemma_cancelled_names_agree(s: SchedulerState, origin: Option<Origin>, place: TaskAddress)
    requires
        names_agree(s),
    ensures
        names_agree(cancelled(s, origin, place)),
{
    if cancel_outcome(s, origin, place) is Ok {
        lemma_removed_names_agree(s, place.0, place.1);
        let cleared = unnamed(slot_cleared(s, place.0, place.1), live_name(s, place.0, place.1));
        let after = cancelled(s, origin, place);
        assert(after.lookup == cleared.lookup);
        assert(after.agenda == cleared.agenda);
        assert forall|w: BlockNumber, i: u32| #![trigger live_name(after, w, i)]
            live_name(after, w, i) == live_name(cleared, w, i) by {}
    }
}

/// Cancelling by name keeps names and tasks in agreement.
pub proof fn lemma_cancelled_named_names_agree(s: SchedulerState, origin: Option<Origin>, name: Seq<u8>)
    requires
        names_agree(s),
    ensures
        names_agree(cancelled_named(s, origin, name)),
{
    if cancel_named_outcome(s, origin, name) is Ok {
        let place = s.lookup[name];
        assert(s.lookup.contains_key(name));
        assert(live_name(s, place.0, place.1) == Some(name));
        lemma_removed_names_agree(s, place.0, place.1);
        let cleared = unnamed(slot_cleared(s, place.0, place.1), live_name(s, place.0, place.1));
        let after = cancelled_named(s, origin, name);
        assert(after.lookup == cleared.lookup);
        assert(after.agenda == cleared.agenda);
        assert forall|w: BlockNumber, i: u32| #![trigger live_name(after, w, i)]
            live_name(after, w, i) == live_name(cleared, w, i) by {}
    }
}

/// Rescheduling keeps names and tasks in agreement.
pub proof fn lemma_rescheduled_names_agree(s: SchedulerState, place: TaskAddress, new_time: DispatchTime)
    requires
        names_agree(s),
    ensures
        names_agree(rescheduled(s, place, new_time)),
{
    match reschedule_outcome(s, place, new_time) {
        Ok((at, index)) => {
            let task = slot_at(s, place.0, place.1)->0;
            lemma_removed_names_agree(s, place.0, place.1);
            let cleared = slot_cleared(s, place.0, place.1);
            let freed = unnamed(cleared, task.maybe_id);
            assert(agenda_of(freed, at) == agenda_of(s, at));
            lemma_placed_names_agree(freed, at, task);
            let after = rescheduled(s, place, new_time);
            let moved = placed(freed, at, task);
            assert(placed(cleared, at, task).lookup =~= moved.lookup);
            assert(after.lookup == moved.lookup);
            assert(after.agenda == moved.agenda);
            assert forall|w: BlockNumber, i: u32| #![trigger live_name(after, w, i)]
                live_name(after, w, i) == live_name(moved, w, i) by {}
        },
        Err(_) => {},
    }
}

/// Rescheduling by name keeps names and tasks in agreement.
pub proof fn lemma_rescheduled_named_names_agree(s: SchedulerState, name: Seq<u8>, new_time: DispatchTime)
    requires
        names_agree(s),
    ensures
        names_agree(rescheduled_named(s, name, new_time)),
{
    if reschedule_named_outcome(s, name, new_time) is Ok {
        lemma_rescheduled_names_agree(s, s.lookup[name], new_time);
    }
}

} // verus!
