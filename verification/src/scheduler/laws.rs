//! What holds of scheduling, cancelling and rescheduling, whatever the state.

use crate::scheduler::ops::{
    cancel_named_outcome, cancel_outcome, cancelled, cancelled_named, resolved_time,
    schedule_outcome, scheduled,
};
use crate::scheduler::state::{agenda_of, all_holes, can_place, slot_at, SchedulerState};
use crate::scheduler::types::{DispatchTime, Error, Origin, Task, TaskAddress};
use vstd::prelude::*;

verus! {

/// Whether the name of a task, if it has one, is free.
pub open spec fn name_is_free(s: SchedulerState, task: Task) -> bool {
    task.maybe_id is Some ==> !s.lookup.contains_key(task.maybe_id->0)
}

/// A task cannot be scheduled at the current block or before it: the attempt fails with
/// `TargetBlockNumberInPast` and changes nothing. A task whose name is in use is left
/// out: it fails for its name.
pub proof fn lemma_schedule_in_past_fails(s: SchedulerState, task: Task, at: u64)
    requires
        name_is_free(s, task),
        at <= s.now,
    ensures
        schedule_outcome(s, task, DispatchTime::At(at)) == Err::<TaskAddress, Error>(
            Error::TargetBlockNumberInPast,
        ),
        scheduled(s, task, DispatchTime::At(at)) == s,
{
}

/// "After zero blocks" means the next block, and a task scheduled so lands there. The
/// last block that a number can name is left out: no block comes after it.
pub proof fn lemma_schedule_after_zero_is_next_block(s: SchedulerState, task: Task)
    requires
        name_is_free(s, task),
        s.now < u64::MAX,
    ensures
        resolved_time(s.now, DispatchTime::After(0)) == s.now + 1,
        can_place(s, (s.now + 1) as u64) ==> schedule_outcome(s, task, DispatchTime::After(0)) == Ok::<
            TaskAddress,
            Error,
        >(((s.now + 1) as u64, agenda_of(s, (s.now + 1) as u64).len() as u32)),
        !can_place(s, (s.now + 1) as u64) ==> schedule_outcome(s, task, DispatchTime::After(0))
            == Err::<TaskAddress, Error>(Error::FailedToSchedule),
{
}

/// A task that was scheduled is found at the place that scheduling returned.
pub proof fn lemma_scheduled_task_is_placed(s: SchedulerState, task: Task, when: DispatchTime)
    requires
        schedule_outcome(s, task, when) is Ok,
    ensures
        ({
            let place = schedule_outcome(s, task, when)->Ok_0;
            &&& place.0 > s.now
            &&& slot_at(scheduled(s, task, when), place.0, place.1) == Some(task)
            &&& task.maybe_id is Some ==> scheduled(s, task, when).lookup.contains_key(
                task.maybe_id->0,
            ) && scheduled(s, task, when).lookup[task.maybe_id->0] == place
        }),
{
}

/// Of two tasks scheduled under one name, one after the other, the second fails with
/// `NameCollision` if the first succeeded.
pub proof fn lemma_named_scheduling_is_injective(
    s: SchedulerState,
    first: Task,
    first_when: DispatchTime,
    second: Task,
    second_when: DispatchTime,
)
    requires
        first.maybe_id is Some,
        second.maybe_id == first.maybe_id,
        schedule_outcome(s, first, first_when) is Ok,
    ensures
        schedule_outcome(scheduled(s, first, first_when), second, second_when) == Err::<
            TaskAddress,
            Error,
        >(Error::NameCollision),
{
}

/// After a task was cancelled its slot is empty and its name is free; the other slots
/// of the agenda are as they were, unless no task is left in the agenda: then the
/// block has no agenda any more.
pub proof fn lemma_cancel_leaves_no_trace(s: SchedulerState, origin: Option<Origin>, place: TaskAddress)
    requires
        cancel_outcome(s, origin, place) is Ok,
    ensures
        ({
            let after = cancelled(s, origin, place);
            let task = slot_at(s, place.0, place.1)->0;
            let rest = agenda_of(s, place.0).update(place.1 as int, None);
            &&& slot_at(after, place.0, place.1) is None
            &&& task.maybe_id is Some ==> !after.lookup.contains_key(task.maybe_id->0)
            &&& all_holes(rest) ==> !after.agenda.contains_key(place.0 as u128)
            &&& !all_holes(rest) ==> after.agenda.contains_key(place.0 as u128) && agenda_of(
                after,
                place.0,
            ) == rest
        }),
{
}

/// After the task of a name was cancelled, the name is free and the slot it stood for
/// is empty; where no task is left in the agenda, the block has no agenda any more.
pub proof fn lemma_cancel_named_leaves_no_trace(s: SchedulerState, origin: Option<Origin>, name: Seq<u8>)
    requires
        cancel_named_outcome(s, origin, name) is Ok,
    ensures
        ({
            let after = cancelled_named(s, origin, name);
            let place = s.lookup[name];
            let rest = agenda_of(s, place.0).update(place.1 as int, None);
            &&& !after.lookup.contains_key(name)
            &&& slot_at(after, place.0, place.1) is None
            &&& slot_at(s, place.0, place.1) is Some && all_holes(rest)
                ==> !after.agenda.contains_key(place.0 as u128)
        }),
{
}

} // verus!
