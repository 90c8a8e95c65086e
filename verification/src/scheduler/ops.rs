//! Scheduling, cancelling and rescheduling tasks.

use crate::scheduler::state::{
    agenda_of, can_place, lemma_placed_in_shape, lemma_slot_cleared_in_shape, placed,
    released, reserved, slot_at, slot_cleared, unnamed, well_formed, with_effect, Scheduler,
    SchedulerState,
};
use crate::scheduler::types::{
    BlockNumber, DispatchTime, Error, MaybeHashed, Origin, Priority, Scheduled,
    SchedulerEffect, Task, TaskAddress,
};
use crate::scheduler::name_laws::{
    lemma_cancelled_named_names_agree, lemma_cancelled_names_agree, lemma_rescheduled_names_agree,
    lemma_scheduled_names_agree,
};
use vstd::prelude::*;

verus! {

/// `x`, held to the range of block numbers.
pub open spec fn saturated_time(x: int) -> BlockNumber {
    if x > u64::MAX {
        u64::MAX
    } else {
        x as u64
    }
}

/// The block that a dispatch time means at block `now`. "After `n`" is `n` blocks after
/// the next block; the sum saturates.
pub open spec fn resolved_time(now: BlockNumber, when: DispatchTime) -> BlockNumber {
    match when {
        DispatchTime::At(x) => x,
        DispatchTime::After(x) => saturated_time(saturated_time(now + x) + 1),
    }
}

/// The period and count with which a task is stored: those asked for where the task
/// is to run more than once and the period is not zero; none otherwise.
pub open spec fn stored_periodic(asked: Option<(BlockNumber, u32)>) -> Option<(BlockNumber, u32)> {
    match asked {
        Some((period, count)) => if count > 1 && period != 0 {
            asked
        } else {
            None
        },
        None => None,
    }
}

/// What scheduling `task` returns: an error where the task's name is in use, where the
/// block is not in the future, or where the block's agenda is full; else the place the
/// task takes.
pub open spec fn schedule_outcome(s: SchedulerState, task: Task, when: DispatchTime) -> Result<
    TaskAddress,
    Error,
> {
    let at = resolved_time(s.now, when);
    if task.maybe_id is Some && s.lookup.contains_key(task.maybe_id->0) {
        Err(Error::NameCollision)
    } else if at <= s.now {
        Err(Error::TargetBlockNumberInPast)
    } else if !can_place(s, at) {
        Err(Error::FailedToSchedule)
    } else {
        Ok((at, agenda_of(s, at).len() as u32))
    }
}

/// The state after scheduling `task`. A failure changes nothing. Otherwise a call by
/// hash is reserved, the task takes the next slot of its block's agenda, and the host
/// is told.
pub open spec fn scheduled(s: SchedulerState, task: Task, when: DispatchTime) -> SchedulerState {
    match schedule_outcome(s, task, when) {
        Err(_) => s,
        Ok((at, index)) => with_effect(
            placed(reserved(s, task.call), at, task),
            SchedulerEffect::Scheduled { when: at, index },
        ),
    }
}

/// What cancelling the task at `place` returns: an error where there is no task, or
/// where `origin` is given and is not the task's.
pub open spec fn cancel_outcome(
    s: SchedulerState,
    origin: Option<Origin>,
    place: TaskAddress,
) -> Result<(), Error> {
    match slot_at(s, place.0, place.1) {
        None => Err(Error::NotFound),
        Some(task) => if origin is Some && origin->0 != task.origin {
            Err(Error::BadOrigin)
        } else {
            Ok(())
        },
    }
}

/// The state after cancelling the task at `place`. A failure changes nothing. Otherwise
/// the slot is emptied, the task's name is free again, a call by hash is released, and
/// the host is told.
pub open spec fn cancelled(
    s: SchedulerState,
    origin: Option<Origin>,
    place: TaskAddress,
) -> SchedulerState {
    if cancel_outcome(s, origin, place) is Err {
        s
    } else {
        let task = slot_at(s, place.0, place.1)->0;
        with_effect(
            released(unnamed(slot_cleared(s, place.0, place.1), task.maybe_id), task.call),
            SchedulerEffect::Canceled { when: place.0, index: place.1 },
        )
    }
}

/// What cancelling the task named `name` returns: an error where the name stands for
/// nothing, or where `origin` is given and is not the task's.
pub open spec fn cancel_named_outcome(
    s: SchedulerState,
    origin: Option<Origin>,
    name: Seq<u8>,
) -> Result<(), Error> {
    if !s.lookup.contains_key(name) {
        Err(Error::NotFound)
    } else {
        match slot_at(s, s.lookup[name].0, s.lookup[name].1) {
            Some(task) => if origin is Some && origin->0 != task.origin {
                Err(Error::BadOrigin)
            } else {
                Ok(())
            },
            None => Ok(()),
        }
    }
}

/// The state after cancelling the task named `name`. A failure changes nothing.
/// Otherwise the name is free again, the slot it stood for is emptied, a call by hash
/// is released, and the host is told.
pub open spec fn cancelled_named(
    s: SchedulerState,
    origin: Option<Origin>,
    name: Seq<u8>,
) -> SchedulerState {
    if cancel_named_outcome(s, origin, name) is Err {
        s
    } else {
        let place = s.lookup[name];
        let call_released = match slot_at(s, place.0, place.1) {
            Some(task) => released(unnamed(slot_cleared(s, place.0, place.1), Some(name)), task.call),
            None => unnamed(s, Some(name)),
        };
        with_effect(call_released, SchedulerEffect::Canceled { when: place.0, index: place.1 })
    }
}

/// What moving the task at `place` to `new_time` returns: an error where the new block
/// is not in the future, where it is the block the task is at, where there is no task,
/// or where the new block's agenda is full; else the task's new place.
pub open spec fn reschedule_outcome(
    s: SchedulerState,
    place: TaskAddress,
    new_time: DispatchTime,
) -> Result<TaskAddress, Error> {
    let at = resolved_time(s.now, new_time);
    if at <= s.now {
        Err(Error::TargetBlockNumberInPast)
    } else if at == place.0 {
        Err(Error::RescheduleNoChange)
    } else if slot_at(s, place.0, place.1) is None {
        Err(Error::NotFound)
    } else if !can_place(s, at) {
        Err(Error::FailedToSchedule)
    } else {
        Ok((at, agenda_of(s, at).len() as u32))
    }
}

/// The state after moving the task at `place` to `new_time`. A failure changes nothing.
/// Otherwise the task leaves its slot and takes the next slot of the new block's
/// agenda, unchanged; its name, if it has one, stands for the new place; and the host
/// is told of both.
pub open spec fn rescheduled(
    s: SchedulerState,
    place: TaskAddress,
    new_time: DispatchTime,
) -> SchedulerState {
    match reschedule_outcome(s, place, new_time) {
        Err(_) => s,
        Ok((at, index)) => {
            let task = slot_at(s, place.0, place.1)->0;
            with_effect(
                with_effect(
                    placed(slot_cleared(s, place.0, place.1), at, task),
                    SchedulerEffect::Canceled { when: place.0, index: place.1 },
                ),
                SchedulerEffect::Scheduled { when: at, index },
            )
        },
    }
}

/// What moving the task named `name` to `new_time` returns: an error where the new
/// block is not in the future or the name stands for nothing; else what moving the task
/// at the name's place returns.
pub open spec fn reschedule_named_outcome(
    s: SchedulerState,
    name: Seq<u8>,
    new_time: DispatchTime,
) -> Result<TaskAddress, Error> {
    if resolved_time(s.now, new_time) <= s.now {
        Err(Error::TargetBlockNumberInPast)
    } else if !s.lookup.contains_key(name) {
        Err(Error::NotFound)
    } else {
        reschedule_outcome(s, s.lookup[name], new_time)
    }
}

/// The state after moving the task named `name` to `new_time`.
pub open spec fn rescheduled_named(
    s: SchedulerState,
    name: Seq<u8>,
    new_time: DispatchTime,
) -> SchedulerState {
    if reschedule_named_outcome(s, name, new_time) is Err {
        s
    } else {
        rescheduled(s, s.lookup[name], new_time)
    }
}

/// Whether an origin may schedule and cancel: the root, and the configured account.
pub open spec fn may_schedule(s: SchedulerState, origin: Origin) -> bool {
    match origin {
        Origin::Root => true,
        Origin::Signed(who) => s.config.allowed_signer == Some(who),
    }
}

/// The period and count with which a task is stored.
fn store_periodic(asked: Option<(BlockNumber, u32)>) -> (stored: Option<(BlockNumber, u32)>)
    ensures
        stored == stored_periodic(asked),
{
    match asked {
        Some((period, count)) => if count > 1 && period != 0 {
            asked
        } else {
            None
        },
        None => None,
    }
}

impl Scheduler {
    /// The block that a dispatch time means now.
    pub fn resolve_time(&self, when: DispatchTime) -> (at: BlockNumber)
        ensures
            at == resolved_time(self@.now, when),
    {
        match when {
            DispatchTime::At(x) => x,
            DispatchTime::After(x) => self.now().saturating_add(x).saturating_add(1),
        }
    }

    /// Schedules a task that is already made up.
    fn schedule_task(&mut self, task: Scheduled, when: DispatchTime) -> (r: Result<TaskAddress, Error>)
        requires
            well_formed(old(self)@),
        ensures
            r == schedule_outcome(old(self)@, task@, when),
            final(self)@ == scheduled(old(self)@, task@, when),
            well_formed(final(self)@),
    {
        proof {
            lemma_scheduled_names_agree(self@, task@, when);
        }
        let taken = match &task.maybe_id {
            Some(n) => self.lookup(n).is_some(),
            None => false,
        };
        if taken {
            return Err(Error::NameCollision);
        }
        let at = self.resolve_time(when);
        if at <= self.now() {
            return Err(Error::TargetBlockNumberInPast);
        }
        if self.agenda_len(at) >= self.config().max_scheduled_per_block as usize {
            return Err(Error::FailedToSchedule);
        }
        self.reserve(task.call);
        proof {
            lemma_placed_in_shape(self@, at, task@);
        }
        let index = self.place(at, task);
        self.emit(SchedulerEffect::Scheduled { when: at, index });
        Ok((at, index))
    }

    /// Schedules an anonymous task and returns its place.
    ///
    /// Fails with `TargetBlockNumberInPast` where the block is not after the current
    /// one, and with `FailedToSchedule` where the block's agenda is full. A failure
    /// changes nothing.
    pub fn do_schedule(
        &mut self,
        when: DispatchTime,
        maybe_periodic: Option<(BlockNumber, u32)>,
        priority: Priority,
        origin: Origin,
        call: MaybeHashed,
    ) -> (r: Result<TaskAddress, Error>)
        requires
            well_formed(old(self)@),
        ensures
            r == schedule_outcome(
                old(self)@,
                Task {
                    maybe_id: None,
                    priority,
                    call,
                    maybe_periodic: stored_periodic(maybe_periodic),
                    origin,
                },
                when,
            ),
            final(self)@ == scheduled(
                old(self)@,
                Task {
                    maybe_id: None,
                    priority,
                    call,
                    maybe_periodic: stored_periodic(maybe_periodic),
                    origin,
                },
                when,
            ),
            well_formed(final(self)@),
    {
        let task = Scheduled {
            maybe_id: None,
            priority,
            call,
            maybe_periodic: store_periodic(maybe_periodic),
            origin,
        };
        self.schedule_task(task, when)
    }

    /// Schedules a task under a name and returns its place.
    ///
    /// Fails with `NameCollision` where a task of that name is waiting, and as
    /// [`Scheduler::do_schedule`] does. A failure changes nothing.
    pub fn do_schedule_named(
        &mut self,
        id: Vec<u8>,
        when: DispatchTime,
        maybe_periodic: Option<(BlockNumber, u32)>,
        priority: Priority,
        origin: Origin,
        call: MaybeHashed,
    ) -> (r: Result<TaskAddress, Error>)
        requires
            well_formed(old(self)@),
        ensures
            r == schedule_outcome(
                old(self)@,
                Task {
                    maybe_id: Some(id@),
                    priority,
                    call,
                    maybe_periodic: stored_periodic(maybe_periodic),
                    origin,
                },
                when,
            ),
            final(self)@ == scheduled(
                old(self)@,
                Task {
                    maybe_id: Some(id@),
                    priority,
                    call,
                    maybe_periodic: stored_periodic(maybe_periodic),
                    origin,
                },
                when,
            ),
            well_formed(final(self)@),
    {
        let task = Scheduled {
            maybe_id: Some(id),
            priority,
            call,
            maybe_periodic: store_periodic(maybe_periodic),
            origin,
        };
        self.schedule_task(task, when)
    }

    /// Cancels the task at a place. Where `origin` is given, it must be the task's.
    ///
    /// Fails with `NotFound` where the place holds no task and with `BadOrigin` where
    /// the origin is another. A failure changes nothing.
    pub fn do_cancel(&mut self, origin: Option<Origin>, place: TaskAddress) -> (r: Result<(), Error>)
        requires
            well_formed(old(self)@),
        ensures
            r == cancel_outcome(old(self)@, origin, place),
            final(self)@ == cancelled(old(self)@, origin, place),
            well_formed(final(self)@),
    {
        proof {
            lemma_cancelled_names_agree(self@, origin, place);
        }
        let task = match self.slot(place.0, place.1) {
            Some(t) => t,
            None => {
                return Err(Error::NotFound);
            },
        };
        match origin {
            Some(o) => {
                if o != task.origin {
                    return Err(Error::BadOrigin);
                }
            },
            None => {},
        }
        proof {
            lemma_slot_cleared_in_shape(self@, place.0, place.1);
        }
        self.clear_slot(place.0, place.1);
        self.forget(&task.maybe_id);
        self.release(task.call);
        self.emit(SchedulerEffect::Canceled { when: place.0, index: place.1 });
        Ok(())
    }

    /// Cancels the task of a name. Where `origin` is given, it must be the task's.
    ///
    /// Fails with `NotFound` where the name stands for nothing and with `BadOrigin`
    /// where the origin is another. A failure changes nothing.
    pub fn do_cancel_named(&mut self, origin: Option<Origin>, id: Vec<u8>) -> (r: Result<(), Error>)
        requires
            well_formed(old(self)@),
        ensures
            r == cancel_named_outcome(old(self)@, origin, id@),
            final(self)@ == cancelled_named(old(self)@, origin, id@),
            well_formed(final(self)@),
    {
        proof {
            lemma_cancelled_named_names_agree(self@, origin, id@);
        }
        let place = match self.lookup(&id) {
            Some(p) => p,
            None => {
                return Err(Error::NotFound);
            },
        };
        match self.slot(place.0, place.1) {
            Some(task) => {
                match origin {
                    Some(o) => {
                        if o != task.origin {
                            return Err(Error::BadOrigin);
                        }
                    },
                    None => {},
                }
                proof {
                    lemma_slot_cleared_in_shape(self@, place.0, place.1);
                }
                self.clear_slot(place.0, place.1);
                self.forget(&Some(id));
                self.release(task.call);
            },
            None => {
                self.forget(&Some(id));
            },
        }
        self.emit(SchedulerEffect::Canceled { when: place.0, index: place.1 });
        Ok(())
    }

    /// Moves the task at a place to another block and returns its new place.
    ///
    /// Fails with `TargetBlockNumberInPast` where the new block is not after the
    /// current one, with `RescheduleNoChange` where it is the task's block, with
    /// `NotFound` where the place holds no task, and with `FailedToSchedule` where the
    /// new block's agenda is full. A failure changes nothing.
    pub fn do_reschedule(&mut self, place: TaskAddress, new_time: DispatchTime) -> (r: Result<
        TaskAddress,
        Error,
    >)
        requires
            well_formed(old(self)@),
        ensures
            r == reschedule_outcome(old(self)@, place, new_time),
            final(self)@ == rescheduled(old(self)@, place, new_time),
            well_formed(final(self)@),
    {
        proof {
            lemma_rescheduled_names_agree(self@, place, new_time);
        }
        let at = self.resolve_time(new_time);
        if at <= self.now() {
            return Err(Error::TargetBlockNumberInPast);
        }
        if at == place.0 {
            return Err(Error::RescheduleNoChange);
        }
        let task = match self.slot(place.0, place.1) {
            Some(t) => t,
            None => {
                return Err(Error::NotFound);
            },
        };
        if self.agenda_len(at) >= self.config().max_scheduled_per_block as usize {
            return Err(Error::FailedToSchedule);
        }
        proof {
            lemma_slot_cleared_in_shape(self@, place.0, place.1);
            lemma_placed_in_shape(slot_cleared(self@, place.0, place.1), at, task@);
        }
        self.clear_slot(place.0, place.1);
        let index = self.place(at, task);
        self.emit(SchedulerEffect::Canceled { when: place.0, index: place.1 });
        self.emit(SchedulerEffect::Scheduled { when: at, index });
        Ok((at, index))
    }

    /// Moves the task of a name to another block and returns its new place.
    ///
    /// Fails with `NotFound` where the name stands for nothing, and as
    /// [`Scheduler::do_reschedule`] does. A failure changes nothing.
    pub fn do_reschedule_named(&mut self, id: Vec<u8>, new_time: DispatchTime) -> (r: Result<
        TaskAddress,
        Error,
    >)
        requires
            well_formed(old(self)@),
        ensures
            r == reschedule_named_outcome(old(self)@, id@, new_time),
            final(self)@ == rescheduled_named(old(self)@, id@, new_time),
            well_formed(final(self)@),
    {
        let at = self.resolve_time(new_time);
        if at <= self.now() {
            return Err(Error::TargetBlockNumberInPast);
        }
        match self.lookup(&id) {
            Some(place) => self.do_reschedule(place, new_time),
            None => Err(Error::NotFound),
        }
    }

    /// Whether an origin may schedule and cancel.
    pub fn ensure_origin(&self, origin: Origin) -> (allowed: bool)
        ensures
            allowed == may_schedule(self@, origin),
    {
        match origin {
            Origin::Root => true,
            Origin::Signed(who) => match self.config().allowed_signer {
                Some(a) => a == who,
                None => false,
            },
        }
    }

    /// Schedules an anonymous task at block `when`, for `origin`.
    ///
    /// Fails with `BadOrigin` where the origin may not schedule, and as
    /// [`Scheduler::do_schedule`] does. A failure changes nothing.
    pub fn schedule(
        &mut self,
        origin: Origin,
        when: BlockNumber,
        maybe_periodic: Option<(BlockNumber, u32)>,
        priority: Priority,
        call: MaybeHashed,
    ) -> (r: Result<(), Error>)
        requires
            well_formed(old(self)@),
        ensures
            well_formed(final(self)@),
            !may_schedule(old(self)@, origin) ==> r == Err::<(), Error>(Error::BadOrigin)
                && final(self)@ == old(self)@,
            may_schedule(old(self)@, origin) ==> {
                let task = Task {
                    maybe_id: None,
                    priority,
                    call,
                    maybe_periodic: stored_periodic(maybe_periodic),
                    origin,
                };
                &&& final(self)@ == scheduled(old(self)@, task, DispatchTime::At(when))
                &&& r == match schedule_outcome(old(self)@, task, DispatchTime::At(when)) {
                    Ok(_) => Ok::<(), Error>(()),
                    Err(e) => Err(e),
                }
            },
    {
        if !self.ensure_origin(origin) {
            return Err(Error::BadOrigin);
        }
        match self.do_schedule(DispatchTime::At(when), maybe_periodic, priority, origin, call) {
            Ok(_) => Ok(()),
            Err(e) => Err(e),
        }
    }

    /// Schedules an anonymous task `after` blocks after the next block, for `origin`.
    pub fn schedule_after(
        &mut self,
        origin: Origin,
        after: BlockNumber,
        maybe_periodic: Option<(BlockNumber, u32)>,
        priority: Priority,
        call: MaybeHashed,
    ) -> (r: Result<(), Error>)
        requires
            well_formed(old(self)@),
        ensures
            well_formed(final(self)@),
            !may_schedule(old(self)@, origin) ==> r == Err::<(), Error>(Error::BadOrigin)
                && final(self)@ == old(self)@,
            may_schedule(old(self)@, origin) ==> {
                let task = Task {
                    maybe_id: None,
                    priority,
                    call,
                    maybe_periodic: stored_periodic(maybe_periodic),
                    origin,
                };
                &&& final(self)@ == scheduled(old(self)@, task, DispatchTime::After(after))
                &&& r == match schedule_outcome(old(self)@, task, DispatchTime::After(after)) {
                    Ok(_) => Ok::<(), Error>(()),
                    Err(e) => Err(e),
                }
            },
    {
        if !self.ensure_origin(origin) {
            return Err(Error::BadOrigin);
        }
        match self.do_schedule(DispatchTime::After(after), maybe_periodic, priority, origin, call) {
            Ok(_) => Ok(()),
            Err(e) => Err(e),
        }
    }

    /// Schedules a task under a name at block `when`, for `origin`.
    ///
    /// Fails with `BadOrigin` where the origin may not schedule, and as
    /// [`Scheduler::do_schedule_named`] does. A failure changes nothing.
    pub fn schedule_named(
        &mut self,
        origin: Origin,
        id: Vec<u8>,
        when: BlockNumber,
        maybe_periodic: Option<(BlockNumber, u32)>,
        priority: Priority,
        call: MaybeHashed,
    ) -> (r: Result<(), Error>)
        requires
            well_formed(old(self)@),
        ensures
            well_formed(final(self)@),
            !may_schedule(old(self)@, origin) ==> r == Err::<(), Error>(Error::BadOrigin)
                && final(self)@ == old(self)@,
            may_schedule(old(self)@, origin) ==> {
                let task = Task {
                    maybe_id: Some(id@),
                    priority,
                    call,
                    maybe_periodic: stored_periodic(maybe_periodic),
                    origin,
                };
                &&& final(self)@ == scheduled(old(self)@, task, DispatchTime::At(when))
                &&& r == match schedule_outcome(old(self)@, task, DispatchTime::At(when)) {
                    Ok(_) => Ok::<(), Error>(()),
                    Err(e) => Err(e),
                }
            },
    {
        if !self.ensure_origin(origin) {
            return Err(Error::BadOrigin);
        }
        match self.do_schedule_named(id, DispatchTime::At(when), maybe_periodic, priority, origin, call) {
            Ok(_) => Ok(()),
            Err(e) => Err(e),
        }
    }

    /// Cancels the task at a place, for `origin`, which must be the task's own.
    ///
    /// Fails with `BadOrigin` where the origin may not schedule, and as
    /// [`Scheduler::do_cancel`] does. A failure changes nothing.
    pub fn cancel(&mut self, origin: Origin, when: BlockNumber, index: u32) -> (r: Result<(), Error>)
        requires
            well_formed(old(self)@),
        ensures
            well_formed(final(self)@),
            !may_schedule(old(self)@, origin) ==> r == Err::<(), Error>(Error::BadOrigin)
                && final(self)@ == old(self)@,
            may_schedule(old(self)@, origin) ==> r == cancel_outcome(
                old(self)@,
                Some(origin),
                (when, index),
            ) && final(self)@ == cancelled(old(self)@, Some(origin), (when, index)),
    {
        if !self.ensure_origin(origin) {
            return Err(Error::BadOrigin);
        }
        self.do_cancel(Some(origin), (when, index))
    }

    /// Cancels the task of a name, for `origin`, which must be the task's own.
    ///
    /// Fails with `BadOrigin` where the origin may not schedule, and as
    /// [`Scheduler::do_cancel_named`] does. A failure changes nothing.
    pub fn cancel_named(&mut self, origin: Origin, id: Vec<u8>) -> (r: Result<(), Error>)
        requires
            well_formed(old(self)@),
        ensures
            well_formed(final(self)@),
            !may_schedule(old(self)@, origin) ==> r == Err::<(), Error>(Error::BadOrigin)
                && final(self)@ == old(self)@,
            may_schedule(old(self)@, origin) ==> r == cancel_named_outcome(
                old(self)@,
                Some(origin),
                id@,
            ) && final(self)@ == cancelled_named(old(self)@, Some(origin), id@),
    {
        if !self.ensure_origin(origin) {
            return Err(Error::BadOrigin);
        }
        self.do_cancel_named(Some(origin), id)
    }
}

} // verus!
