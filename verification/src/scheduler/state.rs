//! The scheduler's state, its mathematical model and the steps that every operation is
//! made of.

use crate::scheduler::agenda::{agenda_at, AgendaStore};
use crate::scheduler::names::NameIndex;
use crate::scheduler::types::{
    slot_view, slots_view, BlockNumber, MaybeHashed, Scheduled, SchedulerConfig, SchedulerEffect,
    Task, TaskAddress,
};
use vstd::prelude::*;

verus! {

/// The mathematical model of the scheduler's state.
pub struct SchedulerState {
    pub config: SchedulerConfig,
    /// The block that the scheduler is in.
    pub now: BlockNumber,
    /// The agendas, by block.
    pub agenda: Map<u128, Seq<Option<Task>>>,
    /// The places of the named tasks, by name.
    pub lookup: Map<Seq<u8>, TaskAddress>,
    /// What the host has yet to take, oldest first.
    pub effects: Seq<SchedulerEffect>,
}

/// The agenda of a block; empty where the block has none.
pub open spec fn agenda_of(s: SchedulerState, when: BlockNumber) -> Seq<Option<Task>> {
    agenda_at(s.agenda, when)
}

/// The task at a place, if there is one.
pub open spec fn slot_at(s: SchedulerState, when: BlockNumber, index: u32) -> Option<Task> {
    let agenda = agenda_of(s, when);
    if index < agenda.len() {
        agenda[index as int]
    } else {
        None
    }
}

/// Whether every slot of an agenda is empty.
pub open spec fn all_holes(agenda: Seq<Option<Task>>) -> bool {
    forall|i: int| 0 <= i < agenda.len() ==> agenda[i] is None
}

/// Whether the agenda of a block has room for one more task.
pub open spec fn can_place(s: SchedulerState, when: BlockNumber) -> bool {
    agenda_of(s, when).len() < s.config.max_scheduled_per_block
}

/// The index without the name, where there is one.
pub open spec fn without_name(
    lookup: Map<Seq<u8>, TaskAddress>,
    name: Option<Seq<u8>>,
) -> Map<Seq<u8>, TaskAddress> {
    match name {
        Some(n) => lookup.remove(n),
        None => lookup,
    }
}

/// The index with the name, where there is one, standing for `place`.
pub open spec fn with_name(
    lookup: Map<Seq<u8>, TaskAddress>,
    name: Option<Seq<u8>>,
    place: TaskAddress,
) -> Map<Seq<u8>, TaskAddress> {
    match name {
        Some(n) => lookup.insert(n, place),
        None => lookup,
    }
}

/// The state after `task` took the next slot of the agenda of `when`; a named task is
/// found there by its name from then on.
pub open spec fn placed(s: SchedulerState, when: BlockNumber, task: Task) -> SchedulerState {
    let agenda = agenda_of(s, when);
    SchedulerState {
        agenda: s.agenda.insert(when as u128, agenda.push(Some(task))),
        lookup: with_name(s.lookup, task.maybe_id, (when, agenda.len() as u32)),
        ..s
    }
}

/// The state after the slot at a place was emptied. The other slots of the agenda keep
/// their places; an agenda that is left without a task is removed as a whole. Where the
/// place holds no task, nothing changes.
pub open spec fn slot_cleared(s: SchedulerState, when: BlockNumber, index: u32) -> SchedulerState {
    if slot_at(s, when, index) is None {
        s
    } else {
        let agenda = agenda_of(s, when).update(index as int, None);
        SchedulerState {
            agenda: if all_holes(agenda) {
                s.agenda.remove(when as u128)
            } else {
                s.agenda.insert(when as u128, agenda)
            },
            ..s
        }
    }
}

/// The state after the name, where there is one, was taken out of the index.
pub open spec fn unnamed(s: SchedulerState, name: Option<Seq<u8>>) -> SchedulerState {
    SchedulerState { lookup: without_name(s.lookup, name), ..s }
}

/// The state with one more effect.
pub open spec fn with_effect(s: SchedulerState, effect: SchedulerEffect) -> SchedulerState {
    SchedulerState { effects: s.effects.push(effect), ..s }
}

/// The state after a call that was held by its hash was let go: the host is told that
/// the call is no longer needed. A call that was given leaves the state as it is.
pub open spec fn released(s: SchedulerState, call: MaybeHashed) -> SchedulerState {
    match call {
        MaybeHashed::Hash(h) => with_effect(s, SchedulerEffect::ReleasePreimage(h)),
        MaybeHashed::Value(_) => s,
    }
}

/// The state after a call by hash was asked to be kept available.
pub open spec fn reserved(s: SchedulerState, call: MaybeHashed) -> SchedulerState {
    match call {
        MaybeHashed::Hash(h) => with_effect(s, SchedulerEffect::ReservePreimage(h)),
        MaybeHashed::Value(_) => s,
    }
}

/// Whether the agendas are in shape: an agenda has at most the configured number of
/// slots, and every agenda that exists holds at least one task.
pub open spec fn agendas_in_shape(s: SchedulerState) -> bool {
    &&& forall|key: u128| #[trigger]
        s.agenda.contains_key(key) ==> s.agenda[key].len() <= s.config.max_scheduled_per_block
    &&& forall|key: u128| #[trigger] s.agenda.contains_key(key) ==> !all_holes(s.agenda[key])
}

/// Placing a task where there is room keeps the agendas in shape.
pub proof fn lemma_placed_in_shape(s: SchedulerState, when: BlockNumber, task: Task)
    requires
        agendas_in_shape(s),
        can_place(s, when),
    ensures
        agendas_in_shape(placed(s, when, task)),
{
    let after = placed(s, when, task);
    let agenda = agenda_of(s, when).push(Some(task));
    assert(agenda[agenda.len() - 1] is Some);
    assert forall|key: u128| #[trigger] after.agenda.contains_key(key) implies !all_holes(
        after.agenda[key],
    ) && after.agenda[key].len() <= after.config.max_scheduled_per_block by {
        if key != when as u128 {
            assert(s.agenda.contains_key(key));
        }
    }
}

/// Emptying a slot keeps the agendas in shape.
pub proof fn lemma_slot_cleared_in_shape(s: SchedulerState, when: BlockNumber, index: u32)
    requires
        agendas_in_shape(s),
    ensures
        agendas_in_shape(slot_cleared(s, when, index)),
{
    let after = slot_cleared(s, when, index);
    assert forall|key: u128| #[trigger] after.agenda.contains_key(key) implies !all_holes(
        after.agenda[key],
    ) && after.agenda[key].len() <= after.config.max_scheduled_per_block by {
        if key != when as u128 {
            assert(s.agenda.contains_key(key));
        } else {
            assert(s.agenda.contains_key(key));
        }
    }
}

/// The name of the task at a place, if a task with a name is there.
pub open spec fn live_name(s: SchedulerState, when: BlockNumber, index: u32) -> Option<Seq<u8>> {
    match slot_at(s, when, index) {
        Some(task) => task.maybe_id,
        None => None,
    }
}

/// Whether names and tasks agree: every name of the index stands for a place that holds
/// a task of that name, and every task with a name is at the place its name stands for.
/// No two tasks carry the same name then.
pub open spec fn names_agree(s: SchedulerState) -> bool {
    &&& forall|n: Seq<u8>| #[trigger]
        s.lookup.contains_key(n) ==> live_name(s, s.lookup[n].0, s.lookup[n].1) == Some(n)
    &&& forall|when: BlockNumber, index: u32|
        (#[trigger] live_name(s, when, index)) is Some ==> s.lookup.contains_key(
            live_name(s, when, index)->0,
        ) && s.lookup[live_name(s, when, index)->0] == (when, index)
}

/// What holds of every state that the scheduler reaches: the agendas are in shape, and
/// names and tasks agree.
pub open spec fn well_formed(s: SchedulerState) -> bool {
    agendas_in_shape(s) && names_agree(s)
}

/// The scheduler.
pub struct Scheduler {
    config: SchedulerConfig,
    now: BlockNumber,
    agenda: AgendaStore,
    lookup: NameIndex,
    effects: Vec<SchedulerEffect>,
}

impl View for Scheduler {
    type V = SchedulerState;

    closed spec fn view(&self) -> SchedulerState {
        SchedulerState {
            config: self.config,
            now: self.now,
            agenda: self.agenda@,
            lookup: self.lookup@,
            effects: self.effects@,
        }
    }
}

impl Scheduler {
    /// A scheduler at block zero with nothing scheduled.
    pub fn new(config: SchedulerConfig) -> (scheduler: Scheduler)
        ensures
            scheduler@ == (SchedulerState {
                config,
                now: 0,
                agenda: Map::empty(),
                lookup: Map::empty(),
                effects: Seq::empty(),
            }),
            well_formed(scheduler@),
    {
        Scheduler {
            config,
            now: 0,
            agenda: AgendaStore::new(),
            lookup: NameIndex::new(),
            effects: Vec::new(),
        }
    }

    /// The configuration.
    pub fn config(&self) -> (config: SchedulerConfig)
        ensures
            config == self@.config,
    {
        self.config
    }

    /// The block that the scheduler is in.
    pub fn now(&self) -> (now: BlockNumber)
        ensures
            now == self@.now,
    {
        self.now
    }

    /// Whether the block has an agenda.
    pub fn has_agenda(&self, when: BlockNumber) -> (b: bool)
        ensures
            b == self@.agenda.contains_key(when as u128),
    {
        self.agenda.contains(when)
    }

    /// How many slots the agenda of the block has.
    pub fn agenda_len(&self, when: BlockNumber) -> (n: usize)
        ensures
            n == agenda_of(self@, when).len(),
    {
        self.agenda.len(when)
    }

    /// A copy of the agenda of the block; empty where the block has none.
    pub fn agenda(&self, when: BlockNumber) -> (agenda: Vec<Option<Scheduled>>)
        ensures
            slots_view(agenda@) == agenda_of(self@, when),
    {
        self.agenda.get(when)
    }

    /// A copy of the task at a place, if there is one.
    pub fn slot(&self, when: BlockNumber, index: u32) -> (task: Option<Scheduled>)
        ensures
            slot_view(task) == slot_at(self@, when, index),
    {
        self.agenda.slot(when, index)
    }

    /// The place that a name stands for, if any.
    pub fn lookup(&self, name: &Vec<u8>) -> (place: Option<TaskAddress>)
        ensures
            place == if self@.lookup.contains_key(name@) {
                Some(self@.lookup[name@])
            } else {
                None
            },
    {
        self.lookup.get(name)
    }

    /// The effects that the host has not taken yet, oldest first.
    pub fn effects(&self) -> (effects: &Vec<SchedulerEffect>)
        ensures
            effects@ == self@.effects,
    {
        &self.effects
    }

    /// Hands the pending effects to the host and leaves none pending.
    pub fn take_effects(&mut self) -> (effects: Vec<SchedulerEffect>)
        ensures
            effects@ == old(self)@.effects,
            final(self)@ == (SchedulerState { effects: Seq::empty(), ..old(self)@ }),
    {
        let mut effects: Vec<SchedulerEffect> = Vec::new();
        std::mem::swap(&mut effects, &mut self.effects);
        effects
    }

    /// Moves the scheduler to block `now`.
    pub(crate) fn set_now(&mut self, now: BlockNumber)
        ensures
            final(self)@ == (SchedulerState { now, ..old(self)@ }),
    {
        self.now = now;
    }

    /// Adds an effect.
    pub(crate) fn emit(&mut self, effect: SchedulerEffect)
        ensures
            final(self)@ == with_effect(old(self)@, effect),
    {
        self.effects.push(effect);
    }

    /// Tells the host, for a call by hash, that the call is no longer needed.
    pub(crate) fn release(&mut self, call: MaybeHashed)
        ensures
            final(self)@ == released(old(self)@, call),
    {
        match call {
            MaybeHashed::Hash(h) => self.emit(SchedulerEffect::ReleasePreimage(h)),
            MaybeHashed::Value(_) => {},
        }
    }

    /// Asks the host, for a call by hash, to keep the call available.
    pub(crate) fn reserve(&mut self, call: MaybeHashed)
        ensures
            final(self)@ == reserved(old(self)@, call),
    {
        match call {
            MaybeHashed::Hash(h) => self.emit(SchedulerEffect::ReservePreimage(h)),
            MaybeHashed::Value(_) => {},
        }
    }

    /// Takes a name, where there is one, out of the index.
    pub(crate) fn forget(&mut self, name: &Option<Vec<u8>>)
        ensures
            final(self)@ == unnamed(old(self)@, crate::scheduler::types::name_view(*name)),
    {
        match name {
            Some(n) => self.lookup.remove(n),
            None => {},
        }
    }

    /// Puts a task into the next slot of the agenda of `when` and returns the slot.
    pub(crate) fn place(&mut self, when: BlockNumber, task: Scheduled) -> (index: u32)
        requires
            can_place(old(self)@, when),
        ensures
            final(self)@ == placed(old(self)@, when, task@),
            index == agenda_of(old(self)@, when).len(),
    {
        let ghost before = self.agenda@;
        let mut agenda = self.agenda.remove(when);
        let ghost held = agenda@;
        let index = agenda.len() as u32;
        match &task.maybe_id {
            Some(n) => self.lookup.insert(n, (when, index)),
            None => {},
        }
        agenda.push(Some(task));
        proof {
            assert(slots_view(agenda@) =~= slots_view(held).push(Some(task@)));
            assert(before.remove(when as u128).insert(when as u128, slots_view(agenda@))
                =~= before.insert(when as u128, slots_view(agenda@)));
        }
        self.agenda.put(when, agenda);
        index
    }

    /// Empties the slot at a place; an agenda left without a task is removed.
    pub(crate) fn clear_slot(&mut self, when: BlockNumber, index: u32)
        ensures
            final(self)@ == slot_cleared(old(self)@, when, index),
    {
        if self.agenda.slot(when, index).is_none() {
            return ;
        }
        let ghost before = self.agenda@;
        let mut agenda = self.agenda.remove(when);
        let ghost held = agenda@;
        agenda.set(index as usize, None);
        proof {
            assert(slots_view(agenda@) =~= slots_view(held).update(index as int, None));
        }
        let mut empty = true;
        let mut i: usize = 0;
        while i < agenda.len()
            invariant
                i <= agenda.len(),
                empty == (forall|j: int| 0 <= j < i ==> slots_view(agenda@)[j] is None),
            decreases agenda.len() - i,
        {
            proof {
                assert(slots_view(agenda@)[i as int] == slot_view(agenda@[i as int]));
            }
            if agenda[i].is_some() {
                empty = false;
            }
            i += 1;
        }
        if !empty {
            proof {
                assert(before.remove(when as u128).insert(when as u128, slots_view(agenda@))
                    =~= before.insert(when as u128, slots_view(agenda@)));
            }
            self.agenda.put(when, agenda);
        }
    }

    /// Takes the whole agenda of a block out of the store.
    pub(crate) fn take_agenda(&mut self, when: BlockNumber) -> (agenda: Vec<Option<Scheduled>>)
        ensures
            slots_view(agenda@) == agenda_of(old(self)@, when),
            final(self)@ == (SchedulerState {
                agenda: old(self)@.agenda.remove(when as u128),
                ..old(self)@
            }),
    {
        self.agenda.remove(when)
    }
}

} // verus!
