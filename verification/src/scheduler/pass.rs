//! The pass over the agenda of a block: every task of the agenda is executed, moved to
//! a later block or given up, and the agenda is gone.

use crate::scheduler::ops::saturated_time;
use crate::scheduler::pass_names::lemma_initialized_names_agree;
use crate::scheduler::state::{
    agenda_of, agendas_in_shape, can_place, lemma_placed_in_shape, placed, released, unnamed,
    well_formed, with_effect, Scheduler, SchedulerState,
};
use crate::scheduler::types::{
    slot_view, slots_view, BlockNumber, Call, MaybeHashed, Preimages, Scheduled, SchedulerConfig,
    SchedulerEffect, Task, Turn,
};
use crate::sorting::{sort_by_rank, sorted_by_rank};
use crate::store::copy_vec;
use crate::weight::{weight_sum, Weight, WeightMeter};
use vstd::prelude::*;

verus! {

/// How far a pass has come: the state, the weight used, and whether a task has already
/// been held back for its weight.
pub struct Pass {
    pub s: SchedulerState,
    pub meter: WeightMeter,
    pub starved: bool,
}

/// Whether the call of a task can be had: it is given, or its hash is known.
pub open spec fn is_resolvable(task: Task, known: Map<u128, Call>) -> bool {
    match task.call {
        MaybeHashed::Value(_) => true,
        MaybeHashed::Hash(h) => known.contains_key(h as u128),
    }
}

/// The call of a task whose call can be had.
pub open spec fn resolved_call(task: Task, known: Map<u128, Call>) -> Call {
    match task.call {
        MaybeHashed::Value(c) => c,
        MaybeHashed::Hash(h) => known[h as u128],
    }
}

/// Whether a task must run at its block whatever it weighs.
pub open spec fn is_hard(config: SchedulerConfig, task: Task) -> bool {
    task.priority < config.hard_deadline_threshold
}

/// The state after a task was given up at block `now`: a call by hash is released and
/// the host is told that the task starved.
pub open spec fn given_up(s: SchedulerState, now: BlockNumber, index: u32, task: Task) -> SchedulerState {
    with_effect(released(s, task.call), SchedulerEffect::Starved { when: now, index })
}

/// The state after a task was moved to the block `target`: it takes the next slot
/// there, or is given up where that agenda is full.
pub open spec fn moved(
    s: SchedulerState,
    now: BlockNumber,
    index: u32,
    task: Task,
    target: BlockNumber,
) -> SchedulerState {
    if can_place(s, target) {
        placed(s, target, task)
    } else {
        given_up(s, now, index, task)
    }
}

/// What a task weighs in a pass: its call and the overhead of one item.
pub open spec fn task_cost(config: SchedulerConfig, call: Call) -> Weight {
    weight_sum(call.weight, config.item_weight)
}

/// Whether a task whose turn has come runs: it has a hard deadline, or no task was held
/// back before it and its cost fits in what is left of the block's weight.
pub open spec fn runs(p: Pass, task: Task, call: Call) -> bool {
    is_hard(p.s.config, task) || (!p.starved && p.meter.spec_can_consume(
        task_cost(p.s.config, call),
    ))
}

/// The pass after the turn of the task from slot `index`, whose call is `call`.
///
/// The task's name leaves the index and its hash, if it was held by hash, is released.
/// A task that runs is handed to the host and its cost is charged; if it is periodic
/// with more than one execution left, it moves on by its period with one execution
/// less. A task that does not run moves to the next block, and no task without a hard
/// deadline runs after it in this pass.
pub open spec fn executed(p: Pass, now: BlockNumber, index: u32, task: Task, call: Call) -> Pass {
    let ready = Task { call: MaybeHashed::Value(call), ..task };
    let s1 = released(unnamed(p.s, task.maybe_id), task.call);
    if runs(p, task, call) {
        let s2 = with_effect(
            s1,
            SchedulerEffect::Execute { when: now, index, origin: task.origin, call },
        );
        let s3 = match task.maybe_periodic {
            Some((period, left)) => if left > 1 {
                moved(
                    s2,
                    now,
                    index,
                    Task { maybe_periodic: Some((period, (left - 1) as u32)), ..ready },
                    saturated_time(now + period),
                )
            } else {
                s2
            },
            None => s2,
        };
        Pass { s: s3, meter: p.meter.charged(task_cost(p.s.config, call)), starved: p.starved }
    } else {
        Pass { s: moved(s1, now, index, ready, saturated_time(now + 1)), meter: p.meter, starved: true }
    }
}

/// The state after a task whose call cannot be had was dealt with: its name leaves the
/// index, and it moves on by the configured delay, or is given up where no delay is
/// configured.
pub open spec fn deferred(s: SchedulerState, now: BlockNumber, index: u32, task: Task) -> SchedulerState {
    let s1 = unnamed(s, task.maybe_id);
    match s.config.no_preimage_postponement {
        Some(delay) => moved(s1, now, index, task, saturated_time(now + delay)),
        None => given_up(s1, now, index, task),
    }
}

/// The turns of the tasks among the first `k` slots whose call can be had, in the order
/// of their slots.
pub open spec fn turns(agenda: Seq<Option<Task>>, known: Map<u128, Call>, k: int) -> Seq<Turn>
    decreases k,
{
    if k <= 0 {
        Seq::empty()
    } else {
        let before = turns(agenda, known, k - 1);
        match agenda[k - 1] {
            Some(task) => if is_resolvable(task, known) {
                before.push(Turn { priority: task.priority, index: (k - 1) as u32 })
            } else {
                before
            },
            None => before,
        }
    }
}

/// The pass after the first `k` turns of `order` were taken. A turn that names no task
/// whose call can be had is passed over.
pub open spec fn run_turns(
    start: Pass,
    now: BlockNumber,
    known: Map<u128, Call>,
    agenda: Seq<Option<Task>>,
    order: Seq<Turn>,
    k: int,
) -> Pass
    decreases k,
{
    if k <= 0 {
        start
    } else {
        let p = run_turns(start, now, known, agenda, order, k - 1);
        let index = order[k - 1].index;
        if index < agenda.len() {
            match agenda[index as int] {
                Some(task) => if is_resolvable(task, known) {
                    executed(p, now, index, task, resolved_call(task, known))
                } else {
                    p
                },
                None => p,
            }
        } else {
            p
        }
    }
}

/// The state after the tasks among the first `k` slots whose call cannot be had were
/// dealt with, in the order of their slots.
pub open spec fn run_pending(
    start: SchedulerState,
    now: BlockNumber,
    known: Map<u128, Call>,
    agenda: Seq<Option<Task>>,
    k: int,
) -> SchedulerState
    decreases k,
{
    if k <= 0 {
        start
    } else {
        let s = run_pending(start, now, known, agenda, k - 1);
        match agenda[k - 1] {
            Some(task) => if is_resolvable(task, known) {
                s
            } else {
                deferred(s, now, (k - 1) as u32, task)
            },
            None => s,
        }
    }
}

/// The pass at its start: the scheduler is at block `now`, the agenda of the block is
/// taken out, and the weight of an empty pass is charged.
pub open spec fn pass_start(s: SchedulerState, now: BlockNumber) -> Pass {
    Pass {
        s: SchedulerState { now, agenda: s.agenda.remove(now as u128), ..s },
        meter: WeightMeter {
            consumed: weight_sum(Weight { ref_time: 0, proof_size: 0 }, s.config.base_weight),
            limit: s.config.maximum_weight,
        },
        starved: false,
    }
}

/// The order in which the tasks whose call can be had take their turn: by priority,
/// the lower number first, and by slot among equals.
pub open spec fn pass_order(s: SchedulerState, now: BlockNumber, known: Map<u128, Call>) -> Seq<Turn> {
    sorted_by_rank(turns(agenda_of(s, now), known, agenda_of(s, now).len() as int))
}

/// The pass after every task whose call can be had took its turn.
pub open spec fn pass_end(s: SchedulerState, now: BlockNumber, known: Map<u128, Call>) -> Pass {
    run_turns(
        pass_start(s, now),
        now,
        known,
        agenda_of(s, now),
        pass_order(s, now, known),
        pass_order(s, now, known).len() as int,
    )
}

/// The state after the pass over the agenda of block `now`.
pub open spec fn initialized(s: SchedulerState, now: BlockNumber, known: Map<u128, Call>) -> SchedulerState {
    run_pending(
        pass_end(s, now, known).s,
        now,
        known,
        agenda_of(s, now),
        agenda_of(s, now).len() as int,
    )
}

/// The weight that the pass over the agenda of block `now` uses.
pub open spec fn pass_weight(s: SchedulerState, now: BlockNumber, known: Map<u128, Call>) -> Weight {
    pass_end(s, now, known).meter.consumed
}

/// Moving a task keeps the agendas in shape.
pub proof fn lemma_moved_in_shape(
    s: SchedulerState,
    now: BlockNumber,
    index: u32,
    task: Task,
    target: BlockNumber,
)
    requires
        agendas_in_shape(s),
    ensures
        agendas_in_shape(moved(s, now, index, task, target)),
        moved(s, now, index, task, target).config == s.config,
{
    if can_place(s, target) {
        lemma_placed_in_shape(s, target, task);
    }
}

/// A turn keeps the agendas in shape.
pub proof fn lemma_executed_in_shape(p: Pass, now: BlockNumber, index: u32, task: Task, call: Call)
    requires
        agendas_in_shape(p.s),
    ensures
        agendas_in_shape(executed(p, now, index, task, call).s),
        executed(p, now, index, task, call).s.config == p.s.config,
{
    let ready = Task { call: MaybeHashed::Value(call), ..task };
    let s1 = released(unnamed(p.s, task.maybe_id), task.call);
    if runs(p, task, call) {
        let s2 = with_effect(
            s1,
            SchedulerEffect::Execute { when: now, index, origin: task.origin, call },
        );
        match task.maybe_periodic {
            Some((period, left)) => {
                if left > 1 {
                    lemma_moved_in_shape(
                        s2,
                        now,
                        index,
                        Task { maybe_periodic: Some((period, (left - 1) as u32)), ..ready },
                        saturated_time(now + period),
                    );
                }
            },
            None => {},
        }
    } else {
        lemma_moved_in_shape(s1, now, index, ready, saturated_time(now + 1));
    }
}

/// Taking turns keeps the agendas in shape.
pub proof fn lemma_run_turns_in_shape(
    start: Pass,
    now: BlockNumber,
    known: Map<u128, Call>,
    agenda: Seq<Option<Task>>,
    order: Seq<Turn>,
    k: int,
)
    requires
        agendas_in_shape(start.s),
    ensures
        agendas_in_shape(run_turns(start, now, known, agenda, order, k).s),
        run_turns(start, now, known, agenda, order, k).s.config == start.s.config,
    decreases k,
{
    if k > 0 {
        lemma_run_turns_in_shape(start, now, known, agenda, order, k - 1);
        let p = run_turns(start, now, known, agenda, order, k - 1);
        let index = order[k - 1].index;
        if index < agenda.len() {
            match agenda[index as int] {
                Some(task) => {
                    lemma_executed_in_shape(p, now, index, task, resolved_call(task, known));
                },
                None => {},
            }
        }
    }
}

/// Dealing with the tasks whose call cannot be had keeps the agendas in shape.
pub proof fn lemma_run_pending_in_shape(
    start: SchedulerState,
    now: BlockNumber,
    known: Map<u128, Call>,
    agenda: Seq<Option<Task>>,
    k: int,
)
    requires
        agendas_in_shape(start),
    ensures
        agendas_in_shape(run_pending(start, now, known, agenda, k)),
        run_pending(start, now, known, agenda, k).config == start.config,
    decreases k,
{
    if k > 0 {
        lemma_run_pending_in_shape(start, now, known, agenda, k - 1);
        let s = run_pending(start, now, known, agenda, k - 1);
        match agenda[k - 1] {
            Some(task) => {
                let s1 = unnamed(s, task.maybe_id);
                match s.config.no_preimage_postponement {
                    Some(delay) => {
                        lemma_moved_in_shape(
                            s1,
                            now,
                            (k - 1) as u32,
                            task,
                            saturated_time(now + delay),
                        );
                    },
                    None => {},
                }
            },
            None => {},
        }
    }
}

/// A pass keeps the agendas in shape.
pub proof fn lemma_initialized_in_shape(s: SchedulerState, now: BlockNumber, known: Map<u128, Call>)
    requires
        agendas_in_shape(s),
    ensures
        agendas_in_shape(initialized(s, now, known)),
        initialized(s, now, known).config == s.config,
{
    let start = pass_start(s, now);
    assert(agendas_in_shape(start.s)) by {
        assert forall|key: u128| #[trigger] start.s.agenda.contains_key(key) implies s.agenda.contains_key(
            key,
        ) && start.s.agenda[key] == s.agenda[key] by {}
    }
    let order = pass_order(s, now, known);
    lemma_run_turns_in_shape(start, now, known, agenda_of(s, now), order, order.len() as int);
    lemma_run_pending_in_shape(
        pass_end(s, now, known).s,
        now,
        known,
        agenda_of(s, now),
        agenda_of(s, now).len() as int,
    );
}

impl Scheduler {
    /// Moves a task to the block `target`, or gives it up where that agenda is full.
    fn move_task(&mut self, now: BlockNumber, index: u32, task: Scheduled, target: BlockNumber)
        ensures
            final(self)@ == moved(old(self)@, now, index, task@, target),
    {
        if self.agenda_len(target) < self.config().max_scheduled_per_block as usize {
            let _ = self.place(target, task);
        } else {
            self.release(task.call);
            self.emit(SchedulerEffect::Starved { when: now, index });
        }
    }

    /// Takes the turn of the task from slot `index`, whose call is `call`.
    fn run_task(
        &mut self,
        meter: &mut WeightMeter,
        starved: &mut bool,
        now: BlockNumber,
        index: u32,
        task: &Scheduled,
        call: Call,
    )
        ensures
            (Pass { s: final(self)@, meter: *final(meter), starved: *final(starved) }) == executed(
                Pass { s: old(self)@, meter: *old(meter), starved: *old(starved) },
                now,
                index,
                task@,
                call,
            ),
    {
        let config = self.config();
        self.forget(&task.maybe_id);
        self.release(task.call);
        let cost = call.weight.saturating_add(config.item_weight);
        let run = if task.priority < config.hard_deadline_threshold {
            meter.overdraw(cost);
            true
        } else if !*starved {
            meter.consume(cost)
        } else {
            false
        };
        if run {
            self.emit(SchedulerEffect::Execute { when: now, index, origin: task.origin, call });
            match task.maybe_periodic {
                Some((period, left)) => {
                    if left > 1 {
                        let again = Scheduled {
                            maybe_id: match &task.maybe_id {
                                Some(n) => Some(copy_vec(n)),
                                None => None,
                            },
                            priority: task.priority,
                            call: MaybeHashed::Value(call),
                            maybe_periodic: Some((period, left - 1)),
                            origin: task.origin,
                        };
                        self.move_task(now, index, again, now.saturating_add(period));
                    }
                },
                None => {},
            }
        } else {
            *starved = true;
            let ready = Scheduled {
                maybe_id: match &task.maybe_id {
                    Some(n) => Some(copy_vec(n)),
                    None => None,
                },
                priority: task.priority,
                call: MaybeHashed::Value(call),
                maybe_periodic: task.maybe_periodic,
                origin: task.origin,
            };
            self.move_task(now, index, ready, now.saturating_add(1));
        }
    }

    /// Deals with a task whose call cannot be had.
    fn defer_task(&mut self, now: BlockNumber, index: u32, task: &Scheduled)
        ensures
            final(self)@ == deferred(old(self)@, now, index, task@),
    {
        self.forget(&task.maybe_id);
        match self.config().no_preimage_postponement {
            Some(delay) => {
                self.move_task(now, index, task.duplicate(), now.saturating_add(delay));
            },
            None => {
                self.release(task.call);
                self.emit(SchedulerEffect::Starved { when: now, index });
            },
        }
    }

    /// The pass over the agenda of block `now`, with the calls in `preimages` known by
    /// their hash. Returns the weight used.
    ///
    /// The tasks whose call can be had take their turn by priority, the lower number
    /// first, and by slot among equals. A task with a hard deadline runs whatever it
    /// weighs. Another task runs if its call and the overhead of an item fit in what is
    /// left of the block's weight; the first that does not fit, and every such task
    /// after it, moves to the next block. A periodic task that ran moves on by its
    /// period until its executions are used up. Then the tasks whose call cannot be
    /// had move on by the configured delay. A task that must move to an agenda that
    /// is full is given up, and the host is told that it starved.
    pub fn on_initialize(&mut self, now: BlockNumber, preimages: &Preimages) -> (used: Weight)
        requires
            well_formed(old(self)@),
        ensures
            final(self)@ == initialized(old(self)@, now, preimages@),
            used == pass_weight(old(self)@, now, preimages@),
            well_formed(final(self)@),
    {
        proof {
            lemma_initialized_in_shape(self@, now, preimages@);
            lemma_initialized_names_agree(self@, now, preimages@);
        }
        let ghost known = preimages@;
        let ghost slots = agenda_of(self@, now);
        let config = self.config();
        let agenda = self.take_agenda(now);
        self.set_now(now);
        let mut meter = WeightMeter::with_limit(config.maximum_weight);
        meter.overdraw(config.base_weight);
        let mut starved = false;
        let ghost start = Pass { s: self@, meter, starved };

        let mut order: Vec<Turn> = Vec::new();
        let mut k: usize = 0;
        while k < agenda.len()
            invariant
                k <= agenda.len(),
                agenda.len() <= u32::MAX,
                slots == slots_view(agenda@),
                known == preimages@,
                order@ == turns(slots, known, k as int),
            decreases agenda.len() - k,
        {
            proof {
                assert(slots[k as int] == slot_view(agenda@[k as int]));
            }
            match &agenda[k] {
                Some(task) => {
                    let ready = match task.call {
                        MaybeHashed::Value(_) => true,
                        MaybeHashed::Hash(h) => preimages.resolve(h).is_some(),
                    };
                    if ready {
                        order.push(Turn { priority: task.priority, index: k as u32 });
                    }
                },
                None => {},
            }
            k += 1;
        }
        let order = sort_by_rank(&order);

        let mut t: usize = 0;
        while t < order.len()
            invariant
                t <= order.len(),
                slots == slots_view(agenda@),
                known == preimages@,
                (Pass { s: self@, meter, starved }) == run_turns(
                    start,
                    now,
                    known,
                    slots,
                    order@,
                    t as int,
                ),
            decreases order.len() - t,
        {
            let index = order[t].index;
            if (index as usize) < agenda.len() {
                proof {
                    assert(slots[index as int] == slot_view(agenda@[index as int]));
                }
                match &agenda[index as usize] {
                    Some(task) => {
                        let call = match task.call {
                            MaybeHashed::Value(c) => Some(c),
                            MaybeHashed::Hash(h) => preimages.resolve(h),
                        };
                        match call {
                            Some(c) => {
                                self.run_task(&mut meter, &mut starved, now, index, task, c);
                            },
                            None => {},
                        }
                    },
                    None => {},
                }
            }
            t += 1;
        }

        let ghost turned = self@;
        let mut k: usize = 0;
        while k < agenda.len()
            invariant
                k <= agenda.len(),
                agenda.len() <= u32::MAX,
                slots == slots_view(agenda@),
                known == preimages@,
                self@ == run_pending(turned, now, known, slots, k as int),
            decreases agenda.len() - k,
        {
            proof {
                assert(slots[k as int] == slot_view(agenda@[k as int]));
            }
            match &agenda[k] {
                Some(task) => {
                    let ready = match task.call {
                        MaybeHashed::Value(_) => true,
                        MaybeHashed::Hash(h) => preimages.resolve(h).is_some(),
                    };
                    if !ready {
                        self.defer_task(now, k as u32, task);
                    }
                },
                None => {},
            }
            k += 1;
        }
        meter.consumed()
    }

    /// The clock's tick for block `now`: the pass over the block's agenda, once. A tick
    /// for a block that is not after the scheduler's own does nothing and uses no
    /// weight.
    pub fn on_tick(&mut self, now: BlockNumber, preimages: &Preimages) -> (used: Weight)
        requires
            well_formed(old(self)@),
        ensures
            well_formed(final(self)@),
            now <= old(self)@.now ==> final(self)@ == old(self)@ && used == (Weight {
                ref_time: 0,
                proof_size: 0,
            }),
            now > old(self)@.now ==> final(self)@ == initialized(old(self)@, now, preimages@)
                && used == pass_weight(old(self)@, now, preimages@),
    {
        if now <= self.now() {
            Weight::zero()
        } else {
            self.on_initialize(now, preimages)
        }
    }
}

} // verus!
