//! The scheduler followed block by block. A task that is alone in it is handed to the
//! host at its block and then once every period, as often as it was scheduled for.

use crate::scheduler::laws::name_is_free;
use crate::scheduler::ops::{saturated_time, schedule_outcome, scheduled, stored_periodic};
use crate::scheduler::pass::{
    executed, initialized, pass_end, pass_order, pass_start, run_pending, run_turns, runs,
    turns, Pass,
};
use crate::scheduler::pass::lemma_initialized_in_shape;
use crate::scheduler::pass_laws::{
    begins_with, effect_count, lemma_pass_executes_tasks_of_its_block_once,
    lemma_pass_leaves_other_blocks, lemma_single_task_pass,
};
use crate::scheduler::pass_names::lemma_initialized_names_agree;
use crate::scheduler::state::{agenda_of, well_formed, Scheduler, SchedulerState};
use crate::scheduler::types::{
    BlockNumber, Call, DispatchTime, Error, MaybeHashed, Origin, Preimages, SchedulerEffect, Task,
    TaskAddress, Turn,
};
use vstd::prelude::*;

verus! {

/// The state after the passes over the blocks after the scheduler's own up to `upto`,
/// one after the other, with the same calls known by hash throughout.
pub open spec fn ticked_to(s: SchedulerState, known: Map<u128, Call>, upto: BlockNumber) -> SchedulerState
    decreases upto,
{
    if upto <= s.now {
        s
    } else {
        initialized(ticked_to(s, known, (upto - 1) as u64), upto, known)
    }
}

/// Whether `task` waits at block `at` and nothing else waits anywhere.
pub open spec fn waits_alone(s: SchedulerState, at: BlockNumber, task: Task) -> bool {
    s.agenda == Map::<u128, Seq<Option<Task>>>::empty().insert(at as u128, seq![Some(task)])
}

/// Whether a block has an agenda.
pub open spec fn has_agenda(s: SchedulerState, at: BlockNumber) -> bool {
    s.agenda.contains_key(at as u128)
}

/// How many executions a task has left: those of its period's count, and one where it
/// is not periodic.
pub open spec fn executions_left(task: Task) -> nat {
    match task.maybe_periodic {
        Some((_, left)) => if left > 1 {
            left as nat
        } else {
            1nat
        },
        None => 1nat,
    }
}

/// The period of a task; zero where it is not periodic.
pub open spec fn period_of(task: Task) -> BlockNumber {
    match task.maybe_periodic {
        Some((period, _)) => period,
        None => 0,
    }
}

/// How many of the blocks `at`, `at + period`, ... , of which there are `left`, are at
/// or before `upto`.
pub open spec fn due_by(at: int, period: int, left: nat, upto: int) -> nat
    decreases left,
{
    if left == 0 || at > upto {
        0
    } else {
        1 + due_by(at + period, period, (left - 1) as nat, upto)
    }
}

/// The executions of a call from slot zero at the blocks `at`, `at + period`, ... , of
/// which there are `count`.
pub open spec fn executions_every(
    at: int,
    period: int,
    count: nat,
    origin: Origin,
    call: Call,
) -> Seq<SchedulerEffect>
    decreases count,
{
    if count == 0 {
        Seq::empty()
    } else {
        seq![SchedulerEffect::Execute { when: at as u64, index: 0, origin, call }]
            + executions_every(at + period, period, (count - 1) as nat, origin, call)
    }
}

/// Whether the blocks `at`, `at + period`, ... , of which there are `left`, can all be
/// named by a block number.
pub open spec fn blocks_exist(at: int, period: int, left: nat) -> bool
    decreases left,
{
    left <= 1 || (at + period <= u64::MAX && blocks_exist(at + period, period, (left - 1) as nat))
}

/// Whether a task that is alone in its agenda runs: it has a hard deadline, or its cost
/// fits in the weight of a block after that of an empty pass.
pub open spec fn runs_alone(s: SchedulerState, task: Task, call: Call) -> bool {
    runs(pass_start(s, 0), task, call)
}

/// The turns of a pass keep the block and the configuration.
proof fn lemma_run_turns_frame(
    start: Pass,
    now: BlockNumber,
    known: Map<u128, Call>,
    agenda: Seq<Option<Task>>,
    order: Seq<Turn>,
    k: int,
)
    ensures
        run_turns(start, now, known, agenda, order, k).s.now == start.s.now,
        run_turns(start, now, known, agenda, order, k).s.config == start.s.config,
    decreases k,
{
    if k > 0 {
        lemma_run_turns_frame(start, now, known, agenda, order, k - 1);
    }
}

/// Dealing with the tasks whose call cannot be had keeps the block and the
/// configuration.
proof fn lemma_run_pending_frame(
    start: SchedulerState,
    now: BlockNumber,
    known: Map<u128, Call>,
    agenda: Seq<Option<Task>>,
    k: int,
)
    ensures
        run_pending(start, now, known, agenda, k).now == start.now,
        run_pending(start, now, known, agenda, k).config == start.config,
    decreases k,
{
    if k > 0 {
        lemma_run_pending_frame(start, now, known, agenda, k - 1);
    }
}

/// After the pass over a block the scheduler is at that block, configured as before.
pub proof fn lemma_pass_frame(s: SchedulerState, now: BlockNumber, known: Map<u128, Call>)
    ensures
        initialized(s, now, known).now == now,
        initialized(s, now, known).config == s.config,
{
    let order = pass_order(s, now, known);
    lemma_run_turns_frame(pass_start(s, now), now, known, agenda_of(s, now), order, order.len() as int);
    lemma_run_pending_frame(
        pass_end(s, now, known).s,
        now,
        known,
        agenda_of(s, now),
        agenda_of(s, now).len() as int,
    );
}

/// The pass over a block without an agenda only moves the scheduler to the block.
pub proof fn lemma_idle_pass(s: SchedulerState, now: BlockNumber, known: Map<u128, Call>)
    requires
        !s.agenda.contains_key(now as u128),
    ensures
        initialized(s, now, known) == (SchedulerState { now, ..s }),
{
    let agenda = agenda_of(s, now);
    assert(turns(agenda, known, 0) =~= Seq::<Turn>::empty());
    assert(pass_order(s, now, known) =~= Seq::<Turn>::empty());
    assert(s.agenda.remove(now as u128) =~= s.agenda);
}

/// After the passes up to a block at or after its own, the scheduler is at that block,
/// configured as before.
pub proof fn lemma_ticked_frame(s: SchedulerState, known: Map<u128, Call>, upto: BlockNumber)
    ensures
        ticked_to(s, known, upto).now == if upto <= s.now {
            s.now
        } else {
            upto
        },
        ticked_to(s, known, upto).config == s.config,
    decreases upto,
{
    if upto > s.now {
        lemma_ticked_frame(s, known, (upto - 1) as u64);
        lemma_pass_frame(ticked_to(s, known, (upto - 1) as u64), upto, known);
    }
}

/// Passing up to a block and then on to a later one is passing up to the later one.
pub proof fn lemma_ticked_in_two(
    s: SchedulerState,
    known: Map<u128, Call>,
    via: BlockNumber,
    upto: BlockNumber,
)
    requires
        s.now <= via <= upto,
    ensures
        ticked_to(ticked_to(s, known, via), known, upto) == ticked_to(s, known, upto),
    decreases upto,
{
    lemma_ticked_frame(s, known, via);
    if upto > via {
        lemma_ticked_in_two(s, known, via, (upto - 1) as u64);
    }
}

/// The passes over blocks without an agenda only move the scheduler on.
pub proof fn lemma_idle_blocks(s: SchedulerState, known: Map<u128, Call>, upto: BlockNumber)
    requires
        s.now <= upto,
        forall|b: BlockNumber| s.now < b <= upto ==> !#[trigger] has_agenda(s, b),
    ensures
        ticked_to(s, known, upto) == (SchedulerState { now: upto, ..s }),
    decreases upto,
{
    if upto > s.now {
        lemma_idle_blocks(s, known, (upto - 1) as u64);
        assert(!has_agenda(s, upto));
        lemma_idle_pass(ticked_to(s, known, (upto - 1) as u64), upto, known);
    }
}

/// The state after the block of a task that waits alone and runs: the task was handed
/// to the host from slot zero, and it waits alone again one period later with one
/// execution less, or nothing waits where that was its last.
pub proof fn lemma_lone_task_runs(s: SchedulerState, known: Map<u128, Call>, at: BlockNumber, task: Task)
    requires
        s.now < at,
        waits_alone(s, at, task),
        task.call is Value,
        runs_alone(s, task, task.call->Value_0),
        s.config.max_scheduled_per_block >= 1,
        executions_left(task) > 1 ==> at + period_of(task) <= u64::MAX && period_of(task) > 0,
    ensures
        ({
            let after = ticked_to(s, known, at);
            let again = Task {
                maybe_periodic: Some((period_of(task), (executions_left(task) - 1) as u32)),
                ..task
            };
            &&& after.now == at
            &&& after.config == s.config
            &&& after.effects == s.effects.push(
                SchedulerEffect::Execute {
                    when: at,
                    index: 0,
                    origin: task.origin,
                    call: task.call->Value_0,
                },
            )
            &&& executions_left(task) > 1 ==> waits_alone(
                after,
                (at + period_of(task)) as u64,
                again,
            )
            &&& executions_left(task) <= 1 ==> after.agenda == Map::<
                u128,
                Seq<Option<Task>>,
            >::empty()
        }),
{
    let before = ticked_to(s, known, (at - 1) as u64);
    assert forall|b: BlockNumber| s.now < b <= (at - 1) as u64 implies !#[trigger] has_agenda(s, b) by {}
    lemma_idle_blocks(s, known, (at - 1) as u64);
    assert(before == (SchedulerState { now: (at - 1) as u64, ..s }));
    assert(agenda_of(before, at) == seq![Some(task)]);
    lemma_single_task_pass(before, at, known, task);
    let call = task.call->Value_0;
    let start = pass_start(before, at);
    assert(runs(start, task, call));
    let after = executed(start, at, 0, task, call).s;
    assert(ticked_to(s, known, at) == after);
    assert(start.s.agenda =~= Map::<u128, Seq<Option<Task>>>::empty());
    if executions_left(task) > 1 {
        let again = Task {
            maybe_periodic: Some((period_of(task), (executions_left(task) - 1) as u32)),
            ..task
        };
        let wake = (at + period_of(task)) as u64;
        assert(saturated_time(at + period_of(task)) == wake);
        assert(Task { call: MaybeHashed::Value(call), ..task } == task);
        assert(after.agenda =~= Map::<u128, Seq<Option<Task>>>::empty().insert(
            wake as u128,
            seq![Some(again)],
        ));
    } else {
        assert(after.agenda =~= Map::<u128, Seq<Option<Task>>>::empty());
    }
}

/// A task that waits alone at block `at`, whose call is given and which runs whenever
/// its turn comes, is handed to the host at `at` and then once every period, as often
/// as it has executions left, and never else: after the passes up to any block, the
/// effects have grown by exactly the executions that were due by then.
pub proof fn lemma_periodic_task_runs_every_period(
    s: SchedulerState,
    known: Map<u128, Call>,
    at: BlockNumber,
    task: Task,
    upto: BlockNumber,
)
    requires
        s.now < at,
        s.now <= upto,
        waits_alone(s, at, task),
        task.call is Value,
        runs_alone(s, task, task.call->Value_0),
        s.config.max_scheduled_per_block >= 1,
        executions_left(task) > 1 ==> period_of(task) > 0,
        blocks_exist(at as int, period_of(task) as int, executions_left(task)),
    ensures
        ticked_to(s, known, upto).effects == s.effects + executions_every(
            at as int,
            period_of(task) as int,
            due_by(at as int, period_of(task) as int, executions_left(task), upto as int),
            task.origin,
            task.call->Value_0,
        ),
    decreases executions_left(task),
{
    let period = period_of(task);
    let left = executions_left(task);
    let call = task.call->Value_0;
    if upto < at {
        assert forall|b: BlockNumber| s.now < b <= upto implies !#[trigger] has_agenda(s, b) by {}
        lemma_idle_blocks(s, known, upto);
        assert(s.effects + Seq::<SchedulerEffect>::empty() =~= s.effects);
    } else {
        lemma_lone_task_runs(s, known, at, task);
        lemma_ticked_in_two(s, known, at, upto);
        let after = ticked_to(s, known, at);
        let ran = SchedulerEffect::Execute { when: at, index: 0, origin: task.origin, call };
        if left > 1 {
            let again = Task { maybe_periodic: Some((period, (left - 1) as u32)), ..task };
            assert(executions_left(again) == left - 1);
            assert(period_of(again) == period);
            assert(runs_alone(after, again, call));
            lemma_periodic_task_runs_every_period(after, known, (at + period) as u64, again, upto);
            let rest = executions_every(
                at + period,
                period as int,
                due_by(at + period, period as int, (left - 1) as nat, upto as int),
                task.origin,
                call,
            );
            assert(s.effects.push(ran) + rest =~= s.effects + (seq![ran] + rest));
        } else {
            assert forall|b: BlockNumber| after.now < b <= upto implies !#[trigger] has_agenda(
                after,
                b,
            ) by {}
            lemma_idle_blocks(after, known, upto);
            assert(due_by(at + period, period as int, 0, upto as int) == 0);
            assert(executions_every(at + period, period as int, 0, task.origin, call)
                =~= Seq::<SchedulerEffect>::empty());
            assert(s.effects.push(ran) =~= s.effects + (seq![ran] + Seq::<SchedulerEffect>::empty()));
        }
    }
}

/// A task scheduled into an empty scheduler, whose call is given and which runs
/// whenever its turn comes, is handed to the host at its block and then once every
/// period, as often as it was scheduled for: once where it is not periodic. After the
/// passes up to any block, the effects are those before, the notice that the task was
/// scheduled, and the executions that were due by then.
pub proof fn lemma_scheduled_task_runs_as_often_as_asked(
    s: SchedulerState,
    known: Map<u128, Call>,
    at: BlockNumber,
    task: Task,
    upto: BlockNumber,
)
    requires
        s.agenda == Map::<u128, Seq<Option<Task>>>::empty(),
        s.now < at,
        s.now <= upto,
        name_is_free(s, task),
        task.call is Value,
        task.maybe_periodic == stored_periodic(task.maybe_periodic),
        runs_alone(s, task, task.call->Value_0),
        s.config.max_scheduled_per_block >= 1,
        blocks_exist(at as int, period_of(task) as int, executions_left(task)),
    ensures
        schedule_outcome(s, task, DispatchTime::At(at)) == Ok::<TaskAddress, Error>((at, 0)),
        ticked_to(scheduled(s, task, DispatchTime::At(at)), known, upto).effects == s.effects.push(
            SchedulerEffect::Scheduled { when: at, index: 0 },
        ) + executions_every(
            at as int,
            period_of(task) as int,
            due_by(at as int, period_of(task) as int, executions_left(task), upto as int),
            task.origin,
            task.call->Value_0,
        ),
{
    let placed = scheduled(s, task, DispatchTime::At(at));
    assert(agenda_of(s, at) =~= Seq::<Option<Task>>::empty());
    assert(placed.agenda =~= Map::<u128, Seq<Option<Task>>>::empty().insert(
        at as u128,
        seq![Some(task)],
    ));
    lemma_periodic_task_runs_every_period(placed, known, at, task, upto);
}

/// The passes keep the state well formed.
pub proof fn lemma_ticked_well_formed(s: SchedulerState, known: Map<u128, Call>, upto: BlockNumber)
    requires
        well_formed(s),
    ensures
        well_formed(ticked_to(s, known, upto)),
    decreases upto,
{
    if upto > s.now {
        let before = ticked_to(s, known, (upto - 1) as u64);
        lemma_ticked_well_formed(s, known, (upto - 1) as u64);
        lemma_initialized_in_shape(before, upto, known);
        lemma_initialized_names_agree(before, upto, known);
    }
}

/// No task is handed to the host before its block: the passes up to a block leave every
/// execution at a later block as often among the effects as it was.
pub proof fn lemma_nothing_runs_before_its_block(
    s: SchedulerState,
    known: Map<u128, Call>,
    upto: BlockNumber,
    e: SchedulerEffect,
)
    requires
        well_formed(s),
        e is Execute,
        e->Execute_when > upto,
    ensures
        effect_count(ticked_to(s, known, upto), e) == effect_count(s, e),
    decreases upto,
{
    if upto > s.now {
        let before = ticked_to(s, known, (upto - 1) as u64);
        lemma_nothing_runs_before_its_block(s, known, (upto - 1) as u64, e);
        lemma_ticked_well_formed(s, known, (upto - 1) as u64);
        lemma_pass_executes_tasks_of_its_block_once(before, upto, known, e);
    }
}

/// A task waits in its slot until its block comes: the passes up to an earlier block
/// leave the agenda of a later block beginning with what it was.
pub proof fn lemma_task_waits_until_its_block(
    s: SchedulerState,
    known: Map<u128, Call>,
    upto: BlockNumber,
    at: BlockNumber,
)
    requires
        at > upto,
    ensures
        begins_with(agenda_of(ticked_to(s, known, upto), at), agenda_of(s, at)),
    decreases upto,
{
    if upto > s.now {
        let before = ticked_to(s, known, (upto - 1) as u64);
        lemma_task_waits_until_its_block(s, known, (upto - 1) as u64, at);
        lemma_pass_leaves_other_blocks(before, upto, known, at);
    }
}

impl Scheduler {
    /// Runs the passes over the blocks after the scheduler's own up to `upto`, one after
    /// the other, with the calls in `preimages` known by their hash throughout. The
    /// effects of all the passes wait for the host, oldest first.
    pub fn run_to_block(&mut self, upto: BlockNumber, preimages: &Preimages)
        requires
            well_formed(old(self)@),
        ensures
            well_formed(final(self)@),
            final(self)@ == ticked_to(old(self)@, preimages@, upto),
    {
        let ghost start = self@;
        let ghost known = preimages@;
        while self.now() < upto
            invariant
                well_formed(self@),
                known == preimages@,
                start.now <= self@.now,
                self@.now <= upto || self@ == start,
                self@ == ticked_to(start, known, self@.now),
            decreases upto - self@.now,
        {
            let next = self.now() + 1;
            proof {
                lemma_pass_frame(self@, next, known);
            }
            let _ = self.on_tick(next, preimages);
        }
    }
}

} // verus!
