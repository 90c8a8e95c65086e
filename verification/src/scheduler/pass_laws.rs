//! What holds of every pass: which tasks it hands to the host, how often, and in which
//! order.

use crate::scheduler::ops::saturated_time;
use crate::scheduler::pass::{
    executed, given_up, initialized, is_hard, is_resolvable, moved, pass_end, pass_order,
    pass_start, resolved_call, run_pending, run_turns, runs, turns, Pass,
};
use crate::scheduler::state::{
    agenda_of, agendas_in_shape, released, slot_at, unnamed, well_formed, with_effect,
    SchedulerState,
};
use crate::scheduler::types::{BlockNumber, Call, MaybeHashed, SchedulerEffect, Task, Turn};
use crate::sorting::{
    is_ranked, lemma_occurrences_at, lemma_occurrences_push, lemma_occurrences_take,
    lemma_sorted_is_ranked, lemma_sorted_keeps_occurrences, occurrences,
};
use vstd::prelude::*;

verus! {

/// The effect by which the task in slot `index` of the agenda of `now` is handed to the
/// host.
pub open spec fn execution_of(
    now: BlockNumber,
    index: u32,
    task: Task,
    known: Map<u128, Call>,
) -> SchedulerEffect {
    SchedulerEffect::Execute {
        when: now,
        index,
        origin: task.origin,
        call: resolved_call(task, known),
    }
}

/// Whether a turn is that of a task of the agenda whose call can be had: it names the
/// task's slot and carries the task's priority.
pub open spec fn turn_is_of(turn: Turn, agenda: Seq<Option<Task>>, known: Map<u128, Call>) -> bool {
    &&& turn.index < agenda.len()
    &&& agenda[turn.index as int] is Some
    &&& is_resolvable(agenda[turn.index as int]->0, known)
    &&& turn.priority == agenda[turn.index as int]->0.priority
}

/// Whether every turn of an order is that of a task of the agenda.
pub open spec fn faithful(order: Seq<Turn>, agenda: Seq<Option<Task>>, known: Map<u128, Call>) -> bool {
    forall|t: int| 0 <= t < order.len() ==> turn_is_of(#[trigger] order[t], agenda, known)
}

/// The turn of the task in slot `index`.
pub open spec fn turn_of(agenda: Seq<Option<Task>>, index: u32) -> Turn {
    Turn { priority: agenda[index as int]->0.priority, index }
}

/// How often an effect occurs among the effects of a state.
pub open spec fn effect_count(s: SchedulerState, e: SchedulerEffect) -> nat {
    occurrences(s.effects, e)
}

/// Among the first `k` slots, each task whose call can be had has exactly one turn, and
/// there is no other turn.
pub proof fn lemma_turns_content(agenda: Seq<Option<Task>>, known: Map<u128, Call>, k: int, x: Turn)
    requires
        0 <= k <= agenda.len(),
        agenda.len() <= u32::MAX,
    ensures
        occurrences(turns(agenda, known, k), x) == if x.index < k && turn_is_of(x, agenda, known) {
            1nat
        } else {
            0nat
        },
    decreases k,
{
    if k > 0 {
        lemma_turns_content(agenda, known, k - 1, x);
        let before = turns(agenda, known, k - 1);
        match agenda[k - 1] {
            Some(task) => {
                if is_resolvable(task, known) {
                    lemma_occurrences_push(
                        before,
                        Turn { priority: task.priority, index: (k - 1) as u32 },
                        x,
                    );
                }
            },
            None => {},
        }
    }
}

/// The order of a pass: its turns are sorted by priority and then by slot, each task
/// of the agenda whose call can be had has exactly one turn, and there is no other
/// turn.
pub proof fn lemma_pass_order(s: SchedulerState, now: BlockNumber, known: Map<u128, Call>)
    requires
        agendas_in_shape(s),
    ensures
        is_ranked(pass_order(s, now, known)),
        faithful(pass_order(s, now, known), agenda_of(s, now), known),
        forall|x: Turn|
            occurrences(pass_order(s, now, known), x) == if turn_is_of(x, agenda_of(s, now), known) {
                1nat
            } else {
                0nat
            },
{
    let agenda = agenda_of(s, now);
    let order = pass_order(s, now, known);
    let unsorted = turns(agenda, known, agenda.len() as int);
    lemma_sorted_is_ranked(unsorted);
    assert forall|x: Turn|
        occurrences(order, x) == if turn_is_of(x, agenda, known) {
            1nat
        } else {
            0nat
        } by {
        lemma_sorted_keeps_occurrences(unsorted, x);
        lemma_turns_content(agenda, known, agenda.len() as int, x);
    }
    assert forall|t: int| 0 <= t < order.len() implies turn_is_of(#[trigger] order[t], agenda, known) by {
        lemma_occurrences_at(order, t, t);
    }
}

/// Giving a task up hands nothing to the host.
pub proof fn lemma_given_up_executes_nothing(
    s: SchedulerState,
    now: BlockNumber,
    index: u32,
    task: Task,
    e: SchedulerEffect,
)
    requires
        e is Execute,
    ensures
        effect_count(given_up(s, now, index, task), e) == effect_count(s, e),
        given_up(s, now, index, task).config == s.config,
{
    let r = released(s, task.call);
    match task.call {
        MaybeHashed::Hash(h) => {
            lemma_occurrences_push(s.effects, SchedulerEffect::ReleasePreimage(h), e);
        },
        MaybeHashed::Value(_) => {},
    }
    lemma_occurrences_push(r.effects, SchedulerEffect::Starved { when: now, index }, e);
}

/// Moving a task hands nothing to the host.
pub proof fn lemma_moved_executes_nothing(
    s: SchedulerState,
    now: BlockNumber,
    index: u32,
    task: Task,
    target: BlockNumber,
    e: SchedulerEffect,
)
    requires
        e is Execute,
    ensures
        effect_count(moved(s, now, index, task, target), e) == effect_count(s, e),
        moved(s, now, index, task, target).config == s.config,
{
    lemma_given_up_executes_nothing(s, now, index, task, e);
}

/// A turn hands its task to the host if the task runs, and nothing else.
pub proof fn lemma_executed_executes_one(
    p: Pass,
    now: BlockNumber,
    index: u32,
    task: Task,
    call: Call,
    e: SchedulerEffect,
)
    requires
        e is Execute,
    ensures
        effect_count(executed(p, now, index, task, call).s, e) == effect_count(p.s, e) + if runs(
            p,
            task,
            call,
        ) && e == (SchedulerEffect::Execute { when: now, index, origin: task.origin, call }) {
            1nat
        } else {
            0nat
        },
        executed(p, now, index, task, call).s.config == p.s.config,
{
    let ready = Task { call: MaybeHashed::Value(call), ..task };
    let s0 = unnamed(p.s, task.maybe_id);
    let s1 = released(s0, task.call);
    match task.call {
        MaybeHashed::Hash(h) => {
            lemma_occurrences_push(s0.effects, SchedulerEffect::ReleasePreimage(h), e);
        },
        MaybeHashed::Value(_) => {},
    }
    if runs(p, task, call) {
        let x = SchedulerEffect::Execute { when: now, index, origin: task.origin, call };
        let s2 = with_effect(s1, x);
        lemma_occurrences_push(s1.effects, x, e);
        match task.maybe_periodic {
            Some((period, left)) => {
                if left > 1 {
                    lemma_moved_executes_nothing(
                        s2,
                        now,
                        index,
                        Task { maybe_periodic: Some((period, (left - 1) as u32)), ..ready },
                        saturated_time(now + period),
                        e,
                    );
                }
            },
            None => {},
        }
    } else {
        lemma_moved_executes_nothing(s1, now, index, ready, saturated_time(now + 1), e);
    }
}

/// Dealing with the tasks whose call cannot be had hands nothing to the host.
pub proof fn lemma_run_pending_executes_nothing(
    start: SchedulerState,
    now: BlockNumber,
    known: Map<u128, Call>,
    agenda: Seq<Option<Task>>,
    k: int,
    e: SchedulerEffect,
)
    requires
        e is Execute,
    ensures
        effect_count(run_pending(start, now, known, agenda, k), e) == effect_count(start, e),
        run_pending(start, now, known, agenda, k).config == start.config,
    decreases k,
{
    if k > 0 {
        lemma_run_pending_executes_nothing(start, now, known, agenda, k - 1, e);
        let s = run_pending(start, now, known, agenda, k - 1);
        match agenda[k - 1] {
            Some(task) => {
                if !is_resolvable(task, known) {
                    let s1 = unnamed(s, task.maybe_id);
                    match s.config.no_preimage_postponement {
                        Some(delay) => {
                            lemma_moved_executes_nothing(
                                s1,
                                now,
                                (k - 1) as u32,
                                task,
                                saturated_time(now + delay),
                                e,
                            );
                        },
                        None => {
                            lemma_given_up_executes_nothing(s1, now, (k - 1) as u32, task, e);
                        },
                    }
                }
            },
            None => {},
        }
    }
}

/// What the first `k` turns hand to the host. An execution occurs at most as often
/// more as the turn of its slot was taken, and only if it is the execution of that
/// slot's task at this block; the execution of a task with a hard deadline occurs
/// exactly as often more.
pub proof fn lemma_run_turns_executions(
    start: Pass,
    now: BlockNumber,
    known: Map<u128, Call>,
    agenda: Seq<Option<Task>>,
    order: Seq<Turn>,
    k: int,
    e: SchedulerEffect,
)
    requires
        e is Execute,
        0 <= k <= order.len(),
        faithful(order, agenda, known),
    ensures
        ({
            let after = run_turns(start, now, known, agenda, order, k);
            let taken = occurrences(order.take(k), turn_of(agenda, e->Execute_index));
            let own = turn_is_of(turn_of(agenda, e->Execute_index), agenda, known) && e
                == execution_of(now, e->Execute_index, agenda[e->Execute_index as int]->0, known);
            &&& after.s.config == start.s.config
            &&& effect_count(start.s, e) <= effect_count(after.s, e) <= effect_count(start.s, e)
                + taken
            &&& !own ==> effect_count(after.s, e) == effect_count(start.s, e)
            &&& own && is_hard(start.s.config, agenda[e->Execute_index as int]->0) ==> effect_count(
                after.s,
                e,
            ) == effect_count(start.s, e) + taken
        }),
    decreases k,
{
    if k > 0 {
        lemma_run_turns_executions(start, now, known, agenda, order, k - 1, e);
        let p = run_turns(start, now, known, agenda, order, k - 1);
        let turn = order[k - 1];
        assert(turn_is_of(turn, agenda, known));
        let task = agenda[turn.index as int]->0;
        lemma_executed_executes_one(p, now, turn.index, task, resolved_call(task, known), e);
        lemma_occurrences_take(order, k - 1, turn_of(agenda, e->Execute_index));
    } else {
        assert(order.take(0) =~= Seq::empty());
    }
}

/// A pass hands to the host only tasks of the agenda of its own block, each at most
/// once: an execution occurs among the effects once more than before or as often as
/// before, and once more only if it is the execution, at this block, of a task of the
/// block's agenda whose call can be had.
pub proof fn lemma_pass_executes_tasks_of_its_block_once(
    s: SchedulerState,
    now: BlockNumber,
    known: Map<u128, Call>,
    e: SchedulerEffect,
)
    requires
        well_formed(s),
        e is Execute,
    ensures
        effect_count(s, e) <= effect_count(initialized(s, now, known), e) <= effect_count(s, e) + 1,
        effect_count(initialized(s, now, known), e) == effect_count(s, e) + 1 ==> {
            &&& e->Execute_when == now
            &&& slot_at(s, now, e->Execute_index) is Some
            &&& is_resolvable(slot_at(s, now, e->Execute_index)->0, known)
            &&& e == execution_of(now, e->Execute_index, slot_at(s, now, e->Execute_index)->0, known)
        },
{
    let agenda = agenda_of(s, now);
    let order = pass_order(s, now, known);
    lemma_pass_order(s, now, known);
    assert(order.take(order.len() as int) =~= order);
    lemma_run_turns_executions(pass_start(s, now), now, known, agenda, order, order.len() as int, e);
    lemma_run_pending_executes_nothing(
        pass_end(s, now, known).s,
        now,
        known,
        agenda,
        agenda.len() as int,
        e,
    );
}

/// A task with a hard deadline whose call can be had is handed to the host by the pass
/// over its block, exactly once, whatever the tasks of the block weigh together.
pub proof fn lemma_hard_deadline_task_runs_at_its_block(
    s: SchedulerState,
    now: BlockNumber,
    known: Map<u128, Call>,
    index: u32,
)
    requires
        well_formed(s),
        slot_at(s, now, index) is Some,
        is_resolvable(slot_at(s, now, index)->0, known),
        is_hard(s.config, slot_at(s, now, index)->0),
    ensures
        effect_count(
            initialized(s, now, known),
            execution_of(now, index, slot_at(s, now, index)->0, known),
        ) == effect_count(s, execution_of(now, index, slot_at(s, now, index)->0, known)) + 1,
{
    let agenda = agenda_of(s, now);
    let order = pass_order(s, now, known);
    let e = execution_of(now, index, slot_at(s, now, index)->0, known);
    lemma_pass_order(s, now, known);
    assert(order.take(order.len() as int) =~= order);
    assert(turn_is_of(turn_of(agenda, index), agenda, known));
    lemma_run_turns_executions(pass_start(s, now), now, known, agenda, order, order.len() as int, e);
    lemma_run_pending_executes_nothing(
        pass_end(s, now, known).s,
        now,
        known,
        agenda,
        agenda.len() as int,
        e,
    );
}

/// Whether `longer` begins with `shorter`.
pub open spec fn begins_with<T>(longer: Seq<T>, shorter: Seq<T>) -> bool {
    &&& shorter.len() <= longer.len()
    &&& forall|i: int| 0 <= i < shorter.len() ==> longer[i] == shorter[i]
}

/// Moving a task changes no slot that holds a task or a hole already: every agenda
/// begins with what it was.
pub proof fn lemma_moved_keeps_slots(
    s: SchedulerState,
    now: BlockNumber,
    index: u32,
    task: Task,
    target: BlockNumber,
    at: BlockNumber,
)
    ensures
        begins_with(agenda_of(moved(s, now, index, task, target), at), agenda_of(s, at)),
{
}

/// The turns of a pass change no slot of any agenda: every agenda begins with what it
/// was.
pub proof fn lemma_run_turns_keeps_slots(
    start: Pass,
    now: BlockNumber,
    known: Map<u128, Call>,
    agenda: Seq<Option<Task>>,
    order: Seq<Turn>,
    k: int,
    at: BlockNumber,
)
    ensures
        begins_with(
            agenda_of(run_turns(start, now, known, agenda, order, k).s, at),
            agenda_of(start.s, at),
        ),
    decreases k,
{
    if k > 0 {
        lemma_run_turns_keeps_slots(start, now, known, agenda, order, k - 1, at);
        let p = run_turns(start, now, known, agenda, order, k - 1);
        let index = order[k - 1].index;
        if index < agenda.len() {
            match agenda[index as int] {
                Some(task) => {
                    if is_resolvable(task, known) {
                        let call = resolved_call(task, known);
                        let ready = Task { call: MaybeHashed::Value(call), ..task };
                        let s1 = released(unnamed(p.s, task.maybe_id), task.call);
                        if runs(p, task, call) {
                            let s2 = with_effect(
                                s1,
                                SchedulerEffect::Execute { when: now, index, origin: task.origin, call },
                            );
                            match task.maybe_periodic {
                                Some((period, left)) => {
                                    if left > 1 {
                                        lemma_moved_keeps_slots(
                                            s2,
                                            now,
                                            index,
                                            Task {
                                                maybe_periodic: Some((period, (left - 1) as u32)),
                                                ..ready
                                            },
                                            saturated_time(now + period),
                                            at,
                                        );
                                    }
                                },
                                None => {},
                            }
                        } else {
                            lemma_moved_keeps_slots(s1, now, index, ready, saturated_time(now + 1), at);
                        }
                    }
                },
                None => {},
            }
        }
    }
}

/// Dealing with the tasks whose call cannot be had changes no slot of any agenda.
pub proof fn lemma_run_pending_keeps_slots(
    start: SchedulerState,
    now: BlockNumber,
    known: Map<u128, Call>,
    agenda: Seq<Option<Task>>,
    k: int,
    at: BlockNumber,
)
    ensures
        begins_with(agenda_of(run_pending(start, now, known, agenda, k), at), agenda_of(start, at)),
    decreases k,
{
    if k > 0 {
        lemma_run_pending_keeps_slots(start, now, known, agenda, k - 1, at);
        let s = run_pending(start, now, known, agenda, k - 1);
        match agenda[k - 1] {
            Some(task) => {
                if !is_resolvable(task, known) {
                    let s1 = unnamed(s, task.maybe_id);
                    match s.config.no_preimage_postponement {
                        Some(delay) => {
                            lemma_moved_keeps_slots(
                                s1,
                                now,
                                (k - 1) as u32,
                                task,
                                saturated_time(now + delay),
                                at,
                            );
                        },
                        None => {},
                    }
                }
            },
            None => {},
        }
    }
}

/// A pass leaves the tasks of the other blocks where they are: the agenda of every
/// block but its own begins with what it was. Tasks that the pass moves there come
/// after.
pub proof fn lemma_pass_leaves_other_blocks(
    s: SchedulerState,
    now: BlockNumber,
    known: Map<u128, Call>,
    at: BlockNumber,
)
    requires
        at != now,
    ensures
        begins_with(agenda_of(initialized(s, now, known), at), agenda_of(s, at)),
{
    let agenda = agenda_of(s, now);
    let order = pass_order(s, now, known);
    lemma_run_turns_keeps_slots(pass_start(s, now), now, known, agenda, order, order.len() as int, at);
    lemma_run_pending_keeps_slots(pass_end(s, now, known).s, now, known, agenda, agenda.len() as int, at);
}

/// The pass over an agenda of one task whose call can be had is the turn of that task.
pub proof fn lemma_single_task_pass(s: SchedulerState, now: BlockNumber, known: Map<u128, Call>, task: Task)
    requires
        agenda_of(s, now) == seq![Some(task)],
        is_resolvable(task, known),
    ensures
        initialized(s, now, known) == executed(
            pass_start(s, now),
            now,
            0,
            task,
            resolved_call(task, known),
        ).s,
        pass_end(s, now, known) == executed(
            pass_start(s, now),
            now,
            0,
            task,
            resolved_call(task, known),
        ),
{
    let agenda = agenda_of(s, now);
    let turn = Turn { priority: task.priority, index: 0 };
    assert(turns(agenda, known, 0) =~= Seq::<Turn>::empty());
    assert(turns(agenda, known, 1) =~= seq![turn]) by {
        reveal_with_fuel(turns, 2);
    }
    let unsorted = seq![turn];
    assert(unsorted.drop_last() =~= Seq::<Turn>::empty());
    assert(crate::sorting::sorted_by_rank(unsorted) =~= unsorted) by {
        reveal_with_fuel(crate::sorting::sorted_by_rank, 2);
        reveal_with_fuel(crate::sorting::insert_point, 2);
    }
    let order = pass_order(s, now, known);
    assert(order == unsorted);
    assert(run_turns(pass_start(s, now), now, known, agenda, order, 1) == executed(
        pass_start(s, now),
        now,
        0,
        task,
        resolved_call(task, known),
    )) by {
        reveal_with_fuel(run_turns, 2);
    }
    assert(run_pending(pass_end(s, now, known).s, now, known, agenda, 1) == pass_end(s, now, known).s) by {
        reveal_with_fuel(run_pending, 2);
    }
}

/// The pass over an agenda of two tasks whose calls can be had: the task with the lower
/// priority number takes its turn first, and the task in the first slot where the
/// numbers are equal.
pub proof fn lemma_two_task_pass(
    s: SchedulerState,
    now: BlockNumber,
    known: Map<u128, Call>,
    first: Task,
    second: Task,
)
    requires
        agenda_of(s, now) == seq![Some(first), Some(second)],
        is_resolvable(first, known),
        is_resolvable(second, known),
    ensures
        first.priority <= second.priority ==> pass_end(s, now, known) == executed(
            executed(pass_start(s, now), now, 0, first, resolved_call(first, known)),
            now,
            1,
            second,
            resolved_call(second, known),
        ),
        second.priority < first.priority ==> pass_end(s, now, known) == executed(
            executed(pass_start(s, now), now, 1, second, resolved_call(second, known)),
            now,
            0,
            first,
            resolved_call(first, known),
        ),
        initialized(s, now, known) == pass_end(s, now, known).s,
{
    let agenda = agenda_of(s, now);
    let a = Turn { priority: first.priority, index: 0 };
    let b = Turn { priority: second.priority, index: 1 };
    assert(turns(agenda, known, 2) =~= seq![a, b]) by {
        reveal_with_fuel(turns, 3);
    }
    let unsorted = seq![a, b];
    assert(unsorted.drop_last() =~= seq![a]);
    assert(seq![a].drop_last() =~= Seq::<Turn>::empty());
    assert(crate::sorting::sorted_by_rank(seq![a]) =~= seq![a]) by {
        reveal_with_fuel(crate::sorting::sorted_by_rank, 2);
        reveal_with_fuel(crate::sorting::insert_point, 2);
    }
    assert(seq![a].drop_first() =~= Seq::<Turn>::empty());
    assert(crate::sorting::insert_point(seq![a], b) == if crate::sorting::Ranked::rank(&b)
        < crate::sorting::Ranked::rank(&a) {
        0int
    } else {
        1int
    }) by {
        reveal_with_fuel(crate::sorting::insert_point, 3);
    }
    let order = pass_order(s, now, known);
    assert(order == crate::sorting::insert_ranked(seq![a], b)) by {
        reveal_with_fuel(crate::sorting::sorted_by_rank, 2);
    }
    if first.priority <= second.priority {
        assert(order =~= seq![a, b]);
    } else {
        assert(order =~= seq![b, a]);
    }
    assert(order.len() == 2);
    reveal_with_fuel(run_turns, 3);
    reveal_with_fuel(run_pending, 3);
}

/// Of two tasks without a hard deadline in one agenda, of which the block's weight
/// takes the one with the lower priority number but not both, that one is handed to
/// the host and the other moves to the next block.
pub proof fn lemma_lower_priority_number_runs_first(
    s: SchedulerState,
    now: BlockNumber,
    known: Map<u128, Call>,
    first: Task,
    second: Task,
)
    requires
        agenda_of(s, now) == seq![Some(first), Some(second)],
        is_resolvable(first, known),
        is_resolvable(second, known),
        !is_hard(s.config, first),
        !is_hard(s.config, second),
        first.priority != second.priority,
        ({
            let lower = if first.priority < second.priority {
                first
            } else {
                second
            };
            let higher = if first.priority < second.priority {
                second
            } else {
                first
            };
            let start = pass_start(s, now);
            let cost = crate::scheduler::pass::task_cost(s.config, resolved_call(lower, known));
            &&& start.meter.spec_can_consume(cost)
            &&& !start.meter.charged(cost).spec_can_consume(
                crate::scheduler::pass::task_cost(s.config, resolved_call(higher, known)),
            )
        }),
    ensures
        ({
            let lower = if first.priority < second.priority {
                first
            } else {
                second
            };
            let higher = if first.priority < second.priority {
                second
            } else {
                first
            };
            let lower_slot = if first.priority < second.priority {
                0u32
            } else {
                1u32
            };
            let higher_slot = (1 - lower_slot) as u32;
            let start = pass_start(s, now);
            let after_lower = executed(start, now, lower_slot, lower, resolved_call(lower, known));
            &&& runs(start, lower, resolved_call(lower, known))
            &&& !runs(after_lower, higher, resolved_call(higher, known))
            &&& effect_count(initialized(s, now, known), execution_of(now, lower_slot, lower, known))
                == effect_count(s, execution_of(now, lower_slot, lower, known)) + 1
            &&& effect_count(initialized(s, now, known), execution_of(now, higher_slot, higher, known))
                == effect_count(s, execution_of(now, higher_slot, higher, known))
            &&& initialized(s, now, known) == moved(
                released(unnamed(after_lower.s, higher.maybe_id), higher.call),
                now,
                higher_slot,
                Task { call: MaybeHashed::Value(resolved_call(higher, known)), ..higher },
                saturated_time(now + 1),
            )
        }),
{
    lemma_two_task_pass(s, now, known, first, second);
    let lower = if first.priority < second.priority {
        first
    } else {
        second
    };
    let higher = if first.priority < second.priority {
        second
    } else {
        first
    };
    let lower_slot = if first.priority < second.priority {
        0u32
    } else {
        1u32
    };
    let higher_slot = (1 - lower_slot) as u32;
    let start = pass_start(s, now);
    let after_lower = executed(start, now, lower_slot, lower, resolved_call(lower, known));
    lemma_executed_executes_one(
        start,
        now,
        lower_slot,
        lower,
        resolved_call(lower, known),
        execution_of(now, lower_slot, lower, known),
    );
    lemma_executed_executes_one(
        start,
        now,
        lower_slot,
        lower,
        resolved_call(lower, known),
        execution_of(now, higher_slot, higher, known),
    );
    lemma_executed_executes_one(
        after_lower,
        now,
        higher_slot,
        higher,
        resolved_call(higher, known),
        execution_of(now, lower_slot, lower, known),
    );
    lemma_executed_executes_one(
        after_lower,
        now,
        higher_slot,
        higher,
        resolved_call(higher, known),
        execution_of(now, higher_slot, higher, known),
    );
}

} // verus!
