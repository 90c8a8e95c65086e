//! A pass keeps names and tasks in agreement. While the pass runs, the names of the
//! tasks that still wait for their turn stand for their old places in the agenda that
//! was taken; when the pass is over, every name stands for a task again.

use crate::scheduler::name_laws::lemma_live_names_after_placing;
use crate::scheduler::ops::saturated_time;
use crate::scheduler::pass::{
    deferred, executed, given_up, initialized, is_resolvable, moved, pass_end, pass_order,
    pass_start, resolved_call, run_pending, run_turns, runs, Pass,
};
use crate::scheduler::pass_laws::{faithful, lemma_pass_order, turn_is_of, turn_of};
use crate::scheduler::state::{
    agenda_of, agendas_in_shape, can_place, live_name, names_agree, placed, released, unnamed,
    with_effect, SchedulerState,
};
use crate::scheduler::types::{
    BlockNumber, Call, MaybeHashed, SchedulerEffect, Task, Turn,
};
use crate::sorting::{lemma_occurrences_at, lemma_occurrences_witness, occurrences};
use vstd::prelude::*;

verus! {

/// The name of the task that waits in slot `i` of the taken agenda, if a task with a
/// name still waits there.
pub open spec fn waiting_name(agenda: Seq<Option<Task>>, waiting: Set<int>, i: int) -> Option<
    Seq<u8>,
> {
    if waiting.contains(i) && 0 <= i < agenda.len() && agenda[i] is Some {
        agenda[i]->0.maybe_id
    } else {
        None
    }
}

/// Whether names and tasks agree in the middle of the pass over block `now`, with the
/// tasks in the slots `waiting` of the taken agenda still to be dealt with: a name
/// stands for a task in the store or for one that waits; every task in the store with a
/// name is at the place its name stands for; and the name of a task that waits stands
/// for its old place, where no task of that name is.
pub open spec fn names_agree_in_pass(
    c: SchedulerState,
    agenda: Seq<Option<Task>>,
    now: BlockNumber,
    waiting: Set<int>,
) -> bool {
    &&& agenda.len() <= u32::MAX
    &&& forall|n: Seq<u8>| #[trigger]
        c.lookup.contains_key(n) ==> live_name(c, c.lookup[n].0, c.lookup[n].1) == Some(n) || (
        c.lookup[n].0 == now && waiting_name(agenda, waiting, c.lookup[n].1 as int) == Some(n))
    &&& forall|w: BlockNumber, i: u32|
        (#[trigger] live_name(c, w, i)) is Some ==> c.lookup.contains_key(live_name(c, w, i)->0)
            && c.lookup[live_name(c, w, i)->0] == (w, i)
    &&& forall|i: int|
        (#[trigger] waiting_name(agenda, waiting, i)) is Some ==> {
            &&& c.lookup.contains_key(waiting_name(agenda, waiting, i)->0)
            &&& c.lookup[waiting_name(agenda, waiting, i)->0] == (now, i as u32)
            &&& live_name(c, now, i as u32) != waiting_name(agenda, waiting, i)
        }
}

/// When the turn of a waiting task has come and its name is taken out of the index,
/// names and tasks agree with one task less waiting, and the name is free.
pub proof fn lemma_unnamed_in_pass(
    c: SchedulerState,
    agenda: Seq<Option<Task>>,
    now: BlockNumber,
    waiting: Set<int>,
    i0: int,
)
    requires
        names_agree_in_pass(c, agenda, now, waiting),
        waiting.contains(i0),
        0 <= i0 < agenda.len(),
        agenda[i0] is Some,
    ensures
        names_agree_in_pass(unnamed(c, agenda[i0]->0.maybe_id), agenda, now, waiting.remove(i0)),
        agenda[i0]->0.maybe_id is Some ==> !unnamed(c, agenda[i0]->0.maybe_id).lookup.contains_key(
            agenda[i0]->0.maybe_id->0,
        ),
{
    let name = agenda[i0]->0.maybe_id;
    let c1 = unnamed(c, name);
    let rest = waiting.remove(i0);
    assert(waiting_name(agenda, waiting, i0) == name);
    assert forall|w: BlockNumber, i: u32| #![trigger live_name(c1, w, i)]
        live_name(c1, w, i) == live_name(c, w, i) by {}
    assert forall|i: int| #![trigger waiting_name(agenda, rest, i)]
        waiting_name(agenda, rest, i) == if i == i0 {
            None
        } else {
            waiting_name(agenda, waiting, i)
        } by {}
    assert forall|n: Seq<u8>| #[trigger] c1.lookup.contains_key(n) implies live_name(
        c1,
        c1.lookup[n].0,
        c1.lookup[n].1,
    ) == Some(n) || (c1.lookup[n].0 == now && waiting_name(agenda, rest, c1.lookup[n].1 as int)
        == Some(n)) by {
        assert(c.lookup.contains_key(n));
    }
    assert forall|w: BlockNumber, i: u32|
        (#[trigger] live_name(c1, w, i)) is Some implies c1.lookup.contains_key(
        live_name(c1, w, i)->0,
    ) && c1.lookup[live_name(c1, w, i)->0] == (w, i) by {
        assert(live_name(c, w, i) is Some);
    }
    assert forall|i: int| (#[trigger] waiting_name(agenda, rest, i)) is Some implies {
        &&& c1.lookup.contains_key(waiting_name(agenda, rest, i)->0)
        &&& c1.lookup[waiting_name(agenda, rest, i)->0] == (now, i as u32)
        &&& live_name(c1, now, i as u32) != waiting_name(agenda, rest, i)
    } by {
        assert(waiting_name(agenda, waiting, i) is Some);
    }
}

/// Placing a task whose name is free keeps names and tasks in agreement in the middle
/// of a pass.
pub proof fn lemma_placed_in_pass(
    c: SchedulerState,
    agenda: Seq<Option<Task>>,
    now: BlockNumber,
    waiting: Set<int>,
    target: BlockNumber,
    task: Task,
)
    requires
        names_agree_in_pass(c, agenda, now, waiting),
        agenda_of(c, target).len() < u32::MAX,
        task.maybe_id is Some ==> !c.lookup.contains_key(task.maybe_id->0),
    ensures
        names_agree_in_pass(placed(c, target, task), agenda, now, waiting),
{
    let after = placed(c, target, task);
    lemma_live_names_after_placing(c, target, task);
    assert forall|n: Seq<u8>| #[trigger] after.lookup.contains_key(n) implies live_name(
        after,
        after.lookup[n].0,
        after.lookup[n].1,
    ) == Some(n) || (after.lookup[n].0 == now && waiting_name(
        agenda,
        waiting,
        after.lookup[n].1 as int,
    ) == Some(n)) by {
        if task.maybe_id != Some(n) {
            assert(c.lookup.contains_key(n));
        }
    }
    assert forall|w: BlockNumber, i: u32|
        (#[trigger] live_name(after, w, i)) is Some implies after.lookup.contains_key(
        live_name(after, w, i)->0,
    ) && after.lookup[live_name(after, w, i)->0] == (w, i) by {
        if !(w == target && i == agenda_of(c, target).len()) {
            assert(live_name(c, w, i) is Some);
        }
    }
    assert forall|i: int| (#[trigger] waiting_name(agenda, waiting, i)) is Some implies {
        &&& after.lookup.contains_key(waiting_name(agenda, waiting, i)->0)
        &&& after.lookup[waiting_name(agenda, waiting, i)->0] == (now, i as u32)
        &&& live_name(after, now, i as u32) != waiting_name(agenda, waiting, i)
    } by {}
}

/// What changes neither the agendas nor the index keeps names and tasks in agreement.
pub proof fn lemma_same_store_in_pass(
    c: SchedulerState,
    d: SchedulerState,
    agenda: Seq<Option<Task>>,
    now: BlockNumber,
    waiting: Set<int>,
)
    requires
        names_agree_in_pass(c, agenda, now, waiting),
        d.agenda == c.agenda,
        d.lookup == c.lookup,
    ensures
        names_agree_in_pass(d, agenda, now, waiting),
{
    assert forall|w: BlockNumber, i: u32| #![trigger live_name(d, w, i)]
        live_name(d, w, i) == live_name(c, w, i) by {}
    assert forall|w: BlockNumber, i: u32|
        (#[trigger] live_name(d, w, i)) is Some implies d.lookup.contains_key(
        live_name(d, w, i)->0,
    ) && d.lookup[live_name(d, w, i)->0] == (w, i) by {
        assert(live_name(c, w, i) is Some);
    }
}

/// Moving a task whose name is free keeps names and tasks in agreement in the middle of
/// a pass.
pub proof fn lemma_moved_in_pass(
    c: SchedulerState,
    agenda: Seq<Option<Task>>,
    now: BlockNumber,
    waiting: Set<int>,
    index: u32,
    task: Task,
    target: BlockNumber,
)
    requires
        names_agree_in_pass(c, agenda, now, waiting),
        task.maybe_id is Some ==> !c.lookup.contains_key(task.maybe_id->0),
    ensures
        names_agree_in_pass(moved(c, now, index, task, target), agenda, now, waiting),
{
    if can_place(c, target) {
        lemma_placed_in_pass(c, agenda, now, waiting, target, task);
    } else {
        lemma_same_store_in_pass(c, given_up(c, now, index, task), agenda, now, waiting);
    }
}

/// The turn of a waiting task keeps names and tasks in agreement, with one task less
/// waiting.
pub proof fn lemma_executed_in_pass(
    p: Pass,
    agenda: Seq<Option<Task>>,
    now: BlockNumber,
    waiting: Set<int>,
    index: u32,
    call: Call,
)
    requires
        names_agree_in_pass(p.s, agenda, now, waiting),
        waiting.contains(index as int),
        index < agenda.len(),
        agenda[index as int] is Some,
    ensures
        names_agree_in_pass(
            executed(p, now, index, agenda[index as int]->0, call).s,
            agenda,
            now,
            waiting.remove(index as int),
        ),
{
    let task = agenda[index as int]->0;
    let rest = waiting.remove(index as int);
    let ready = Task { call: MaybeHashed::Value(call), ..task };
    let s0 = unnamed(p.s, task.maybe_id);
    lemma_unnamed_in_pass(p.s, agenda, now, waiting, index as int);
    let s1 = released(s0, task.call);
    lemma_same_store_in_pass(s0, s1, agenda, now, rest);
    if runs(p, task, call) {
        let s2 = with_effect(
            s1,
            SchedulerEffect::Execute { when: now, index, origin: task.origin, call },
        );
        lemma_same_store_in_pass(s1, s2, agenda, now, rest);
        match task.maybe_periodic {
            Some((period, left)) => {
                if left > 1 {
                    lemma_moved_in_pass(
                        s2,
                        agenda,
                        now,
                        rest,
                        index,
                        Task { maybe_periodic: Some((period, (left - 1) as u32)), ..ready },
                        saturated_time(now + period),
                    );
                }
            },
            None => {},
        }
    } else {
        lemma_moved_in_pass(s1, agenda, now, rest, index, ready, saturated_time(now + 1));
    }
}

/// Dealing with a waiting task whose call cannot be had keeps names and tasks in
/// agreement, with one task less waiting.
pub proof fn lemma_deferred_in_pass(
    c: SchedulerState,
    agenda: Seq<Option<Task>>,
    now: BlockNumber,
    waiting: Set<int>,
    index: u32,
)
    requires
        names_agree_in_pass(c, agenda, now, waiting),
        waiting.contains(index as int),
        index < agenda.len(),
        agenda[index as int] is Some,
    ensures
        names_agree_in_pass(
            deferred(c, now, index, agenda[index as int]->0),
            agenda,
            now,
            waiting.remove(index as int),
        ),
{
    let task = agenda[index as int]->0;
    let rest = waiting.remove(index as int);
    let s1 = unnamed(c, task.maybe_id);
    lemma_unnamed_in_pass(c, agenda, now, waiting, index as int);
    match c.config.no_preimage_postponement {
        Some(delay) => {
            lemma_moved_in_pass(s1, agenda, now, rest, index, task, saturated_time(now + delay));
        },
        None => {
            lemma_same_store_in_pass(s1, given_up(s1, now, index, task), agenda, now, rest);
        },
    }
}

/// Whether one of the first `k` turns of an order is that of slot `i`.
pub open spec fn turn_taken(order: Seq<Turn>, k: int, i: int) -> bool {
    exists|t: int| 0 <= t < k && (#[trigger] order[t]).index == i
}

/// The slots whose tasks still wait after the first `k` turns: those of the tasks whose
/// call cannot be had, and those whose turn has not come.
pub open spec fn waiting_after_turns(
    agenda: Seq<Option<Task>>,
    known: Map<u128, Call>,
    order: Seq<Turn>,
    k: int,
) -> Set<int> {
    Set::new(
        |i: int|
            0 <= i < agenda.len() && agenda[i] is Some && !(is_resolvable(agenda[i]->0, known)
                && turn_taken(order, k, i)),
    )
}

/// The slots at or after `k` whose tasks wait because their call cannot be had.
pub open spec fn waiting_unresolved(agenda: Seq<Option<Task>>, known: Map<u128, Call>, k: int) -> Set<
    int,
> {
    Set::new(|i: int| k <= i < agenda.len() && agenda[i] is Some && !is_resolvable(agenda[i]->0, known))
}

/// The turns of a pass keep names and tasks in agreement; the tasks whose turn has come
/// no longer wait.
pub proof fn lemma_run_turns_in_pass(
    start: Pass,
    now: BlockNumber,
    known: Map<u128, Call>,
    agenda: Seq<Option<Task>>,
    order: Seq<Turn>,
    k: int,
)
    requires
        0 <= k <= order.len(),
        faithful(order, agenda, known),
        forall|x: Turn| occurrences(order, x) <= 1,
        names_agree_in_pass(start.s, agenda, now, waiting_after_turns(agenda, known, order, 0)),
    ensures
        names_agree_in_pass(
            run_turns(start, now, known, agenda, order, k).s,
            agenda,
            now,
            waiting_after_turns(agenda, known, order, k),
        ),
    decreases k,
{
    if k > 0 {
        lemma_run_turns_in_pass(start, now, known, agenda, order, k - 1);
        let p = run_turns(start, now, known, agenda, order, k - 1);
        let turn = order[k - 1];
        assert(turn_is_of(turn, agenda, known));
        let index = turn.index;
        let task = agenda[index as int]->0;
        let before = waiting_after_turns(agenda, known, order, k - 1);
        let after = waiting_after_turns(agenda, known, order, k);
        assert(!turn_taken(order, k - 1, index as int)) by {
            if turn_taken(order, k - 1, index as int) {
                let t = choose|t: int| 0 <= t < k - 1 && (#[trigger] order[t]).index == index as int;
                assert(turn_is_of(order[t], agenda, known));
                assert(order[t] == turn);
                lemma_occurrences_at(order, t, k - 1);
            }
        }
        assert(before.contains(index as int));
        assert(after =~= before.remove(index as int)) by {
            assert forall|i: int| after.contains(i) == before.remove(index as int).contains(i) by {
                if turn_taken(order, k, i) {
                    let t = choose|t: int| 0 <= t < k && (#[trigger] order[t]).index == i;
                    if t < k - 1 {
                        assert(turn_taken(order, k - 1, i));
                    }
                }
                if turn_taken(order, k - 1, i) {
                    let t = choose|t: int| 0 <= t < k - 1 && (#[trigger] order[t]).index == i;
                    assert(0 <= t < k && order[t].index == i);
                }
                if i == index as int {
                    assert(order[k - 1].index == i);
                    assert(turn_taken(order, k, i));
                }
            }
        }
        lemma_executed_in_pass(p, agenda, now, before, index, resolved_call(task, known));
    }
}

/// Dealing with the tasks whose call cannot be had keeps names and tasks in agreement;
/// the tasks that were dealt with no longer wait.
pub proof fn lemma_run_pending_in_pass(
    start: SchedulerState,
    now: BlockNumber,
    known: Map<u128, Call>,
    agenda: Seq<Option<Task>>,
    k: int,
)
    requires
        0 <= k <= agenda.len(),
        names_agree_in_pass(start, agenda, now, waiting_unresolved(agenda, known, 0)),
    ensures
        names_agree_in_pass(
            run_pending(start, now, known, agenda, k),
            agenda,
            now,
            waiting_unresolved(agenda, known, k),
        ),
    decreases k,
{
    if k > 0 {
        lemma_run_pending_in_pass(start, now, known, agenda, k - 1);
        let s = run_pending(start, now, known, agenda, k - 1);
        let before = waiting_unresolved(agenda, known, k - 1);
        let after = waiting_unresolved(agenda, known, k);
        if agenda[k - 1] is Some && !is_resolvable(agenda[k - 1]->0, known) {
            assert(before.contains(k - 1));
            assert(after =~= before.remove(k - 1));
            lemma_deferred_in_pass(s, agenda, now, before, (k - 1) as u32);
        } else {
            assert(after =~= before);
        }
    }
}

/// A pass keeps names and tasks in agreement.
pub proof fn lemma_initialized_names_agree(s: SchedulerState, now: BlockNumber, known: Map<u128, Call>)
    requires
        agendas_in_shape(s),
        names_agree(s),
    ensures
        names_agree(initialized(s, now, known)),
{
    let agenda = agenda_of(s, now);
    let order = pass_order(s, now, known);
    let start = pass_start(s, now);
    lemma_pass_order(s, now, known);
    let all = waiting_after_turns(agenda, known, order, 0);
    assert forall|i: int| all.contains(i) == (0 <= i < agenda.len() && agenda[i] is Some) by {
        assert(!turn_taken(order, 0, i));
    }
    assert forall|w: BlockNumber, i: u32| #![trigger live_name(start.s, w, i)]
        live_name(start.s, w, i) == if w == now {
            None
        } else {
            live_name(s, w, i)
        } by {}
    assert forall|i: int| #![trigger waiting_name(agenda, all, i)]
        0 <= i < agenda.len() ==> waiting_name(agenda, all, i) == live_name(s, now, i as u32) by {}
    assert(names_agree_in_pass(start.s, agenda, now, all)) by {
        assert forall|n: Seq<u8>| #[trigger] start.s.lookup.contains_key(n) implies live_name(
            start.s,
            start.s.lookup[n].0,
            start.s.lookup[n].1,
        ) == Some(n) || (start.s.lookup[n].0 == now && waiting_name(
            agenda,
            all,
            start.s.lookup[n].1 as int,
        ) == Some(n)) by {
            assert(s.lookup.contains_key(n));
            assert(live_name(s, s.lookup[n].0, s.lookup[n].1) == Some(n));
        }
        assert forall|w: BlockNumber, i: u32|
            (#[trigger] live_name(start.s, w, i)) is Some implies start.s.lookup.contains_key(
            live_name(start.s, w, i)->0,
        ) && start.s.lookup[live_name(start.s, w, i)->0] == (w, i) by {
            assert(live_name(s, w, i) is Some);
        }
        assert forall|i: int| (#[trigger] waiting_name(agenda, all, i)) is Some implies {
            &&& start.s.lookup.contains_key(waiting_name(agenda, all, i)->0)
            &&& start.s.lookup[waiting_name(agenda, all, i)->0] == (now, i as u32)
            &&& live_name(start.s, now, i as u32) != waiting_name(agenda, all, i)
        } by {
            assert(live_name(s, now, i as u32) is Some);
        }
    }
    lemma_run_turns_in_pass(start, now, known, agenda, order, order.len() as int);
    let turned = pass_end(s, now, known).s;
    let left = waiting_after_turns(agenda, known, order, order.len() as int);
    let unresolved = waiting_unresolved(agenda, known, 0);
    assert(left =~= unresolved) by {
        assert forall|i: int| left.contains(i) == unresolved.contains(i) by {
            if 0 <= i < agenda.len() && agenda[i] is Some && is_resolvable(agenda[i]->0, known) {
                let turn = turn_of(agenda, i as u32);
                assert(turn_is_of(turn, agenda, known));
                assert(occurrences(order, turn) == 1);
                let t = lemma_occurrences_witness(order, turn);
                assert(order[t].index == i);
                assert(turn_taken(order, order.len() as int, i));
            }
        }
    }
    lemma_run_pending_in_pass(turned, now, known, agenda, agenda.len() as int);
    let after = initialized(s, now, known);
    let none = waiting_unresolved(agenda, known, agenda.len() as int);
    assert forall|i: int| #![trigger waiting_name(agenda, none, i)]
        waiting_name(agenda, none, i) is None by {}
}

} // verus!
