//! The schedule of one core for one timeslice: the plan for the timeslice is merged with
//! the core's standing workload, and the result is turned into shares of the core.

use crate::broker::mask::{
    lemma_ones_below_bound, lemma_ones_of_disjoint, lemma_ones_of_void, ones_below, CorePart,
    CORE_PARTS,
};
use crate::broker::types::{
    lemma_schedules_insert, lemma_schedules_remove, plan_key, BlockNumber,
    BrokerEffect, BrokerEffectView, BrokerState, CoreAssignment, CoreIndex, Pallet, PartsOf57600,
    ScheduleItem, Timeslice, MAX_SCHEDULE_ITEMS, SHARES_PER_PART, WHOLE_CORE,
};
use crate::broker::rotation::plan_key_of;
use crate::sorting::{insert_point, lemma_insert_point, sort_by_rank, sorted_by_rank};
use crate::store::copy_vec;
use vstd::prelude::*;

verus! {

/// The parts of the core that the first `k` items of a schedule cover, as bits.
pub open spec fn parts_used(schedule: Seq<ScheduleItem>, k: int) -> u128
    decreases k,
{
    if k <= 0 {
        0u128
    } else {
        parts_used(schedule, k - 1) | schedule[k - 1].part.bits
    }
}

/// Those of the first `k` items of the standing workload that cover none of the parts
/// in `used`, in their order.
pub open spec fn carried_over(workload: Seq<ScheduleItem>, used: u128, k: int) -> Seq<ScheduleItem>
    decreases k,
{
    if k <= 0 {
        Seq::empty()
    } else if workload[k - 1].part.bits & used == 0 {
        carried_over(workload, used, k - 1).push(workload[k - 1])
    } else {
        carried_over(workload, used, k - 1)
    }
}

/// The first `MAX_SCHEDULE_ITEMS` items of a schedule.
pub open spec fn truncated(schedule: Seq<ScheduleItem>) -> Seq<ScheduleItem> {
    if schedule.len() > MAX_SCHEDULE_ITEMS {
        schedule.take(MAX_SCHEDULE_ITEMS as int)
    } else {
        schedule
    }
}

/// The plan, followed by what the standing workload holds on parts that the plan leaves
/// free, cut to the length a schedule may have.
pub open spec fn merged_schedule(plan: Seq<ScheduleItem>, workload: Seq<ScheduleItem>) -> Seq<
    ScheduleItem,
> {
    truncated(
        plan + carried_over(workload, parts_used(plan, plan.len() as int), workload.len() as int),
    )
}

/// The share of the core that an item stands for: 720 for each part it covers.
pub open spec fn share_of(item: ScheduleItem) -> (CoreAssignment, PartsOf57600) {
    (item.assignment, (item.part.spec_count_ones() * SHARES_PER_PART) as u16)
}

/// The shares of the items of a schedule, in their order.
pub open spec fn shares_of(schedule: Seq<ScheduleItem>) -> Seq<(CoreAssignment, PartsOf57600)> {
    schedule.map_values(|item: ScheduleItem| share_of(item))
}

/// `x`, held to the range of shares.
pub open spec fn saturated_share(x: int) -> PartsOf57600 {
    if x > u16::MAX {
        u16::MAX
    } else if x < 0 {
        0u16
    } else {
        x as u16
    }
}

/// The sum of the first `k` shares, saturating.
pub open spec fn shares_total(shares: Seq<(CoreAssignment, PartsOf57600)>, k: int) -> PartsOf57600
    decreases k,
{
    if k <= 0 {
        0u16
    } else {
        saturated_share(shares_total(shares, k - 1) + shares[k - 1].1)
    }
}

/// The shares, with what they leave of the whole core given to `Idle`.
pub open spec fn with_idle(shares: Seq<(CoreAssignment, PartsOf57600)>) -> Seq<
    (CoreAssignment, PartsOf57600),
> {
    let total = shares_total(shares, shares.len() as int);
    if total < WHOLE_CORE {
        shares.push((CoreAssignment::Idle, (WHOLE_CORE - total) as u16))
    } else {
        shares
    }
}

/// The shares with each run of neighbours that have the same assignment made one
/// share, whose size is their sum, saturating.
pub open spec fn coalesced(shares: Seq<(CoreAssignment, PartsOf57600)>) -> Seq<
    (CoreAssignment, PartsOf57600),
>
    decreases shares.len(),
{
    if shares.len() == 0 {
        shares
    } else {
        let before = coalesced(shares.drop_last());
        let x = shares.last();
        if before.len() > 0 && before.last().0 == x.0 {
            before.update(before.len() - 1, (x.0, saturated_share(before.last().1 + x.1)))
        } else {
            before.push(x)
        }
    }
}

/// What a core is assigned for a schedule: the shares of its items and of `Idle`,
/// sorted by assignment and coalesced.
pub open spec fn core_assignment(schedule: Seq<ScheduleItem>) -> Seq<
    (CoreAssignment, PartsOf57600),
> {
    coalesced(sorted_by_rank(with_idle(shares_of(schedule))))
}

/// No two neighbours have the same assignment.
pub open spec fn no_equal_neighbours(shares: Seq<(CoreAssignment, PartsOf57600)>) -> bool {
    forall|i: int| 0 <= i < shares.len() - 1 ==> shares[i].0 != (#[trigger] shares[i + 1]).0
}

/// Coalescing leaves no two neighbours with the same assignment, and the last share
/// keeps the assignment it had.
pub proof fn lemma_coalesced_has_no_equal_neighbours(shares: Seq<(CoreAssignment, PartsOf57600)>)
    ensures
        no_equal_neighbours(coalesced(shares)),
        coalesced(shares).len() <= shares.len(),
        shares.len() > 0 ==> coalesced(shares).len() > 0 && coalesced(shares).last().0
            == shares.last().0,
    decreases shares.len(),
{
    if shares.len() > 0 {
        lemma_coalesced_has_no_equal_neighbours(shares.drop_last());
    }
}

/// Coalescing changes nothing where no two neighbours have the same assignment.
pub proof fn lemma_coalesced_fixed(shares: Seq<(CoreAssignment, PartsOf57600)>)
    requires
        no_equal_neighbours(shares),
    ensures
        coalesced(shares) == shares,
    decreases shares.len(),
{
    if shares.len() > 0 {
        let front = shares.drop_last();
        assert(no_equal_neighbours(front)) by {
            assert forall|i: int| 0 <= i < front.len() - 1 implies front[i].0 != (
            #[trigger] front[i + 1]).0 by {
                assert(front[i] == shares[i]);
                assert(front[i + 1] == shares[i + 1]);
            }
        }
        lemma_coalesced_fixed(front);
        if front.len() > 0 {
            assert(front.last() == shares[shares.len() - 2]);
            assert(shares[shares.len() - 2].0 != shares[shares.len() - 2 + 1].0);
        }
        assert(front.push(shares.last()) =~= shares);
    }
}

/// Coalescing twice gives what coalescing once gives.
pub proof fn lemma_coalesced_idempotent(shares: Seq<(CoreAssignment, PartsOf57600)>)
    ensures
        coalesced(coalesced(shares)) == coalesced(shares),
{
    lemma_coalesced_has_no_equal_neighbours(shares);
    lemma_coalesced_fixed(coalesced(shares));
}

/// The sum of the shares.
pub open spec fn shares_sum(shares: Seq<(CoreAssignment, PartsOf57600)>) -> int
    decreases shares.len(),
{
    if shares.len() == 0 {
        0
    } else {
        shares_sum(shares.drop_last()) + shares.last().1
    }
}

/// The sum of shares is not negative and not less than the last share.
pub proof fn lemma_shares_sum_bounds(shares: Seq<(CoreAssignment, PartsOf57600)>)
    ensures
        shares_sum(shares) >= 0,
        shares.len() > 0 ==> shares_sum(shares) >= shares.last().1,
    decreases shares.len(),
{
    if shares.len() > 0 {
        lemma_shares_sum_bounds(shares.drop_last());
    }
}

/// An inserted share adds its size to the sum.
pub proof fn lemma_shares_sum_insert(
    shares: Seq<(CoreAssignment, PartsOf57600)>,
    at: int,
    share: (CoreAssignment, PartsOf57600),
)
    requires
        0 <= at <= shares.len(),
    ensures
        shares_sum(shares.insert(at, share)) == shares_sum(shares) + share.1,
    decreases shares.len(),
{
    if at == shares.len() {
        assert(shares.insert(at, share).drop_last() =~= shares);
    } else {
        let front = shares.drop_last();
        assert(shares.insert(at, share).drop_last() =~= front.insert(at, share));
        lemma_shares_sum_insert(front, at, share);
    }
}

/// Sorting keeps the sum of the shares.
pub proof fn lemma_sorted_keeps_sum(shares: Seq<(CoreAssignment, PartsOf57600)>)
    ensures
        shares_sum(sorted_by_rank(shares)) == shares_sum(shares),
    decreases shares.len(),
{
    if shares.len() > 0 {
        let front = sorted_by_rank(shares.drop_last());
        lemma_sorted_keeps_sum(shares.drop_last());
        lemma_insert_point(front, shares.last());
        lemma_shares_sum_insert(front, insert_point(front, shares.last()), shares.last());
    }
}

/// Coalescing keeps the sum of the shares, where the sum is small enough that no run
/// saturates.
pub proof fn lemma_coalesced_keeps_sum(shares: Seq<(CoreAssignment, PartsOf57600)>)
    requires
        shares_sum(shares) <= u16::MAX,
    ensures
        shares_sum(coalesced(shares)) == shares_sum(shares),
    decreases shares.len(),
{
    if shares.len() > 0 {
        let front = shares.drop_last();
        let x = shares.last();
        lemma_shares_sum_bounds(front);
        lemma_coalesced_keeps_sum(front);
        let before = coalesced(front);
        lemma_shares_sum_bounds(before);
        if before.len() > 0 && before.last().0 == x.0 {
            let merged = (x.0, saturated_share(before.last().1 + x.1));
            let after = before.update(before.len() - 1, merged);
            assert(after.drop_last() =~= before.drop_last());
            assert(after.last() == merged);
        } else {
            assert(before.push(x).drop_last() =~= before);
        }
    }
}

/// The saturating total of the shares is their sum, where the sum is small enough.
pub proof fn lemma_shares_total_is_sum(shares: Seq<(CoreAssignment, PartsOf57600)>, k: int)
    requires
        0 <= k <= shares.len(),
        shares_sum(shares.take(k)) <= u16::MAX,
    ensures
        shares_total(shares, k) == shares_sum(shares.take(k)),
    decreases k,
{
    if k > 0 {
        assert(shares.take(k).drop_last() =~= shares.take(k - 1));
        lemma_shares_sum_bounds(shares.take(k - 1));
        lemma_shares_total_is_sum(shares, k - 1);
    }
}

/// Whether no item of a schedule covers a part that an earlier item covers.
pub open spec fn parts_disjoint(schedule: Seq<ScheduleItem>) -> bool {
    forall|j: int|
        0 <= j < schedule.len() ==> (#[trigger] schedule[j]).part.bits & parts_used(schedule, j)
            == 0
}

/// Where no two items cover the same part, the shares of the first `k` items sum to
/// 720 for each part that they cover together.
pub proof fn lemma_disjoint_shares(schedule: Seq<ScheduleItem>, k: int)
    requires
        parts_disjoint(schedule),
        0 <= k <= schedule.len(),
    ensures
        shares_sum(shares_of(schedule).take(k)) == 720 * ones_below(
            parts_used(schedule, k),
            CORE_PARTS as nat,
        ),
    decreases k,
{
    if k > 0 {
        lemma_disjoint_shares(schedule, k - 1);
        let used = parts_used(schedule, k - 1);
        let bits = schedule[k - 1].part.bits;
        assert(used & bits == 0) by (bit_vector)
            requires
                bits & used == 0,
        ;
        lemma_ones_of_disjoint(used, bits, CORE_PARTS as nat);
        lemma_ones_below_bound(bits, CORE_PARTS as nat);
        assert(shares_of(schedule).take(k).drop_last() =~= shares_of(schedule).take(k - 1));
        assert(shares_of(schedule).take(k).last() == share_of(schedule[k - 1]));
        assert(parts_used(schedule, k) == used | bits);
        let count = ones_below(bits, CORE_PARTS as nat);
        assert(schedule[k - 1].part.spec_count_ones() == count);
        assert(share_of(schedule[k - 1]).1 == 720 * count);
    } else {
        assert(shares_of(schedule).take(0) =~= Seq::empty());
        lemma_ones_of_void(CORE_PARTS as nat);
    }
}

/// Where no two items of a schedule cover the same part, the shares of the schedule
/// sum to at most the whole core.
pub proof fn lemma_disjoint_parts_fit_the_core(schedule: Seq<ScheduleItem>)
    requires
        parts_disjoint(schedule),
    ensures
        shares_sum(shares_of(schedule)) <= WHOLE_CORE,
{
    lemma_disjoint_shares(schedule, schedule.len() as int);
    lemma_ones_below_bound(parts_used(schedule, schedule.len() as int), CORE_PARTS as nat);
    assert(shares_of(schedule).take(schedule.len() as int) =~= shares_of(schedule));
}

/// What a core is assigned covers the core exactly: where the shares of a schedule sum
/// to at most the whole core, the shares of the assignment sum to the whole core.
pub proof fn lemma_assignment_covers_the_core(schedule: Seq<ScheduleItem>)
    requires
        shares_sum(shares_of(schedule)) <= WHOLE_CORE,
    ensures
        shares_sum(core_assignment(schedule)) == WHOLE_CORE,
{
    let shares = shares_of(schedule);
    assert(shares.take(shares.len() as int) =~= shares);
    lemma_shares_total_is_sum(shares, shares.len() as int);
    let filled = with_idle(shares);
    assert(shares_sum(filled) == WHOLE_CORE) by {
        if shares_total(shares, shares.len() as int) < WHOLE_CORE {
            assert(filled.drop_last() =~= shares);
        }
    }
    lemma_sorted_keeps_sum(filled);
    lemma_coalesced_keeps_sum(sorted_by_rank(filled));
}

/// The state after `core` was scheduled for `timeslice`, which begins at the relay
/// block `rc_begin`: the plan for the timeslice is taken, the merged schedule becomes
/// the core's workload, and the host is told the core's assignment.
pub open spec fn core_scheduled(
    s: BrokerState,
    timeslice: Timeslice,
    rc_begin: BlockNumber,
    core: CoreIndex,
) -> BrokerState {
    let key = plan_key(timeslice, core);
    let workload = if s.workload.contains_key(core as u128) {
        s.workload[core as u128]
    } else {
        Seq::empty()
    };
    let schedule = if s.workplan.contains_key(key) {
        merged_schedule(s.workplan[key], workload)
    } else {
        workload
    };
    BrokerState {
        workplan: s.workplan.remove(key),
        workload: if s.workplan.contains_key(key) {
            s.workload.insert(core as u128, schedule)
        } else {
            s.workload
        },
        effects: s.effects.push(
            BrokerEffectView::AssignCore {
                core,
                begin: rc_begin,
                assignment: core_assignment(schedule),
                end_hint: None,
            },
        ),
        ..s
    }
}

/// The state after the cores below `k` were scheduled for `timeslice`, lowest first.
pub open spec fn cores_scheduled(
    s: BrokerState,
    timeslice: Timeslice,
    rc_begin: BlockNumber,
    k: int,
) -> BrokerState
    decreases k,
{
    if k <= 0 {
        s
    } else {
        core_scheduled(cores_scheduled(s, timeslice, rc_begin, k - 1), timeslice, rc_begin, (k - 1) as u16)
    }
}

/// Scheduling cores touches only the work plan, the workloads and the effects.
pub proof fn lemma_cores_scheduled_frame(
    s: BrokerState,
    timeslice: Timeslice,
    rc_begin: BlockNumber,
    k: int,
)
    ensures
        cores_scheduled(s, timeslice, rc_begin, k) == (BrokerState {
            workplan: cores_scheduled(s, timeslice, rc_begin, k).workplan,
            workload: cores_scheduled(s, timeslice, rc_begin, k).workload,
            effects: cores_scheduled(s, timeslice, rc_begin, k).effects,
            ..s
        }),
    decreases k,
{
    if k > 0 {
        lemma_cores_scheduled_frame(s, timeslice, rc_begin, k - 1);
    }
}

/// Merges a plan with the standing workload.
pub fn merge_schedule(plan: &Vec<ScheduleItem>, workload: &Vec<ScheduleItem>) -> (merged: Vec<
    ScheduleItem,
>)
    ensures
        merged@ == merged_schedule(plan@, workload@),
{
    let mut used = CorePart::void();
    let mut i: usize = 0;
    while i < plan.len()
        invariant
            i <= plan.len(),
            used.bits == parts_used(plan@, i as int),
        decreases plan.len() - i,
    {
        used = used.or(plan[i].part);
        i += 1;
    }
    let mut merged = copy_vec(plan);
    let mut j: usize = 0;
    while j < workload.len()
        invariant
            j <= workload.len(),
            merged@ == plan@ + carried_over(workload@, used.bits, j as int),
        decreases workload.len() - j,
    {
        if workload[j].part.and(used).is_void() {
            merged.push(workload[j]);
            proof {
                assert(merged@ =~= plan@ + carried_over(workload@, used.bits, j as int + 1));
            }
        }
        j += 1;
    }
    if merged.len() > MAX_SCHEDULE_ITEMS {
        merged.truncate(MAX_SCHEDULE_ITEMS);
        proof {
            let whole = plan@ + carried_over(workload@, used.bits, workload@.len() as int);
            assert(merged@ =~= whole.take(MAX_SCHEDULE_ITEMS as int));
        }
    }
    merged
}

/// Merges each run of neighbours with the same assignment into one share.
pub fn coalesce(shares: &Vec<(CoreAssignment, PartsOf57600)>) -> (out: Vec<
    (CoreAssignment, PartsOf57600),
>)
    ensures
        out@ == coalesced(shares@),
{
    let mut out: Vec<(CoreAssignment, PartsOf57600)> = Vec::new();
    let mut i: usize = 0;
    while i < shares.len()
        invariant
            i <= shares.len(),
            out@ == coalesced(shares@.take(i as int)),
        decreases shares.len() - i,
    {
        let x = shares[i];
        proof {
            assert(shares@.take(i as int + 1).drop_last() =~= shares@.take(i as int));
        }
        let n = out.len();
        if n > 0 && out[n - 1].0 == x.0 {
            let sum = out[n - 1].1.saturating_add(x.1);
            out.set(n - 1, (x.0, sum));
        } else {
            out.push(x);
        }
        i += 1;
    }
    proof {
        assert(shares@.take(shares.len() as int) =~= shares@);
    }
    out
}

/// The assignment of a core for a schedule.
pub fn assignment_of(schedule: &Vec<ScheduleItem>) -> (assignment: Vec<
    (CoreAssignment, PartsOf57600),
>)
    ensures
        assignment@ == core_assignment(schedule@),
{
    let mut total: PartsOf57600 = 0;
    let mut shares: Vec<(CoreAssignment, PartsOf57600)> = Vec::new();
    let mut i: usize = 0;
    while i < schedule.len()
        invariant
            i <= schedule.len(),
            shares@ == shares_of(schedule@).take(i as int),
            total == shares_total(shares_of(schedule@), i as int),
        decreases schedule.len() - i,
    {
        let item = schedule[i];
        let count = item.part.count_ones();
        let share = count as u16 * SHARES_PER_PART;
        total = total.saturating_add(share);
        shares.push((item.assignment, share));
        proof {
            assert(shares_of(schedule@)[i as int] == share_of(item));
            assert(shares@ =~= shares_of(schedule@).take(i as int + 1));
        }
        i += 1;
    }
    proof {
        assert(shares@ =~= shares_of(schedule@));
    }
    if total < WHOLE_CORE {
        shares.push((CoreAssignment::Idle, WHOLE_CORE - total));
    }
    let sorted = sort_by_rank(&shares);
    coalesce(&sorted)
}

impl Pallet {
    /// Schedules `core` for `timeslice`, which begins at the relay block `rc_begin`.
    ///
    /// Where the core has a plan for the timeslice, the plan is taken and merged with
    /// the core's workload: what the workload holds on parts that the plan leaves free
    /// is kept. The result is the core's new workload. Without a plan the workload
    /// stands. The host is told the assignment that follows from the schedule.
    pub fn process_core_schedule(&mut self, timeslice: Timeslice, rc_begin: BlockNumber, core: CoreIndex)
        ensures
            final(self)@ == core_scheduled(old(self)@, timeslice, rc_begin, core),
    {
        let key = plan_key_of(timeslice, core);
        proof {
            lemma_schedules_remove(self.workplan@, key);
        }
        let plan = self.workplan.remove(key);
        let schedule = match plan {
            Some(plan) => {
                let merged = match self.workload.get(core as u128) {
                    Some(workload) => merge_schedule(&plan, workload),
                    None => merge_schedule(&plan, &Vec::new()),
                };
                let stored = copy_vec(&merged);
                proof {
                    lemma_schedules_insert(self.workload@, core as u128, stored);
                }
                self.workload.insert(core as u128, stored);
                merged
            },
            None => match self.workload.get(core as u128) {
                Some(workload) => copy_vec(workload),
                None => Vec::new(),
            },
        };
        let assignment = assignment_of(&schedule);
        let effect = BrokerEffect::AssignCore { core, begin: rc_begin, assignment, end_hint: None };
        proof {
            assert(self.effects@.push(effect).map_values(|e: BrokerEffect| e@)
                =~= self.effects@.map_values(|e: BrokerEffect| e@).push(effect@));
        }
        self.effects.push(effect);
    }
}

} // verus!
