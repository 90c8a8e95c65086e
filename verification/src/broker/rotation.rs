//! The rotation of sale periods: what was not sold goes to the pool, the price moves,
//! reserved and leased cores are planned, and the next sale opens.

use crate::broker::mask::{CorePart, COMPLETE_BITS};
use crate::broker::price::{next_reserve_price, saturated_balance};
use crate::broker::ratio::scaled;
use crate::broker::types::{
    lemma_renewals_insert, lemma_schedules_insert, plan_key, renewals_view, schedules_view,
    AllowedRenewalRecord, Balance, BlockNumber, BrokerState, CompletionStatus, CompletionView,
    ConfigRecord, CoreAssignment, CoreIndex, Pallet, PoolIoRecord, RenewalView, SaleInfoRecord,
    ScheduleItem, SignedPartCount, TaskId, Timeslice,
};
use crate::store::{copy_vec, Table};
use vstd::prelude::*;

verus! {

/// The parts that a whole core adds to the pool.
pub const POOLED_PER_CORE: SignedPartCount = 80;

/// The schedule that gives a whole core to the pool.
pub open spec fn just_pool() -> Seq<ScheduleItem> {
    seq![ScheduleItem { part: CorePart { bits: COMPLETE_BITS }, assignment: CoreAssignment::Pool }]
}

/// The schedule that gives a whole core to one task.
pub open spec fn lease_schedule(task: TaskId) -> Seq<ScheduleItem> {
    seq![
        ScheduleItem { part: CorePart { bits: COMPLETE_BITS }, assignment: CoreAssignment::Task(task) },
    ]
}

/// `x`, held to the range of core indices.
pub open spec fn saturated_core(x: int) -> CoreIndex {
    if x > u16::MAX {
        u16::MAX
    } else if x < 0 {
        0u16
    } else {
        x as u16
    }
}

/// `x`, held to the range of signed part counts.
pub open spec fn saturated_parts(x: int) -> SignedPartCount {
    if x > i32::MAX {
        i32::MAX
    } else if x < i32::MIN {
        i32::MIN
    } else {
        x as i32
    }
}

/// `x`, held to the range of timeslices.
pub open spec fn saturated_timeslice(x: int) -> Timeslice {
    if x > u32::MAX {
        u32::MAX
    } else if x < 0 {
        0u32
    } else {
        x as u32
    }
}

/// `x`, held to the range of block numbers.
pub open spec fn saturated_block(x: int) -> BlockNumber {
    if x > u64::MAX {
        u64::MAX
    } else if x < 0 {
        0u64
    } else {
        x as u64
    }
}

/// The work plan after the cores that the sale offered and did not sell, those with an
/// offset from `sale.cores_sold` up to but not including `upto`, were given to the pool
/// for the sale's region.
pub open spec fn unsold_pooled(
    workplan: Map<u128, Seq<ScheduleItem>>,
    sale: SaleInfoRecord,
    upto: int,
) -> Map<u128, Seq<ScheduleItem>>
    decreases upto,
{
    if upto <= sale.cores_sold {
        workplan
    } else {
        unsold_pooled(workplan, sale, upto - 1).insert(
            plan_key(sale.region_begin, saturated_core(sale.first_core + upto - 1)),
            just_pool(),
        )
    }
}

/// How many cores the sale offered and did not sell.
pub open spec fn unsold_cores(sale: SaleInfoRecord) -> int {
    if sale.cores_offered > sale.cores_sold {
        sale.cores_offered - sale.cores_sold
    } else {
        0
    }
}

/// The pool's change at `at`, zero where none is recorded.
pub open spec fn pool_io_at(pool_io: Map<u128, PoolIoRecord>, at: Timeslice) -> PoolIoRecord {
    if pool_io.contains_key(at as u128) {
        pool_io[at as u128]
    } else {
        PoolIoRecord { total: 0, system: 0 }
    }
}

/// The pool's changes after `delta` parts of the system's were added at `at`.
pub open spec fn pool_io_shifted(
    pool_io: Map<u128, PoolIoRecord>,
    at: Timeslice,
    delta: int,
) -> Map<u128, PoolIoRecord> {
    let before = pool_io_at(pool_io, at);
    pool_io.insert(
        at as u128,
        PoolIoRecord {
            total: saturated_parts(before.total + delta),
            system: saturated_parts(before.system + delta),
        },
    )
}

/// The parts that the first `k` items of a schedule give to the pool, held to the
/// largest signed part count.
pub open spec fn pool_parts(schedule: Seq<ScheduleItem>, k: int) -> SignedPartCount
    decreases k,
{
    if k <= 0 {
        0
    } else {
        let before = pool_parts(schedule, k - 1);
        if schedule[k - 1].assignment is Pool {
            saturated_parts(before + schedule[k - 1].part.spec_count_ones())
        } else {
            before
        }
    }
}

/// The parts that the first `k` reservations give to the pool, held to the largest
/// signed part count.
pub open spec fn reserved_pool_parts(reservations: Seq<Seq<ScheduleItem>>, k: int) -> SignedPartCount
    decreases k,
{
    if k <= 0 {
        0
    } else {
        saturated_parts(
            reserved_pool_parts(reservations, k - 1) + pool_parts(
                reservations[k - 1],
                reservations[k - 1].len() as int,
            ),
        )
    }
}

/// The work plan after the first `k` reservations were planned for the region that
/// begins at `begin`, on the cores from `first_core` up.
pub open spec fn reservations_planned(
    workplan: Map<u128, Seq<ScheduleItem>>,
    reservations: Seq<Seq<ScheduleItem>>,
    begin: Timeslice,
    first_core: CoreIndex,
    k: int,
) -> Map<u128, Seq<ScheduleItem>>
    decreases k,
{
    if k <= 0 {
        workplan
    } else {
        reservations_planned(workplan, reservations, begin, first_core, k - 1).insert(
            plan_key(begin, saturated_core(first_core + k - 1)),
            reservations[k - 1],
        )
    }
}

/// Whether a lease that runs until `until` ends within the region from `begin` to `end`.
pub open spec fn lease_expires(until: Timeslice, begin: Timeslice, end: Timeslice) -> bool {
    begin <= until < end
}

/// The work plan after the first `k` leases were planned for the region that begins at
/// `begin`, on the cores from `first_core` up.
pub open spec fn leases_planned(
    workplan: Map<u128, Seq<ScheduleItem>>,
    leases: Seq<(Timeslice, TaskId)>,
    begin: Timeslice,
    first_core: CoreIndex,
    k: int,
) -> Map<u128, Seq<ScheduleItem>>
    decreases k,
{
    if k <= 0 {
        workplan
    } else {
        leases_planned(workplan, leases, begin, first_core, k - 1).insert(
            plan_key(begin, saturated_core(first_core + k - 1)),
            lease_schedule(leases[k - 1].1),
        )
    }
}

/// The renewals allowed after the first `k` leases were planned: each lease that ends
/// within the region can be renewed, at `price`, for the region after.
pub open spec fn leases_renewable(
    renewals: Map<u128, RenewalView>,
    leases: Seq<(Timeslice, TaskId)>,
    begin: Timeslice,
    end: Timeslice,
    price: Balance,
    first_core: CoreIndex,
    k: int,
) -> Map<u128, RenewalView>
    decreases k,
{
    if k <= 0 {
        renewals
    } else {
        let before = leases_renewable(renewals, leases, begin, end, price, first_core, k - 1);
        if lease_expires(leases[k - 1].0, begin, end) {
            before.insert(
                saturated_core(first_core + k - 1) as u128,
                RenewalView {
                    begin: end,
                    price,
                    completion: CompletionView::Complete(lease_schedule(leases[k - 1].1)),
                },
            )
        } else {
            before
        }
    }
}

/// Those of the first `k` leases that do not end within the region, in their order.
pub open spec fn leases_kept(
    leases: Seq<(Timeslice, TaskId)>,
    begin: Timeslice,
    end: Timeslice,
    k: int,
) -> Seq<(Timeslice, TaskId)>
    decreases k,
{
    if k <= 0 {
        Seq::empty()
    } else if lease_expires(leases[k - 1].0, begin, end) {
        leases_kept(leases, begin, end, k - 1)
    } else {
        leases_kept(leases, begin, end, k - 1).push(leases[k - 1])
    }
}

/// How many cores the next sale offers: those left above `first_core`, up to the
/// configured cap.
pub open spec fn cores_to_offer(config: ConfigRecord, first_core: CoreIndex) -> CoreIndex {
    let possible: CoreIndex = if config.core_count >= first_core {
        (config.core_count - first_core) as u16
    } else {
        0u16
    };
    match config.limit_cores_offered {
        Some(limit) => if limit < possible {
            limit
        } else {
            possible
        },
        None => possible,
    }
}

/// The sale that follows `old_sale`, with `first_core` cores taken by reservations and
/// leases.
pub open spec fn next_sale(
    old_sale: SaleInfoRecord,
    config: ConfigRecord,
    now: BlockNumber,
    first_core: CoreIndex,
) -> SaleInfoRecord {
    let reserve_price = next_reserve_price(old_sale);
    let cores_offered = cores_to_offer(config, first_core);
    SaleInfoRecord {
        sale_start: saturated_block(now + config.interlude_length),
        leadin_length: config.leadin_length,
        start_price: saturated_balance(2 * reserve_price),
        reserve_price,
        region_begin: old_sale.region_end,
        region_end: saturated_timeslice(old_sale.region_end + config.region_length),
        first_core,
        ideal_cores_sold: scaled(config.ideal_bulk_proportion.parts, cores_offered as u128) as u16,
        cores_offered,
        cores_sold: 0,
    }
}

/// The broker's state after the sale `old_sale` was rotated at block `now`.
pub open spec fn rotated(
    s: BrokerState,
    old_sale: SaleInfoRecord,
    config: ConfigRecord,
    now: BlockNumber,
) -> BrokerState {
    let begin = old_sale.region_end;
    let end = saturated_timeslice(begin + config.region_length);
    let price = next_reserve_price(old_sale);
    let old_pooled = 80 * unsold_cores(old_sale);
    let reserved = s.reservations.len() as int;
    let leased = s.leases.len() as int;
    let pooled = reserved_pool_parts(s.reservations, reserved);
    let cores_reserved = saturated_core(reserved);
    let cores_taken = saturated_core(cores_reserved + leased);
    let workplan = leases_planned(
        reservations_planned(
            unsold_pooled(s.workplan, old_sale, old_sale.cores_offered as int),
            s.reservations,
            begin,
            0,
            reserved,
        ),
        s.leases,
        begin,
        cores_reserved,
        leased,
    );
    let pool_io = pool_io_shifted(
        pool_io_shifted(
            pool_io_shifted(
                pool_io_shifted(s.pool_io, old_sale.region_begin, old_pooled),
                old_sale.region_end,
                -old_pooled,
            ),
            begin,
            pooled as int,
        ),
        end,
        -pooled,
    );
    BrokerState {
        workplan,
        pool_io,
        allowed_renewals: leases_renewable(
            s.allowed_renewals,
            s.leases,
            begin,
            end,
            price,
            cores_reserved,
            leased,
        ),
        leases: leases_kept(s.leases, begin, end, leased),
        sale_info: Some(next_sale(old_sale, config, now, cores_taken)),
        ..s
    }
}

/// The sum of two signed part counts, held to their range.
fn add_parts(a: SignedPartCount, b: SignedPartCount) -> (r: SignedPartCount)
    ensures
        r == saturated_parts(a + b),
{
    let wide: i64 = a as i64 + b as i64;
    if wide > i32::MAX as i64 {
        i32::MAX
    } else if wide < i32::MIN as i64 {
        i32::MIN
    } else {
        wide as i32
    }
}

/// The key of a core's plan for the region that begins at `begin`.
pub fn plan_key_of(begin: Timeslice, core: CoreIndex) -> (key: u128)
    ensures
        key == plan_key(begin, core),
{
    begin as u128 * 65536 + core as u128
}

/// A schedule of one item that covers the whole core.
fn whole_core(assignment: CoreAssignment) -> (schedule: Vec<ScheduleItem>)
    ensures
        schedule@ == seq![ScheduleItem { part: CorePart { bits: COMPLETE_BITS }, assignment }],
{
    let mut schedule: Vec<ScheduleItem> = Vec::new();
    schedule.push(ScheduleItem { part: CorePart::complete(), assignment });
    proof {
        assert(schedule@ =~= seq![
            ScheduleItem { part: CorePart { bits: COMPLETE_BITS }, assignment },
        ]);
    }
    schedule
}

/// Adds `delta` parts, all of them the system's, to the pool's change at `at`.
fn shift_pool_io(pool_io: &mut Table<PoolIoRecord>, at: Timeslice, delta: SignedPartCount)
    ensures
        final(pool_io)@ == pool_io_shifted(old(pool_io)@, at, delta as int),
{
    let before = match pool_io.get(at as u128) {
        Some(r) => *r,
        None => PoolIoRecord { total: 0, system: 0 },
    };
    pool_io.insert(
        at as u128,
        PoolIoRecord { total: add_parts(before.total, delta), system: add_parts(before.system, delta) },
    );
}

/// Gives the cores that the sale did not sell to the pool and returns the parts pooled.
fn pool_unsold(workplan: &mut Table<Vec<ScheduleItem>>, sale: &SaleInfoRecord) -> (pooled:
    SignedPartCount)
    ensures
        schedules_view(final(workplan)@) == unsold_pooled(
            schedules_view(old(workplan)@),
            *sale,
            sale.cores_offered as int,
        ),
        pooled == 80 * unsold_cores(*sale),
{
    let mut pooled: SignedPartCount = 0;
    let mut i: CoreIndex = sale.cores_sold;
    while i < sale.cores_offered
        invariant
            sale.cores_sold <= i,
            i <= sale.cores_offered || i == sale.cores_sold,
            pooled == 80 * (i - sale.cores_sold),
            schedules_view(workplan@) == unsold_pooled(schedules_view(old(workplan)@), *sale, i as int),
        decreases sale.cores_offered - i,
    {
        pooled = add_parts(pooled, POOLED_PER_CORE);
        let core = sale.first_core.saturating_add(i);
        let schedule = whole_core(CoreAssignment::Pool);
        proof {
            lemma_schedules_insert(workplan@, plan_key(sale.region_begin, core), schedule);
        }
        workplan.insert(plan_key_of(sale.region_begin, core), schedule);
        i += 1;
    }
    pooled
}

/// The parts that a schedule gives to the pool.
fn count_pool_parts(schedule: &Vec<ScheduleItem>) -> (parts: SignedPartCount)
    ensures
        parts == pool_parts(schedule@, schedule@.len() as int),
{
    let mut parts: SignedPartCount = 0;
    let mut i: usize = 0;
    while i < schedule.len()
        invariant
            i <= schedule.len(),
            parts == pool_parts(schedule@, i as int),
        decreases schedule.len() - i,
    {
        match schedule[i].assignment {
            CoreAssignment::Pool => {
                parts = add_parts(parts, schedule[i].part.count_ones() as i32);
            },
            _ => {},
        }
        i += 1;
    }
    parts
}

/// Plans the reserved cores for the region that begins at `begin`, from core zero up,
/// and returns the first core left free and the parts pooled.
fn plan_reservations(
    workplan: &mut Table<Vec<ScheduleItem>>,
    reservations: &Vec<Vec<ScheduleItem>>,
    begin: Timeslice,
) -> (r: (CoreIndex, SignedPartCount))
    ensures
        schedules_view(final(workplan)@) == reservations_planned(
            schedules_view(old(workplan)@),
            reservations@.map_values(|s: Vec<ScheduleItem>| s@),
            begin,
            0,
            reservations@.len() as int,
        ),
        r.0 == saturated_core(reservations@.len() as int),
        r.1 == reserved_pool_parts(
            reservations@.map_values(|s: Vec<ScheduleItem>| s@),
            reservations@.len() as int,
        ),
{
    let ghost model = reservations@.map_values(|s: Vec<ScheduleItem>| s@);
    let mut first_core: CoreIndex = 0;
    let mut pooled: SignedPartCount = 0;
    let mut k: usize = 0;
    while k < reservations.len()
        invariant
            k <= reservations.len(),
            model == reservations@.map_values(|s: Vec<ScheduleItem>| s@),
            first_core == saturated_core(k as int),
            pooled == reserved_pool_parts(model, k as int),
            schedules_view(workplan@) == reservations_planned(
                schedules_view(old(workplan)@),
                model,
                begin,
                0,
                k as int,
            ),
        decreases reservations.len() - k,
    {
        let parts = count_pool_parts(&reservations[k]);
        pooled = add_parts(pooled, parts);
        let schedule = copy_vec(&reservations[k]);
        proof {
            assert(model[k as int] == reservations@[k as int]@);
            lemma_schedules_insert(workplan@, plan_key(begin, first_core), schedule);
        }
        workplan.insert(plan_key_of(begin, first_core), schedule);
        first_core = first_core.saturating_add(1);
        k += 1;
    }
    (first_core, pooled)
}

/// Plans the leased cores for the region from `begin` to `end`, from `first_core` up.
/// A lease that ends within the region becomes renewable at `price` and is dropped from
/// the list. Returns the first core left free and the leases that stay.
fn plan_leases(
    workplan: &mut Table<Vec<ScheduleItem>>,
    renewals: &mut Table<AllowedRenewalRecord>,
    leases: &Vec<(Timeslice, TaskId)>,
    begin: Timeslice,
    end: Timeslice,
    price: Balance,
    first_core: CoreIndex,
) -> (r: (CoreIndex, Vec<(Timeslice, TaskId)>))
    ensures
        schedules_view(final(workplan)@) == leases_planned(
            schedules_view(old(workplan)@),
            leases@,
            begin,
            first_core,
            leases@.len() as int,
        ),
        renewals_view(final(renewals)@) == leases_renewable(
            renewals_view(old(renewals)@),
            leases@,
            begin,
            end,
            price,
            first_core,
            leases@.len() as int,
        ),
        r.0 == saturated_core(first_core + leases@.len()),
        r.1@ == leases_kept(leases@, begin, end, leases@.len() as int),
{
    let mut core: CoreIndex = first_core;
    let mut kept: Vec<(Timeslice, TaskId)> = Vec::new();
    let mut k: usize = 0;
    while k < leases.len()
        invariant
            k <= leases.len(),
            core == saturated_core(first_core + k),
            kept@ == leases_kept(leases@, begin, end, k as int),
            schedules_view(workplan@) == leases_planned(
                schedules_view(old(workplan)@),
                leases@,
                begin,
                first_core,
                k as int,
            ),
            renewals_view(renewals@) == leases_renewable(
                renewals_view(old(renewals)@),
                leases@,
                begin,
                end,
                price,
                first_core,
                k as int,
            ),
        decreases leases.len() - k,
    {
        let (until, task) = leases[k];
        let schedule = whole_core(CoreAssignment::Task(task));
        proof {
            lemma_schedules_insert(workplan@, plan_key(begin, core), schedule);
        }
        workplan.insert(plan_key_of(begin, core), schedule);
        let expiring = begin <= until && until < end;
        if expiring {
            let record = AllowedRenewalRecord {
                begin: end,
                price,
                completion: CompletionStatus::Complete(whole_core(CoreAssignment::Task(task))),
            };
            proof {
                lemma_renewals_insert(renewals@, core as u128, record);
            }
            renewals.insert(core as u128, record);
        } else {
            kept.push((until, task));
        }
        core = core.saturating_add(1);
        k += 1;
    }
    (core, kept)
}

impl Pallet {
    /// Closes the sale `old_sale` and opens the next one, at block `now`.
    ///
    /// The cores that were offered and not sold go to the pool for the old region. The
    /// reserve price moves with how the sale went, and the start price is twice the
    /// reserve price. For the new region, which begins where the old one ended, the
    /// reserved cores are planned first and the leased cores after them; a lease that
    /// ends within the new region becomes renewable and leaves the list. The cores left,
    /// up to the configured cap, are offered in the new sale.
    pub fn rotate_sale(&mut self, old_sale: SaleInfoRecord, config: &ConfigRecord, now: BlockNumber) -> (r:
        Option<()>)
        ensures
            r == Some(()),
            final(self)@ == rotated(old(self)@, old_sale, *config, now),
    {
        let old_pooled = pool_unsold(&mut self.workplan, &old_sale);
        shift_pool_io(&mut self.pool_io, old_sale.region_begin, old_pooled);
        shift_pool_io(&mut self.pool_io, old_sale.region_end, -old_pooled);

        let reserve_price = if old_sale.cores_offered > 0 {
            Pallet::bump_price(
                old_sale.cores_offered,
                old_sale.ideal_cores_sold,
                old_sale.cores_sold,
                old_sale.reserve_price,
            )
        } else {
            old_sale.reserve_price
        };
        let start_price = reserve_price.saturating_add(reserve_price);

        let region_begin = old_sale.region_end;
        let region_end = region_begin.saturating_add(config.region_length);

        let (cores_reserved, pooled) = plan_reservations(
            &mut self.workplan,
            &self.reservations,
            region_begin,
        );
        shift_pool_io(&mut self.pool_io, region_begin, pooled);
        proof {
            assert(pooled >= 0) by {
                lemma_reserved_pool_parts_bounds(
                    old(self)@.reservations,
                    old(self)@.reservations.len() as int,
                );
            }
        }
        shift_pool_io(&mut self.pool_io, region_end, -pooled);

        let (first_core, kept) = plan_leases(
            &mut self.workplan,
            &mut self.allowed_renewals,
            &self.leases,
            region_begin,
            region_end,
            reserve_price,
            cores_reserved,
        );
        self.leases = kept;

        let max_possible_sales = config.core_count.saturating_sub(first_core);
        let cores_offered = match config.limit_cores_offered {
            Some(limit) => if limit < max_possible_sales {
                limit
            } else {
                max_possible_sales
            },
            None => max_possible_sales,
        };
        let ideal = config.ideal_bulk_proportion.mul(cores_offered as u128);
        let new_sale = SaleInfoRecord {
            sale_start: now.saturating_add(config.interlude_length),
            leadin_length: config.leadin_length,
            start_price,
            reserve_price,
            region_begin,
            region_end,
            first_core,
            ideal_cores_sold: ideal as u16,
            cores_offered,
            cores_sold: 0,
        };
        self.sale_info = Some(new_sale);
        proof {
            assert(final(self)@.workplan == rotated(old(self)@, old_sale, *config, now).workplan);
            assert(final(self)@.pool_io == rotated(old(self)@, old_sale, *config, now).pool_io);
        }
        Some(())
    }
}

/// The sale that a rotation opens begins where the old region ended, sells nothing yet,
/// aims at no more cores than it offers, offers no more than the configuration has left
/// or allows, and starts at no less than its reserve price.
pub proof fn lemma_next_sale_is_sound(
    old_sale: SaleInfoRecord,
    config: ConfigRecord,
    now: BlockNumber,
    first_core: CoreIndex,
)
    ensures
        ({
            let next = next_sale(old_sale, config, now, first_core);
            &&& next.region_begin == old_sale.region_end
            &&& next.region_end >= next.region_begin
            &&& next.cores_sold == 0
            &&& next.ideal_cores_sold <= next.cores_offered
            &&& next.first_core + next.cores_offered <= config.core_count || next.cores_offered == 0
            &&& config.limit_cores_offered is Some ==> next.cores_offered
                <= config.limit_cores_offered->0
            &&& next.start_price >= next.reserve_price
            &&& next.sale_start >= now
        }),
{
    let offered = cores_to_offer(config, first_core);
    crate::broker::ratio::lemma_scaled_bounds(config.ideal_bulk_proportion.parts, offered as u128);
}

/// The parts that schedules give to the pool are never negative.
pub proof fn lemma_pool_parts_bounds(schedule: Seq<ScheduleItem>, k: int)
    ensures
        pool_parts(schedule, k) >= 0,
    decreases k,
{
    if k > 0 {
        lemma_pool_parts_bounds(schedule, k - 1);
    }
}

/// The parts that reservations give to the pool are never negative.
pub proof fn lemma_reserved_pool_parts_bounds(reservations: Seq<Seq<ScheduleItem>>, k: int)
    ensures
        reserved_pool_parts(reservations, k) >= 0,
    decreases k,
{
    if k > 0 {
        lemma_reserved_pool_parts_bounds(reservations, k - 1);
        lemma_pool_parts_bounds(reservations[k - 1], reservations[k - 1].len() as int);
    }
}

} // verus!
