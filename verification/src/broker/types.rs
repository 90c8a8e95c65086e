//! The records of the broker and the mathematical model of its state.

use crate::broker::mask::CorePart;
use crate::broker::ratio::PerBillion;
use crate::sorting::Ranked;
use crate::store::Table;
use vstd::prelude::*;

verus! {

/// Index of a period of relay-chain time, `timeslice_period` blocks long.
pub type Timeslice = u32;

/// Index of a core.
pub type CoreIndex = u16;

/// Identifier of a task that can be assigned to a core.
pub type TaskId = u32;

/// An amount of currency.
pub type Balance = u128;

/// A block number, of this chain or of the relay chain.
pub type BlockNumber = u64;

/// An account.
pub type AccountId = u64;

/// A count of core parts that may be negative: a change of the pool's size.
pub type SignedPartCount = i32;

/// A count of core parts.
pub type PartCount = u32;

/// A share of a core in units of 1/57,600.
pub type PartsOf57600 = u16;

/// The number of shares that make up a whole core.
pub const WHOLE_CORE: u16 = 57_600;

/// The shares that one part of a core mask stands for.
pub const SHARES_PER_PART: u16 = 720;

/// The most items a schedule can hold.
pub const MAX_SCHEDULE_ITEMS: usize = 80;

/// What a core, or a part of it, is used for.
#[derive(Clone, Copy, Debug, PartialEq, Eq, Structural)]
pub enum CoreAssignment {
    /// Nothing.
    Idle,
    /// The shared pool of instantaneous core time.
    Pool,
    /// One task.
    Task(TaskId),
}

/// The position of an assignment in the order `Idle`, `Pool`, then tasks by identifier.
pub open spec fn assignment_rank(a: CoreAssignment) -> int {
    match a {
        CoreAssignment::Idle => 0,
        CoreAssignment::Pool => 1,
        CoreAssignment::Task(t) => 2 + t as int,
    }
}

impl CoreAssignment {
    /// The position of the assignment in the order `Idle`, `Pool`, then tasks by identifier.
    pub fn rank_value(&self) -> (r: u64)
        ensures
            r == assignment_rank(*self),
    {
        match self {
            CoreAssignment::Idle => 0,
            CoreAssignment::Pool => 1,
            CoreAssignment::Task(t) => 2 + (*t as u64),
        }
    }
}

/// Shares of a core are ordered by assignment first and by size second.
impl Ranked for (CoreAssignment, PartsOf57600) {
    open spec fn rank(&self) -> int {
        assignment_rank(self.0) * 65536 + self.1 as int
    }

    fn ranks_at_most(&self, other: &Self) -> (b: bool) {
        let a = self.0.rank_value();
        let b = other.0.rank_value();
        a < b || (a == b && self.1 <= other.1)
    }
}

/// An assignment together with the parts of the core it covers.
#[derive(Clone, Copy, Debug, PartialEq, Eq, Structural)]
pub struct ScheduleItem {
    pub part: CorePart,
    pub assignment: CoreAssignment,
}

/// The identity of a region of core time: a period's start, a core and the parts of it.
#[derive(Clone, Copy, Debug, PartialEq, Eq, Structural)]
pub struct RegionId {
    pub begin: Timeslice,
    pub core: CoreIndex,
    pub part: CorePart,
}

/// What is recorded of a region: its end, its owner and the price paid for it.
#[derive(Clone, Copy, Debug, PartialEq, Eq, Structural)]
pub struct RegionRecord {
    pub end: Timeslice,
    pub owner: AccountId,
    pub paid: Option<Balance>,
}

/// The broker's progress.
#[derive(Clone, Copy, Debug, PartialEq, Eq, Structural)]
pub struct StatusRecord {
    /// The size of the shared pool, in core parts.
    pub pool_size: PartCount,
    /// The last timeslice that was ticked.
    pub last_timeslice: Timeslice,
    /// The part of the pool that the system contributed.
    pub system_pool_size: PartCount,
}

/// The broker's configuration.
#[derive(Clone, Copy, Debug, PartialEq, Eq, Structural)]
pub struct ConfigRecord {
    /// The number of cores the broker manages.
    pub core_count: CoreIndex,
    /// How many timeslices ahead of a region's start its assignments are committed.
    pub advance_notice: Timeslice,
    /// The blocks between a rotation and the start of the sale it opens.
    pub interlude_length: BlockNumber,
    /// The blocks over which the price falls from the start price to the reserve price.
    pub leadin_length: BlockNumber,
    /// The length of a region in timeslices.
    pub region_length: Timeslice,
    /// The share of the offered cores whose sale leaves the price unchanged.
    pub ideal_bulk_proportion: PerBillion,
    /// A cap on the cores offered in one sale.
    pub limit_cores_offered: Option<CoreIndex>,
    /// The rise in price from one renewal to the next.
    pub renewal_bump: PerBillion,
    /// How long a contribution to the pool can be claimed, in timeslices.
    pub contribution_timeout: Timeslice,
}

/// The sale that is open.
#[derive(Clone, Copy, Debug, PartialEq, Eq, Structural)]
pub struct SaleInfoRecord {
    pub sale_start: BlockNumber,
    pub leadin_length: BlockNumber,
    pub start_price: Balance,
    pub reserve_price: Balance,
    pub region_begin: Timeslice,
    pub region_end: Timeslice,
    pub first_core: CoreIndex,
    pub ideal_cores_sold: CoreIndex,
    pub cores_offered: CoreIndex,
    pub cores_sold: CoreIndex,
}

/// The change of the pool's size that takes effect at one timeslice.
#[derive(Clone, Copy, Debug, PartialEq, Eq, Structural)]
pub struct PoolIoRecord {
    pub total: SignedPartCount,
    pub system: SignedPartCount,
}

/// The pool's size during one timeslice and, once known, the revenue to pay out for it.
#[derive(Clone, Copy, Debug, PartialEq, Eq, Structural)]
pub struct InstaPoolHistoryRecord {
    pub total_contributions: PartCount,
    pub system_contributions: PartCount,
    pub maybe_payout: Option<Balance>,
}

/// How much of a core's schedule a renewal covers.
#[derive(Clone, Debug, PartialEq, Eq)]
pub enum CompletionStatus {
    /// Only these parts of the core.
    Partial(CorePart),
    /// The whole core, with this schedule.
    Complete(Vec<ScheduleItem>),
}

/// The model of a [`CompletionStatus`].
pub enum CompletionView {
    Partial(CorePart),
    Complete(Seq<ScheduleItem>),
}

impl View for CompletionStatus {
    type V = CompletionView;

    open spec fn view(&self) -> CompletionView {
        match self {
            CompletionStatus::Partial(p) => CompletionView::Partial(*p),
            CompletionStatus::Complete(s) => CompletionView::Complete(s@),
        }
    }
}

/// The right to renew a core's assignment for the region that begins at `begin`.
#[derive(Clone, Debug, PartialEq, Eq)]
pub struct AllowedRenewalRecord {
    pub begin: Timeslice,
    pub price: Balance,
    pub completion: CompletionStatus,
}

/// The model of an [`AllowedRenewalRecord`].
pub struct RenewalView {
    pub begin: Timeslice,
    pub price: Balance,
    pub completion: CompletionView,
}

impl View for AllowedRenewalRecord {
    type V = RenewalView;

    open spec fn view(&self) -> RenewalView {
        RenewalView { begin: self.begin, price: self.price, completion: self.completion@ }
    }
}

/// Something the broker asks of its host. The host performs the effects in order.
#[derive(Clone, Debug, PartialEq, Eq)]
pub enum BrokerEffect {
    /// Ask the relay chain for the pool's revenue up to this relay block.
    RequestRevenueInfoAt(BlockNumber),
    /// Assign a core from the relay block `begin` on.
    AssignCore {
        core: CoreIndex,
        begin: BlockNumber,
        assignment: Vec<(CoreAssignment, PartsOf57600)>,
        end_hint: Option<BlockNumber>,
    },
    /// Withdraw `amount` from `who` and hand it on as revenue.
    Charge { who: AccountId, amount: Balance },
    /// A region was dropped because its time had passed.
    Dropped { region_id: RegionId },
}

/// The model of a [`BrokerEffect`].
pub enum BrokerEffectView {
    RequestRevenueInfoAt(BlockNumber),
    AssignCore {
        core: CoreIndex,
        begin: BlockNumber,
        assignment: Seq<(CoreAssignment, PartsOf57600)>,
        end_hint: Option<BlockNumber>,
    },
    Charge { who: AccountId, amount: Balance },
    Dropped { region_id: RegionId },
}

impl View for BrokerEffect {
    type V = BrokerEffectView;

    open spec fn view(&self) -> BrokerEffectView {
        match self {
            BrokerEffect::RequestRevenueInfoAt(at) => BrokerEffectView::RequestRevenueInfoAt(*at),
            BrokerEffect::AssignCore { core, begin, assignment, end_hint } => {
                BrokerEffectView::AssignCore {
                    core: *core,
                    begin: *begin,
                    assignment: assignment@,
                    end_hint: *end_hint,
                }
            },
            BrokerEffect::Charge { who, amount } => BrokerEffectView::Charge {
                who: *who,
                amount: *amount,
            },
            BrokerEffect::Dropped { region_id } => BrokerEffectView::Dropped {
                region_id: *region_id,
            },
        }
    }
}

/// Why an operation of the broker failed.
#[derive(Clone, Copy, Debug, PartialEq, Eq, Structural)]
pub enum Error {
    /// The broker has no configuration or no status yet.
    Uninitialized,
    /// The relay chain has not moved past the last ticked timeslice.
    NothingToDo,
    /// The revenue of the timeslice is already recorded.
    RevenueAlreadyKnown,
    /// The pool's record does not add up: no contributions at all, or fewer in total
    /// than the system's own.
    InvalidContributions,
    /// No such region.
    UnknownRegion,
    /// The region belongs to someone else.
    NotOwner,
}

/// The key of the work plan of `core` for the region that begins at `begin`.
pub open spec fn plan_key(begin: Timeslice, core: CoreIndex) -> u128 {
    (begin as u128 * 65536 + core as u128) as u128
}

/// The key of a region.
pub open spec fn region_key(id: RegionId) -> u128 {
    (id.begin as int * 0x1_0000_0000_0000_0000_0000_0000 + id.core as int
        * 0x1_0000_0000_0000_0000_0000 + (id.part.bits % 0x1_0000_0000_0000_0000_0000) as int) as u128
}

/// The schedules held in a table, as sequences.
pub open spec fn schedules_view(m: Map<u128, Vec<ScheduleItem>>) -> Map<u128, Seq<ScheduleItem>> {
    m.map_values(|v: Vec<ScheduleItem>| v@)
}

/// The renewal records held in a table, as models.
pub open spec fn renewals_view(m: Map<u128, AllowedRenewalRecord>) -> Map<u128, RenewalView> {
    m.map_values(|r: AllowedRenewalRecord| r@)
}

/// Setting a key of a table of schedules sets it in the view.
pub proof fn lemma_schedules_insert(m: Map<u128, Vec<ScheduleItem>>, key: u128, v: Vec<ScheduleItem>)
    ensures
        schedules_view(m.insert(key, v)) == schedules_view(m).insert(key, v@),
{
    assert(schedules_view(m.insert(key, v)) =~= schedules_view(m).insert(key, v@));
}

/// Removing a key of a table of schedules removes it from the view.
pub proof fn lemma_schedules_remove(m: Map<u128, Vec<ScheduleItem>>, key: u128)
    ensures
        schedules_view(m.remove(key)) == schedules_view(m).remove(key),
{
    assert(schedules_view(m.remove(key)) =~= schedules_view(m).remove(key));
}

/// Setting a key of a table of renewal records sets it in the view.
pub proof fn lemma_renewals_insert(
    m: Map<u128, AllowedRenewalRecord>,
    key: u128,
    r: AllowedRenewalRecord,
)
    ensures
        renewals_view(m.insert(key, r)) == renewals_view(m).insert(key, r@),
{
    assert(renewals_view(m.insert(key, r)) =~= renewals_view(m).insert(key, r@));
}

/// The state of the broker.
pub struct Pallet {
    /// The length of a timeslice in relay-chain blocks.
    pub timeslice_period: BlockNumber,
    /// The account that holds the broker's funds.
    pub pallet_account: AccountId,
    pub configuration: Option<ConfigRecord>,
    pub status: Option<StatusRecord>,
    pub sale_info: Option<SaleInfoRecord>,
    /// The schedules of the cores that are reserved, lowest core first.
    pub reservations: Vec<Vec<ScheduleItem>>,
    /// The leases: each the timeslice until which it runs, and its task.
    pub leases: Vec<(Timeslice, TaskId)>,
    /// The plan of each core for one region, by [`plan_key`]; taken when the region is committed.
    pub workplan: Table<Vec<ScheduleItem>>,
    /// The standing schedule of each core.
    pub workload: Table<Vec<ScheduleItem>>,
    /// The changes of the pool's size, by the timeslice at which they take effect.
    pub pool_io: Table<PoolIoRecord>,
    /// The pool's size and revenue, by timeslice.
    pub pool_history: Table<InstaPoolHistoryRecord>,
    /// The renewals that are allowed, by core.
    pub allowed_renewals: Table<AllowedRenewalRecord>,
    /// The regions, by [`region_key`].
    pub regions: Table<RegionRecord>,
    /// What the host has yet to do, oldest first.
    pub effects: Vec<BrokerEffect>,
}

/// The mathematical model of the broker's state.
pub struct BrokerState {
    pub timeslice_period: BlockNumber,
    pub pallet_account: AccountId,
    pub configuration: Option<ConfigRecord>,
    pub status: Option<StatusRecord>,
    pub sale_info: Option<SaleInfoRecord>,
    pub reservations: Seq<Seq<ScheduleItem>>,
    pub leases: Seq<(Timeslice, TaskId)>,
    pub workplan: Map<u128, Seq<ScheduleItem>>,
    pub workload: Map<u128, Seq<ScheduleItem>>,
    pub pool_io: Map<u128, PoolIoRecord>,
    pub pool_history: Map<u128, InstaPoolHistoryRecord>,
    pub allowed_renewals: Map<u128, RenewalView>,
    pub regions: Map<u128, RegionRecord>,
    pub effects: Seq<BrokerEffectView>,
}

impl View for Pallet {
    type V = BrokerState;

    open spec fn view(&self) -> BrokerState {
        BrokerState {
            timeslice_period: self.timeslice_period,
            pallet_account: self.pallet_account,
            configuration: self.configuration,
            status: self.status,
            sale_info: self.sale_info,
            reservations: self.reservations@.map_values(|s: Vec<ScheduleItem>| s@),
            leases: self.leases@,
            workplan: schedules_view(self.workplan@),
            workload: schedules_view(self.workload@),
            pool_io: self.pool_io@,
            pool_history: self.pool_history@,
            allowed_renewals: renewals_view(self.allowed_renewals@),
            regions: self.regions@,
            effects: self.effects@.map_values(|e: BrokerEffect| e@),
        }
    }
}

} // verus!
