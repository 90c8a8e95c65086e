//! The broker's tick: one timeslice further, with the sale rotated when its region is
//! due, the pool's size recorded, every core scheduled and the pool's revenue split.

use crate::broker::price::saturated_balance;
use crate::broker::rotation::{rotated, saturated_block, saturated_timeslice};
use crate::broker::types::{
    AccountId, Balance, BlockNumber, BrokerEffect, BrokerEffectView, BrokerState, ConfigRecord,
    CoreIndex, Error, InstaPoolHistoryRecord, Pallet, PartCount, PoolIoRecord, SignedPartCount,
    StatusRecord, Timeslice,
};
use crate::broker::workload::{cores_scheduled, lemma_cores_scheduled_frame};
use vstd::prelude::*;

verus! {

/// `x`, held to the range of part counts.
pub open spec fn saturated_count(x: int) -> PartCount {
    if x > u32::MAX {
        u32::MAX
    } else if x < 0 {
        0u32
    } else {
        x as u32
    }
}

/// The timeslice that the relay block `block` lies in, held to the range of timeslices.
pub open spec fn timeslice_of(block: BlockNumber, period: BlockNumber) -> Timeslice {
    saturated_timeslice(block as int / period as int)
}

/// The relay block at which `timeslice` begins, held to the range of block numbers.
pub open spec fn timeslice_begin(timeslice: Timeslice, period: BlockNumber) -> BlockNumber {
    saturated_block(timeslice as int * period as int)
}

/// The pool's change that takes effect at `timeslice`, zero where none is recorded.
pub open spec fn pool_change(s: BrokerState, timeslice: Timeslice) -> PoolIoRecord {
    if s.pool_io.contains_key(timeslice as u128) {
        s.pool_io[timeslice as u128]
    } else {
        PoolIoRecord { total: 0, system: 0 }
    }
}

/// The status after the pool's change at `timeslice` was applied to the pool's size.
pub open spec fn pool_status(s: BrokerState, timeslice: Timeslice, status: StatusRecord) -> StatusRecord {
    let change = pool_change(s, timeslice);
    StatusRecord {
        pool_size: saturated_count(status.pool_size + change.total),
        system_pool_size: saturated_count(status.system_pool_size + change.system),
        last_timeslice: status.last_timeslice,
    }
}

/// The state after the pool's change at `timeslice` was taken and the pool's new size
/// recorded in the history.
pub open spec fn pool_recorded(s: BrokerState, timeslice: Timeslice, status: StatusRecord) -> BrokerState {
    let after = pool_status(s, timeslice, status);
    BrokerState {
        pool_io: s.pool_io.remove(timeslice as u128),
        pool_history: s.pool_history.insert(
            timeslice as u128,
            InstaPoolHistoryRecord {
                total_contributions: after.pool_size,
                system_contributions: after.system_pool_size,
                maybe_payout: None,
            },
        ),
        ..s
    }
}

/// The state after `timeslice` was committed: the pool recorded and every core of the
/// configuration scheduled.
pub open spec fn timeslice_processed(
    s: BrokerState,
    timeslice: Timeslice,
    status: StatusRecord,
    config: ConfigRecord,
) -> BrokerState {
    cores_scheduled(
        pool_recorded(s, timeslice, status),
        timeslice,
        timeslice_begin(timeslice, s.timeslice_period),
        config.core_count as int,
    )
}

/// The pool's record for `timeslice`, empty where there is none.
pub open spec fn history_at(s: BrokerState, timeslice: Timeslice) -> InstaPoolHistoryRecord {
    if s.pool_history.contains_key(timeslice as u128) {
        s.pool_history[timeslice as u128]
    } else {
        InstaPoolHistoryRecord { total_contributions: 0, system_contributions: 0, maybe_payout: None }
    }
}

/// The system's part of `amount`: in proportion to its contributions, rounded down; the
/// product saturates before it is divided.
pub open spec fn system_payout(amount: Balance, record: InstaPoolHistoryRecord) -> Balance {
    (saturated_balance(amount * record.system_contributions) / (
    record.total_contributions as u128)) as u128
}

/// What processing a revenue notification returns: `Ok(false)` without a notification;
/// an error where the timeslice's revenue is already known or its record does not add
/// up; `Ok(true)` otherwise.
pub open spec fn revenue_outcome(s: BrokerState, revenue: Option<(BlockNumber, Balance)>) -> Result<
    bool,
    Error,
> {
    match revenue {
        None => Ok(false),
        Some((until, amount)) => {
            let record = history_at(s, timeslice_of(until, s.timeslice_period));
            if amount == 0 {
                Ok(true)
            } else if record.maybe_payout is Some {
                Err(Error::RevenueAlreadyKnown)
            } else if record.total_contributions < record.system_contributions
                || record.total_contributions == 0 {
                Err(Error::InvalidContributions)
            } else {
                Ok(true)
            }
        },
    }
}

/// The state after a revenue notification was processed. A notification of no revenue
/// clears the timeslice's record. Otherwise the system's part is charged to the
/// broker's account, and what is left is recorded for the other contributors, or the
/// record is cleared where nothing or nobody is left. A rejected notification changes
/// nothing.
pub open spec fn revenue_processed(s: BrokerState, revenue: Option<(BlockNumber, Balance)>) -> BrokerState {
    match revenue {
        None => s,
        Some((until, amount)) => {
            let timeslice = timeslice_of(until, s.timeslice_period);
            let record = history_at(s, timeslice);
            if amount == 0 {
                BrokerState { pool_history: s.pool_history.remove(timeslice as u128), ..s }
            } else if revenue_outcome(s, revenue) is Err {
                s
            } else {
                let payout = system_payout(amount, record);
                let left = (amount - payout) as u128;
                let others = (record.total_contributions - record.system_contributions) as u32;
                let effects = s.effects.push(
                    BrokerEffectView::Charge { who: s.pallet_account, amount: payout },
                );
                if left != 0 && others > 0 {
                    BrokerState {
                        pool_history: s.pool_history.insert(
                            timeslice as u128,
                            InstaPoolHistoryRecord {
                                total_contributions: others,
                                system_contributions: 0,
                                maybe_payout: Some(left),
                            },
                        ),
                        effects,
                        ..s
                    }
                } else {
                    BrokerState {
                        pool_history: s.pool_history.remove(timeslice as u128),
                        effects,
                        ..s
                    }
                }
            }
        },
    }
}

/// Whether a tick has something to do: there is a status, and the relay chain, at block
/// `latest`, is past the last timeslice ticked.
pub open spec fn tick_due(s: BrokerState, latest: BlockNumber) -> bool {
    s.status is Some && s.status->0.last_timeslice < timeslice_of(latest, s.timeslice_period)
}

/// What a tick returns.
pub open spec fn tick_outcome(
    s: BrokerState,
    now: BlockNumber,
    latest: BlockNumber,
    revenue: Option<(BlockNumber, Balance)>,
) -> Result<(), Error> {
    if s.status is None {
        Err(Error::Uninitialized)
    } else if !tick_due(s, latest) {
        Err(Error::NothingToDo)
    } else if s.configuration is None {
        Err(Error::Uninitialized)
    } else {
        match revenue_outcome(before_revenue(s, now, latest), revenue) {
            Ok(_) => Ok(()),
            Err(e) => Err(e),
        }
    }
}

/// The state of a tick that is due, with a configuration, before the revenue is
/// processed: the revenue of the new timeslice is asked for, the sale is rotated where
/// the timeslice to commit has reached its region, and that timeslice is committed.
pub open spec fn before_revenue(s: BrokerState, now: BlockNumber, latest: BlockNumber) -> BrokerState {
    let status = s.status->0;
    let config = s.configuration->0;
    let last = (status.last_timeslice + 1) as u32;
    let asked = BrokerState {
        effects: s.effects.push(
            BrokerEffectView::RequestRevenueInfoAt(timeslice_begin(last, s.timeslice_period)),
        ),
        ..s
    };
    let commit = saturated_timeslice(last + config.advance_notice);
    let sold = if s.sale_info is Some && commit >= s.sale_info->0.region_begin {
        rotated(asked, s.sale_info->0, config, now)
    } else {
        asked
    };
    timeslice_processed(sold, commit, StatusRecord { last_timeslice: last, ..status }, config)
}

/// The status that a tick stores when it succeeds.
pub open spec fn ticked_status(s: BrokerState, now: BlockNumber) -> StatusRecord {
    let status = s.status->0;
    let config = s.configuration->0;
    let last = (status.last_timeslice + 1) as u32;
    let asked = BrokerState {
        effects: s.effects.push(
            BrokerEffectView::RequestRevenueInfoAt(timeslice_begin(last, s.timeslice_period)),
        ),
        ..s
    };
    let commit = saturated_timeslice(last + config.advance_notice);
    let sold = if s.sale_info is Some && commit >= s.sale_info->0.region_begin {
        rotated(asked, s.sale_info->0, config, now)
    } else {
        asked
    };
    pool_status(sold, commit, StatusRecord { last_timeslice: last, ..status })
}

/// The state after a tick at block `now`, with the relay chain at block `latest` and
/// the revenue notification `revenue` pending.
///
/// A tick without a status, or one that is not due, changes nothing. One that is due
/// asks for the new timeslice's revenue; without a configuration it stops there.
/// Otherwise it commits a timeslice and processes the revenue; the new status is stored
/// only where the revenue was accepted.
pub open spec fn ticked(
    s: BrokerState,
    now: BlockNumber,
    latest: BlockNumber,
    revenue: Option<(BlockNumber, Balance)>,
) -> BrokerState {
    if !tick_due(s, latest) {
        s
    } else if s.configuration is None {
        let last = (s.status->0.last_timeslice + 1) as u32;
        BrokerState {
            effects: s.effects.push(
                BrokerEffectView::RequestRevenueInfoAt(timeslice_begin(last, s.timeslice_period)),
            ),
            ..s
        }
    } else {
        let processed = revenue_processed(before_revenue(s, now, latest), revenue);
        if revenue_outcome(before_revenue(s, now, latest), revenue) is Ok {
            BrokerState { status: Some(ticked_status(s, now)), ..processed }
        } else {
            processed
        }
    }
}

/// A tick that is not due changes nothing and says so: `Uninitialized` without a
/// status, `NothingToDo` with one.
pub proof fn lemma_tick_not_due_changes_nothing(
    s: BrokerState,
    now: BlockNumber,
    latest: BlockNumber,
    revenue: Option<(BlockNumber, Balance)>,
)
    requires
        !tick_due(s, latest),
    ensures
        ticked(s, now, latest, revenue) == s,
        tick_outcome(s, now, latest, revenue) == if s.status is None {
            Err::<(), Error>(Error::Uninitialized)
        } else {
            Err::<(), Error>(Error::NothingToDo)
        },
{
}

/// A tick that succeeds moves the broker on by exactly one timeslice.
pub proof fn lemma_tick_advances_one_timeslice(
    s: BrokerState,
    now: BlockNumber,
    latest: BlockNumber,
    revenue: Option<(BlockNumber, Balance)>,
)
    requires
        tick_outcome(s, now, latest, revenue) is Ok,
    ensures
        s.status is Some,
        ticked(s, now, latest, revenue).status is Some,
        ticked(s, now, latest, revenue).status->0.last_timeslice == s.status->0.last_timeslice + 1,
        s.status->0.last_timeslice < timeslice_of(latest, s.timeslice_period),
{
}

/// `a + b`, held to the range of part counts.
fn shift_count(a: PartCount, b: SignedPartCount) -> (r: PartCount)
    ensures
        r == saturated_count(a + b),
{
    let wide: i64 = a as i64 + b as i64;
    if wide > u32::MAX as i64 {
        u32::MAX
    } else if wide < 0 {
        0
    } else {
        wide as u32
    }
}

/// The timeslice that a relay block lies in.
fn timeslice_at(block: BlockNumber, period: BlockNumber) -> (t: Timeslice)
    requires
        period > 0,
    ensures
        t == timeslice_of(block, period),
{
    let q = block / period;
    if q > u32::MAX as u64 {
        u32::MAX
    } else {
        q as u32
    }
}

/// The relay block at which a timeslice begins.
fn begin_of(timeslice: Timeslice, period: BlockNumber) -> (b: BlockNumber)
    ensures
        b == timeslice_begin(timeslice, period),
{
    match (timeslice as u64).checked_mul(period) {
        Some(b) => b,
        None => u64::MAX,
    }
}

impl Pallet {
    /// Records an effect for the host.
    pub(crate) fn emit(&mut self, effect: BrokerEffect)
        ensures
            final(self)@ == (BrokerState { effects: old(self)@.effects.push(effect@), ..old(self)@ }),
    {
        proof {
            assert(self.effects@.push(effect).map_values(|e: BrokerEffect| e@)
                =~= self.effects@.map_values(|e: BrokerEffect| e@).push(effect@));
        }
        self.effects.push(effect);
    }

    /// The account that holds the broker's funds.
    pub fn account_id(&self) -> (who: AccountId)
        ensures
            who == self.pallet_account,
    {
        self.pallet_account
    }

    /// The timeslice that the relay chain is in when its latest block is `latest`.
    pub fn current_timeslice(&self, latest: BlockNumber) -> (t: Timeslice)
        requires
            self.timeslice_period > 0,
        ensures
            t == timeslice_of(latest, self.timeslice_period),
    {
        timeslice_at(latest, self.timeslice_period)
    }

    /// Whether a tick would do anything with the relay chain at block `latest`.
    pub fn tick_is_due(&self, latest: BlockNumber) -> (due: bool)
        requires
            self.timeslice_period > 0,
        ensures
            due == tick_due(self@, latest),
    {
        match self.status {
            Some(status) => status.last_timeslice < self.current_timeslice(latest),
            None => false,
        }
    }

    /// Applies the pool's change at `timeslice` to the pool's size in `status`, and
    /// records the new size in the history.
    pub fn process_pool(&mut self, timeslice: Timeslice, status: &mut StatusRecord)
        ensures
            *final(status) == pool_status(old(self)@, timeslice, *old(status)),
            final(self)@ == pool_recorded(old(self)@, timeslice, *old(status)),
    {
        let change = match self.pool_io.remove(timeslice as u128) {
            Some(r) => r,
            None => PoolIoRecord { total: 0, system: 0 },
        };
        status.pool_size = shift_count(status.pool_size, change.total);
        status.system_pool_size = shift_count(status.system_pool_size, change.system);
        let record = InstaPoolHistoryRecord {
            total_contributions: status.pool_size,
            system_contributions: status.system_pool_size,
            maybe_payout: None,
        };
        self.pool_history.insert(timeslice as u128, record);
    }

    /// Commits `timeslice`: the pool is processed, then every core is scheduled, lowest
    /// first.
    pub fn process_timeslice(&mut self, timeslice: Timeslice, status: &mut StatusRecord, config: &ConfigRecord)
        ensures
            *final(status) == pool_status(old(self)@, timeslice, *old(status)),
            final(self)@ == timeslice_processed(old(self)@, timeslice, *old(status), *config),
    {
        self.process_pool(timeslice, status);
        let rc_begin = begin_of(timeslice, self.timeslice_period);
        let ghost start = self@;
        let mut core: CoreIndex = 0;
        while core < config.core_count
            invariant
                core <= config.core_count,
                self@ == cores_scheduled(start, timeslice, rc_begin, core as int),
            decreases config.core_count - core,
        {
            self.process_core_schedule(timeslice, rc_begin, core);
            core += 1;
        }
    }

    /// Processes a notification of the pool's revenue: the amount `revenue.1` earned up
    /// to the relay block `revenue.0`.
    pub fn process_revenue(&mut self, revenue: Option<(BlockNumber, Balance)>) -> (r: Result<bool, Error>)
        requires
            old(self).timeslice_period > 0,
        ensures
            r == revenue_outcome(old(self)@, revenue),
            final(self)@ == revenue_processed(old(self)@, revenue),
    {
        let (until, amount) = match revenue {
            Some(n) => n,
            None => {
                return Ok(false);
            },
        };
        let timeslice = timeslice_at(until, self.timeslice_period);
        if amount == 0 {
            let _ = self.pool_history.remove(timeslice as u128);
            return Ok(true);
        }
        let mut record = match self.pool_history.get(timeslice as u128) {
            Some(r) => *r,
            None => InstaPoolHistoryRecord {
                total_contributions: 0,
                system_contributions: 0,
                maybe_payout: None,
            },
        };
        if record.maybe_payout.is_some() {
            return Err(Error::RevenueAlreadyKnown);
        }
        if record.total_contributions < record.system_contributions {
            return Err(Error::InvalidContributions);
        }
        if record.total_contributions == 0 {
            return Err(Error::InvalidContributions);
        }
        let product = match amount.checked_mul(record.system_contributions as u128) {
            Some(p) => p,
            None => u128::MAX,
        };
        let payout = product / record.total_contributions as u128;
        proof {
            let total = record.total_contributions as int;
            let system = record.system_contributions as int;
            assert(payout <= amount) by (nonlinear_arith)
                requires
                    0 <= system <= total,
                    total > 0,
                    0 <= product <= amount * system,
                    payout == product as int / total,
            {
                assert(amount * system <= amount * total);
                assert((amount * total) / total == amount);
                assert(product as int / total <= (amount * total) / total);
            }
        }
        let who = self.account_id();
        self.emit(BrokerEffect::Charge { who, amount: payout });
        record.total_contributions = record.total_contributions - record.system_contributions;
        record.system_contributions = 0;
        let left = amount - payout;
        if left != 0 && record.total_contributions > 0 {
            record.maybe_payout = Some(left);
            self.pool_history.insert(timeslice as u128, record);
        } else {
            let _ = self.pool_history.remove(timeslice as u128);
        }
        Ok(true)
    }

    /// Moves the broker one timeslice on, at block `now`, with the relay chain at block
    /// `latest`. `revenue` is the revenue notification that is pending, if any; it is
    /// used up unless the tick returns `Uninitialized` or `NothingToDo`.
    pub fn do_tick(
        &mut self,
        now: BlockNumber,
        latest: BlockNumber,
        revenue: Option<(BlockNumber, Balance)>,
    ) -> (r: Result<(), Error>)
        requires
            old(self).timeslice_period > 0,
        ensures
            r == tick_outcome(old(self)@, now, latest, revenue),
            final(self)@ == ticked(old(self)@, now, latest, revenue),
    {
        let mut status = match self.status {
            Some(s) => s,
            None => {
                return Err(Error::Uninitialized);
            },
        };
        let current = self.current_timeslice(latest);
        if !(status.last_timeslice < current) {
            return Err(Error::NothingToDo);
        }
        status.last_timeslice = status.last_timeslice + 1;
        let at = begin_of(status.last_timeslice, self.timeslice_period);
        self.emit(BrokerEffect::RequestRevenueInfoAt(at));
        let config = match self.configuration {
            Some(c) => c,
            None => {
                return Err(Error::Uninitialized);
            },
        };
        let commit = status.last_timeslice.saturating_add(config.advance_notice);
        match self.sale_info {
            Some(sale) => {
                if commit >= sale.region_begin {
                    let _ = self.rotate_sale(sale, &config, now);
                }
            },
            None => {},
        }
        let ghost sold = self@;
        self.process_timeslice(commit, &mut status, &config);
        proof {
            lemma_cores_scheduled_frame(
                pool_recorded(sold, commit, StatusRecord { last_timeslice: status.last_timeslice, ..old(self)@.status->0 }),
                commit,
                timeslice_begin(commit, sold.timeslice_period),
                config.core_count as int,
            );
        }
        match self.process_revenue(revenue) {
            Ok(_) => {},
            Err(e) => {
                return Err(e);
            },
        }
        self.status = Some(status);
        Ok(())
    }
}

} // verus!
