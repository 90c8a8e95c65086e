//! The regions of core time: how they are recorded and how they are used up.

use crate::broker::mask::{CorePart, COMPLETE_BITS};
use crate::broker::rotation::saturated_timeslice;
use crate::broker::types::{
    region_key, AccountId, Balance, BlockNumber, BrokerEffect, BrokerEffectView, BrokerState,
    CoreIndex, Error, Pallet, RegionId, RegionRecord, Timeslice,
};
use crate::store::Table;
use vstd::prelude::*;

verus! {

/// The region as it is known once the timeslices that are already committed are cut
/// off its start: a region that begins at or before the last committed timeslice
/// begins right after it.
pub open spec fn cut_to_uncommitted(s: BrokerState, region_id: RegionId) -> RegionId {
    let last_commit = saturated_timeslice(
        s.status->0.last_timeslice + s.configuration->0.advance_notice,
    );
    if region_id.begin <= last_commit {
        RegionId { begin: saturated_timeslice(last_commit + 1), ..region_id }
    } else {
        region_id
    }
}

/// What using up a region returns: an error where the broker has no configuration or
/// status, where the region is not recorded, or where `maybe_check_owner` is given and
/// is not the owner; else the region, cut to what is not yet committed, with its
/// record, or `None` where nothing of it is left.
pub open spec fn utilize_outcome(
    s: BrokerState,
    region_id: RegionId,
    maybe_check_owner: Option<AccountId>,
) -> Result<Option<(RegionId, RegionRecord)>, Error> {
    if s.configuration is None || s.status is None {
        Err(Error::Uninitialized)
    } else if !s.regions.contains_key(region_key(region_id)) {
        Err(Error::UnknownRegion)
    } else {
        let region = s.regions[region_key(region_id)];
        let cut = cut_to_uncommitted(s, region_id);
        if maybe_check_owner is Some && maybe_check_owner->0 != region.owner {
            Err(Error::NotOwner)
        } else if cut.begin < region.end {
            Ok(Some((cut, region)))
        } else {
            Ok(None)
        }
    }
}

/// The state after a region was used up. A failure changes nothing. Otherwise the
/// record under the region's identity, cut to what is not yet committed, is removed;
/// where nothing of the region is left, the host is told that it was dropped.
pub open spec fn utilized(
    s: BrokerState,
    region_id: RegionId,
    maybe_check_owner: Option<AccountId>,
) -> BrokerState {
    match utilize_outcome(s, region_id, maybe_check_owner) {
        Err(_) => s,
        Ok(left) => {
            let cut = cut_to_uncommitted(s, region_id);
            BrokerState {
                regions: s.regions.remove(region_key(cut)),
                effects: if left is Some {
                    s.effects
                } else {
                    s.effects.push(BrokerEffectView::Dropped { region_id: cut })
                },
                ..s
            }
        },
    }
}

/// The key under which a region is stored.
pub fn region_key_of(id: RegionId) -> (key: u128)
    ensures
        key == region_key(id),
{
    let low: u128 = id.part.bits % 0x1_0000_0000_0000_0000_0000;
    id.begin as u128 * 0x1_0000_0000_0000_0000_0000_0000 + id.core as u128
        * 0x1_0000_0000_0000_0000_0000 + low
}

impl Pallet {
    /// A broker without configuration, status or sale, whose timeslices are
    /// `timeslice_period` relay-chain blocks long.
    pub fn new(timeslice_period: BlockNumber, pallet_account: AccountId) -> (broker: Pallet)
        ensures
            broker@ == (BrokerState {
                timeslice_period,
                pallet_account,
                configuration: None,
                status: None,
                sale_info: None,
                reservations: Seq::empty(),
                leases: Seq::empty(),
                workplan: Map::empty(),
                workload: Map::empty(),
                pool_io: Map::empty(),
                pool_history: Map::empty(),
                allowed_renewals: Map::empty(),
                regions: Map::empty(),
                effects: Seq::empty(),
            }),
    {
        let broker = Pallet {
            timeslice_period,
            pallet_account,
            configuration: None,
            status: None,
            sale_info: None,
            reservations: Vec::new(),
            leases: Vec::new(),
            workplan: Table::new(),
            workload: Table::new(),
            pool_io: Table::new(),
            pool_history: Table::new(),
            allowed_renewals: Table::new(),
            regions: Table::new(),
            effects: Vec::new(),
        };
        proof {
            assert(broker@.reservations =~= Seq::empty());
            assert(broker@.effects =~= Seq::empty());
            assert(broker@.workplan =~= Map::empty());
            assert(broker@.workload =~= Map::empty());
            assert(broker@.allowed_renewals =~= Map::empty());
        }
        broker
    }

    /// Records a new region that covers the whole of `core` from `begin` to `end`, and
    /// returns its identity.
    pub fn issue(
        &mut self,
        core: CoreIndex,
        begin: Timeslice,
        end: Timeslice,
        owner: AccountId,
        paid: Option<Balance>,
    ) -> (id: RegionId)
        ensures
            id == (RegionId { begin, core, part: CorePart { bits: COMPLETE_BITS } }),
            final(self)@ == (BrokerState {
                regions: old(self)@.regions.insert(region_key(id), RegionRecord { end, owner, paid }),
                ..old(self)@
            }),
    {
        let id = RegionId { begin, core, part: CorePart::complete() };
        let key = region_key_of(id);
        self.regions.insert(key, RegionRecord { end, owner, paid });
        id
    }

    /// Uses up a region: takes it out of the records and returns what of it can still
    /// be committed. Where `maybe_check_owner` is given, it must be the owner.
    pub fn utilize(&mut self, region_id: RegionId, maybe_check_owner: Option<AccountId>) -> (r: Result<
        Option<(RegionId, RegionRecord)>,
        Error,
    >)
        ensures
            r == utilize_outcome(old(self)@, region_id, maybe_check_owner),
            final(self)@ == utilized(old(self)@, region_id, maybe_check_owner),
    {
        let mut region_id = region_id;
        let config = match self.configuration {
            Some(c) => c,
            None => {
                return Err(Error::Uninitialized);
            },
        };
        let status = match self.status {
            Some(s) => s,
            None => {
                return Err(Error::Uninitialized);
            },
        };
        let region = match self.regions.get(region_key_of(region_id)) {
            Some(r) => *r,
            None => {
                return Err(Error::UnknownRegion);
            },
        };
        match maybe_check_owner {
            Some(check_owner) => {
                if check_owner != region.owner {
                    return Err(Error::NotOwner);
                }
            },
            None => {},
        }
        let last_commit_timeslice = status.last_timeslice.saturating_add(config.advance_notice);
        if region_id.begin <= last_commit_timeslice {
            region_id.begin = last_commit_timeslice.saturating_add(1);
        }
        let _ = self.regions.remove(region_key_of(region_id));
        if region_id.begin < region.end {
            Ok(Some((region_id, region)))
        } else {
            self.emit(BrokerEffect::Dropped { region_id });
            Ok(None)
        }
    }
}

} // verus!
