use coretime_sched::broker::mask::CorePart;
use coretime_sched::broker::ratio::PerBillion;
use coretime_sched::broker::regions::region_key_of;
use coretime_sched::broker::rotation::plan_key_of;
use coretime_sched::broker::types::{
    AllowedRenewalRecord, BrokerEffect, CompletionStatus, ConfigRecord, CoreAssignment, Error,
    InstaPoolHistoryRecord, Pallet, PoolIoRecord, RegionId, RegionRecord, SaleInfoRecord,
    ScheduleItem, StatusRecord,
};
use coretime_sched::broker::workload::{assignment_of, coalesce, merge_schedule};

const PERIOD: u64 = 80;
const POT: u64 = 9000;

fn config() -> ConfigRecord {
    ConfigRecord {
        core_count: 10,
        advance_notice: 2,
        interlude_length: 1,
        leadin_length: 5,
        region_length: 3,
        ideal_bulk_proportion: PerBillion::from_parts(500_000_000),
        limit_cores_offered: None,
        renewal_bump: PerBillion::from_parts(100_000_000),
        contribution_timeout: 5,
    }
}

fn old_sale() -> SaleInfoRecord {
    SaleInfoRecord {
        sale_start: 0,
        leadin_length: 5,
        start_price: 2000,
        reserve_price: 1000,
        region_begin: 4,
        region_end: 7,
        first_core: 1,
        ideal_cores_sold: 2,
        cores_offered: 5,
        cores_sold: 3,
    }
}

fn low_bits(n: u32) -> CorePart {
    CorePart::from_bits((1u128 << n) - 1)
}

fn bits(from: u32, to: u32) -> CorePart {
    CorePart::from_bits(((1u128 << to) - 1) & !((1u128 << from) - 1))
}

fn whole(assignment: CoreAssignment) -> Vec<ScheduleItem> {
    vec![ScheduleItem { part: CorePart::complete(), assignment }]
}

fn plan(broker: &Pallet, begin: u32, core: u16) -> Option<Vec<ScheduleItem>> {
    broker.workplan.get(plan_key_of(begin, core)).cloned()
}

fn pool_io(broker: &Pallet, at: u32) -> Option<PoolIoRecord> {
    broker.pool_io.get(at as u128).copied()
}

#[test]
fn bump_price_raises_an_oversold_price() {
    assert_eq!(Pallet::bump_price(100, 50, 80, 1000), 1600);
    assert_eq!(Pallet::bump_price(100, 50, 80, 1), 2);
    assert_eq!(Pallet::bump_price(100, 50, 100, 1000), 2000);
    assert!(Pallet::bump_price(100, 50, 80, 12_345) > 12_345);
}

#[test]
fn bump_price_lowers_an_undersold_price() {
    assert_eq!(Pallet::bump_price(100, 50, 20, 1000), 400);
    assert_eq!(Pallet::bump_price(100, 50, 0, 1000), 0);
    assert_eq!(Pallet::bump_price(100, 50, 50, 1000), 1000);
    assert!(Pallet::bump_price(100, 50, 20, 12_345) < 12_345);
}

#[test]
fn bump_price_without_a_denominator_keeps_the_price() {
    // Nothing ideal and nothing sold.
    assert_eq!(Pallet::bump_price(10, 0, 0, 777), 777);
    // More sold than ideal, but nothing offered above the ideal.
    assert_eq!(Pallet::bump_price(5, 5, 6, 777), 777);
}

#[test]
fn bump_price_saturates() {
    assert_eq!(Pallet::bump_price(100, 50, 100, u128::MAX), u128::MAX);
    assert_eq!(Pallet::bump_price(100, 50, 80, u128::MAX - 1), u128::MAX);
}

#[test]
fn fractions_round_as_stated() {
    assert_eq!(PerBillion::from_rational(30, 50).parts, 600_000_000);
    assert_eq!(PerBillion::from_rational(1, 3).parts, 333_333_333);
    assert_eq!(PerBillion::from_rational(2, 3).parts, 666_666_666);
    assert_eq!(PerBillion::from_rational(7, 0).parts, 1_000_000_000);
    assert_eq!(PerBillion::from_rational(9, 8).parts, 1_000_000_000);
    assert_eq!(PerBillion::from_parts(400_000_000).left_from_one().parts, 600_000_000);
    assert_eq!(PerBillion::from_parts(3_000_000_000).parts, 1_000_000_000);
    assert_eq!(PerBillion { parts: 3_000_000_000 }.left_from_one().parts, 0);
    // A tie rounds down, anything above it rounds up.
    assert_eq!(PerBillion::from_parts(500_000_000).mul(3), 1);
    assert_eq!(PerBillion::from_parts(500_000_001).mul(3), 2);
    assert_eq!(PerBillion::from_parts(500_000_000).mul(1000), 500);
    assert_eq!(PerBillion::from_parts(333_333_333).mul(1000), 333);
    assert_eq!(PerBillion::from_parts(1_000_000_000).mul(u128::MAX), u128::MAX);
    assert_eq!(PerBillion { parts: 4_000_000_000 }.mul(12), 12);
    assert_eq!(PerBillion::zero().mul(12), 0);
}

#[test]
fn masks_count_their_parts() {
    assert_eq!(CorePart::void().count_ones(), 0);
    assert_eq!(CorePart::complete().count_ones(), 80);
    assert_eq!(low_bits(40).count_ones(), 40);
    assert_eq!(bits(40, 60).count_ones(), 20);
    assert_eq!(CorePart::from_bits(u128::MAX), CorePart::complete());
    assert!(low_bits(40).and(bits(40, 80)).is_void());
    assert!(low_bits(40).or(bits(40, 80)).is_complete());
    assert!(!low_bits(41).and(bits(40, 80)).is_void());
}

#[test]
fn rotate_sale_opens_the_next_sale() {
    let mut broker = Pallet::new(PERIOD, POT);
    let half_pool = vec![
        ScheduleItem { part: low_bits(40), assignment: CoreAssignment::Task(7) },
        ScheduleItem { part: bits(40, 80), assignment: CoreAssignment::Pool },
    ];
    broker.reservations = vec![whole(CoreAssignment::Pool), half_pool.clone()];
    broker.leases = vec![(8, 2000), (20, 2001), (5, 2002)];

    assert_eq!(broker.rotate_sale(old_sale(), &config(), 10), Some(()));

    // The two cores that were not sold went to the pool for the old region.
    assert_eq!(plan(&broker, 4, 4), Some(whole(CoreAssignment::Pool)));
    assert_eq!(plan(&broker, 4, 5), Some(whole(CoreAssignment::Pool)));
    assert_eq!(plan(&broker, 4, 3), None);
    assert_eq!(plan(&broker, 4, 6), None);
    assert_eq!(pool_io(&broker, 4), Some(PoolIoRecord { total: 160, system: 160 }));

    // Reservations take the lowest cores of the new region, leases the next.
    assert_eq!(plan(&broker, 7, 0), Some(whole(CoreAssignment::Pool)));
    assert_eq!(plan(&broker, 7, 1), Some(half_pool));
    assert_eq!(plan(&broker, 7, 2), Some(whole(CoreAssignment::Task(2000))));
    assert_eq!(plan(&broker, 7, 3), Some(whole(CoreAssignment::Task(2001))));
    assert_eq!(plan(&broker, 7, 4), Some(whole(CoreAssignment::Task(2002))));
    assert_eq!(plan(&broker, 7, 5), None);

    // At 7 the old pool leaves (-160) and the reserved parts come (+120).
    assert_eq!(pool_io(&broker, 7), Some(PoolIoRecord { total: -40, system: -40 }));
    assert_eq!(pool_io(&broker, 10), Some(PoolIoRecord { total: -120, system: -120 }));

    // Only the lease that ends within the new region becomes renewable and leaves.
    assert_eq!(broker.leases, vec![(20, 2001), (5, 2002)]);
    assert_eq!(
        broker.allowed_renewals.get(2).cloned(),
        Some(AllowedRenewalRecord {
            begin: 10,
            price: 1333,
            completion: CompletionStatus::Complete(whole(CoreAssignment::Task(2000))),
        })
    );
    assert_eq!(broker.allowed_renewals.get(3).cloned(), None);
    assert_eq!(broker.allowed_renewals.get(4).cloned(), None);

    assert_eq!(
        broker.sale_info,
        Some(SaleInfoRecord {
            sale_start: 11,
            leadin_length: 5,
            start_price: 2666,
            reserve_price: 1333,
            region_begin: 7,
            region_end: 10,
            first_core: 5,
            ideal_cores_sold: 2,
            cores_offered: 5,
            cores_sold: 0,
        })
    );
}

#[test]
fn rotate_sale_keeps_the_price_when_nothing_was_offered() {
    let mut broker = Pallet::new(PERIOD, POT);
    let sale = SaleInfoRecord { cores_offered: 0, cores_sold: 0, ideal_cores_sold: 0, ..old_sale() };
    assert_eq!(broker.rotate_sale(sale, &config(), 10), Some(()));
    let next = broker.sale_info.unwrap();
    assert_eq!(next.reserve_price, 1000);
    assert_eq!(next.start_price, 2000);
    assert_eq!(next.first_core, 0);
    assert_eq!(next.cores_offered, 10);
    assert_eq!(next.ideal_cores_sold, 5);
    assert_eq!(pool_io(&broker, 4), Some(PoolIoRecord { total: 0, system: 0 }));
}

#[test]
fn rotate_sale_respects_the_cap_and_the_core_count() {
    let mut broker = Pallet::new(PERIOD, POT);
    broker.leases = vec![(100, 1), (100, 2), (100, 3)];
    let capped = ConfigRecord { limit_cores_offered: Some(4), ..config() };
    assert_eq!(broker.rotate_sale(old_sale(), &capped, 10), Some(()));
    let next = broker.sale_info.unwrap();
    assert_eq!(next.first_core, 3);
    assert_eq!(next.cores_offered, 4);
    assert_eq!(next.ideal_cores_sold, 2);

    let mut broker = Pallet::new(PERIOD, POT);
    broker.leases = vec![(100, 1), (100, 2), (100, 3)];
    let small = ConfigRecord { core_count: 2, ..config() };
    assert_eq!(broker.rotate_sale(old_sale(), &small, 10), Some(()));
    let next = broker.sale_info.unwrap();
    assert_eq!(next.first_core, 3);
    assert_eq!(next.cores_offered, 0);
    assert_eq!(next.sale_start, 11);
}

#[test]
fn merging_keeps_what_the_plan_leaves_free() {
    let plan = vec![ScheduleItem { part: low_bits(40), assignment: CoreAssignment::Task(1) }];
    let workload = vec![
        ScheduleItem { part: bits(30, 50), assignment: CoreAssignment::Task(2) },
        ScheduleItem { part: bits(50, 80), assignment: CoreAssignment::Task(3) },
    ];
    assert_eq!(
        merge_schedule(&plan, &workload),
        vec![
            ScheduleItem { part: low_bits(40), assignment: CoreAssignment::Task(1) },
            ScheduleItem { part: bits(50, 80), assignment: CoreAssignment::Task(3) },
        ]
    );
    assert_eq!(merge_schedule(&Vec::new(), &workload), workload);
}

#[test]
fn merging_cuts_to_eighty_items() {
    let plan: Vec<ScheduleItem> = (0..50u32)
        .map(|i| ScheduleItem { part: bits(i, i + 1), assignment: CoreAssignment::Task(i) })
        .collect();
    let workload: Vec<ScheduleItem> = (0..50u32)
        .map(|i| ScheduleItem { part: CorePart::void(), assignment: CoreAssignment::Task(100 + i) })
        .collect();
    let merged = merge_schedule(&plan, &workload);
    assert_eq!(merged.len(), 80);
    assert_eq!(merged[49].assignment, CoreAssignment::Task(49));
    assert_eq!(merged[50].assignment, CoreAssignment::Task(100));
    assert_eq!(merged[79].assignment, CoreAssignment::Task(129));
}

#[test]
fn assignment_fills_with_idle_sorts_and_coalesces() {
    let schedule = vec![
        ScheduleItem { part: bits(0, 20), assignment: CoreAssignment::Task(5) },
        ScheduleItem { part: bits(20, 40), assignment: CoreAssignment::Pool },
        ScheduleItem { part: bits(40, 60), assignment: CoreAssignment::Task(5) },
    ];
    assert_eq!(
        assignment_of(&schedule),
        vec![
            (CoreAssignment::Idle, 14_400),
            (CoreAssignment::Pool, 14_400),
            (CoreAssignment::Task(5), 28_800),
        ]
    );
    assert_eq!(assignment_of(&Vec::new()), vec![(CoreAssignment::Idle, 57_600)]);
    assert_eq!(
        assignment_of(&whole(CoreAssignment::Task(9))),
        vec![(CoreAssignment::Task(9), 57_600)]
    );
    // Tasks come in the order of their identifiers.
    let two = vec![
        ScheduleItem { part: bits(0, 40), assignment: CoreAssignment::Task(9) },
        ScheduleItem { part: bits(40, 80), assignment: CoreAssignment::Task(3) },
    ];
    assert_eq!(
        assignment_of(&two),
        vec![(CoreAssignment::Task(3), 28_800), (CoreAssignment::Task(9), 28_800)]
    );
}

#[test]
fn coalescing_twice_changes_nothing_more() {
    let shares = vec![
        (CoreAssignment::Idle, 100),
        (CoreAssignment::Idle, 200),
        (CoreAssignment::Pool, 7),
        (CoreAssignment::Task(1), 1),
        (CoreAssignment::Task(1), 2),
        (CoreAssignment::Task(1), 3),
        (CoreAssignment::Task(2), 4),
        (CoreAssignment::Idle, 5),
    ];
    let once = coalesce(&shares);
    assert_eq!(
        once,
        vec![
            (CoreAssignment::Idle, 300),
            (CoreAssignment::Pool, 7),
            (CoreAssignment::Task(1), 6),
            (CoreAssignment::Task(2), 4),
            (CoreAssignment::Idle, 5),
        ]
    );
    assert_eq!(coalesce(&once), once);
    // The sum of a run saturates.
    assert_eq!(
        coalesce(&vec![(CoreAssignment::Pool, 60_000), (CoreAssignment::Pool, 60_000)]),
        vec![(CoreAssignment::Pool, u16::MAX)]
    );
}

#[test]
fn process_core_schedule_takes_the_plan_and_tells_the_host() {
    let mut broker = Pallet::new(PERIOD, POT);
    broker.workplan.insert(
        plan_key_of(7, 0),
        vec![ScheduleItem { part: low_bits(40), assignment: CoreAssignment::Task(1) }],
    );
    broker.workload.insert(0, whole(CoreAssignment::Task(2)));
    broker.process_core_schedule(7, 560, 0);
    assert_eq!(plan(&broker, 7, 0), None);
    assert_eq!(
        broker.workload.get(0).cloned(),
        Some(vec![ScheduleItem { part: low_bits(40), assignment: CoreAssignment::Task(1) }])
    );
    assert_eq!(
        broker.effects,
        vec![BrokerEffect::AssignCore {
            core: 0,
            begin: 560,
            assignment: vec![(CoreAssignment::Idle, 28_800), (CoreAssignment::Task(1), 28_800)],
            end_hint: None,
        }]
    );
}

#[test]
fn process_core_schedule_without_a_plan_keeps_the_workload() {
    let mut broker = Pallet::new(PERIOD, POT);
    broker.workload.insert(3, whole(CoreAssignment::Task(2)));
    broker.process_core_schedule(7, 560, 3);
    broker.process_core_schedule(7, 560, 4);
    assert_eq!(broker.workload.get(3).cloned(), Some(whole(CoreAssignment::Task(2))));
    assert_eq!(broker.workload.get(4).cloned(), None);
    assert_eq!(
        broker.effects,
        vec![
            BrokerEffect::AssignCore {
                core: 3,
                begin: 560,
                assignment: vec![(CoreAssignment::Task(2), 57_600)],
                end_hint: None,
            },
            BrokerEffect::AssignCore {
                core: 4,
                begin: 560,
                assignment: vec![(CoreAssignment::Idle, 57_600)],
                end_hint: None,
            },
        ]
    );
}

#[test]
fn process_pool_applies_the_change_and_records_the_size() {
    let mut broker = Pallet::new(PERIOD, POT);
    broker.pool_io.insert(7, PoolIoRecord { total: -40, system: 120 });
    let mut status = StatusRecord { pool_size: 30, last_timeslice: 5, system_pool_size: 10 };
    broker.process_pool(7, &mut status);
    // The size does not fall below zero.
    assert_eq!(status, StatusRecord { pool_size: 0, last_timeslice: 5, system_pool_size: 130 });
    assert_eq!(pool_io(&broker, 7), None);
    assert_eq!(
        broker.pool_history.get(7).copied(),
        Some(InstaPoolHistoryRecord {
            total_contributions: 0,
            system_contributions: 130,
            maybe_payout: None,
        })
    );
    // Without a change the size stands.
    broker.process_pool(8, &mut status);
    assert_eq!(status.system_pool_size, 130);
    broker.pool_io.insert(9, PoolIoRecord { total: i32::MAX, system: 0 });
    status.pool_size = u32::MAX - 5;
    broker.process_pool(9, &mut status);
    assert_eq!(status.pool_size, u32::MAX);
}

#[test]
fn process_revenue_splits_between_system_and_others() {
    let mut broker = Pallet::new(PERIOD, POT);
    broker.pool_history.insert(
        7,
        InstaPoolHistoryRecord { total_contributions: 100, system_contributions: 40, maybe_payout: None },
    );
    assert_eq!(broker.process_revenue(Some((7 * PERIOD + 3, 1000))), Ok(true));
    assert_eq!(broker.effects, vec![BrokerEffect::Charge { who: POT, amount: 400 }]);
    assert_eq!(
        broker.pool_history.get(7).copied(),
        Some(InstaPoolHistoryRecord {
            total_contributions: 60,
            system_contributions: 0,
            maybe_payout: Some(600),
        })
    );
    // The revenue of that timeslice is known now.
    assert_eq!(broker.process_revenue(Some((7 * PERIOD, 5))), Err(Error::RevenueAlreadyKnown));
    assert_eq!(broker.effects.len(), 1);
}

#[test]
fn process_revenue_clears_what_is_used_up() {
    // Only the system contributed: everything is paid out and the record goes.
    let mut broker = Pallet::new(PERIOD, POT);
    broker.pool_history.insert(
        7,
        InstaPoolHistoryRecord { total_contributions: 40, system_contributions: 40, maybe_payout: None },
    );
    assert_eq!(broker.process_revenue(Some((7 * PERIOD, 1000))), Ok(true));
    assert_eq!(broker.effects, vec![BrokerEffect::Charge { who: POT, amount: 1000 }]);
    assert_eq!(broker.pool_history.get(7).copied(), None);

    // No revenue: the record goes and nobody is charged.
    let mut broker = Pallet::new(PERIOD, POT);
    broker.pool_history.insert(
        7,
        InstaPoolHistoryRecord { total_contributions: 40, system_contributions: 10, maybe_payout: None },
    );
    assert_eq!(broker.process_revenue(Some((7 * PERIOD, 0))), Ok(true));
    assert!(broker.effects.is_empty());
    assert_eq!(broker.pool_history.get(7).copied(), None);

    // No notification.
    assert_eq!(broker.process_revenue(None), Ok(false));
}

#[test]
fn process_revenue_rejects_records_that_do_not_add_up() {
    let mut broker = Pallet::new(PERIOD, POT);
    // No record at all counts as no contributions.
    assert_eq!(broker.process_revenue(Some((7 * PERIOD, 10))), Err(Error::InvalidContributions));
    broker.pool_history.insert(
        8,
        InstaPoolHistoryRecord { total_contributions: 10, system_contributions: 11, maybe_payout: None },
    );
    assert_eq!(broker.process_revenue(Some((8 * PERIOD, 10))), Err(Error::InvalidContributions));
    assert!(broker.effects.is_empty());
    assert_eq!(
        broker.pool_history.get(8).copied(),
        Some(InstaPoolHistoryRecord {
            total_contributions: 10,
            system_contributions: 11,
            maybe_payout: None,
        })
    );
}

#[test]
fn tick_needs_status_progress_and_configuration() {
    let mut broker = Pallet::new(PERIOD, POT);
    assert_eq!(broker.do_tick(1, 1000, None), Err(Error::Uninitialized));
    assert!(!broker.tick_is_due(1000));

    broker.status = Some(StatusRecord { pool_size: 0, last_timeslice: 5, system_pool_size: 0 });
    // Relay block 479 is still in timeslice 5.
    assert_eq!(broker.current_timeslice(479), 5);
    assert!(!broker.tick_is_due(479));
    assert_eq!(broker.do_tick(1, 479, None), Err(Error::NothingToDo));
    assert!(broker.effects.is_empty());

    // Due, but not configured: the revenue is asked for and the tick stops.
    assert!(broker.tick_is_due(480));
    assert_eq!(broker.do_tick(1, 480, None), Err(Error::Uninitialized));
    assert_eq!(broker.effects, vec![BrokerEffect::RequestRevenueInfoAt(480)]);
    assert_eq!(broker.status.unwrap().last_timeslice, 5);
}

#[test]
fn tick_moves_one_timeslice_on() {
    let mut broker = Pallet::new(PERIOD, POT);
    broker.status = Some(StatusRecord { pool_size: 10, last_timeslice: 1, system_pool_size: 0 });
    broker.configuration = Some(ConfigRecord { core_count: 2, ..config() });
    broker.sale_info = Some(old_sale());
    broker.pool_io.insert(4, PoolIoRecord { total: 5, system: 5 });

    // Timeslice 2 is ticked and timeslice 4 committed: the sale's region begins there.
    assert_eq!(broker.do_tick(10, 100_000, None), Ok(()));
    assert_eq!(
        broker.status,
        Some(StatusRecord { pool_size: 175, last_timeslice: 2, system_pool_size: 165 })
    );
    assert_eq!(broker.sale_info.unwrap().region_begin, 7);
    assert_eq!(broker.sale_info.unwrap().reserve_price, 1333);
    assert_eq!(
        broker.pool_history.get(4).copied(),
        Some(InstaPoolHistoryRecord {
            total_contributions: 175,
            system_contributions: 165,
            maybe_payout: None,
        })
    );
    assert_eq!(
        broker.effects,
        vec![
            BrokerEffect::RequestRevenueInfoAt(160),
            BrokerEffect::AssignCore {
                core: 0,
                begin: 320,
                assignment: vec![(CoreAssignment::Idle, 57_600)],
                end_hint: None,
            },
            BrokerEffect::AssignCore {
                core: 1,
                begin: 320,
                assignment: vec![(CoreAssignment::Idle, 57_600)],
                end_hint: None,
            },
        ]
    );
    // The cores 4 and 5 of the old region were given to the pool, but the broker has only
    // two cores, so their plans wait.
    assert_eq!(plan(&broker, 4, 4), Some(whole(CoreAssignment::Pool)));

    // The next tick commits timeslice 5; the sale's region begins at 7, so no rotation.
    assert_eq!(broker.do_tick(11, 100_000, None), Ok(()));
    assert_eq!(broker.status.unwrap().last_timeslice, 3);
    assert_eq!(broker.sale_info.unwrap().region_begin, 7);
}

#[test]
fn tick_keeps_the_old_status_when_the_revenue_is_rejected() {
    let mut broker = Pallet::new(PERIOD, POT);
    broker.status = Some(StatusRecord { pool_size: 10, last_timeslice: 1, system_pool_size: 0 });
    broker.configuration = Some(ConfigRecord { core_count: 0, ..config() });
    assert_eq!(
        broker.do_tick(10, 100_000, Some((50 * PERIOD, 10))),
        Err(Error::InvalidContributions)
    );
    assert_eq!(broker.status.unwrap().last_timeslice, 1);
    assert_eq!(broker.effects, vec![BrokerEffect::RequestRevenueInfoAt(160)]);
}

#[test]
fn regions_are_issued_and_used_up() {
    let mut broker = Pallet::new(PERIOD, POT);
    let id = broker.issue(3, 10, 20, 77, Some(500));
    assert_eq!(id, RegionId { begin: 10, core: 3, part: CorePart::complete() });
    let record = RegionRecord { end: 20, owner: 77, paid: Some(500) };
    assert_eq!(broker.regions.get(region_key_of(id)).copied(), Some(record));

    assert_eq!(broker.utilize(id, None), Err(Error::Uninitialized));
    broker.configuration = Some(config());
    assert_eq!(broker.utilize(id, None), Err(Error::Uninitialized));
    broker.status = Some(StatusRecord { pool_size: 0, last_timeslice: 5, system_pool_size: 0 });

    let other = RegionId { begin: 11, ..id };
    assert_eq!(broker.utilize(other, None), Err(Error::UnknownRegion));
    assert_eq!(broker.utilize(id, Some(78)), Err(Error::NotOwner));
    assert!(broker.regions.get(region_key_of(id)).is_some());

    // Nothing of the region is committed yet: it is used as it is.
    assert_eq!(broker.utilize(id, Some(77)), Ok(Some((id, record))));
    assert!(broker.regions.get(region_key_of(id)).is_none());
    assert!(broker.effects.is_empty());
}

#[test]
fn a_region_whose_time_has_passed_is_dropped() {
    let mut broker = Pallet::new(PERIOD, POT);
    broker.configuration = Some(config());
    broker.status = Some(StatusRecord { pool_size: 0, last_timeslice: 18, system_pool_size: 0 });
    let id = broker.issue(3, 10, 20, 77, None);
    // Timeslice 20 is committed already; the region would begin at 21, after its end.
    assert_eq!(broker.utilize(id, None), Ok(None));
    assert_eq!(
        broker.effects,
        vec![BrokerEffect::Dropped { region_id: RegionId { begin: 21, ..id } }]
    );

    // A region that is partly committed is cut at its start.
    let mut broker = Pallet::new(PERIOD, POT);
    broker.configuration = Some(config());
    broker.status = Some(StatusRecord { pool_size: 0, last_timeslice: 10, system_pool_size: 0 });
    let id = broker.issue(3, 10, 20, 77, None);
    assert_eq!(
        broker.utilize(id, None),
        Ok(Some((RegionId { begin: 13, ..id }, RegionRecord { end: 20, owner: 77, paid: None })))
    );
}
