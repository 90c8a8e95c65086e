use std::collections::HashMap;

use coretime_sched::scheduler::state::Scheduler;
use coretime_sched::scheduler::types::{
    Call, DispatchTime, Error, MaybeHashed, Origin, Preimages, SchedulerConfig, SchedulerEffect,
    HARD_DEADLINE,
};
use coretime_sched::weight::Weight;

const MAXIMUM_SCHEDULER_WEIGHT: u64 = 1_600_000_000_000;
const MAX_SCHEDULED_PER_BLOCK: u32 = 10;
const BASE_WEIGHT: u64 = 10_000_000;
const ITEM_WEIGHT: u64 = 5_000_000;
const NO_PREIMAGE_POSTPONEMENT: Option<u64> = Some(2);

fn config() -> SchedulerConfig {
    SchedulerConfig {
        maximum_weight: Weight::from_parts(MAXIMUM_SCHEDULER_WEIGHT, u64::MAX),
        max_scheduled_per_block: MAX_SCHEDULED_PER_BLOCK,
        hard_deadline_threshold: HARD_DEADLINE,
        no_preimage_postponement: NO_PREIMAGE_POSTPONEMENT,
        base_weight: Weight::from_parts(BASE_WEIGHT, 0),
        item_weight: Weight::from_parts(ITEM_WEIGHT, 0),
        allowed_signer: Some(1),
    }
}

fn log_call(i: u32, weight: u64) -> Call {
    Call { payload: i as u64, weight: Weight::from_parts(weight, 0) }
}

fn hash_of(call: &Call) -> u64 {
    call.payload.wrapping_mul(0x9E37_79B9_7F4A_7C15) ^ call.weight.ref_time.rotate_left(17)
}

fn root() -> Origin {
    Origin::Root
}

fn sid(i: u32) -> Vec<u8> {
    i.to_le_bytes().to_vec()
}

/// The host around the scheduler: it runs what the scheduler hands it, and keeps the
/// calls that were noted and the count of reservations of each hash.
struct Host {
    scheduler: Scheduler,
    preimages: Preimages,
    requested: HashMap<u64, u32>,
    log: Vec<(Origin, u32)>,
    events: usize,
}

impl Host {
    fn new() -> Host {
        Host {
            scheduler: Scheduler::new(config()),
            preimages: Preimages::new(),
            requested: HashMap::new(),
            log: Vec::new(),
            events: 0,
        }
    }

    fn absorb(&mut self) {
        for effect in self.scheduler.take_effects() {
            match effect {
                SchedulerEffect::Execute { origin, call, .. } => {
                    self.log.push((origin, call.payload as u32));
                },
                SchedulerEffect::ReservePreimage(h) => {
                    *self.requested.entry(h).or_insert(0) += 1;
                },
                SchedulerEffect::ReleasePreimage(h) => {
                    let left = self.requested.get(&h).copied().unwrap_or(0).saturating_sub(1);
                    if left == 0 {
                        self.requested.remove(&h);
                        self.preimages.unnote(h);
                    } else {
                        self.requested.insert(h, left);
                    }
                },
                SchedulerEffect::Scheduled { .. }
                | SchedulerEffect::Canceled { .. }
                | SchedulerEffect::Starved { .. } => {
                    self.events += 1;
                },
            }
        }
    }

    fn run_to_block(&mut self, n: u64) {
        while self.scheduler.now() < n {
            let next = self.scheduler.now() + 1;
            self.scheduler.on_tick(next, &self.preimages);
            self.absorb();
        }
    }

    fn on_initialize(&mut self, now: u64) -> Weight {
        let used = self.scheduler.on_initialize(now, &self.preimages);
        self.absorb();
        used
    }

    fn note_preimage(&mut self, call: Call) {
        self.preimages.note(hash_of(&call), call);
    }

    fn preimage_requested(&self, hash: u64) -> bool {
        self.requested.contains_key(&hash)
    }

    fn have_preimage(&self, hash: u64) -> bool {
        self.preimages.resolve(hash).is_some()
    }

    fn do_schedule(
        &mut self,
        when: DispatchTime,
        periodic: Option<(u64, u32)>,
        priority: u8,
        origin: Origin,
        call: MaybeHashed,
    ) -> Result<(u64, u32), Error> {
        let r = self.scheduler.do_schedule(when, periodic, priority, origin, call);
        self.absorb();
        r
    }

    fn do_schedule_named(
        &mut self,
        id: Vec<u8>,
        when: DispatchTime,
        periodic: Option<(u64, u32)>,
        priority: u8,
        origin: Origin,
        call: MaybeHashed,
    ) -> Result<(u64, u32), Error> {
        let r = self.scheduler.do_schedule_named(id, when, periodic, priority, origin, call);
        self.absorb();
        r
    }

    /// What an operation that fails must leave as it was.
    fn snapshot(&self) -> (u64, usize, Vec<usize>, Vec<bool>, usize) {
        let lens = (0..20u64).map(|b| self.scheduler.agenda_len(b)).collect();
        let keys = (0..20u64).map(|b| self.scheduler.has_agenda(b)).collect();
        (self.scheduler.now(), self.scheduler.effects().len(), lens, keys, self.log.len())
    }
}

#[test]
fn basic_scheduling_works() {
    let mut t = Host::new();
    let call = log_call(42, 1000);
    assert!(t.do_schedule(DispatchTime::At(4), None, 127, root(), MaybeHashed::Value(call)).is_ok());
    t.run_to_block(3);
    assert!(t.log.is_empty());
    t.run_to_block(4);
    assert_eq!(t.log, vec![(root(), 42u32)]);
    t.run_to_block(100);
    assert_eq!(t.log, vec![(root(), 42u32)]);
}

#[test]
fn scheduling_with_preimages_works() {
    let mut t = Host::new();
    let call = log_call(42, 1000);
    let hash = hash_of(&call);
    let hashed = MaybeHashed::Hash(hash);
    t.note_preimage(call);
    assert!(t.do_schedule(DispatchTime::At(4), None, 127, root(), hashed).is_ok());
    assert!(t.preimage_requested(hash));
    t.run_to_block(3);
    assert!(t.log.is_empty());
    t.run_to_block(4);
    assert!(!t.have_preimage(hash));
    assert!(!t.preimage_requested(hash));
    assert_eq!(t.log, vec![(root(), 42u32)]);
    t.run_to_block(100);
    assert_eq!(t.log, vec![(root(), 42u32)]);
}

#[test]
fn scheduling_with_preimage_postpones_correctly() {
    let mut t = Host::new();
    let call = log_call(42, 1000);
    let hash = hash_of(&call);
    let hashed = MaybeHashed::Hash(hash);

    assert!(t.do_schedule(DispatchTime::At(4), None, 127, root(), hashed).is_ok());
    assert!(t.preimage_requested(hash));

    t.run_to_block(4);
    // #4 empty due to no preimage
    assert!(t.log.is_empty());

    // Register preimage.
    t.note_preimage(call);

    t.run_to_block(5);
    // #5 empty since postponement is 2 blocks.
    assert!(t.log.is_empty());

    t.run_to_block(6);
    // #6 is good.
    assert_eq!(t.log, vec![(root(), 42u32)]);
    assert!(!t.have_preimage(hash));
    assert!(!t.preimage_requested(hash));

    t.run_to_block(100);
    assert_eq!(t.log, vec![(root(), 42u32)]);
}

#[test]
fn scheduling_with_preimage_postpones_full_block_cancels() {
    let mut t = Host::new();
    let delay = match NO_PREIMAGE_POSTPONEMENT {
        None | Some(0) => return,
        Some(delay) => delay,
    };

    let call = log_call(42, 1000);
    let hash = hash_of(&call);
    let hashed = MaybeHashed::Hash(hash);

    // Schedule something in block 1
    assert!(t.do_schedule(DispatchTime::At(2), Some((1000, 3)), 128, root(), hashed).is_ok());
    assert_eq!(t.scheduler.agenda_len(2), 1);
    assert!(t.preimage_requested(hash));
    // Fill-up the block that will be to postpone the call.
    let postpone = 2 + delay;
    for i in 0..MAX_SCHEDULED_PER_BLOCK {
        assert!(t
            .do_schedule(
                DispatchTime::At(postpone),
                Some((1000, 3)),
                128,
                root(),
                MaybeHashed::Value(log_call(43 + i, 0)),
            )
            .is_ok());
    }
    t.events = 0;
    // Enacting block 2 will try to postpone the call to `postpone`
    // which will fail and then cancel the call.
    let _ = t.on_initialize(2);
    // The preimage-request was cleared.
    assert!(!t.preimage_requested(hash));

    assert_eq!(t.events, 1);
    assert_eq!(t.scheduler.agenda_len(2), 0);
    assert_eq!(t.scheduler.agenda_len(postpone) as u32, MAX_SCHEDULED_PER_BLOCK);
}

#[test]
fn scheduling_respects_max_agendas_per_block() {
    let mut t = Host::new();
    let call = log_call(42, 1000);
    let max = MAX_SCHEDULED_PER_BLOCK as usize;
    // No schedules in block 4.
    assert_eq!(t.scheduler.agenda_len(4), 0);

    // Schedule the maximum.
    for _ in 0..max {
        assert!(t.do_schedule(DispatchTime::At(4), None, 127, root(), MaybeHashed::Value(call)).is_ok());
    }
    // Worked.
    assert_eq!(t.events, max);
    assert_eq!(t.scheduler.agenda_len(4), max);
    // Scheduling more fails.
    let before = t.snapshot();
    assert_eq!(
        t.do_schedule(DispatchTime::At(4), None, 127, root(), MaybeHashed::Value(call)),
        Err(Error::FailedToSchedule)
    );
    assert_eq!(t.snapshot(), before);
}

// Checks that the whole agenda is removed and not an empty one left behind.
#[test]
fn cancelling_removes_the_whole_agenda() {
    let mut t = Host::new();
    let call = MaybeHashed::Value(log_call(69, 1000));
    assert!(t.scheduler.schedule_named(Origin::Root, vec![1, 0, 0, 0], 4, None, 127, call).is_ok());
    t.run_to_block(3);
    // Scheduled call are in the agenda.
    assert_eq!(t.scheduler.agenda_len(4), 1);
    assert!(t.log.is_empty());
    // Cancel it.
    assert!(t.scheduler.cancel_named(Origin::Root, vec![1, 0, 0, 0]).is_ok());
    // The whole agenda is gone.
    assert!(!t.scheduler.has_agenda(4));
    assert!(t.log.is_empty());
}

#[test]
fn root_calls_works() {
    let mut t = Host::new();
    let call = MaybeHashed::Value(log_call(69, 1000));
    let call2 = MaybeHashed::Value(log_call(42, 1000));
    assert!(t.scheduler.schedule_named(Origin::Root, vec![1, 0, 0, 0], 4, None, 127, call).is_ok());
    assert!(t.scheduler.schedule(Origin::Root, 4, None, 127, call2).is_ok());
    t.run_to_block(3);
    // Scheduled calls are in the agenda.
    assert_eq!(t.scheduler.agenda_len(4), 2);
    assert!(t.log.is_empty());
    assert!(t.scheduler.cancel_named(Origin::Root, vec![1, 0, 0, 0]).is_ok());
    // The named task left a hole in slot 0; the anonymous one keeps slot 1.
    assert!(t.scheduler.cancel(Origin::Root, 4, 1).is_ok());
    // Scheduled calls are made NONE, so should not effect state
    t.run_to_block(100);
    assert!(t.log.is_empty());
}

#[test]
fn schedule_after_works() {
    let mut t = Host::new();
    t.run_to_block(2);
    let call = log_call(42, 1000);
    // This will schedule the call 3 blocks after the next block... so block 3 + 3 = 6
    assert!(t.do_schedule(DispatchTime::After(3), None, 127, root(), MaybeHashed::Value(call)).is_ok());
    t.run_to_block(5);
    assert!(t.log.is_empty());
    t.run_to_block(6);
    assert_eq!(t.log, vec![(root(), 42u32)]);
    t.run_to_block(100);
    assert_eq!(t.log, vec![(root(), 42u32)]);
}

#[test]
fn schedule_after_zero_works() {
    let mut t = Host::new();
    t.run_to_block(2);
    let call = log_call(42, 1000);
    assert!(t.do_schedule(DispatchTime::After(0), None, 127, root(), MaybeHashed::Value(call)).is_ok());
    // Will trigger on the next block.
    t.run_to_block(3);
    assert_eq!(t.log, vec![(root(), 42u32)]);
    t.run_to_block(100);
    assert_eq!(t.log, vec![(root(), 42u32)]);
}

#[test]
fn periodic_scheduling_works() {
    let mut t = Host::new();
    // at #4, every 3 blocks, 3 times.
    assert!(t
        .do_schedule(DispatchTime::At(4), Some((3, 3)), 127, root(), MaybeHashed::Value(log_call(42, 1000)))
        .is_ok());
    t.run_to_block(3);
    assert!(t.log.is_empty());
    t.run_to_block(4);
    assert_eq!(t.log, vec![(root(), 42u32)]);
    t.run_to_block(6);
    assert_eq!(t.log, vec![(root(), 42u32)]);
    t.run_to_block(7);
    assert_eq!(t.log, vec![(root(), 42u32), (root(), 42u32)]);
    t.run_to_block(9);
    assert_eq!(t.log, vec![(root(), 42u32), (root(), 42u32)]);
    t.run_to_block(10);
    assert_eq!(t.log, vec![(root(), 42u32), (root(), 42u32), (root(), 42u32)]);
    t.run_to_block(100);
    assert_eq!(t.log, vec![(root(), 42u32), (root(), 42u32), (root(), 42u32)]);
}

#[test]
fn reschedule_works() {
    let mut t = Host::new();
    let call = log_call(42, 1000);
    assert_eq!(
        t.do_schedule(DispatchTime::At(4), None, 127, root(), MaybeHashed::Value(call)).unwrap(),
        (4, 0)
    );

    t.run_to_block(3);
    assert!(t.log.is_empty());

    assert_eq!(t.scheduler.do_reschedule((4, 0), DispatchTime::At(6)).unwrap(), (6, 0));

    let before = t.snapshot();
    assert_eq!(
        t.scheduler.do_reschedule((6, 0), DispatchTime::At(6)),
        Err(Error::RescheduleNoChange)
    );
    assert_eq!(t.snapshot(), before);

    t.run_to_block(4);
    assert!(t.log.is_empty());

    t.run_to_block(6);
    assert_eq!(t.log, vec![(root(), 42u32)]);

    t.run_to_block(100);
    assert_eq!(t.log, vec![(root(), 42u32)]);
}

#[test]
fn reschedule_named_works() {
    let mut t = Host::new();
    let call = log_call(42, 1000);
    assert_eq!(
        t.do_schedule_named(sid(1), DispatchTime::At(4), None, 127, root(), MaybeHashed::Value(call))
            .unwrap(),
        (4, 0)
    );

    t.run_to_block(3);
    assert!(t.log.is_empty());

    assert_eq!(t.scheduler.do_reschedule_named(sid(1), DispatchTime::At(6)).unwrap(), (6, 0));

    let before = t.snapshot();
    assert_eq!(
        t.scheduler.do_reschedule_named(sid(1), DispatchTime::At(6)),
        Err(Error::RescheduleNoChange)
    );
    assert_eq!(t.snapshot(), before);

    t.run_to_block(4);
    assert!(t.log.is_empty());

    t.run_to_block(6);
    assert_eq!(t.log, vec![(root(), 42u32)]);

    t.run_to_block(100);
    assert_eq!(t.log, vec![(root(), 42u32)]);
}

#[test]
fn reschedule_named_perodic_works() {
    let mut t = Host::new();
    let call = log_call(42, 1000);
    assert_eq!(
        t.do_schedule_named(
            sid(1),
            DispatchTime::At(4),
            Some((3, 3)),
            127,
            root(),
            MaybeHashed::Value(call),
        )
        .unwrap(),
        (4, 0)
    );

    t.run_to_block(3);
    assert!(t.log.is_empty());

    assert_eq!(t.scheduler.do_reschedule_named(sid(1), DispatchTime::At(5)).unwrap(), (5, 0));
    assert_eq!(t.scheduler.do_reschedule_named(sid(1), DispatchTime::At(6)).unwrap(), (6, 0));

    t.run_to_block(5);
    assert!(t.log.is_empty());

    t.run_to_block(6);
    assert_eq!(t.log, vec![(root(), 42u32)]);

    assert_eq!(t.scheduler.do_reschedule_named(sid(1), DispatchTime::At(10)).unwrap(), (10, 0));

    t.run_to_block(9);
    assert_eq!(t.log, vec![(root(), 42u32)]);

    t.run_to_block(10);
    assert_eq!(t.log, vec![(root(), 42u32), (root(), 42u32)]);

    t.run_to_block(13);
    assert_eq!(t.log, vec![(root(), 42u32), (root(), 42u32), (root(), 42u32)]);

    t.run_to_block(100);
    assert_eq!(t.log, vec![(root(), 42u32), (root(), 42u32), (root(), 42u32)]);
}

#[test]
fn cancel_named_scheduling_works_with_normal_cancel() {
    let mut t = Host::new();
    // at #4.
    t.do_schedule_named(
        sid(1),
        DispatchTime::At(4),
        None,
        127,
        root(),
        MaybeHashed::Value(log_call(69, 1000)),
    )
    .unwrap();
    let i = t
        .do_schedule(DispatchTime::At(4), None, 127, root(), MaybeHashed::Value(log_call(42, 1000)))
        .unwrap();
    t.run_to_block(3);
    assert!(t.log.is_empty());
    assert!(t.scheduler.do_cancel(None, i).is_ok());
    assert!(t.scheduler.do_cancel_named(None, sid(1)).is_ok());
    t.run_to_block(100);
    assert!(t.log.is_empty());
}

#[test]
fn cancel_named_periodic_scheduling_works() {
    let mut t = Host::new();
    // at #4, every 3 blocks, 3 times.
    t.do_schedule_named(
        sid(1),
        DispatchTime::At(4),
        Some((3, 3)),
        127,
        root(),
        MaybeHashed::Value(log_call(42, 1000)),
    )
    .unwrap();
    // same id results in error.
    assert!(t
        .do_schedule_named(
            sid(1),
            DispatchTime::At(4),
            None,
            127,
            root(),
            MaybeHashed::Value(log_call(69, 1000)),
        )
        .is_err());
    // different id is ok.
    t.do_schedule_named(
        sid(2),
        DispatchTime::At(8),
        None,
        127,
        root(),
        MaybeHashed::Value(log_call(69, 1000)),
    )
    .unwrap();
    t.run_to_block(3);
    assert!(t.log.is_empty());
    t.run_to_block(4);
    assert_eq!(t.log, vec![(root(), 42u32)]);
    t.run_to_block(6);
    assert!(t.scheduler.do_cancel_named(None, sid(1)).is_ok());
    t.run_to_block(100);
    assert_eq!(t.log, vec![(root(), 42u32), (root(), 69u32)]);
}

#[test]
fn scheduler_respects_weight_limits() {
    let mut t = Host::new();
    assert!(t
        .do_schedule(
            DispatchTime::At(4),
            None,
            127,
            root(),
            MaybeHashed::Value(log_call(42, MAXIMUM_SCHEDULER_WEIGHT / 2)),
        )
        .is_ok());
    assert!(t
        .do_schedule(
            DispatchTime::At(4),
            None,
            127,
            root(),
            MaybeHashed::Value(log_call(69, MAXIMUM_SCHEDULER_WEIGHT / 2)),
        )
        .is_ok());
    // 69 and 42 do not fit together
    t.run_to_block(4);
    assert_eq!(t.log, vec![(root(), 42u32)]);
    t.run_to_block(5);
    assert_eq!(t.log, vec![(root(), 42u32), (root(), 69u32)]);
}

#[test]
fn scheduler_respects_hard_deadlines_more() {
    let mut t = Host::new();
    assert!(t
        .do_schedule(
            DispatchTime::At(4),
            None,
            0,
            root(),
            MaybeHashed::Value(log_call(42, MAXIMUM_SCHEDULER_WEIGHT / 2)),
        )
        .is_ok());
    assert!(t
        .do_schedule(
            DispatchTime::At(4),
            None,
            0,
            root(),
            MaybeHashed::Value(log_call(69, MAXIMUM_SCHEDULER_WEIGHT / 2)),
        )
        .is_ok());
    // With base weights, 69 and 42 should not fit together, but do because of hard
    // deadlines
    t.run_to_block(4);
    assert_eq!(t.log, vec![(root(), 42u32), (root(), 69u32)]);
}

#[test]
fn scheduler_respects_priority_ordering() {
    let mut t = Host::new();
    assert!(t
        .do_schedule(
            DispatchTime::At(4),
            None,
            1,
            root(),
            MaybeHashed::Value(log_call(42, MAXIMUM_SCHEDULER_WEIGHT / 2)),
        )
        .is_ok());
    assert!(t
        .do_schedule(
            DispatchTime::At(4),
            None,
            0,
            root(),
            MaybeHashed::Value(log_call(69, MAXIMUM_SCHEDULER_WEIGHT / 2)),
        )
        .is_ok());
    t.run_to_block(4);
    assert_eq!(t.log, vec![(root(), 69u32), (root(), 42u32)]);
}

#[test]
fn scheduler_respects_priority_ordering_with_soft_deadlines() {
    let mut t = Host::new();
    let max_weight = MAXIMUM_SCHEDULER_WEIGHT - BASE_WEIGHT;
    let item_weight = ITEM_WEIGHT;
    assert!(t
        .do_schedule(
            DispatchTime::At(4),
            None,
            255,
            root(),
            MaybeHashed::Value(log_call(42, max_weight / 2 - item_weight)),
        )
        .is_ok());
    assert!(t
        .do_schedule(
            DispatchTime::At(4),
            None,
            127,
            root(),
            MaybeHashed::Value(log_call(69, max_weight / 2 - item_weight)),
        )
        .is_ok());
    assert!(t
        .do_schedule(
            DispatchTime::At(4),
            None,
            126,
            root(),
            MaybeHashed::Value(log_call(2600, max_weight / 2 - item_weight + 1)),
        )
        .is_ok());

    // 2600 does not fit with 69 or 42, but has higher priority, so will go through
    t.run_to_block(4);
    assert_eq!(t.log, vec![(root(), 2600u32)]);
    // 69 and 42 fit together
    t.run_to_block(5);
    assert_eq!(t.log, vec![(root(), 2600u32), (root(), 69u32), (root(), 42u32)]);
}

#[test]
fn on_initialize_weight_is_correct() {
    let mut t = Host::new();
    let base_weight = BASE_WEIGHT;
    let call_weight = MAXIMUM_SCHEDULER_WEIGHT / 4;

    // Named
    assert!(t
        .do_schedule_named(
            sid(1),
            DispatchTime::At(3),
            None,
            255,
            root(),
            MaybeHashed::Value(log_call(3, call_weight + 1)),
        )
        .is_ok());
    // Anon Periodic
    assert!(t
        .do_schedule(
            DispatchTime::At(2),
            Some((1000, 3)),
            128,
            root(),
            MaybeHashed::Value(log_call(42, call_weight + 2)),
        )
        .is_ok());
    // Anon
    assert!(t
        .do_schedule(
            DispatchTime::At(2),
            None,
            127,
            root(),
            MaybeHashed::Value(log_call(69, call_weight + 3)),
        )
        .is_ok());
    // Named Periodic
    assert!(t
        .do_schedule_named(
            sid(2),
            DispatchTime::At(1),
            Some((1000, 3)),
            126,
            root(),
            MaybeHashed::Value(log_call(2600, call_weight + 4)),
        )
        .is_ok());

    // Will include the named periodic only
    let actual_weight = t.on_initialize(1);
    assert_eq!(actual_weight, Weight::from_parts(base_weight + call_weight + 4 + ITEM_WEIGHT, 0));
    assert_eq!(t.log, vec![(root(), 2600u32)]);

    // Will include anon and anon periodic
    let actual_weight = t.on_initialize(2);
    assert_eq!(
        actual_weight,
        Weight::from_parts(
            base_weight + call_weight + 2 + ITEM_WEIGHT + call_weight + 3 + ITEM_WEIGHT,
            0
        )
    );
    assert_eq!(t.log, vec![(root(), 2600u32), (root(), 69u32), (root(), 42u32)]);

    // Will include named only
    let actual_weight = t.on_initialize(3);
    assert_eq!(actual_weight, Weight::from_parts(base_weight + call_weight + 1 + ITEM_WEIGHT, 0));
    assert_eq!(
        t.log,
        vec![(root(), 2600u32), (root(), 69u32), (root(), 42u32), (root(), 3u32)]
    );

    // Will contain none
    let actual_weight = t.on_initialize(4);
    assert_eq!(actual_weight, Weight::from_parts(base_weight, 0));
}

#[test]
fn fails_to_schedule_task_in_the_past() {
    let mut t = Host::new();
    t.run_to_block(3);

    let call1 = MaybeHashed::Value(log_call(69, 1000));
    let call2 = MaybeHashed::Value(log_call(42, 1000));
    let call3 = MaybeHashed::Value(log_call(42, 1000));

    assert_eq!(
        t.scheduler.schedule_named(Origin::Root, vec![1, 0, 0, 0], 2, None, 127, call1),
        Err(Error::TargetBlockNumberInPast)
    );
    assert_eq!(
        t.scheduler.schedule(Origin::Root, 2, None, 127, call2),
        Err(Error::TargetBlockNumberInPast)
    );
    assert_eq!(
        t.scheduler.schedule(Origin::Root, 3, None, 127, call3),
        Err(Error::TargetBlockNumberInPast)
    );
}

#[test]
fn should_use_origin() {
    let mut t = Host::new();
    let call = MaybeHashed::Value(log_call(69, 1000));
    let call2 = MaybeHashed::Value(log_call(42, 1000));
    assert!(t
        .scheduler
        .schedule_named(Origin::Signed(1), vec![1, 0, 0, 0], 4, None, 127, call)
        .is_ok());
    assert!(t.scheduler.schedule(Origin::Signed(1), 4, None, 127, call2).is_ok());
    t.run_to_block(3);
    // Scheduled calls are in the agenda.
    assert_eq!(t.scheduler.agenda_len(4), 2);
    assert!(t.log.is_empty());
    assert!(t.scheduler.cancel_named(Origin::Signed(1), vec![1, 0, 0, 0]).is_ok());
    // The named task left a hole in slot 0; the anonymous one keeps slot 1.
    assert!(t.scheduler.cancel(Origin::Signed(1), 4, 1).is_ok());
    // Scheduled calls are made NONE, so should not effect state
    t.run_to_block(100);
    assert!(t.log.is_empty());
}

#[test]
fn should_check_origin() {
    let mut t = Host::new();
    let call = MaybeHashed::Value(log_call(69, 1000));
    let call2 = MaybeHashed::Value(log_call(42, 1000));
    let before = t.snapshot();
    assert_eq!(
        t.scheduler.schedule_named(Origin::Signed(2), vec![1, 0, 0, 0], 4, None, 127, call),
        Err(Error::BadOrigin)
    );
    assert_eq!(t.snapshot(), before);
    assert_eq!(
        t.scheduler.schedule(Origin::Signed(2), 4, None, 127, call2),
        Err(Error::BadOrigin)
    );
    assert_eq!(t.snapshot(), before);
}

#[test]
fn should_check_orign_for_cancel() {
    let mut t = Host::new();
    let call = MaybeHashed::Value(log_call(69, 1000));
    let call2 = MaybeHashed::Value(log_call(42, 1000));
    assert!(t
        .scheduler
        .schedule_named(Origin::Signed(1), vec![1, 0, 0, 0], 4, None, 127, call)
        .is_ok());
    assert!(t.scheduler.schedule(Origin::Signed(1), 4, None, 127, call2).is_ok());
    t.run_to_block(3);
    // Scheduled calls are in the agenda.
    assert_eq!(t.scheduler.agenda_len(4), 2);
    assert!(t.log.is_empty());
    let before = t.snapshot();
    assert_eq!(
        t.scheduler.cancel_named(Origin::Signed(2), vec![1, 0, 0, 0]),
        Err(Error::BadOrigin)
    );
    assert_eq!(t.snapshot(), before);
    assert_eq!(t.scheduler.cancel(Origin::Signed(2), 4, 1), Err(Error::BadOrigin));
    assert_eq!(t.snapshot(), before);
    assert_eq!(t.scheduler.cancel_named(Origin::Root, vec![1, 0, 0, 0]), Err(Error::BadOrigin));
    assert_eq!(t.snapshot(), before);
    assert_eq!(t.scheduler.cancel(Origin::Root, 4, 1), Err(Error::BadOrigin));
    assert_eq!(t.snapshot(), before);
    t.run_to_block(5);
    assert_eq!(t.log, vec![(Origin::Signed(1), 69u32), (Origin::Signed(1), 42u32)]);
}
