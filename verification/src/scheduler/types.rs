//! The records of the scheduler and the mathematical model of its state.

use crate::sorting::Ranked;
use crate::store::{copy_vec, Table};
use crate::weight::Weight;
use vstd::prelude::*;

verus! {

/// A block number: the scheduler's unit of time.
pub type BlockNumber = u64;

/// How urgent a task is; a lower number is more urgent.
pub type Priority = u8;

/// The content hash of a call.
pub type Hash = u64;

/// The place of a task: the block of its agenda and its slot there.
pub type TaskAddress = (BlockNumber, u32);

/// The threshold below which a priority carries a hard deadline, by default.
pub const HARD_DEADLINE: Priority = 64;

/// On whose behalf a task runs.
#[derive(Clone, Copy, Debug, PartialEq, Eq, Structural)]
pub enum Origin {
    Root,
    Signed(u64),
}

/// A unit of work for the host: an opaque payload and the weight it declares.
#[derive(Clone, Copy, Debug, PartialEq, Eq, Structural)]
pub struct Call {
    pub payload: u64,
    pub weight: Weight,
}

/// A call, either given or named by its hash, to be resolved when it is due.
#[derive(Clone, Copy, Debug, PartialEq, Eq, Structural)]
pub enum MaybeHashed {
    Value(Call),
    Hash(Hash),
}

/// When to run a task.
#[derive(Clone, Copy, Debug, PartialEq, Eq, Structural)]
pub enum DispatchTime {
    /// At this block.
    At(BlockNumber),
    /// This many blocks after the next block.
    After(BlockNumber),
}

/// A task that waits in an agenda.
#[derive(Debug, PartialEq, Eq)]
pub struct Scheduled {
    /// The name of the task, if it has one.
    pub maybe_id: Option<Vec<u8>>,
    pub priority: Priority,
    pub call: MaybeHashed,
    /// The period of a periodic task and how many executions it has left.
    pub maybe_periodic: Option<(BlockNumber, u32)>,
    pub origin: Origin,
}

/// The model of a [`Scheduled`].
pub struct Task {
    pub maybe_id: Option<Seq<u8>>,
    pub priority: Priority,
    pub call: MaybeHashed,
    pub maybe_periodic: Option<(BlockNumber, u32)>,
    pub origin: Origin,
}

/// The model of an optional name.
pub open spec fn name_view(name: Option<Vec<u8>>) -> Option<Seq<u8>> {
    match name {
        Some(n) => Some(n@),
        None => None,
    }
}

impl View for Scheduled {
    type V = Task;

    open spec fn view(&self) -> Task {
        Task {
            maybe_id: name_view(self.maybe_id),
            priority: self.priority,
            call: self.call,
            maybe_periodic: self.maybe_periodic,
            origin: self.origin,
        }
    }
}

impl Scheduled {
    /// A copy of the task.
    pub fn duplicate(&self) -> (r: Scheduled)
        ensures
            r@ == self@,
    {
        let maybe_id = match &self.maybe_id {
            Some(n) => Some(copy_vec(n)),
            None => None,
        };
        Scheduled {
            maybe_id,
            priority: self.priority,
            call: self.call,
            maybe_periodic: self.maybe_periodic,
            origin: self.origin,
        }
    }
}

/// The model of a slot of an agenda.
pub open spec fn slot_view(slot: Option<Scheduled>) -> Option<Task> {
    match slot {
        Some(t) => Some(t@),
        None => None,
    }
}

/// The model of an agenda.
pub open spec fn slots_view(agenda: Seq<Option<Scheduled>>) -> Seq<Option<Task>> {
    agenda.map_values(|slot: Option<Scheduled>| slot_view(slot))
}

/// The model of the agendas.
pub open spec fn agendas_view(m: Map<u128, Vec<Option<Scheduled>>>) -> Map<u128, Seq<Option<Task>>> {
    m.map_values(|agenda: Vec<Option<Scheduled>>| slots_view(agenda@))
}

/// Setting the agenda of a block sets it in the model.
pub proof fn lemma_agendas_insert(
    m: Map<u128, Vec<Option<Scheduled>>>,
    key: u128,
    agenda: Vec<Option<Scheduled>>,
)
    ensures
        agendas_view(m.insert(key, agenda)) == agendas_view(m).insert(key, slots_view(agenda@)),
{
    assert(agendas_view(m.insert(key, agenda)) =~= agendas_view(m).insert(
        key,
        slots_view(agenda@),
    ));
}

/// Removing the agenda of a block removes it from the model.
pub proof fn lemma_agendas_remove(m: Map<u128, Vec<Option<Scheduled>>>, key: u128)
    ensures
        agendas_view(m.remove(key)) == agendas_view(m).remove(key),
{
    assert(agendas_view(m.remove(key)) =~= agendas_view(m).remove(key));
}

/// Something the scheduler asks of its host, or tells it. The host takes the effects in
/// order.
#[derive(Clone, Copy, Debug, PartialEq, Eq, Structural)]
pub enum SchedulerEffect {
    /// A task was placed.
    Scheduled { when: BlockNumber, index: u32 },
    /// A task was cancelled on request.
    Canceled { when: BlockNumber, index: u32 },
    /// A task could neither run nor wait any longer and was given up.
    Starved { when: BlockNumber, index: u32 },
    /// Run this call now, for this origin.
    Execute { when: BlockNumber, index: u32, origin: Origin, call: Call },
    /// Keep the call with this hash available.
    ReservePreimage(Hash),
    /// The call with this hash is no longer needed.
    ReleasePreimage(Hash),
}

/// Why an operation of the scheduler failed.
#[derive(Clone, Copy, Debug, PartialEq, Eq, Structural)]
pub enum Error {
    /// The agenda of the block is full.
    FailedToSchedule,
    /// No such task.
    NotFound,
    /// The block is not in the future.
    TargetBlockNumberInPast,
    /// The task is already at that block.
    RescheduleNoChange,
    /// A task with this name is waiting.
    NameCollision,
    /// The caller is not the one the task runs for.
    BadOrigin,
}

/// What the scheduler is configured with.
#[derive(Clone, Copy, Debug, PartialEq, Eq, Structural)]
pub struct SchedulerConfig {
    /// The weight that the tasks of one block may use.
    pub maximum_weight: Weight,
    /// The most slots an agenda can have.
    pub max_scheduled_per_block: u32,
    /// A task whose priority is below this runs at its block whatever it weighs.
    pub hard_deadline_threshold: Priority,
    /// By how many blocks a task whose call cannot be resolved is postponed; `None`
    /// where such a task is given up at once.
    pub no_preimage_postponement: Option<BlockNumber>,
    /// The weight of a pass over an empty agenda.
    pub base_weight: Weight,
    /// The weight that each executed task adds to that of its call.
    pub item_weight: Weight,
    /// The account that may schedule and cancel besides the root; `None` for nobody.
    pub allowed_signer: Option<u64>,
}

/// The place of a task in the order of execution: by priority, then by slot.
#[derive(Clone, Copy, Debug, PartialEq, Eq, Structural)]
pub struct Turn {
    pub priority: Priority,
    pub index: u32,
}

impl Ranked for Turn {
    open spec fn rank(&self) -> int {
        self.priority as int * 0x1_0000_0000 + self.index as int
    }

    fn ranks_at_most(&self, other: &Self) -> (b: bool) {
        self.priority < other.priority || (self.priority == other.priority && self.index
            <= other.index)
    }
}

/// The calls that can be resolved from their hash, by hash.
pub struct Preimages {
    pub known: Table<Call>,
}

impl View for Preimages {
    type V = Map<u128, Call>;

    open spec fn view(&self) -> Map<u128, Call> {
        self.known@
    }
}

impl Preimages {
    /// No call is known.
    pub fn new() -> (p: Preimages)
        ensures
            p@ == Map::<u128, Call>::empty(),
    {
        Preimages { known: Table::new() }
    }

    /// Makes the call with this hash known.
    pub fn note(&mut self, hash: Hash, call: Call)
        ensures
            final(self)@ == old(self)@.insert(hash as u128, call),
    {
        self.known.insert(hash as u128, call);
    }

    /// Forgets the call with this hash.
    pub fn unnote(&mut self, hash: Hash)
        ensures
            final(self)@ == old(self)@.remove(hash as u128),
    {
        let _ = self.known.remove(hash as u128);
    }

    /// The call with this hash, if it is known.
    pub fn resolve(&self, hash: Hash) -> (r: Option<Call>)
        ensures
            r == if self@.contains_key(hash as u128) {
                Some(self@[hash as u128])
            } else {
                None
            },
    {
        match self.known.get(hash as u128) {
            Some(c) => Some(*c),
            None => None,
        }
    }
}

} // verus!
