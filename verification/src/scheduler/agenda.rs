//! The store of agendas: for each block, the ordered slots of the tasks that wait for
//! it. The store keeps what it is given and checks nothing.

use crate::scheduler::types::{
    agendas_view, lemma_agendas_insert, lemma_agendas_remove, slot_view, slots_view, BlockNumber,
    Scheduled, Task,
};
use crate::store::Table;
use vstd::prelude::*;

verus! {

/// The agenda of a block in a map of agendas; empty where the block has none.
pub open spec fn agenda_at(agendas: Map<u128, Seq<Option<Task>>>, when: BlockNumber) -> Seq<
    Option<Task>,
> {
    if agendas.contains_key(when as u128) {
        agendas[when as u128]
    } else {
        Seq::empty()
    }
}

/// The agendas, by block.
pub struct AgendaStore {
    pub entries: Table<Vec<Option<Scheduled>>>,
}

impl View for AgendaStore {
    type V = Map<u128, Seq<Option<Task>>>;

    open spec fn view(&self) -> Map<u128, Seq<Option<Task>>> {
        agendas_view(self.entries@)
    }
}

impl AgendaStore {
    /// A store without agendas.
    pub fn new() -> (store: AgendaStore)
        ensures
            store@ == Map::<u128, Seq<Option<Task>>>::empty(),
    {
        let store = AgendaStore { entries: Table::new() };
        proof {
            assert(store@ =~= Map::<u128, Seq<Option<Task>>>::empty());
        }
        store
    }

    /// Whether the block has an agenda.
    pub fn contains(&self, when: BlockNumber) -> (b: bool)
        ensures
            b == self@.contains_key(when as u128),
    {
        self.entries.contains_key(when as u128)
    }

    /// How many slots the agenda of the block has.
    pub fn len(&self, when: BlockNumber) -> (n: usize)
        ensures
            n == agenda_at(self@, when).len(),
    {
        match self.entries.get(when as u128) {
            Some(agenda) => agenda.len(),
            None => 0,
        }
    }

    /// A copy of the task in a slot, if the slot holds one.
    pub fn slot(&self, when: BlockNumber, index: u32) -> (task: Option<Scheduled>)
        ensures
            slot_view(task) == if index < agenda_at(self@, when).len() {
                agenda_at(self@, when)[index as int]
            } else {
                None
            },
    {
        match self.entries.get(when as u128) {
            Some(agenda) => {
                if (index as usize) < agenda.len() {
                    match &agenda[index as usize] {
                        Some(task) => Some(task.duplicate()),
                        None => None,
                    }
                } else {
                    None
                }
            },
            None => None,
        }
    }

    /// A copy of the agenda of the block; empty where the block has none.
    pub fn get(&self, when: BlockNumber) -> (agenda: Vec<Option<Scheduled>>)
        ensures
            slots_view(agenda@) == agenda_at(self@, when),
    {
        let mut copy: Vec<Option<Scheduled>> = Vec::new();
        match self.entries.get(when as u128) {
            Some(agenda) => {
                let mut i: usize = 0;
                while i < agenda.len()
                    invariant
                        i <= agenda.len(),
                        slots_view(copy@) == slots_view(agenda@).take(i as int),
                    decreases agenda.len() - i,
                {
                    let slot = match &agenda[i] {
                        Some(task) => Some(task.duplicate()),
                        None => None,
                    };
                    proof {
                        assert(slot_view(slot) == slot_view(agenda@[i as int]));
                        assert(slots_view(agenda@)[i as int] == slot_view(agenda@[i as int]));
                        assert(slots_view(copy@.push(slot)) =~= slots_view(copy@).push(
                            slot_view(slot),
                        ));
                        assert(slots_view(agenda@).take(i as int).push(slot_view(slot))
                            =~= slots_view(agenda@).take(i as int + 1));
                    }
                    copy.push(slot);
                    i += 1;
                }
                proof {
                    assert(slots_view(agenda@).take(agenda.len() as int) =~= slots_view(agenda@));
                }
            },
            None => {
                proof {
                    assert(slots_view(copy@) =~= Seq::<Option<Task>>::empty());
                }
            },
        }
        copy
    }

    /// Makes `agenda` the agenda of the block.
    pub fn put(&mut self, when: BlockNumber, agenda: Vec<Option<Scheduled>>)
        ensures
            final(self)@ == old(self)@.insert(when as u128, slots_view(agenda@)),
    {
        proof {
            lemma_agendas_insert(self.entries@, when as u128, agenda);
        }
        self.entries.insert(when as u128, agenda);
    }

    /// Takes the agenda of the block out of the store and returns it; empty where the
    /// block had none.
    pub fn remove(&mut self, when: BlockNumber) -> (agenda: Vec<Option<Scheduled>>)
        ensures
            final(self)@ == old(self)@.remove(when as u128),
            slots_view(agenda@) == agenda_at(old(self)@, when),
    {
        proof {
            lemma_agendas_remove(self.entries@, when as u128);
        }
        match self.entries.remove(when as u128) {
            Some(a) => a,
            None => {
                let a: Vec<Option<Scheduled>> = Vec::new();
                proof {
                    assert(slots_view(a@) =~= Seq::<Option<Task>>::empty());
                }
                a
            },
        }
    }
}

} // verus!
