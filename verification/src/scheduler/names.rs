//! The index from the names of tasks to their places.

use crate::scheduler::types::TaskAddress;
use crate::store::copy_vec;
use vstd::prelude::*;

verus! {

/// Whether two byte strings are the same.
pub fn same_bytes(a: &Vec<u8>, b: &Vec<u8>) -> (same: bool)
    ensures
        same == (a@ == b@),
{
    if a.len() != b.len() {
        return false;
    }
    let mut i: usize = 0;
    while i < a.len()
        invariant
            i <= a.len(),
            a.len() == b.len(),
            forall|j: int| 0 <= j < i ==> a@[j] == b@[j],
        decreases a.len() - i,
    {
        if a[i] != b[i] {
            return false;
        }
        i += 1;
    }
    proof {
        assert(a@ =~= b@);
    }
    true
}

/// The entries of the index, oldest first. A later entry of a name overrides an
/// earlier one.
pub struct NameIndex {
    pub entries: Vec<(Vec<u8>, TaskAddress)>,
}

/// The model of the entries.
pub open spec fn entries_view(entries: Seq<(Vec<u8>, TaskAddress)>) -> Seq<(Seq<u8>, TaskAddress)> {
    entries.map_values(|e: (Vec<u8>, TaskAddress)| (e.0@, e.1))
}

/// The map that a sequence of entries stands for.
pub open spec fn index_of(entries: Seq<(Seq<u8>, TaskAddress)>) -> Map<Seq<u8>, TaskAddress>
    decreases entries.len(),
{
    if entries.len() == 0 {
        Map::empty()
    } else {
        index_of(entries.drop_last()).insert(entries.last().0, entries.last().1)
    }
}

/// Entries that do not name `name` do not matter to what the index says of `name`.
proof fn lemma_index_skips(entries: Seq<(Seq<u8>, TaskAddress)>, name: Seq<u8>, k: int)
    requires
        0 <= k <= entries.len(),
        forall|j: int| k <= j < entries.len() ==> entries[j].0 != name,
    ensures
        index_of(entries).contains_key(name) == index_of(entries.take(k)).contains_key(name),
        index_of(entries).contains_key(name) ==> index_of(entries)[name] == index_of(
            entries.take(k),
        )[name],
    decreases entries.len() - k,
{
    if k == entries.len() {
        assert(entries.take(k) =~= entries);
    } else {
        let front = entries.drop_last();
        assert(front.take(k) =~= entries.take(k));
        lemma_index_skips(front, name, k);
    }
}

impl View for NameIndex {
    type V = Map<Seq<u8>, TaskAddress>;

    open spec fn view(&self) -> Map<Seq<u8>, TaskAddress> {
        index_of(entries_view(self.entries@))
    }
}

impl NameIndex {
    /// The index without a name.
    pub fn new() -> (index: NameIndex)
        ensures
            index@ == Map::<Seq<u8>, TaskAddress>::empty(),
    {
        NameIndex { entries: Vec::new() }
    }

    /// The place that `name` stands for, if any.
    pub fn get(&self, name: &Vec<u8>) -> (r: Option<TaskAddress>)
        ensures
            r == if self@.contains_key(name@) {
                Some(self@[name@])
            } else {
                None
            },
    {
        let ghost model = entries_view(self.entries@);
        let mut k: usize = self.entries.len();
        while k > 0
            invariant
                k <= self.entries.len(),
                model == entries_view(self.entries@),
                forall|j: int| k <= j < model.len() ==> model[j].0 != name@,
            decreases k,
        {
            if same_bytes(&self.entries[k - 1].0, name) {
                proof {
                    lemma_index_skips(model, name@, k as int);
                    assert(model.take(k as int).drop_last() =~= model.take(k as int - 1));
                }
                return Some(self.entries[k - 1].1);
            }
            k -= 1;
        }
        proof {
            lemma_index_skips(model, name@, 0);
            assert(model.take(0) =~= Seq::empty());
        }
        None
    }

    /// Whether `name` stands for a place.
    pub fn contains(&self, name: &Vec<u8>) -> (b: bool)
        ensures
            b == self@.contains_key(name@),
    {
        self.get(name).is_some()
    }

    /// Lets `name` stand for `place`.
    pub fn insert(&mut self, name: &Vec<u8>, place: TaskAddress)
        ensures
            final(self)@ == old(self)@.insert(name@, place),
    {
        let entry = (copy_vec(name), place);
        proof {
            let before = entries_view(self.entries@);
            let after = entries_view(self.entries@.push(entry));
            assert(after =~= before.push((name@, place)));
            assert(after.drop_last() =~= before);
        }
        self.entries.push(entry);
    }

    /// Lets `name` stand for nothing.
    pub fn remove(&mut self, name: &Vec<u8>)
        ensures
            final(self)@ == old(self)@.remove(name@),
    {
        let ghost model = entries_view(self.entries@);
        let mut kept: Vec<(Vec<u8>, TaskAddress)> = Vec::new();
        let mut k: usize = 0;
        while k < self.entries.len()
            invariant
                k <= self.entries.len(),
                model == entries_view(self.entries@),
                index_of(entries_view(kept@)) == index_of(model.take(k as int)).remove(name@),
            decreases self.entries.len() - k,
        {
            proof {
                assert(model.take(k as int + 1).drop_last() =~= model.take(k as int));
                assert(model.take(k as int + 1).last() == model[k as int]);
            }
            if !same_bytes(&self.entries[k].0, name) {
                let entry = (copy_vec(&self.entries[k].0), self.entries[k].1);
                proof {
                    let before = entries_view(kept@);
                    let after = entries_view(kept@.push(entry));
                    assert(after =~= before.push(model[k as int]));
                    assert(after.drop_last() =~= before);
                    assert(index_of(after) =~= index_of(model.take(k as int + 1)).remove(name@));
                }
                kept.push(entry);
            } else {
                proof {
                    assert(index_of(entries_view(kept@)) =~= index_of(
                        model.take(k as int + 1),
                    ).remove(name@));
                }
            }
            k += 1;
        }
        proof {
            assert(model.take(self.entries.len() as int) =~= model);
        }
        self.entries = kept;
    }
}

} // verus!
