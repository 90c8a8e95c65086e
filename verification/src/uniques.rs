//! Listings of a registry of unique items: its collections, its items and the approvals
//! of an item, each in a fixed order.

use crate::scheduler::names::same_bytes;
use crate::sorting::{sort_by_rank, sorted_by_rank, Ranked};
use crate::store::copy_vec;
use vstd::prelude::*;

verus! {

/// An account.
pub type AccountId = u64;

/// The identifier of a collection.
pub type CollectionId = u32;

/// The identifier of an item within its collection.
pub type ItemId = u32;

/// What is recorded of a collection.
#[derive(Clone, Copy, Debug, PartialEq, Eq, Structural)]
pub struct CollectionDetails {
    pub owner: AccountId,
    /// How many items the collection holds.
    pub items: u32,
    /// How many attributes are set on the collection and its items.
    pub attributes: u32,
}

/// What is recorded of an item.
#[derive(Clone, Debug, PartialEq, Eq)]
pub struct ItemDetails {
    pub owner: AccountId,
    /// Who may transfer the item, each with the block until which the approval holds.
    pub approvals: Vec<(AccountId, Option<u64>)>,
}

/// The registry: the collections and items, and the indexes by owner.
pub struct Registry {
    /// The collections, by identifier.
    pub collections: Vec<(CollectionId, CollectionDetails)>,
    /// The index of collections by owner.
    pub collection_owner: Vec<(AccountId, CollectionId)>,
    /// The items, by collection and identifier.
    pub items: Vec<(CollectionId, ItemId, ItemDetails)>,
    /// The index of items by owner.
    pub account_items: Vec<(AccountId, CollectionId, ItemId)>,
    /// The attributes: each the collection, the item if it is set on one, the key and
    /// the value.
    pub attributes: Vec<(CollectionId, Option<ItemId>, Vec<u8>, Vec<u8>)>,
}

/// An attribute as it is listed: the item if it is set on one, the key and the value.
pub type Attribute = (Option<ItemId>, Vec<u8>, Vec<u8>);

/// The model of an [`Attribute`].
pub type AttributeView = (Option<ItemId>, Seq<u8>, Seq<u8>);

/// Collections by owner are ordered by owner, then by collection.
impl Ranked for (AccountId, CollectionId) {
    open spec fn rank(&self) -> int {
        self.0 as int * 0x1_0000_0000 + self.1 as int
    }

    fn ranks_at_most(&self, other: &Self) -> (b: bool) {
        self.0 < other.0 || (self.0 == other.0 && self.1 <= other.1)
    }
}

/// Items by owner are ordered by owner, then by collection, then by item.
impl Ranked for (AccountId, CollectionId, ItemId) {
    open spec fn rank(&self) -> int {
        self.0 as int * 0x1_0000_0000_0000_0000 + self.1 as int * 0x1_0000_0000 + self.2 as int
    }

    fn ranks_at_most(&self, other: &Self) -> (b: bool) {
        self.0 < other.0 || (self.0 == other.0 && (self.1 < other.1 || (self.1 == other.1
            && self.2 <= other.2)))
    }
}

/// The owner and identifier of each collection, in the order of the collections.
pub open spec fn owned_collections(collections: Seq<(CollectionId, CollectionDetails)>) -> Seq<
    (AccountId, CollectionId),
> {
    collections.map_values(|c: (CollectionId, CollectionDetails)| (c.1.owner, c.0))
}

/// The owner, collection and identifier of each item, in the order of the items.
pub open spec fn owned_items(items: Seq<(CollectionId, ItemId, ItemDetails)>) -> Seq<
    (AccountId, CollectionId, ItemId),
> {
    items.map_values(|i: (CollectionId, ItemId, ItemDetails)| (i.2.owner, i.0, i.1))
}

/// How many of the first `k` items belong to `collection`.
pub open spec fn items_in(
    items: Seq<(CollectionId, ItemId, ItemDetails)>,
    collection: CollectionId,
    k: int,
) -> nat
    decreases k,
{
    if k <= 0 {
        0
    } else {
        items_in(items, collection, k - 1) + if items[k - 1].0 == collection {
            1nat
        } else {
            0nat
        }
    }
}

/// The position of the first item at or after `from` with this collection and
/// identifier; the number of items where there is none.
pub open spec fn first_item(
    items: Seq<(CollectionId, ItemId, ItemDetails)>,
    collection: CollectionId,
    item: ItemId,
    from: int,
) -> int
    decreases items.len() - from,
{
    if from < 0 || from >= items.len() {
        items.len() as int
    } else if items[from].0 == collection && items[from].1 == item {
        from
    } else {
        first_item(items, collection, item, from + 1)
    }
}

impl Registry {
    /// The index of collections by owner lists exactly the collections.
    pub open spec fn collections_agree(&self) -> bool {
        sorted_by_rank(self.collection_owner@) == sorted_by_rank(owned_collections(self.collections@))
    }

    /// The index of items by owner lists exactly the items, and every collection that
    /// has an item records how many it has.
    pub open spec fn items_agree(&self) -> bool {
        &&& sorted_by_rank(self.account_items@) == sorted_by_rank(owned_items(self.items@))
        &&& forall|k: int|
            0 <= k < self.items@.len() ==> exists|c: int|
                0 <= c < self.collections@.len() && self.collections@[c].0 == (
                #[trigger] self.items@[k]).0 && self.collections@[c].1.items == items_in(
                    self.items@,
                    self.items@[k].0,
                    self.items@.len() as int,
                )
    }

    /// An empty registry.
    pub fn new() -> (registry: Registry)
        ensures
            registry.collections@.len() == 0,
            registry.collection_owner@.len() == 0,
            registry.items@.len() == 0,
            registry.account_items@.len() == 0,
            registry.attributes@.len() == 0,
    {
        Registry {
            collections: Vec::new(),
            collection_owner: Vec::new(),
            items: Vec::new(),
            account_items: Vec::new(),
            attributes: Vec::new(),
        }
    }

    /// The collection, if it is recorded, records how many attributes it has.
    pub open spec fn attributes_agree(&self, collection: CollectionId) -> bool {
        attributes_of(self.attributes@, collection, self.attributes@.len() as int).len()
            == recorded_attributes(self.collections@, collection, 0)
    }
}

/// The collections with their owners, ordered by owner and then by collection.
pub fn collections(registry: &Registry) -> (r: Vec<(AccountId, CollectionId)>)
    requires
        registry.collections_agree(),
    ensures
        r@ == sorted_by_rank(registry.collection_owner@),
        r@ == sorted_by_rank(owned_collections(registry.collections@)),
{
    sort_by_rank(&registry.collection_owner)
}

/// The items with their owners, ordered by owner, then by collection, then by item.
pub fn items(registry: &Registry) -> (r: Vec<(AccountId, CollectionId, ItemId)>)
    requires
        registry.items_agree(),
    ensures
        r@ == sorted_by_rank(registry.account_items@),
        r@ == sorted_by_rank(owned_items(registry.items@)),
{
    sort_by_rank(&registry.account_items)
}

/// The approvals of an item, in the order in which the item holds them.
pub fn approvals(registry: &Registry, collection_id: CollectionId, item_id: ItemId) -> (r: Vec<
    (AccountId, Option<u64>),
>)
    requires
        first_item(registry.items@, collection_id, item_id, 0) < registry.items@.len(),
    ensures
        r@ == registry.items@[first_item(registry.items@, collection_id, item_id, 0)].2.approvals@,
{
    let mut k: usize = 0;
    while k < registry.items.len()
        invariant
            k <= registry.items.len(),
            first_item(registry.items@, collection_id, item_id, 0) == first_item(
                registry.items@,
                collection_id,
                item_id,
                k as int,
            ),
            first_item(registry.items@, collection_id, item_id, 0) < registry.items@.len(),
        decreases registry.items.len() - k,
    {
        if registry.items[k].0 == collection_id && registry.items[k].1 == item_id {
            return copy_vec(&registry.items[k].2.approvals);
        }
        k += 1;
    }
    Vec::new()
}

/// Whether the byte string `a` comes at or before `b` in the order of the dictionary:
/// the first byte that differs decides, and a string comes before those it begins.
pub open spec fn bytes_le(a: Seq<u8>, b: Seq<u8>) -> bool
    decreases a.len(),
{
    if a.len() == 0 {
        true
    } else if b.len() == 0 {
        false
    } else if a[0] != b[0] {
        a[0] < b[0]
    } else {
        bytes_le(a.drop_first(), b.drop_first())
    }
}

/// The place of an attribute's item in the order: those set on no item first, then by
/// item.
pub open spec fn item_rank(item: Option<ItemId>) -> int {
    match item {
        None => 0,
        Some(i) => 1 + i as int,
    }
}

/// Whether the attribute `a` comes at or before `b`: by item, then by key, then by
/// value.
pub open spec fn attribute_le(a: AttributeView, b: AttributeView) -> bool {
    ||| item_rank(a.0) < item_rank(b.0)
    ||| item_rank(a.0) == item_rank(b.0) && a.1 != b.1 && bytes_le(a.1, b.1)
    ||| item_rank(a.0) == item_rank(b.0) && a.1 == b.1 && bytes_le(a.2, b.2)
}

/// Whether no attribute of the sequence comes before an earlier one.
pub open spec fn attributes_sorted(s: Seq<AttributeView>) -> bool {
    forall|i: int, j: int| 0 <= i < j < s.len() ==> attribute_le(s[i], s[j])
}

/// The model of an attribute.
pub open spec fn attribute_view(a: Attribute) -> AttributeView {
    (a.0, a.1@, a.2@)
}

/// The models of a sequence of attributes.
pub open spec fn attributes_view(s: Seq<Attribute>) -> Seq<AttributeView> {
    s.map_values(|a: Attribute| attribute_view(a))
}

/// Those of the first `k` attributes that belong to `collection`, in their order.
pub open spec fn attributes_of(
    all: Seq<(CollectionId, Option<ItemId>, Vec<u8>, Vec<u8>)>,
    collection: CollectionId,
    k: int,
) -> Seq<AttributeView>
    decreases k,
{
    if k <= 0 {
        Seq::empty()
    } else if all[k - 1].0 == collection {
        attributes_of(all, collection, k - 1).push((all[k - 1].1, all[k - 1].2@, all[k - 1].3@))
    } else {
        attributes_of(all, collection, k - 1)
    }
}

/// How many attributes the first record of `collection` at or after `from` says it
/// has; zero where the collection is not recorded.
pub open spec fn recorded_attributes(
    collections: Seq<(CollectionId, CollectionDetails)>,
    collection: CollectionId,
    from: int,
) -> nat
    decreases collections.len() - from,
{
    if from < 0 || from >= collections.len() {
        0
    } else if collections[from].0 == collection {
        collections[from].1.attributes as nat
    } else {
        recorded_attributes(collections, collection, from + 1)
    }
}

/// Of two byte strings, one comes at or before the other.
pub proof fn lemma_bytes_le_total(a: Seq<u8>, b: Seq<u8>)
    ensures
        bytes_le(a, b) || bytes_le(b, a),
    decreases a.len(),
{
    if a.len() > 0 && b.len() > 0 && a[0] == b[0] {
        lemma_bytes_le_total(a.drop_first(), b.drop_first());
    }
}

/// Two byte strings that come at or before each other are the same.
pub proof fn lemma_bytes_le_antisymmetric(a: Seq<u8>, b: Seq<u8>)
    requires
        bytes_le(a, b),
        bytes_le(b, a),
    ensures
        a == b,
    decreases a.len(),
{
    if a.len() > 0 && b.len() > 0 {
        lemma_bytes_le_antisymmetric(a.drop_first(), b.drop_first());
        assert(a =~= seq![a[0]] + a.drop_first());
        assert(b =~= seq![b[0]] + b.drop_first());
    } else {
        assert(a =~= b);
    }
}

/// The order of byte strings is transitive.
pub proof fn lemma_bytes_le_transitive(a: Seq<u8>, b: Seq<u8>, c: Seq<u8>)
    requires
        bytes_le(a, b),
        bytes_le(b, c),
    ensures
        bytes_le(a, c),
    decreases a.len(),
{
    if a.len() > 0 && b.len() > 0 && c.len() > 0 && a[0] == b[0] && b[0] == c[0] {
        lemma_bytes_le_transitive(a.drop_first(), b.drop_first(), c.drop_first());
    }
}

/// Of two attributes, one comes at or before the other.
pub proof fn lemma_attribute_le_total(a: AttributeView, b: AttributeView)
    ensures
        attribute_le(a, b) || attribute_le(b, a),
{
    lemma_bytes_le_total(a.1, b.1);
    lemma_bytes_le_total(a.2, b.2);
}

/// The order of attributes is transitive.
pub proof fn lemma_attribute_le_transitive(a: AttributeView, b: AttributeView, c: AttributeView)
    requires
        attribute_le(a, b),
        attribute_le(b, c),
    ensures
        attribute_le(a, c),
{
    if item_rank(a.0) == item_rank(b.0) && item_rank(b.0) == item_rank(c.0) {
        if a.1 != b.1 && b.1 != c.1 {
            lemma_bytes_le_transitive(a.1, b.1, c.1);
            if a.1 == c.1 {
                lemma_bytes_le_antisymmetric(a.1, b.1);
            }
        } else if a.1 == b.1 && b.1 == c.1 {
            lemma_bytes_le_transitive(a.2, b.2, c.2);
        }
    }
}

/// Two sorted sequences of attributes that hold the same attributes, each as often,
/// are the same: the order leaves no choice.
pub proof fn lemma_sorted_attributes_unique(s: Seq<AttributeView>, t: Seq<AttributeView>)
    requires
        attributes_sorted(s),
        attributes_sorted(t),
        s.to_multiset() == t.to_multiset(),
    ensures
        s == t,
    decreases s.len(),
{
    broadcast use vstd::seq_lib::group_to_multiset_ensures;

    assert(s.to_multiset().len() == s.len());
    assert(t.to_multiset().len() == t.len());
    if s.len() > 0 {
        let x = s.last();
        let y = t.last();
        assert(s.contains(x));
        assert(t.contains(y));
        assert(t.to_multiset().count(x) > 0);
        assert(s.to_multiset().count(y) > 0);
        assert(t.contains(x));
        assert(s.contains(y));
        let i = choose|i: int| 0 <= i < t.len() && t[i] == x;
        let j = choose|j: int| 0 <= j < s.len() && s[j] == y;
        assert(attribute_le(x, y)) by {
            if i < t.len() - 1 {
                assert(attribute_le(t[i], t[t.len() - 1]));
            } else {
                lemma_attribute_le_total(x, x);
            }
        }
        assert(attribute_le(y, x)) by {
            if j < s.len() - 1 {
                assert(attribute_le(s[j], s[s.len() - 1]));
            } else {
                lemma_attribute_le_total(y, y);
            }
        }
        assert(x == y) by {
            if item_rank(x.0) == item_rank(y.0) {
                if x.1 != y.1 {
                    lemma_bytes_le_antisymmetric(x.1, y.1);
                } else {
                    lemma_bytes_le_antisymmetric(x.2, y.2);
                }
            }
        }
        let s1 = s.drop_last();
        let t1 = t.drop_last();
        assert(s1 =~= s.remove(s.len() - 1));
        assert(t1 =~= t.remove(t.len() - 1));
        assert(s1.to_multiset() =~= t1.to_multiset());
        assert(attributes_sorted(s1));
        assert(attributes_sorted(t1));
        lemma_sorted_attributes_unique(s1, t1);
        assert(s =~= s1.push(x));
        assert(t =~= t1.push(y));
    } else {
        assert(s =~= t);
    }
}

/// Whether the byte string `a` comes at or before `b` in the order of the dictionary.
pub fn bytes_at_most(a: &Vec<u8>, b: &Vec<u8>) -> (r: bool)
    ensures
        r == bytes_le(a@, b@),
{
    let mut i: usize = 0;
    proof {
        assert(a@.skip(0) =~= a@);
        assert(b@.skip(0) =~= b@);
    }
    loop
        invariant
            i <= a.len(),
            i <= b.len(),
            bytes_le(a@, b@) == bytes_le(a@.skip(i as int), b@.skip(i as int)),
        decreases a.len() - i,
    {
        if i == a.len() {
            return true;
        }
        if i == b.len() {
            return false;
        }
        proof {
            assert(a@.skip(i as int)[0] == a@[i as int]);
            assert(b@.skip(i as int)[0] == b@[i as int]);
            assert(a@.skip(i as int).drop_first() =~= a@.skip(i as int + 1));
            assert(b@.skip(i as int).drop_first() =~= b@.skip(i as int + 1));
        }
        if a[i] != b[i] {
            return a[i] < b[i];
        }
        i += 1;
    }
}

/// Whether the attribute `a` comes at or before `b`.
pub fn attribute_at_most(a: &Attribute, b: &Attribute) -> (r: bool)
    ensures
        r == attribute_le(attribute_view(*a), attribute_view(*b)),
{
    let ra: u64 = match a.0 {
        None => 0,
        Some(i) => 1 + i as u64,
    };
    let rb: u64 = match b.0 {
        None => 0,
        Some(i) => 1 + i as u64,
    };
    if ra != rb {
        ra < rb
    } else if !same_bytes(&a.1, &b.1) {
        bytes_at_most(&a.1, &b.1)
    } else {
        bytes_at_most(&a.2, &b.2)
    }
}

/// The attributes of a collection and of its items: those of the collection first,
/// then by item, by key and by value.
pub fn attributes(registry: &Registry, collection: CollectionId) -> (r: Vec<Attribute>)
    requires
        registry.attributes_agree(collection),
    ensures
        attributes_sorted(attributes_view(r@)),
        attributes_view(r@).to_multiset() == attributes_of(
            registry.attributes@,
            collection,
            registry.attributes@.len() as int,
        ).to_multiset(),
        r@.len() == recorded_attributes(registry.collections@, collection, 0),
{
    broadcast use vstd::seq_lib::group_to_multiset_ensures;

    let mut out: Vec<Attribute> = Vec::new();
    let mut k: usize = 0;
    proof {
        assert(attributes_view(out@) =~= Seq::empty());
    }
    while k < registry.attributes.len()
        invariant
            k <= registry.attributes.len(),
            attributes_sorted(attributes_view(out@)),
            attributes_view(out@).to_multiset() == attributes_of(
                registry.attributes@,
                collection,
                k as int,
            ).to_multiset(),
            out@.len() == attributes_of(registry.attributes@, collection, k as int).len(),
        decreases registry.attributes.len() - k,
    {
        if registry.attributes[k].0 == collection {
            let x: Attribute = (
                registry.attributes[k].1,
                copy_vec(&registry.attributes[k].2),
                copy_vec(&registry.attributes[k].3),
            );
            let ghost xv = attribute_view(x);
            let ghost before = attributes_view(out@);
            let mut j: usize = 0;
            while j < out.len() && attribute_at_most(&out[j], &x)
                invariant
                    j <= out.len(),
                    before == attributes_view(out@),
                    xv == attribute_view(x),
                    forall|i: int| 0 <= i < j ==> attribute_le(before[i], xv),
                decreases out.len() - j,
            {
                j += 1;
            }
            proof {
                let after = before.insert(j as int, xv);
                assert(attributes_view(out@.insert(j as int, x)) =~= after);
                assert forall|a: int, b: int| 0 <= a < b < after.len() implies attribute_le(
                    after[a],
                    after[b],
                ) by {
                    if b < j {
                    } else if b == j {
                    } else if a < j {
                        assert(attribute_le(before[a], before[b - 1]));
                    } else if a == j {
                        lemma_attribute_le_total(before[j as int], xv);
                        if b - 1 > j {
                            assert(attribute_le(before[j as int], before[b - 1]));
                            lemma_attribute_le_transitive(xv, before[j as int], before[b - 1]);
                        }
                    } else {
                        assert(attribute_le(before[a - 1], before[b - 1]));
                    }
                }
                vstd::seq_lib::to_multiset_insert(before, j as int, xv);
                let listed = attributes_of(registry.attributes@, collection, k as int);
                assert(attributes_of(registry.attributes@, collection, k as int + 1) == listed.push(xv));
                vstd::seq_lib::to_multiset_build(listed, xv);
                assert(after.to_multiset() =~= before.to_multiset().insert(xv));
            }
            out.insert(j, x);
        }
        k += 1;
    }
    out
}

} // verus!
