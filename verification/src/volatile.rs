//! The in-memory resource storage: for each resource type a column of
//! resources keyed by their identifiers.

use vstd::prelude::*;
use std::collections::HashMap;
use crate::resources::{Resource, ResourceId, ResourceValue};
use vstd::std_specs::iter::IteratorSpec;

verus! {

broadcast use vstd::std_specs::hash::group_hash_axioms;

/// The resources that a storage holds, column by column: the column of a
/// kind maps identifiers to stored values.
pub type StorageModel<V> = Map<u64, Map<u128, V>>;

/// The column of `kind`: empty where the storage holds none.
pub open spec fn column<V>(m: StorageModel<V>, kind: u64) -> Map<u128, V> {
    if m.contains_key(kind) {
        m[kind]
    } else {
        Map::empty()
    }
}

/// The stored value of `kind` under `id`, if any.
pub open spec fn lookup<V>(m: StorageModel<V>, kind: u64, id: u128) -> Option<V> {
    column(m, kind).get(id)
}

/// The storage after storing `value` of `kind` under `id`.
pub open spec fn inserted<V>(m: StorageModel<V>, kind: u64, id: u128, value: V) -> StorageModel<V> {
    m.insert(kind, column(m, kind).insert(id, value))
}

/// The storage after taking out the value of `kind` under `id`: a column
/// that this leaves empty is dropped.
pub open spec fn removed<V>(m: StorageModel<V>, kind: u64, id: u128) -> StorageModel<V> {
    if !column(m, kind).contains_key(id) {
        m
    } else if column(m, kind).remove(id).is_empty() {
        m.remove(kind)
    } else {
        m.insert(kind, column(m, kind).remove(id))
    }
}

/// No column is empty, and every value stands in the column of its kind.
pub open spec fn well_formed<U: ResourceValue>(m: StorageModel<U::V>) -> bool {
    &&& forall|kind: u64| #[trigger] m.contains_key(kind) ==> !m[kind].is_empty()
    &&& forall|kind: u64, id: u128|
        #[trigger] m.contains_key(kind) && #[trigger] m[kind].contains_key(id)
            ==> U::spec_kind(m[kind][id]) == kind
}

/// The resource of type `R` that `stored` holds, if any.
pub open spec fn loaded<U: ResourceValue, R: Resource<U>>(stored: Option<U::V>) -> Option<R::V> {
    match stored {
        Some(value) => R::spec_load(value),
        None => None,
    }
}

/// The identifiers and views of listed resources.
pub open spec fn listing_view<I: ResourceId, R: View>(resources: Seq<(I, R)>) -> Seq<(u128, R::V)> {
    resources.map_values(|entry: (I, R)| (entry.0.spec_id(), entry.1@))
}

/// `entries` lists the resources of type `R` in `column`: each exactly once,
/// in any order.
pub open spec fn lists<U: ResourceValue, R: Resource<U>>(column: Map<u128, U::V>, entries: Seq<(u128, R::V)>) -> bool {
    &&& forall|j: int| 0 <= j < entries.len() ==>
        #[trigger] column.contains_key(entries[j].0) && R::spec_load(column[entries[j].0]) == Some(entries[j].1)
    &&& forall|id: u128| #[trigger] column.contains_key(id) ==> exists|j: int| 0 <= j < entries.len() && #[trigger] entries[j].0 == id
    &&& forall|j: int, k: int| 0 <= j < entries.len() && 0 <= k < entries.len() && j != k ==> #[trigger] entries[j].0 != #[trigger] entries[k].0
}

/// Reading back a write: after storing `value` of `kind` under `id`, that
/// is what is stored there, and every other kind and identifier keeps what
/// it had.
pub proof fn lemma_lookup_after_insert<V>(m: StorageModel<V>, kind: u64, id: u128, value: V, other_kind: u64, other_id: u128)
    ensures
        lookup(inserted(m, kind, id, value), kind, id) == Some(value),
        other_kind != kind || other_id != id ==>
            lookup(inserted(m, kind, id, value), other_kind, other_id) == lookup(m, other_kind, other_id),
{
}

/// After taking out the value of `kind` under `id`, nothing is stored
/// there, and every other kind and identifier keeps what it had.
pub proof fn lemma_lookup_after_remove<V>(m: StorageModel<V>, kind: u64, id: u128, other_kind: u64, other_id: u128)
    ensures
        lookup(removed(m, kind, id), kind, id) is None,
        other_kind != kind || other_id != id ==>
            lookup(removed(m, kind, id), other_kind, other_id) == lookup(m, other_kind, other_id),
{
    if column(m, kind).contains_key(id) && !column(m, kind).remove(id).is_empty() {
        assert(column(removed(m, kind, id), kind) == column(m, kind).remove(id));
    }
    if column(m, kind).contains_key(id) && column(m, kind).remove(id).is_empty() && other_kind == kind {
        assert(column(m, kind).remove(id).dom() =~= Set::empty());
        if other_id != id {
            assert(!column(m, kind).remove(id).contains_key(other_id));
        }
    }
}

/// A resource of type `R` stored under `id` is what reading `R` under `id`
/// gives back.
pub proof fn lemma_read_back_resource<U: ResourceValue, R: Resource<U>>(m: StorageModel<U::V>, id: u128, resource: R::V)
    ensures
        loaded::<U, R>(lookup(inserted(m, R::spec_kind(), id, R::spec_store(resource)), R::spec_kind(), id)) == Some(resource),
{
    R::lemma_store_then_load(resource);
}

/// Storing a value under an identifier where its kind holds none, then
/// taking it out again, leaves the storage as it was.
pub proof fn lemma_remove_undoes_insert<U: ResourceValue>(m: StorageModel<U::V>, kind: u64, id: u128, value: U::V)
    requires
        well_formed::<U>(m),
        lookup(m, kind, id) is None,
    ensures
        removed(inserted(m, kind, id, value), kind, id) == m,
{
    let after = inserted(m, kind, id, value);
    assert(column(after, kind) == column(m, kind).insert(id, value));
    assert(column(m, kind).insert(id, value).remove(id) =~= column(m, kind));
    if m.contains_key(kind) {
        assert(!m[kind].is_empty());
        assert(removed(after, kind, id) =~= m);
    } else {
        assert(column(m, kind).dom() =~= Set::empty());
        assert(removed(after, kind, id) =~= m);
    }
}

/// Storing a value in the column of its kind keeps the storage well formed.
pub proof fn lemma_insert_keeps_well_formed<U: ResourceValue>(m: StorageModel<U::V>, kind: u64, id: u128, value: U::V)
    requires
        well_formed::<U>(m),
        U::spec_kind(value) == kind,
    ensures
        well_formed::<U>(inserted(m, kind, id, value)),
{
    let after = inserted(m, kind, id, value);
    assert(after[kind].contains_key(id));
}

/// Taking a value out keeps the storage well formed: a column that this
/// empties is dropped.
pub proof fn lemma_remove_keeps_well_formed<U: ResourceValue>(m: StorageModel<U::V>, kind: u64, id: u128)
    requires
        well_formed::<U>(m),
    ensures
        well_formed::<U>(removed(m, kind, id)),
{
}

/// A well-formed storage is empty exactly when it stores no value.
pub proof fn lemma_empty_iff_nothing_stored<U: ResourceValue>(m: StorageModel<U::V>)
    requires
        well_formed::<U>(m),
    ensures
        m.is_empty() <==> forall|kind: u64, id: u128| lookup(m, kind, id) is None,
{
    if !m.is_empty() {
        let kind = m.dom().choose();
        assert(m.contains_key(kind));
        assert(!m[kind].is_empty());
        let id = m[kind].dom().choose();
        assert(lookup(m, kind, id) is Some);
    } else {
        assert forall|kind: u64, id: u128| lookup(m, kind, id) is None by {
            assert(!m.contains_key(kind));
        }
    }
}

/// Resources of any types, kept in memory.
pub struct VolatileResourcesStorage<U: ResourceValue> {
    storage: HashMap<u64, HashMap<u128, U>>,
}

/// The view of one column.
pub open spec fn column_view<U: View>(column: HashMap<u128, U>) -> Map<u128, U::V> {
    column@.map_values(|value: U| value@)
}

/// The view of all columns.
pub open spec fn storage_view<U: View>(storage: Map<u64, HashMap<u128, U>>) -> StorageModel<U::V> {
    storage.map_values(|c: HashMap<u128, U>| column_view(c))
}

impl<U: ResourceValue> View for VolatileResourcesStorage<U> {
    type V = StorageModel<U::V>;

    closed spec fn view(&self) -> StorageModel<U::V> {
        storage_view(self.storage@)
    }
}

impl<U: ResourceValue> VolatileResourcesStorage<U> {
    #[verifier::type_invariant]
    closed spec fn storage_invariant(self) -> bool {
        well_formed::<U>(self@)
    }

    /// An empty storage.
    pub fn new() -> (storage: VolatileResourcesStorage<U>)
        ensures
            storage@ == Map::<u64, Map<u128, U::V>>::empty(),
    {
        let storage = VolatileResourcesStorage { storage: HashMap::new() };
        assert(storage@ =~= Map::<u64, Map<u128, U::V>>::empty());
        storage
    }

    /// Stores `resource` under `id`, in place of any resource of its type
    /// stored there before.
    pub fn insert<R: Resource<U>>(&mut self, id: R::Id, resource: R)
        ensures
            final(self)@ == inserted(old(self)@, R::spec_kind(), id.spec_id(), R::spec_store(resource@)),
    {
        proof {
            use_type_invariant(&*self);
            R::lemma_store_then_load(resource@);
        }
        let ghost before = self@;
        let kind = R::kind();
        let id = id.into_id();
        let mut storage = HashMap::new();
        std::mem::swap(&mut storage, &mut self.storage);
        let mut entries = match storage.remove(&kind) {
            Some(column) => column,
            None => HashMap::new(),
        };
        assert(column_view(entries) =~= column(before, kind));
        entries.insert(id, resource.store());
        let ghost new_column = column_view(entries);
        assert(new_column =~= column(before, kind).insert(id, R::spec_store(resource@)));
        storage.insert(kind, entries);
        assert(storage_view(storage@) =~= inserted(before, kind, id, R::spec_store(resource@)));
        self.storage = storage;
    }

    /// Takes out the resource of type `R` stored under `id`, and drops the
    /// column of `R` where that leaves it empty.
    pub fn remove<R: Resource<U>>(&mut self, id: R::Id) -> (resource: Option<R>)
        ensures
            final(self)@ == removed(old(self)@, R::spec_kind(), id.spec_id()),
            resource matches Some(r) ==> lookup(old(self)@, R::spec_kind(), id.spec_id()) matches Some(v)
                && R::spec_load(v) == Some(r@),
            resource is None <==> lookup(old(self)@, R::spec_kind(), id.spec_id()) is None,
    {
        proof {
            use_type_invariant(&*self);
        }
        let ghost before = self@;
        let kind = R::kind();
        let id = id.into_id();
        let mut storage = HashMap::new();
        std::mem::swap(&mut storage, &mut self.storage);
        match storage.remove(&kind) {
            None => {
                assert(storage_view(storage@) =~= before);
                self.storage = storage;
                None
            },
            Some(mut entries) => {
                assert(column_view(entries) =~= column(before, kind));
                let taken = entries.remove(&id);
                let result = match taken {
                    None => None,
                    Some(value) => {
                        proof {
                            R::lemma_load_by_kind(value@);
                        }
                        R::load(&value)
                    },
                };
                if entries.is_empty() {
                    assert(column_view(entries) =~= column(before, kind).remove(id));
                    assert(column_view(entries).dom() =~= entries@.dom());
                    assert(column(before, kind).remove(id).is_empty());
                    proof {
                        assert(before.contains_key(kind));
                        if !column(before, kind).contains_key(id) {
                            assert(column(before, kind).remove(id) =~= column(before, kind));
                            assert(column(before, kind).dom() =~= Set::empty());
                        }
                    }
                    assert(storage_view(storage@) =~= removed(before, kind, id));
                } else {
                    assert(column_view(entries) =~= column(before, kind).remove(id));
                    storage.insert(kind, entries);
                    proof {
                        if !column(before, kind).contains_key(id) {
                            assert(column(before, kind).remove(id) =~= column(before, kind));
                        }
                    }
                    assert(storage_view(storage@) =~= removed(before, kind, id));
                }
                self.storage = storage;
                result
            },
        }
    }

    /// The resource of type `R` stored under `id`, if any.
    pub fn get<R: Resource<U>>(&self, id: R::Id) -> (resource: Option<R>)
        ensures
            resource matches Some(r) ==> lookup(self@, R::spec_kind(), id.spec_id()) matches Some(v)
                && R::spec_load(v) == Some(r@),
            resource is None <==> lookup(self@, R::spec_kind(), id.spec_id()) is None,
    {
        proof {
            use_type_invariant(self);
        }
        let kind = R::kind();
        let id = id.into_id();
        match self.storage.get(&kind) {
            None => None,
            Some(entries) => {
                assert(column_view(*entries) =~= column(self@, kind));
                match entries.get(&id) {
                    None => None,
                    Some(value) => {
                        proof {
                            R::lemma_load_by_kind(value@);
                        }
                        R::load(value)
                    },
                }
            },
        }
    }

    /// Whether a resource of type `R` is stored under `id`.
    pub fn contains<R: Resource<U>>(&self, id: R::Id) -> (stored: bool)
        ensures
            stored == column(self@, R::spec_kind()).contains_key(id.spec_id()),
    {
        let kind = R::kind();
        let id = id.into_id();
        match self.storage.get(&kind) {
            None => false,
            Some(entries) => {
                assert(column_view(*entries) =~= column(self@, kind));
                entries.contains_key(&id)
            },
        }
    }

    /// Every resource of type `R`, with its identifier, in no particular
    /// order.
    pub fn list<R: Resource<U>>(&self) -> (resources: Vec<(R::Id, R)>)
        ensures
            lists::<U, R>(column(self@, R::spec_kind()), listing_view(resources@)),
    {
        proof {
            use_type_invariant(self);
        }
        let kind = R::kind();
        let mut resources: Vec<(R::Id, R)> = Vec::new();
        match self.storage.get(&kind) {
            None => {
                assert(listing_view(resources@) =~= Seq::empty());
            },
            Some(entries) => {
                assert(column_view(*entries) =~= column(self@, kind));
                let ghost remaining = vstd::std_specs::hash::spec_hash_map_iter(entries).remaining();
                for (id, value) in it: entries.iter()
                    invariant
                        kind == R::spec_kind(),
                        column_view(*entries) == column(self@, kind),
                        self.storage@.contains_key(kind),
                        self.storage@[kind] == *entries,
                        well_formed::<U>(self@),
                        it.seq() == remaining,
                        resources@.len() == it.index(),
                        forall|j: int| 0 <= j < it.index() ==> {
                            &&& (#[trigger] listing_view(resources@)[j]).0 == *remaining[j].0
                            &&& R::spec_load(remaining[j].1@) == Some(listing_view(resources@)[j].1)
                        },
                {
                    let ghost position = it.index() as int;
                    assert(remaining[position] == (id, value));
                    assert(entries@.contains_key(*remaining[position].0));
                    assert(entries@[*id] == *value);
                    assert(self@.contains_key(kind));
                    assert(column_view(*entries).contains_key(*id));
                    assert(self@[kind].contains_key(*id));
                    assert(self@[kind][*id] == value@);
                    assert(U::spec_kind(value@) == kind);
                    proof {
                        R::lemma_load_by_kind(value@);
                    }
                    let resource = R::load(value).unwrap();
                    let ghost listed_before = listing_view(resources@);
                    resources.push((R::Id::from_id(*id), resource));
                    assert(listing_view(resources@) =~= listed_before.push((*id, resource@)));
                }
                proof {
                    let listed = listing_view(resources@);
                    let col = column(self@, kind);
                    assert(listed.len() == remaining.len());
                    assert forall|j: int| 0 <= j < listed.len() implies
                        #[trigger] col.contains_key(listed[j].0) && R::spec_load(col[listed[j].0]) == Some(listed[j].1) by {
                        assert(entries@.contains_key(*remaining[j].0));
                        assert(entries@[*remaining[j].0] == *remaining[j].1);
                    }
                    assert forall|id: u128| #[trigger] col.contains_key(id) implies
                        exists|j: int| 0 <= j < listed.len() && #[trigger] listed[j].0 == id by {
                        assert(entries@.contains_key(id));
                        assert(remaining.contains((&id, &entries@[id])));
                        let j = choose|j: int| 0 <= j < remaining.len() && remaining[j] == (&id, &entries@[id]);
                        assert(listed[j].0 == id);
                    }
                    assert forall|j: int, k: int| 0 <= j < listed.len() && 0 <= k < listed.len() && j != k implies
                        #[trigger] listed[j].0 != #[trigger] listed[k].0 by {
                        assert(entries@.contains_key(*remaining[j].0));
                        assert(entries@.contains_key(*remaining[k].0));
                        assert(entries@[*remaining[j].0] == *remaining[j].1);
                        assert(entries@[*remaining[k].0] == *remaining[k].1);
                        assert(remaining.no_duplicates());
                    }
                }
            },
        }
        resources
    }

    /// Whether the storage holds no resource at all.
    pub fn is_empty(&self) -> (empty: bool)
        ensures
            empty == self@.is_empty(),
            empty <==> forall|kind: u64, id: u128| lookup(self@, kind, id) is None,
    {
        proof {
            use_type_invariant(self);
        }
        let empty = self.storage.is_empty();
        assert(self.storage@.dom() =~= self@.dom());
        proof {
            if !empty {
                let kind = self@.dom().choose();
                assert(self@.contains_key(kind));
                let id = self@[kind].dom().choose();
                assert(lookup(self@, kind, id) is Some);
            }
        }
        empty
    }
}

} // verus!

verus! {

impl<U: ResourceValue> Default for VolatileResourcesStorage<U> {
    fn default() -> (storage: VolatileResourcesStorage<U>)
        ensures
            storage@ == Map::<u64, Map<u128, U::V>>::empty(),
    {
        VolatileResourcesStorage::new()
    }
}

/// The operations of one transaction on a memory storage.
pub struct VolatileResourcesTransaction<'transaction, U: ResourceValue> {
    /// The storage that the transaction works on.
    pub memory: &'transaction mut VolatileResourcesStorage<U>,
}

impl<'transaction, U: ResourceValue> VolatileResourcesTransaction<'transaction, U> {
    /// What the storage of the transaction holds.
    pub open spec fn memory(&self) -> StorageModel<U::V> {
        (*self.memory)@
    }

    /// Stores `resource` under `id`.
    pub fn insert<R: Resource<U>>(&mut self, id: R::Id, resource: R)
        ensures
            final(self).memory() == inserted(old(self).memory(), R::spec_kind(), id.spec_id(), R::spec_store(resource@)),
            *final(final(self).memory) == *final(old(self).memory),
    {
        self.memory.insert(id, resource)
    }

    /// Takes out the resource of type `R` stored under `id`.
    pub fn remove<R: Resource<U>>(&mut self, id: R::Id) -> (resource: Option<R>)
        ensures
            final(self).memory() == removed(old(self).memory(), R::spec_kind(), id.spec_id()),
            *final(final(self).memory) == *final(old(self).memory),
            resource matches Some(r) ==> lookup(old(self).memory(), R::spec_kind(), id.spec_id()) matches Some(v)
                && R::spec_load(v) == Some(r@),
            resource is None <==> lookup(old(self).memory(), R::spec_kind(), id.spec_id()) is None,
    {
        self.memory.remove(id)
    }

    /// The resource of type `R` stored under `id`, if any.
    pub fn get<R: Resource<U>>(&self, id: R::Id) -> (resource: Option<R>)
        ensures
            resource matches Some(r) ==> lookup(self.memory(), R::spec_kind(), id.spec_id()) matches Some(v)
                && R::spec_load(v) == Some(r@),
            resource is None <==> lookup(self.memory(), R::spec_kind(), id.spec_id()) is None,
    {
        self.memory.get(id)
    }

    /// Every resource of type `R`, with its identifier, in no particular
    /// order.
    pub fn list<R: Resource<U>>(&self) -> (resources: Vec<(R::Id, R)>)
        ensures
            lists::<U, R>(column(self.memory(), R::spec_kind()), listing_view(resources@)),
    {
        self.memory.list()
    }
}


/// The memory storage of the cluster manager, from which transactions are
/// taken.
pub struct VolatileResourcesStorageHandle<U: ResourceValue> {
    memory: VolatileResourcesStorage<U>,
}

impl<U: ResourceValue> VolatileResourcesStorageHandle<U> {
    /// What the storage holds.
    pub closed spec fn memory(&self) -> StorageModel<U::V> {
        self.memory@
    }

    /// A handle on an empty storage.
    pub fn new() -> (handle: VolatileResourcesStorageHandle<U>)
        ensures
            handle.memory() == Map::<u64, Map<u128, U::V>>::empty(),
    {
        VolatileResourcesStorageHandle { memory: VolatileResourcesStorage::new() }
    }

    /// A transaction on the storage; what it leaves in its storage is what
    /// the handle holds afterwards.
    pub fn transaction(&mut self) -> (transaction: VolatileResourcesTransaction<'_, U>)
        ensures
            transaction.memory() == old(self).memory(),
            final(self).memory() == (*final(transaction.memory))@,
    {
        VolatileResourcesTransaction { memory: &mut self.memory }
    }
}


impl<U: ResourceValue> VolatileResourcesStorageHandle<U> {
    /// Whether a resource of type `R` is stored under `id`.
    pub fn contains<R: Resource<U>>(&self, id: R::Id) -> (stored: bool)
        ensures
            stored == column(self.memory(), R::spec_kind()).contains_key(id.spec_id()),
    {
        self.memory.contains::<R>(id)
    }

    /// Whether the storage holds no resource at all.
    pub fn is_empty(&self) -> (empty: bool)
        ensures
            empty == self.memory().is_empty(),
            empty <==> forall|kind: u64, id: u128| lookup(self.memory(), kind, id) is None,
    {
        self.memory.is_empty()
    }
}

impl<U: ResourceValue> Default for VolatileResourcesStorageHandle<U> {
    fn default() -> (handle: VolatileResourcesStorageHandle<U>)
        ensures
            handle.memory() == Map::<u64, Map<u128, U::V>>::empty(),
    {
        VolatileResourcesStorageHandle::new()
    }
}

} // verus!
