//! The storage engine: the registry of collections and the operations on it.

use crate::error::{
    corrupt_snapshot, duplicate_collection, missing_collection, missing_record, DBError,
};
use crate::parse::{parse_bool, parse_i32, value_of_text};
use crate::schema::{
    clone_records, in_bounds, records_view, CollectionStorage, CollectionStorageHelper,
    CollectionView, Record, Value, ValueView,
};
use vstd::prelude::*;

verus! {

/// What the registry is, as mathematics: a finite map from the name of a
/// collection to the collection.
pub type RegistryView = Map<Seq<char>, CollectionView>;

/// What a snapshot is, as mathematics: names, each with a collection, in the
/// order in which the snapshot holds them.
pub type SnapshotView = Seq<(Seq<char>, CollectionView)>;

/// Whether `names` lists the collections of `registry`: each name under
/// which one is registered, once, and nothing else. The order is left open.
pub open spec fn is_listing(registry: RegistryView, names: Seq<Seq<char>>) -> bool {
    &&& names.no_duplicates()
    &&& names.to_set() == registry.dom()
}

/// The registry with an empty collection registered under `name`.
pub open spec fn with_collection(registry: RegistryView, name: Seq<char>) -> RegistryView {
    registry.insert(name, CollectionView { name: name, records: Seq::empty() })
}

/// The registry with `records` as the records of the collection registered
/// under `name`, and nothing else changed.
pub open spec fn with_records(
    registry: RegistryView,
    name: Seq<char>,
    records: Seq<Seq<ValueView>>,
) -> RegistryView {
    registry.insert(name, CollectionView { name: registry[name].name, records: records })
}

/// Whether the registry has a collection under `name` with a record at
/// `index`.
pub open spec fn holds_record(registry: RegistryView, name: Seq<char>, index: i32) -> bool {
    registry.contains_key(name) && in_bounds(index, registry[name].records.len())
}

/// The registry that a snapshot describes: each name is mapped to the
/// collection beside it, and a name that occurs more than once to the last
/// of them.
pub open spec fn snapshot_registry(entries: SnapshotView) -> RegistryView
    decreases entries.len(),
{
    if entries.len() == 0 {
        Map::empty()
    } else {
        snapshot_registry(entries.drop_last()).insert(entries.last().0, entries.last().1)
    }
}

/// Whether `entries` is a snapshot of `registry`: it names each collection
/// of the registry once, in some order, with the collection as the registry
/// holds it.
pub open spec fn is_snapshot(registry: RegistryView, entries: SnapshotView) -> bool {
    &&& is_listing(registry, entries.map_values(|e: (Seq<char>, CollectionView)| e.0))
    &&& forall|i: int| 0 <= i < entries.len() ==> (#[trigger] entries[i]).1 == registry[entries[i].0]
}

/// The entries of a snapshot, each as mathematics.
pub open spec fn snapshot_view(entries: Seq<(String, CollectionStorageHelper)>) -> SnapshotView {
    entries.map_values(|e: (String, CollectionStorageHelper)| (e.0@, e.1@))
}

/// No two entries have the same name.
pub open spec fn distinct_names(entries: SnapshotView) -> bool {
    forall|i: int, j: int|
        0 <= i < j < entries.len() ==> (#[trigger] entries[i]).0 != (#[trigger] entries[j]).0
}

/// Where no name occurs twice, the registry of a snapshot holds just the
/// snapshot's names, each with the collection beside it.
pub proof fn lemma_snapshot_lookup(entries: SnapshotView)
    requires
        distinct_names(entries),
    ensures
        snapshot_registry(entries).dom().finite(),
        forall|k: Seq<char>|
            snapshot_registry(entries).contains_key(k) <==> exists|i: int|
                0 <= i < entries.len() && (#[trigger] entries[i]).0 == k,
        forall|i: int|
            0 <= i < entries.len() ==> snapshot_registry(entries)[(#[trigger] entries[i]).0]
                == entries[i].1,
    decreases entries.len(),
{
    if entries.len() > 0 {
        let front = entries.drop_last();
        lemma_snapshot_lookup(front);
        assert forall|i: int| 0 <= i < entries.len() implies snapshot_registry(
            entries,
        ).contains_key((#[trigger] entries[i]).0) && snapshot_registry(entries)[entries[i].0]
            == entries[i].1 by {
            if i < front.len() {
                assert(front[i] == entries[i]);
            }
        }
    }
}

proof fn lemma_snapshot_added(entries: SnapshotView, name: Seq<char>, collection: CollectionView)
    ensures
        snapshot_registry(entries.push((name, collection))) == snapshot_registry(entries).insert(
            name,
            collection,
        ),
        distinct_names(entries) && !snapshot_registry(entries).contains_key(name)
            ==> distinct_names(entries.push((name, collection))),
{
    let after = entries.push((name, collection));
    assert(after.drop_last() =~= entries);
    if distinct_names(entries) && !snapshot_registry(entries).contains_key(name) {
        lemma_snapshot_lookup(entries);
    }
}

proof fn lemma_snapshot_changed(entries: SnapshotView, at: int, collection: CollectionView)
    requires
        distinct_names(entries),
        0 <= at < entries.len(),
    ensures
        distinct_names(entries.update(at, (entries[at].0, collection))),
        snapshot_registry(entries.update(at, (entries[at].0, collection))) == snapshot_registry(
            entries,
        ).insert(entries[at].0, collection),
{
    let after = entries.update(at, (entries[at].0, collection));
    lemma_snapshot_lookup(entries);
    lemma_snapshot_lookup(after);
    assert forall|k: Seq<char>|
        snapshot_registry(entries).contains_key(k) implies snapshot_registry(after).contains_key(
        k,
    ) by {
        let i = choose|i: int| 0 <= i < entries.len() && (#[trigger] entries[i]).0 == k;
        assert(after[i].0 == k);
    }
    assert(snapshot_registry(after) =~= snapshot_registry(entries).insert(
        entries[at].0,
        collection,
    ));
}

proof fn lemma_snapshot_removed(entries: SnapshotView, at: int)
    requires
        distinct_names(entries),
        0 <= at < entries.len(),
    ensures
        distinct_names(entries.remove(at)),
        snapshot_registry(entries.remove(at)) == snapshot_registry(entries).remove(entries[at].0),
{
    let after = entries.remove(at);
    lemma_snapshot_lookup(entries);
    lemma_snapshot_lookup(after);
    assert forall|k: Seq<char>|
        snapshot_registry(entries).contains_key(k) && k != entries[at].0 implies snapshot_registry(
        after,
    ).contains_key(k) by {
        let i = choose|i: int| 0 <= i < entries.len() && (#[trigger] entries[i]).0 == k;
        let moved = if i < at { i } else { i - 1 };
        assert(after[moved].0 == k);
    }
    assert(snapshot_registry(after) =~= snapshot_registry(entries).remove(entries[at].0));
}

/// A snapshot in which no name occurs twice is a snapshot of the registry
/// that it describes.
pub proof fn lemma_snapshot_is_snapshot(entries: SnapshotView)
    requires
        distinct_names(entries),
    ensures
        is_snapshot(snapshot_registry(entries), entries),
{
    lemma_snapshot_lookup(entries);
    let names = entries.map_values(|e: (Seq<char>, CollectionView)| e.0);
    assert forall|k: Seq<char>| snapshot_registry(entries).contains_key(k) implies names.contains(
        k,
    ) by {
        let j = choose|j: int| 0 <= j < entries.len() && (#[trigger] entries[j]).0 == k;
        assert(names[j] == k);
    }
    assert(names.to_set() =~= snapshot_registry(entries).dom());
}

/// One place in the registry: the name under which a collection is
/// registered, and the collection.
struct Slot {
    key: String,
    collection: CollectionStorage,
}

/// The slots as a snapshot.
spec fn slot_entries(slots: Seq<Slot>) -> SnapshotView {
    slots.map_values(|s: Slot| (s.key@, s.collection@))
}

/// The place of the slot with key `name`, if there is one.
fn find_slot(slots: &Vec<Slot>, name: &str) -> (found: Option<usize>)
    requires
        distinct_names(slot_entries(slots@)),
    ensures
        found is Some <==> snapshot_registry(slot_entries(slots@)).contains_key(name@),
        found matches Some(at) ==> {
            &&& at < slots.len()
            &&& slots[at as int].key@ == name@
            &&& snapshot_registry(slot_entries(slots@))[name@] == slots[at as int].collection@
        },
{
    let wanted = name.to_owned();
    let mut found: Option<usize> = None;
    let mut i: usize = 0;
    while i < slots.len() && found.is_none()
        invariant
            i <= slots.len(),
            wanted@ == name@,
            match found {
                Some(at) => at < slots.len() && slots[at as int].key@ == name@,
                None => forall|j: int| 0 <= j < i ==> slots[j].key@ != name@,
            },
        decreases slots.len() - i + (if found is None { 1int } else { 0int }),
    {
        if slots[i].key == wanted {
            found = Some(i);
        } else {
            i = i + 1;
        }
    }
    proof {
        let entries = slot_entries(slots@);
        lemma_snapshot_lookup(entries);
        if let Some(at) = found {
            assert(entries[at as int].0 == name@);
        }
    }
    found
}

/// What was found where the snapshot file should be.
#[derive(Debug, PartialEq)]
pub enum SnapshotFile {
    /// No file could be read.
    Absent,
    /// A file was read and is no valid snapshot; the parser's complaint.
    Malformed(String),
    /// A file was read and holds these collections, each under its name.
    Document(Vec<(String, CollectionStorageHelper)>),
}

/// The storage engine: the collections of the store, each under its name.
pub struct StorageEngine {
    slots: Vec<Slot>,
}

impl View for StorageEngine {
    type V = RegistryView;

    closed spec fn view(&self) -> RegistryView {
        snapshot_registry(slot_entries(self.slots@))
    }
}

impl StorageEngine {
    #[verifier::type_invariant]
    spec fn well_formed(&self) -> bool {
        distinct_names(slot_entries(self.slots@))
    }

    /// Hands out the slots and leaves none behind, for a change that puts
    /// them back.
    fn take_slots(&mut self) -> (slots: Vec<Slot>)
        ensures
            slots == old(self).slots,
            final(self).slots@ == Seq::<Slot>::empty(),
    {
        let mut slots: Vec<Slot> = Vec::new();
        core::mem::swap(&mut self.slots, &mut slots);
        slots
    }

    /// The place of the collection registered under `name`, if there is one.
    fn position(&self, name: &str) -> (found: Option<usize>)
        ensures
            found is Some <==> self@.contains_key(name@),
            found matches Some(at) ==> {
                &&& at < self.slots.len()
                &&& self.slots[at as int].key@ == name@
                &&& self@[name@] == self.slots[at as int].collection@
            },
    {
        proof {
            use_type_invariant(self);
        }
        find_slot(&self.slots, name)
    }

    /// The value that `text` is read as: a boolean, else a 32-bit integer,
    /// else a float, else the text itself; what comes first in this order
    /// wins. A date is never read from text.
    ///
    /// Floats are read outside this library: `float_bits` is the bit pattern
    /// of the 64-bit float that `text` denotes, if it denotes one.
    pub fn parse_value(&self, text: &str, float_bits: Option<u64>) -> (result: Result<
        Value,
        DBError,
    >)
        ensures
            result matches Ok(value) && value@ == value_of_text(text@, float_bits),
    {
        if let Some(flag) = parse_bool(text) {
            Ok(Value::Bool(flag))
        } else if let Some(number) = parse_i32(text) {
            Ok(Value::Integer(number))
        } else if let Some(bits) = float_bits {
            Ok(Value::Float(bits))
        } else {
            Ok(Value::Text(text.to_owned()))
        }
    }

    /// Registers an empty collection under `collection_name`;
    /// `AlreadyExists`, and no change, where a collection is registered under
    /// that name.
    pub fn add_collection(&mut self, collection_name: &str) -> (result: Result<(), DBError>)
        ensures
            match result {
                Ok(()) => {
                    &&& !old(self)@.contains_key(collection_name@)
                    &&& final(self)@ == with_collection(old(self)@, collection_name@)
                },
                Err(e) => {
                    &&& old(self)@.contains_key(collection_name@)
                    &&& e@ == duplicate_collection(collection_name@)
                    &&& final(self)@ == old(self)@
                },
            },
    {
        if self.position(collection_name).is_some() {
            return Err(DBError::AlreadyExists(collection_name.to_owned()));
        }
        let slot = Slot {
            key: collection_name.to_owned(),
            collection: CollectionStorage::new(collection_name),
        };
        proof {
            use_type_invariant(&*self);
            lemma_snapshot_added(slot_entries(self.slots@), slot.key@, slot.collection@);
            assert(slot_entries(self.slots@.push(slot)) =~= slot_entries(self.slots@).push(
                (slot.key@, slot.collection@),
            ));
        }
        let mut slots = self.take_slots();
        slots.push(slot);
        self.slots = slots;
        Ok(())
    }

    /// Removes the collection registered under `collection_name`, with its
    /// records; `NotFound`, and no change, where there is none.
    pub fn delete_collection(&mut self, collection_name: &str) -> (result: Result<(), DBError>)
        ensures
            match result {
                Ok(()) => {
                    &&& old(self)@.contains_key(collection_name@)
                    &&& final(self)@ == old(self)@.remove(collection_name@)
                },
                Err(e) => {
                    &&& !old(self)@.contains_key(collection_name@)
                    &&& e@ == missing_collection()
                    &&& final(self)@ == old(self)@
                },
            },
    {
        match self.position(collection_name) {
            Some(i) => {
                proof {
                    use_type_invariant(&*self);
                    lemma_snapshot_removed(slot_entries(self.slots@), i as int);
                    assert(slot_entries(self.slots@.remove(i as int)) =~= slot_entries(
                        self.slots@,
                    ).remove(i as int));
                }
                let mut slots = self.take_slots();
                slots.remove(i);
                self.slots = slots;
                Ok(())
            },
            None => Err(DBError::NotFound("collection".to_owned())),
        }
    }

    /// The names under which collections are registered, each once.
    pub fn list_collections(&self) -> (result: Result<Vec<String>, DBError>)
        ensures
            result matches Ok(names) && is_listing(self@, names@.map_values(|s: String| s@)),
    {
        let mut names: Vec<String> = Vec::new();
        let mut i: usize = 0;
        while i < self.slots.len()
            invariant
                i <= self.slots.len(),
                names.len() == i,
                forall|j: int| 0 <= j < i ==> names@[j]@ == self.slots@[j].key@,
            decreases self.slots.len() - i,
        {
            names.push(self.slots[i].key.clone());
            i = i + 1;
        }
        proof {
            use_type_invariant(self);
            let entries = slot_entries(self.slots@);
            lemma_snapshot_is_snapshot(entries);
            assert(names@.map_values(|s: String| s@) =~= entries.map_values(
                |e: (Seq<char>, CollectionView)| e.0,
            ));
        }
        Ok(names)
    }

    /// A copy of the records of the collection registered under
    /// `collection_name`, in order; `NotFound` where there is none.
    pub fn read_collection(&self, collection_name: &str) -> (result: Result<Vec<Record>, DBError>)
        ensures
            match result {
                Ok(records) => {
                    &&& self@.contains_key(collection_name@)
                    &&& records_view(records@) == self@[collection_name@].records
                },
                Err(e) => !self@.contains_key(collection_name@) && e@ == missing_collection(),
            },
    {
        match self.position(collection_name) {
            Some(i) => Ok(self.slots[i].collection.snapshot()),
            None => Err(DBError::NotFound("collection".to_owned())),
        }
    }

    /// Adds `record` at the end of the collection registered under
    /// `collection_name`; `NotFound`, and no change, where there is none.
    pub fn create_record(&mut self, collection_name: &str, record: Record) -> (result: Result<
        (),
        DBError,
    >)
        ensures
            match result {
                Ok(()) => {
                    &&& old(self)@.contains_key(collection_name@)
                    &&& final(self)@ == with_records(
                        old(self)@,
                        collection_name@,
                        old(self)@[collection_name@].records.push(record@),
                    )
                },
                Err(e) => {
                    &&& !old(self)@.contains_key(collection_name@)
                    &&& e@ == missing_collection()
                    &&& final(self)@ == old(self)@
                },
            },
    {
        match self.position(collection_name) {
            Some(i) => {
                proof {
                    use_type_invariant(&*self);
                }
                let mut slots = self.take_slots();
                slots[i].collection.append(record);
                proof {
                    Self::lemma_slot_changed(old(self).slots@, slots@, i as int);
                }
                self.slots = slots;
                Ok(())
            },
            None => Err(DBError::NotFound("collection".to_owned())),
        }
    }

    /// A copy of the record at `index` in the collection registered under
    /// `collection_name`; `NotFound` where there is no such collection, or no
    /// record at `index` in it.
    pub fn read_record(&self, collection_name: &str, index: i32) -> (result: Result<
        Record,
        DBError,
    >)
        ensures
            match result {
                Ok(record) => {
                    &&& holds_record(self@, collection_name@, index)
                    &&& record@ == self@[collection_name@].records[index as int]
                },
                Err(e) => {
                    &&& !holds_record(self@, collection_name@, index)
                    &&& e@ == if self@.contains_key(collection_name@) {
                        missing_record()
                    } else {
                        missing_collection()
                    }
                },
            },
    {
        match self.position(collection_name) {
            Some(i) => self.slots[i].collection.get(index),
            None => Err(DBError::NotFound("collection".to_owned())),
        }
    }

    /// Puts `record` in the place of the record at `index` in the collection
    /// registered under `collection_name`, and returns a copy of what is now
    /// stored there; `NotFound`, and no change, where there is no such
    /// collection, or no record at `index` in it.
    pub fn update_record(&mut self, collection_name: &str, index: i32, record: Record) -> (result:
        Result<Record, DBError>)
        ensures
            match result {
                Ok(stored) => {
                    &&& holds_record(old(self)@, collection_name@, index)
                    &&& stored@ == record@
                    &&& final(self)@ == with_records(
                        old(self)@,
                        collection_name@,
                        old(self)@[collection_name@].records.update(index as int, record@),
                    )
                },
                Err(e) => {
                    &&& !holds_record(old(self)@, collection_name@, index)
                    &&& e@ == if old(self)@.contains_key(collection_name@) {
                        missing_record()
                    } else {
                        missing_collection()
                    }
                    &&& final(self)@ == old(self)@
                },
            },
    {
        match self.position(collection_name) {
            Some(i) => {
                proof {
                    use_type_invariant(&*self);
                }
                let mut slots = self.take_slots();
                let result = slots[i].collection.replace(index, record);
                proof {
                    Self::lemma_slot_changed(old(self).slots@, slots@, i as int);
                }
                self.slots = slots;
                result
            },
            None => Err(DBError::NotFound("collection".to_owned())),
        }
    }

    /// Takes the record at `index` out of the collection registered under
    /// `collection_name` and returns it; every record behind it moves one
    /// position down. `NotFound`, and no change, where there is no such
    /// collection, or no record at `index` in it.
    pub fn delete_record(&mut self, collection_name: &str, index: i32) -> (result: Result<
        Record,
        DBError,
    >)
        ensures
            match result {
                Ok(removed) => {
                    &&& holds_record(old(self)@, collection_name@, index)
                    &&& removed@ == old(self)@[collection_name@].records[index as int]
                    &&& final(self)@ == with_records(
                        old(self)@,
                        collection_name@,
                        old(self)@[collection_name@].records.remove(index as int),
                    )
                },
                Err(e) => {
                    &&& !holds_record(old(self)@, collection_name@, index)
                    &&& e@ == if old(self)@.contains_key(collection_name@) {
                        missing_record()
                    } else {
                        missing_collection()
                    }
                    &&& final(self)@ == old(self)@
                },
            },
    {
        match self.position(collection_name) {
            Some(i) => {
                proof {
                    use_type_invariant(&*self);
                }
                let mut slots = self.take_slots();
                let result = slots[i].collection.remove(index);
                proof {
                    Self::lemma_slot_changed(old(self).slots@, slots@, i as int);
                }
                self.slots = slots;
                result
            },
            None => Err(DBError::NotFound("collection".to_owned())),
        }
    }

    /// Takes over what a load found where the snapshot file should be.
    ///
    /// Where no file could be read, the registry becomes empty: the store
    /// starts afresh, and the caller has first created the file with
    /// [`empty_document`] in it. Where the file is no valid snapshot, the
    /// registry stays as it is and the error is `CorruptState`. Where it is
    /// one, its collections replace the whole registry.
    pub fn load_from_file(&mut self, file: SnapshotFile) -> (result: Result<(), DBError>)
        ensures
            match file {
                SnapshotFile::Absent => result is Ok && final(self)@ == Map::<
                    Seq<char>,
                    CollectionView,
                >::empty(),
                SnapshotFile::Malformed(complaint) => {
                    &&& result is Err
                    &&& result->Err_0@ == corrupt_snapshot(complaint@)
                    &&& final(self)@ == old(self)@
                },
                SnapshotFile::Document(entries) => result is Ok && final(self)@
                    == snapshot_registry(snapshot_view(entries@)),
            },
    {
        match file {
            SnapshotFile::Absent => {
                self.slots = Vec::new();
                Ok(())
            },
            SnapshotFile::Malformed(complaint) => Err(DBError::CorruptState(complaint)),
            SnapshotFile::Document(entries) => {
                let ghost all = snapshot_view(entries@);
                let mut rest = entries;
                let mut slots: Vec<Slot> = Vec::new();
                // From the last entry to the first: a name that is held
                // already came later in the snapshot, and stays.
                while rest.len() > 0
                    invariant
                        distinct_names(slot_entries(slots@)),
                        snapshot_registry(all) == snapshot_registry(
                            snapshot_view(rest@),
                        ).union_prefer_right(snapshot_registry(slot_entries(slots@))),
                    decreases rest.len(),
                {
                    let ghost before = snapshot_view(rest@);
                    let ghost held = slot_entries(slots@);
                    if let Some(entry) = rest.pop() {
                        let (key, helper) = entry;
                        proof {
                            assert(snapshot_view(rest@) =~= before.drop_last());
                        }
                        if find_slot(&slots, key.as_str()).is_none() {
                            let slot = Slot { key, collection: helper.into_collection_storage() };
                            proof {
                                lemma_snapshot_added(held, slot.key@, slot.collection@);
                                assert(slot_entries(slots@.push(slot)) =~= held.push(
                                    (slot.key@, slot.collection@),
                                ));
                            }
                            slots.push(slot);
                        }
                    }
                }
                self.slots = slots;
                Ok(())
            },
        }
    }

    /// The snapshot that a save writes: every collection under the name
    /// under which it is registered, with a copy of its records.
    pub fn save_to_file(&self) -> (entries: Vec<(String, CollectionStorageHelper)>)
        ensures
            is_snapshot(self@, snapshot_view(entries@)),
    {
        let mut entries: Vec<(String, CollectionStorageHelper)> = Vec::new();
        let mut i: usize = 0;
        while i < self.slots.len()
            invariant
                i <= self.slots.len(),
                entries.len() == i,
                forall|j: int|
                    0 <= j < i ==> (#[trigger] entries@[j]).0@ == self.slots@[j].key@
                        && entries@[j].1@ == self.slots@[j].collection@,
            decreases self.slots.len() - i,
        {
            let slot = &self.slots[i];
            let helper = CollectionStorageHelper {
                name: slot.collection.name.clone(),
                data: clone_records(&slot.collection.data),
            };
            entries.push((slot.key.clone(), helper));
            i = i + 1;
        }
        proof {
            use_type_invariant(self);
            let held = slot_entries(self.slots@);
            assert(snapshot_view(entries@) =~= held);
            lemma_snapshot_is_snapshot(held);
        }
        entries
    }

    proof fn lemma_slot_changed(before: Seq<Slot>, after: Seq<Slot>, at: int)
        requires
            distinct_names(slot_entries(before)),
            0 <= at < before.len(),
            after.len() == before.len(),
            after[at].key@ == before[at].key@,
            forall|j: int| 0 <= j < before.len() && j != at ==> after[j] == before[j],
        ensures
            distinct_names(slot_entries(after)),
            snapshot_registry(slot_entries(after)) == snapshot_registry(
                slot_entries(before),
            ).insert(before[at].key@, after[at].collection@),
    {
        lemma_snapshot_changed(slot_entries(before), at, after[at].collection@);
        assert(slot_entries(after) =~= slot_entries(before).update(
            at,
            (before[at].key@, after[at].collection@),
        ));
    }
}

/// The text of a snapshot file that holds no collection.
pub fn empty_document() -> (text: String)
    ensures
        text@ == "{}"@,
{
    "{}".to_owned()
}

/// A storage engine with no collection in it.
pub fn init_storage() -> (result: Result<StorageEngine, DBError>)
    ensures
        result matches Ok(engine) && engine@ == Map::<Seq<char>, CollectionView>::empty(),
{
    Ok(StorageEngine { slots: Vec::new() })
}

} // verus!
