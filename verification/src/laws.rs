//! What holds of the operations of the storage engine taken together.
//!
//! Each law is stated over the registry as mathematics and over the
//! functions in which the operations' own contracts are written.

use crate::schema::{CollectionView, ValueView};
use crate::storage::{
    distinct_names, holds_record, is_listing, is_snapshot, lemma_snapshot_lookup,
    snapshot_registry, with_collection, with_records, RegistryView, SnapshotView,
};
use vstd::prelude::*;

verus! {

/// Once a collection has been added under a name that was free, every
/// listing of the registry holds that name exactly once, and the name is
/// taken: adding it again fails.
pub proof fn law_added_collection_is_listed_once(
    registry: RegistryView,
    name: Seq<char>,
    names: Seq<Seq<char>>,
)
    requires
        !registry.contains_key(name),
        is_listing(with_collection(registry, name), names),
    ensures
        with_collection(registry, name).contains_key(name),
        names.to_multiset().count(name) == 1,
{
    names.to_multiset_ensures();
    names.lemma_multiset_has_no_duplicates();
}

/// A listing has as many names as the registry has collections, so that of
/// an empty registry is empty.
pub proof fn law_listing_counts_collections(registry: RegistryView, names: Seq<Seq<char>>)
    requires
        is_listing(registry, names),
    ensures
        names.len() == registry.dom().len(),
        registry.dom().finite(),
{
    names.unique_seq_to_set();
    vstd::seq_lib::seq_to_set_is_finite(names);
}

/// A collection that was deleted and is added again under the same name is
/// empty: none of its former records come back.
pub proof fn law_recreated_collection_is_empty(registry: RegistryView, name: Seq<char>)
    ensures
        with_collection(registry.remove(name), name)[name].records.len() == 0,
{
}

/// A record that was created is the last of its collection, and reading at
/// the last position gives it back. The position must be one that a 32-bit
/// index can name.
pub proof fn law_created_record_is_read_back(
    registry: RegistryView,
    name: Seq<char>,
    record: Seq<ValueView>,
)
    requires
        registry.contains_key(name),
        registry[name].records.len() <= i32::MAX,
    ensures
        ({
            let last = registry[name].records.len() as i32;
            let after = with_records(registry, name, registry[name].records.push(record));
            &&& holds_record(after, name, last)
            &&& after[name].records.len() == last + 1
            &&& after[name].records[last as int] == record
        }),
{
}

/// When a record is deleted, the records before it stay where they are and
/// each record behind it moves one position down.
pub proof fn law_deleted_record_shifts_the_rest(
    registry: RegistryView,
    name: Seq<char>,
    index: i32,
)
    requires
        holds_record(registry, name, index),
    ensures
        ({
            let before = registry[name].records;
            let after = with_records(registry, name, before.remove(index as int))[name].records;
            &&& after.len() == before.len() - 1
            &&& forall|j: int| 0 <= j < index ==> after[j] == before[j]
            &&& forall|j: int| index < j < before.len() ==> after[j - 1] == #[trigger] before[j]
        }),
{
}

/// Loading what was saved gives the registry that was saved: the same
/// names, and under each the same collection, record for record.
pub proof fn law_saved_registry_loads_back(registry: RegistryView, entries: SnapshotView)
    requires
        is_snapshot(registry, entries),
    ensures
        snapshot_registry(entries) == registry,
{
    let names = entries.map_values(|e: (Seq<char>, CollectionView)| e.0);
    assert forall|i: int, j: int| 0 <= i < j < entries.len() implies (#[trigger] entries[i]).0 != (
    #[trigger] entries[j]).0 by {
        assert(names[i] == entries[i].0);
        assert(names[j] == entries[j].0);
    }
    lemma_snapshot_lookup(entries);
    assert forall|k: Seq<char>| registry.contains_key(k) implies snapshot_registry(
        entries,
    ).contains_key(k) by {
        let j = choose|j: int| 0 <= j < names.len() && names[j] == k;
        assert(entries[j].0 == k);
    }
    assert forall|k: Seq<char>| snapshot_registry(entries).contains_key(
        k,
    ) implies registry.contains_key(k) by {
        let j = choose|j: int| 0 <= j < entries.len() && (#[trigger] entries[j]).0 == k;
        assert(names[j] == k);
    }
    assert(snapshot_registry(entries) =~= registry);
}

} // verus!
