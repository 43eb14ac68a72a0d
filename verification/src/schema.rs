//! The data held by the store: values, records and collections.

use crate::error::{missing_record, DBError};
use chrono::NaiveDate;
use vstd::prelude::*;

verus! {

/// `chrono::NaiveDate`, a calendar date, declared so that a value can hold
/// one. Nothing is claimed of it: the store carries a date through and never
/// looks inside.
#[verifier::external_type_specification]
#[verifier::external_body]
pub struct ExNaiveDate(NaiveDate);

/// One field of a record.
///
/// A float is held as the bit pattern of its 64-bit IEEE 754 encoding, so
/// that every float, each NaN included, is kept as it was given.
#[derive(Debug, PartialEq)]
pub enum Value {
    /// Integer value.
    Integer(i32),
    /// Floating-point value, as its bit pattern.
    Float(u64),
    /// Boolean value.
    Bool(bool),
    /// Textual value.
    Text(String),
    /// Calendar date.
    Date(NaiveDate),
}

/// What a `Value` is, as mathematics.
pub enum ValueView {
    Integer(i32),
    Float(u64),
    Bool(bool),
    Text(Seq<char>),
    Date(NaiveDate),
}

impl View for Value {
    type V = ValueView;

    open spec fn view(&self) -> ValueView {
        match self {
            Value::Integer(i) => ValueView::Integer(*i),
            Value::Float(bits) => ValueView::Float(*bits),
            Value::Bool(b) => ValueView::Bool(*b),
            Value::Text(s) => ValueView::Text(s@),
            Value::Date(d) => ValueView::Date(*d),
        }
    }
}

impl Clone for Value {
    fn clone(&self) -> (copy: Self)
        ensures
            copy == *self,
    {
        match self {
            Value::Integer(i) => Value::Integer(*i),
            Value::Float(bits) => Value::Float(*bits),
            Value::Bool(b) => Value::Bool(*b),
            Value::Text(s) => Value::Text(s.clone()),
            Value::Date(d) => Value::Date(*d),
        }
    }
}

/// The kinds of data that a field can be declared to hold.
#[derive(Debug, Clone, Copy, PartialEq, Eq)]
pub enum DataType {
    /// Text data type.
    Text,
    /// Integer data type.
    Integer,
    /// Floating-point data type.
    Float,
    /// Boolean data type.
    Boolean,
}

/// A record: values in order. A field is known by its position.
#[derive(Debug, PartialEq)]
pub struct Record {
    /// The values contained in this record.
    pub values: Vec<Value>,
}

impl View for Record {
    type V = Seq<ValueView>;

    open spec fn view(&self) -> Seq<ValueView> {
        self.values@.map_values(|v: Value| v@)
    }
}

impl Clone for Record {
    fn clone(&self) -> (copy: Self)
        ensures
            copy@ == self@,
    {
        Record { values: self.values.clone() }
    }
}

/// The records of a sequence, each as mathematics.
pub open spec fn records_view(records: Seq<Record>) -> Seq<Seq<ValueView>> {
    records.map_values(|r: Record| r@)
}

/// Whether `index` is the position of one of `len` records.
pub open spec fn in_bounds(index: i32, len: nat) -> bool {
    0 <= index < len
}

/// What a collection is, as mathematics: its name and its records in order.
pub struct CollectionView {
    pub name: Seq<char>,
    pub records: Seq<Seq<ValueView>>,
}

/// A collection: a name and the records stored under it. A record is known
/// by its position, and positions change when a record before it is removed.
#[derive(Debug, PartialEq)]
pub struct CollectionStorage {
    /// The name of the collection.
    pub name: String,
    /// The records stored in the collection.
    pub data: Vec<Record>,
}

impl View for CollectionStorage {
    type V = CollectionView;

    open spec fn view(&self) -> CollectionView {
        CollectionView { name: self.name@, records: records_view(self.data@) }
    }
}

/// A copy of `records`, record by record.
pub fn clone_records(records: &Vec<Record>) -> (copy: Vec<Record>)
    ensures
        records_view(copy@) == records_view(records@),
{
    let mut copy: Vec<Record> = Vec::new();
    let mut i: usize = 0;
    while i < records.len()
        invariant
            i <= records.len(),
            copy.len() == i,
            forall|j: int| 0 <= j < i ==> copy@[j]@ == records@[j]@,
        decreases records.len() - i,
    {
        copy.push(records[i].clone());
        i = i + 1;
    }
    copy
}

impl CollectionStorage {
    /// An empty collection of the given name.
    pub fn new(name: &str) -> (collection: CollectionStorage)
        ensures
            collection@ == (CollectionView { name: name@, records: Seq::empty() }),
    {
        let collection = CollectionStorage { name: name.to_owned(), data: Vec::new() };
        assert(records_view(collection.data@) =~= Seq::empty());
        collection
    }

    /// Adds `record` at the end.
    pub fn append(&mut self, record: Record)
        ensures
            final(self)@ == (CollectionView {
                name: old(self)@.name,
                records: old(self)@.records.push(record@),
            }),
    {
        self.data.push(record);
        assert(records_view(self.data@) =~= records_view(old(self).data@).push(record@));
    }

    /// A copy of the record at `index`, or `NotFound` where there is none.
    pub fn get(&self, index: i32) -> (result: Result<Record, DBError>)
        ensures
            match result {
                Ok(record) => in_bounds(index, self@.records.len()) && record@
                    == self@.records[index as int],
                Err(e) => !in_bounds(index, self@.records.len()) && e@ == missing_record(),
            },
    {
        if index < 0 || index as usize >= self.data.len() {
            return Err(DBError::NotFound("record".to_owned()));
        }
        Ok(self.data[index as usize].clone())
    }

    /// Puts `record` in the place of the record at `index` and returns a copy
    /// of what is now stored there; `NotFound`, and no change, where there is
    /// no record at `index`.
    pub fn replace(&mut self, index: i32, record: Record) -> (result: Result<Record, DBError>)
        ensures
            match result {
                Ok(stored) => {
                    &&& in_bounds(index, old(self)@.records.len())
                    &&& stored@ == record@
                    &&& final(self)@ == (CollectionView {
                        name: old(self)@.name,
                        records: old(self)@.records.update(index as int, record@),
                    })
                },
                Err(e) => {
                    &&& !in_bounds(index, old(self)@.records.len())
                    &&& e@ == missing_record()
                    &&& final(self)@ == old(self)@
                },
            },
    {
        if index < 0 || index as usize >= self.data.len() {
            return Err(DBError::NotFound("record".to_owned()));
        }
        let stored = record.clone();
        self.data.set(index as usize, record);
        assert(records_view(self.data@) =~= records_view(old(self).data@).update(
            index as int,
            record@,
        ));
        Ok(stored)
    }

    /// Takes the record at `index` out and returns it; every record behind it
    /// moves one position down. `NotFound`, and no change, where there is no
    /// record at `index`.
    pub fn remove(&mut self, index: i32) -> (result: Result<Record, DBError>)
        ensures
            match result {
                Ok(removed) => {
                    &&& in_bounds(index, old(self)@.records.len())
                    &&& removed@ == old(self)@.records[index as int]
                    &&& final(self)@ == (CollectionView {
                        name: old(self)@.name,
                        records: old(self)@.records.remove(index as int),
                    })
                },
                Err(e) => {
                    &&& !in_bounds(index, old(self)@.records.len())
                    &&& e@ == missing_record()
                    &&& final(self)@ == old(self)@
                },
            },
    {
        if index < 0 || index as usize >= self.data.len() {
            return Err(DBError::NotFound("record".to_owned()));
        }
        let removed = self.data.remove(index as usize);
        assert(records_view(self.data@) =~= records_view(old(self).data@).remove(index as int));
        Ok(removed)
    }

    /// A copy of all the records, in order.
    pub fn snapshot(&self) -> (records: Vec<Record>)
        ensures
            records_view(records@) == self@.records,
    {
        clone_records(&self.data)
    }
}

/// A collection as a snapshot holds it: the name and the records.
#[derive(Debug, PartialEq)]
pub struct CollectionStorageHelper {
    /// The name of the collection.
    pub name: String,
    /// The records in the collection.
    pub data: Vec<Record>,
}

impl View for CollectionStorageHelper {
    type V = CollectionView;

    open spec fn view(&self) -> CollectionView {
        CollectionView { name: self.name@, records: records_view(self.data@) }
    }
}

impl CollectionStorageHelper {
    /// The collection that this snapshot of one describes.
    pub fn into_collection_storage(self) -> (collection: CollectionStorage)
        ensures
            collection@ == self@,
    {
        CollectionStorage { name: self.name, data: self.data }
    }
}

} // verus!
