//! The storage engine in memory: a catalog of schemas, schemas of tables,
//! and tables of records that are kept in the order of their keys.

use vstd::prelude::*;
use crate::binary::{datums, lemma_pack_order, packed, Binary, Datum, DatumModel};
use crate::bytes::lex_less;
use crate::ordered::{
    ascending, bindings, lemma_bindings_at, lemma_insert_bindings, lemma_listing_determined, models,
    position, OrderedKey, OrderedMap, Plain,
};
use crate::registry::Registry;

verus! {

pub type Key = Binary;

pub type Value = Binary;

/// A record as plain values: the bytes of its key, then the bytes of its
/// value.
pub type Record = (Seq<u8>, Seq<u8>);

/// The key that the record with the given id is stored under.
pub open spec fn record_key(id: nat) -> Seq<u8> {
    packed(seq![DatumModel::UInt64(id as u64)])
}

/// Whether `key` is made of a record id below `below`.
pub open spec fn is_given(key: Seq<u8>, below: nat) -> bool {
    exists|id: nat| id < below && key == #[trigger] record_key(id)
}

/// Whether every key of the listing is made of a record id below `below`.
pub open spec fn keys_given(listing: Seq<Record>, below: nat) -> bool {
    forall|i: int| 0 <= i < listing.len() ==> is_given((#[trigger] listing[i]).0, below)
}

/// The listing after the values were added to it, one after the other,
/// under the keys made of `first`, `first + 1`, and so on.
pub open spec fn appended(listing: Seq<Record>, first: nat, values: Seq<Seq<u8>>) -> Seq<Record> {
    listing + Seq::new(values.len(), |i: int| (record_key((first + i) as nat), values[i]))
}

/// The bindings after the records were written one after the other: each
/// replaces what its key was bound to.
pub open spec fn rewritten(before: Map<Seq<u8>, Seq<u8>>, records: Seq<Record>) -> Map<
    Seq<u8>,
    Seq<u8>,
>
    decreases records.len(),
{
    if records.len() == 0 {
        before
    } else {
        rewritten(before, records.drop_last()).insert(records.last().0, records.last().1)
    }
}

/// The bindings without the keys.
pub open spec fn without(before: Map<Seq<u8>, Seq<u8>>, keys: Seq<Seq<u8>>) -> Map<
    Seq<u8>,
    Seq<u8>,
>
    decreases keys.len(),
{
    if keys.len() == 0 {
        before
    } else {
        without(before, keys.drop_last()).remove(keys.last())
    }
}

/// The bytes of each of the encoded values.
pub open spec fn binaries(values: Seq<Binary>) -> Seq<Seq<u8>> {
    values.map_values(|value: Binary| value@)
}

/// Whether every key of `records` is a key of `bindings`.
pub open spec fn all_bound(bindings: Map<Seq<u8>, Seq<u8>>, records: Seq<Record>) -> bool {
    forall|i: int| 0 <= i < records.len() ==> bindings.dom().contains((#[trigger] records[i]).0)
}

/// Writing records whose keys are bound leaves the set of keys as it is.
pub proof fn lemma_rewritten_dom(before: Map<Seq<u8>, Seq<u8>>, records: Seq<Record>)
    requires
        all_bound(before, records),
    ensures
        rewritten(before, records).dom() == before.dom(),
    decreases records.len(),
{
    if records.len() > 0 {
        assert(all_bound(before, records.drop_last())) by {
            assert forall|i: int| 0 <= i < records.drop_last().len() implies before.dom().contains(
                (#[trigger] records.drop_last()[i]).0,
            ) by {
                assert(records.drop_last()[i] == records[i]);
            }
        }
        lemma_rewritten_dom(before, records.drop_last());
        assert(before.dom().contains(records[records.len() - 1].0));
        assert(rewritten(before, records).dom() =~= before.dom());
    } else {
        assert(rewritten(before, records).dom() =~= before.dom());
    }
}

/// After the keys were taken out, the bindings hold a key exactly if they
/// held it before and it is none of the keys.
pub proof fn lemma_without_dom(before: Map<Seq<u8>, Seq<u8>>, keys: Seq<Seq<u8>>, key: Seq<u8>)
    ensures
        without(before, keys).dom().contains(key) <==> before.dom().contains(key) && !keys.contains(
            key,
        ),
        without(before, keys).dom().contains(key) ==> without(before, keys)[key] == before[key],
    decreases keys.len(),
{
    if keys.len() > 0 {
        lemma_without_dom(before, keys.drop_last(), key);
        if keys.drop_last().contains(key) {
            let i = choose|i: int| 0 <= i < keys.drop_last().len() && keys.drop_last()[i] == key;
            assert(keys[i] == key);
        }
        if keys.contains(key) && key != keys.last() {
            let i = choose|i: int| 0 <= i < keys.len() && keys[i] == key;
            assert(keys.drop_last()[i] == key);
        }
    }
}

/// Taking keys out a second time takes nothing out: what the first time
/// left is what the second time leaves, whether or not a key is named more
/// than once.
pub proof fn lemma_delete_again(before: Map<Seq<u8>, Seq<u8>>, keys: Seq<Seq<u8>>)
    ensures
        without(without(before, keys), keys) == without(before, keys),
        without(before, keys + keys) == without(before, keys),
{
    let once = without(before, keys);
    assert forall|key: Seq<u8>| without(once, keys).dom().contains(key) <==> once.dom().contains(
        key,
    ) by {
        lemma_without_dom(once, keys, key);
        lemma_without_dom(before, keys, key);
    }
    assert forall|key: Seq<u8>| without(once, keys).dom().contains(key) implies without(
        once,
        keys,
    )[key] == once[key] by {
        lemma_without_dom(once, keys, key);
    }
    assert(without(once, keys) =~= once);
    let twice = keys + keys;
    assert forall|key: Seq<u8>| without(before, twice).dom().contains(key) <==> once.dom().contains(
        key,
    ) by {
        lemma_without_dom(before, twice, key);
        lemma_without_dom(before, keys, key);
        if keys.contains(key) {
            let i = choose|i: int| 0 <= i < keys.len() && keys[i] == key;
            assert(twice[i] == key);
        }
        if twice.contains(key) {
            let i = choose|i: int| 0 <= i < twice.len() && twice[i] == key;
            if i < keys.len() {
                assert(keys[i] == key);
            } else {
                assert(keys[i - keys.len()] == key);
            }
        }
    }
    assert forall|key: Seq<u8>| without(before, twice).dom().contains(key) implies without(
        before,
        twice,
    )[key] == once[key] by {
        lemma_without_dom(before, twice, key);
        lemma_without_dom(before, keys, key);
    }
    assert(without(before, twice) =~= once);
}

/// An index of a table: from the encoded value of the indexed column to
/// the key of the record.
pub struct InMemoryIndex {
    records: OrderedMap<Binary, Binary>,
    column: usize,
}

impl InMemoryIndex {
    /// The entries ascend by indexed value.
    pub closed spec fn wf(&self) -> bool {
        self.records.wf()
    }

    /// The entries of the index, ascending by indexed value.
    pub closed spec fn listing(&self) -> Seq<Record> {
        self.records.listing()
    }

    /// The key that each indexed value points at.
    pub closed spec fn view(&self) -> Map<Seq<u8>, Seq<u8>> {
        self.records@
    }

    /// The ordinal of the column that the index is over.
    pub closed spec fn column(&self) -> usize {
        self.column
    }

    pub fn new(column: usize) -> (index: InMemoryIndex)
        ensures
            index.wf(),
            index.column() == column,
            index.listing() == Seq::<Record>::empty(),
    {
        InMemoryIndex { records: OrderedMap::new(), column }
    }

    /// A copy of the entries, ascending by indexed value.
    pub fn select(&self) -> (entries: Vec<(Key, Value)>)
        ensures
            models(entries@) == self.listing(),
    {
        self.records.entries()
    }

    /// Points the indexed value at the key.
    pub fn insert(&mut self, value: Value, key: Key)
        requires
            old(self).wf(),
        ensures
            final(self).wf(),
            final(self).column() == old(self).column(),
            final(self)@ == old(self)@.insert(value@, key@),
    {
        self.records.insert(value, key);
    }

    /// Whether the index is over the column with the given ordinal.
    pub fn over(&self, column_index: usize) -> (over: bool)
        ensures
            over == (self.column() == column_index),
    {
        self.column == column_index
    }
}

/// A table: its records by key, the counter that record ids are taken
/// from, the counter that column ordinals are taken from, and its indexes
/// by name.
pub struct InMemoryTableHandle {
    records: OrderedMap<Binary, Binary>,
    record_ids: u64,
    column_ords: u64,
    indexes: Registry<InMemoryIndex>,
}

impl InMemoryTableHandle {
    /// The records ascend by key, and every key is made of a record id
    /// that was given out.
    pub closed spec fn wf(&self) -> bool {
        &&& self.records.wf()
        &&& self.indexes.wf()
        &&& keys_given(self.records.listing(), self.record_ids as nat)
    }

    /// The records of the table, ascending by key.
    pub closed spec fn listing(&self) -> Seq<Record> {
        self.records.listing()
    }

    /// The value of each record, by key.
    pub closed spec fn view(&self) -> Map<Seq<u8>, Seq<u8>> {
        self.records@
    }

    /// The id that the next record gets.
    pub closed spec fn next_record_id(&self) -> u64 {
        self.record_ids
    }

    /// The ordinal that the next column gets.
    pub closed spec fn next_ord(&self) -> u64 {
        self.column_ords
    }

    /// The indexes of the table, by name.
    pub closed spec fn indexes(&self) -> Map<Seq<char>, InMemoryIndex> {
        self.indexes@
    }

    /// The records ascend by key, and the bindings are those of the
    /// listing.
    pub proof fn lemma_listing(&self)
        requires
            self.wf(),
        ensures
            ascending::<Binary, Seq<u8>>(self.listing()),
            self@ == bindings(self.listing()),
    {
    }

    pub fn new() -> (table: InMemoryTableHandle)
        ensures
            table.listing() == Seq::<Record>::empty(),
            table.next_record_id() == 0,
            table.next_ord() == 0,
            table.indexes() == Map::<Seq<char>, InMemoryIndex>::empty(),
            table.wf(),
    {
        InMemoryTableHandle {
            records: OrderedMap::new(),
            record_ids: 0,
            column_ords: 0,
            indexes: Registry::new(),
        }
    }

    /// The number of records that can still be added to the table:
    /// record ids are not given out twice, and they are numbers of 64 bits.
    pub fn room(&self) -> (room: u64)
        ensures
            room == u64::MAX - self.next_record_id(),
    {
        u64::MAX - self.record_ids
    }

    /// The number of records.
    pub fn len(&self) -> (len: usize)
        ensures
            len == self.listing().len(),
    {
        self.records.len()
    }

    /// A copy of the records, ascending by key.
    pub fn select(&self) -> (records: Vec<(Key, Value)>)
        ensures
            models(records@) == self.listing(),
    {
        self.records.entries()
    }

    /// Adds the values as records, each under the key made of the next
    /// record id, and returns the keys in the order of the values. The new
    /// keys come after every key of the table.
    pub fn insert(&mut self, data: Vec<Value>) -> (keys: Vec<Key>)
        requires
            old(self).wf(),
            old(self).next_record_id() + data@.len() <= u64::MAX,
        ensures
            final(self).wf(),
            final(self).next_record_id() == old(self).next_record_id() + data@.len(),
            final(self).next_ord() == old(self).next_ord(),
            final(self).indexes() == old(self).indexes(),
            binaries(keys@) == Seq::new(
                data@.len(),
                |i: int| record_key((old(self).next_record_id() + i) as nat),
            ),
            final(self).listing() == appended(
                old(self).listing(),
                old(self).next_record_id() as nat,
                binaries(data@),
            ),
    {
        let ghost first = self.record_ids as nat;
        let ghost start = self.records.listing();
        let ghost values = binaries(data@);
        let mut keys: Vec<Key> = Vec::new();
        let mut i: usize = 0;
        proof {
            assert(appended(start, first, values.take(0)) =~= start);
        }
        while i < data.len()
            invariant
                i <= data@.len(),
                first + data@.len() <= u64::MAX,
                values == binaries(data@),
                self.record_ids == first + i,
                self.column_ords == old(self).column_ords,
                self.indexes == old(self).indexes,
                self.indexes.wf(),
                self.records.wf(),
                keys_given(self.records.listing(), self.record_ids as nat),
                self.records.listing() == appended(start, first, values.take(i as int)),
                binaries(keys@) == Seq::new(i as nat, |j: int| record_key((first + j) as nat)),
            decreases data.len() - i,
        {
            let record_id = self.record_ids;
            self.record_ids = self.record_ids + 1;
            let mut id: Vec<Datum> = Vec::new();
            id.push(Datum::from_u64(record_id));
            let key = Binary::pack(id.as_slice());
            let value = data[i].duplicate();
            let ghost before = self.records.listing();
            let ghost entry = (key@, value@);
            proof {
                assert(datums(id@) =~= seq![DatumModel::UInt64(record_id)]);
                assert(key@ == record_key(record_id as nat));
                // the new key comes after every key of the table
                assert forall|j: int| 0 <= j < before.len() implies lex_less(
                    (#[trigger] before[j]).0,
                    key@,
                ) by {
                    assert(is_given(before[j].0, record_id as nat));
                    let id = choose|id: nat| id < record_id && before[j].0 == record_key(id);
                    lemma_pack_order(
                        DatumModel::UInt64(id as u64),
                        DatumModel::UInt64(record_id),
                    );
                }
                lemma_insert_bindings::<Binary, Seq<u8>>(before, before.len() as int, entry);
                assert(before.insert(before.len() as int, entry) =~= before.push(entry));
            }
            self.records.insert(key.duplicate(), value);
            proof {
                lemma_listing_determined::<Binary, Seq<u8>>(
                    self.records.listing(),
                    before.push(entry),
                );
                assert(values.take(i + 1) =~= values.take(i as int).push(values[i as int]));
                assert(appended(start, first, values.take(i + 1)) =~= appended(
                    start,
                    first,
                    values.take(i as int),
                ).push(entry));
                assert forall|j: int| 0 <= j < self.records.listing().len() implies is_given(
                    (#[trigger] self.records.listing()[j]).0,
                    self.record_ids as nat,
                ) by {
                    if j < before.len() {
                        assert(is_given(before[j].0, record_id as nat));
                        let id = choose|id: nat| id < record_id && before[j].0 == record_key(id);
                        assert(id < self.record_ids && self.records.listing()[j].0 == record_key(
                            id,
                        ));
                    } else {
                        assert(self.records.listing()[j].0 == record_key(record_id as nat));
                    }
                }
            }
            let ghost keys_before = binaries(keys@);
            keys.push(key);
            proof {
                assert(binaries(keys@) =~= keys_before.push(record_key(record_id as nat)));
                assert(binaries(keys@) =~= Seq::new(
                    (i + 1) as nat,
                    |j: int| record_key((first + j) as nat),
                ));
            }
            i += 1;
        }
        proof {
            assert(values.take(data@.len() as int) =~= values);
        }
        keys
    }

    /// Replaces the values of the records with the given keys, and returns
    /// the number of records given. Every key must be the key of a record
    /// of the table: this is for records that were read from the table. A
    /// caller that breaks this is stopped before anything is written.
    pub fn update(&mut self, data: Vec<(Key, Value)>) -> (count: usize)
        requires
            old(self).wf(),
            all_bound(old(self)@, models(data@)),
        ensures
            final(self).wf(),
            count == data@.len(),
            final(self)@ == rewritten(old(self)@, models(data@)),
            final(self)@.dom() == old(self)@.dom(),
            final(self).listing().len() == old(self).listing().len(),
            final(self).next_record_id() == old(self).next_record_id(),
            final(self).next_ord() == old(self).next_ord(),
            final(self).indexes() == old(self).indexes(),
    {
        // a caller that writes under a key that no record has is stopped
        // before anything is written
        let mut checked: usize = 0;
        while checked < data.len()
            invariant
                checked <= data@.len(),
                self.records.wf(),
                all_bound(self.records@, models(data@)),
            decreases data.len() - checked,
        {
            if !self.records.contains_key(&data[checked].0) {
                proof {
                    assert(models(data@)[checked as int].0 == data@[checked as int].0@);
                }
                vstd::pervasive::unreached::<()>();
            }
            checked += 1;
        }
        let ghost start = self.records@;
        let ghost all = models(data@);
        let ghost listed = self.records.listing();
        let mut i: usize = 0;
        while i < data.len()
            invariant
                i <= data@.len(),
                all == models(data@),
                all_bound(start, all),
                self.record_ids == old(self).record_ids,
                self.column_ords == old(self).column_ords,
                self.indexes == old(self).indexes,
                self.indexes.wf(),
                self.records.wf(),
                self.records@ == rewritten(start, all.take(i as int)),
                self.records@.dom() == start.dom(),
                self.records.listing().len() == listed.len(),
                keys_given(self.records.listing(), self.record_ids as nat),
            decreases data.len() - i,
        {
            proof {
                assert(all.take(i + 1).drop_last() =~= all.take(i as int));
                assert(all.take(i + 1).last() == all[i as int]);
                assert(start.dom().contains(all[i as int].0));
            }
            let ghost before = self.records.listing();
            self.records.insert(data[i].0.duplicate(), data[i].1.duplicate());
            proof {
                assert(self.records@.dom() =~= start.dom());
                // the keys of the listing are those of before
                let after = self.records.listing();
                assert forall|j: int| 0 <= j < after.len() implies is_given(
                    (#[trigger] after[j]).0,
                    self.record_ids as nat,
                ) by {
                    lemma_bindings_at::<Binary, Seq<u8>>(after, j);
                    assert(self.records@.dom().contains(after[j].0));
                    assert(bindings(before).dom().contains(after[j].0));
                    let at = position(before, after[j].0);
                    assert(is_given(before[at].0, self.record_ids as nat));
                }
            }
            i += 1;
        }
        proof {
            assert(all.take(data@.len() as int) =~= all);
        }
        data.len()
    }

    /// Removes the records that have one of the keys, and returns the
    /// number of records removed. A key that no record has is passed over.
    pub fn delete(&mut self, data: Vec<Key>) -> (count: usize)
        requires
            old(self).wf(),
        ensures
            final(self).wf(),
            final(self)@ == without(old(self)@, binaries(data@)),
            count == old(self).listing().len() - final(self).listing().len(),
            final(self).next_record_id() == old(self).next_record_id(),
            final(self).next_ord() == old(self).next_ord(),
            final(self).indexes() == old(self).indexes(),
    {
        let ghost start = self.records@;
        let ghost all = binaries(data@);
        let before = self.records.len();
        let mut i: usize = 0;
        while i < data.len()
            invariant
                i <= data@.len(),
                all == binaries(data@),
                self.record_ids == old(self).record_ids,
                self.column_ords == old(self).column_ords,
                self.indexes == old(self).indexes,
                self.indexes.wf(),
                self.records.wf(),
                self.records@ == without(start, all.take(i as int)),
                self.records.listing().len() <= before,
                keys_given(self.records.listing(), self.record_ids as nat),
            decreases data.len() - i,
        {
            proof {
                assert(all.take(i + 1).drop_last() =~= all.take(i as int));
                assert(all.take(i + 1).last() == data@[i as int]@);
            }
            let ghost listed = self.records.listing();
            self.records.remove(&data[i]);
            proof {
                let after = self.records.listing();
                assert forall|j: int| 0 <= j < after.len() implies is_given(
                    (#[trigger] after[j]).0,
                    self.record_ids as nat,
                ) by {
                    lemma_bindings_at::<Binary, Seq<u8>>(after, j);
                    assert(self.records@.dom().contains(after[j].0));
                    assert(bindings(listed).dom().contains(after[j].0));
                    let at = position(listed, after[j].0);
                    assert(is_given(listed[at].0, self.record_ids as nat));
                }
            }
            i += 1;
        }
        proof {
            assert(all.take(data@.len() as int) =~= all);
        }
        before - self.records.len()
    }

    /// Gives out the next column ordinal.
    pub fn next_column_ord(&mut self) -> (ord: u64)
        requires
            old(self).wf(),
            old(self).next_ord() < u64::MAX,
        ensures
            final(self).wf(),
            ord == old(self).next_ord(),
            final(self).next_ord() == ord + 1,
            final(self).listing() == old(self).listing(),
            final(self).next_record_id() == old(self).next_record_id(),
            final(self).indexes() == old(self).indexes(),
    {
        let ord = self.column_ords;
        self.column_ords = self.column_ords + 1;
        ord
    }

    /// Registers an empty index over the column under the name; an index
    /// that had the name is replaced.
    pub fn create_index(&mut self, index_name: &str, over_column: usize)
        requires
            old(self).wf(),
        ensures
            final(self).wf(),
            final(self).indexes().dom() == old(self).indexes().dom().insert(index_name@),
            final(self).indexes()[index_name@].column() == over_column,
            final(self).indexes()[index_name@].listing() == Seq::<Record>::empty(),
            forall|name: Seq<char>|
                name != index_name@ && old(self).indexes().dom().contains(name) ==> (#[trigger] final(self).indexes()[name]) == old(self).indexes()[name],
            final(self).listing() == old(self).listing(),
            final(self).next_record_id() == old(self).next_record_id(),
            final(self).next_ord() == old(self).next_ord(),
    {
        self.indexes.put(index_name, InMemoryIndex::new(over_column));
    }

    /// The index with the given name, if the table has it.
    pub fn index(&self, index: &str) -> (found: Option<&InMemoryIndex>)
        requires
            self.wf(),
        ensures
            match found {
                Some(found) => self.indexes().dom().contains(index@) && *found
                    == self.indexes()[index@],
                None => !self.indexes().dom().contains(index@),
            },
    {
        self.indexes.get(index)
    }
}

/// A schema: its tables by name.
pub struct InMemorySchemaHandle {
    tables: Registry<InMemoryTableHandle>,
}

impl InMemorySchemaHandle {
    /// The tables of the schema, by name.
    pub closed spec fn tables(&self) -> Map<Seq<char>, InMemoryTableHandle> {
        self.tables@
    }

    /// The registry of tables and every table in it are well-formed.
    pub closed spec fn wf(&self) -> bool {
        &&& self.tables.wf()
        &&& forall|name: Seq<char>| #[trigger]
            self.tables@.dom().contains(name) ==> self.tables@[name].wf()
    }

    pub fn new() -> (schema: InMemorySchemaHandle)
        ensures
            schema.wf(),
            schema.tables() == Map::<Seq<char>, InMemoryTableHandle>::empty(),
    {
        InMemorySchemaHandle { tables: Registry::new() }
    }

    /// Creates an empty table under the name unless the name is taken;
    /// says whether it did.
    pub fn create_table(&mut self, table_name: &str) -> (created: bool)
        requires
            old(self).wf(),
        ensures
            final(self).wf(),
            created == !old(self).tables().dom().contains(table_name@),
            created ==> final(self).tables().dom() == old(self).tables().dom().insert(table_name@)
                && final(self).tables()[table_name@].listing() == Seq::<Record>::empty() && final(self).tables()[table_name@].next_record_id() == 0 && forall|name: Seq<char>|
                old(self).tables().dom().contains(name) ==> (#[trigger] final(self).tables()[name])
                    == old(self).tables()[name],
            !created ==> final(self).tables() == old(self).tables(),
    {
        self.tables.insert(table_name, InMemoryTableHandle::new())
    }

    /// Drops the table with the name, with its records and indexes; says
    /// whether there was one.
    pub fn drop_table(&mut self, table_name: &str) -> (dropped: bool)
        requires
            old(self).wf(),
        ensures
            final(self).wf(),
            dropped == old(self).tables().dom().contains(table_name@),
            final(self).tables() == old(self).tables().remove(table_name@),
    {
        self.tables.remove(table_name).is_some()
    }

    /// Whether the schema has no table.
    pub fn empty(&self) -> (empty: bool)
        ensures
            empty <==> self.tables() == Map::<Seq<char>, InMemoryTableHandle>::empty(),
    {
        self.tables.is_empty()
    }

    /// The names of the tables, each once, in no promised order.
    pub fn all_tables(&self) -> (names: Vec<String>)
        ensures
            forall|name: Seq<char>|
                self.tables().dom().contains(name) <==> exists|i: int|
                    0 <= i < names@.len() && (#[trigger] names@[i])@ == name,
            forall|i: int, j: int|
                0 <= i < j < names@.len() ==> (#[trigger] names@[i])@ != (#[trigger] names@[j])@,
    {
        self.tables.names()
    }

    /// Registers an empty index over the column on the table; says whether
    /// the table exists.
    pub fn create_index(&mut self, table_name: &str, index_name: &str, column_index: usize) -> (created:
        bool)
        requires
            old(self).wf(),
        ensures
            final(self).wf(),
            created == old(self).tables().dom().contains(table_name@),
            final(self).tables().dom() == old(self).tables().dom(),
            forall|name: Seq<char>|
                name != table_name@ && old(self).tables().dom().contains(name) ==> (#[trigger] final(self).tables()[name]) == old(self).tables()[name],
            created ==> {
                let before = old(self).tables()[table_name@];
                let after = final(self).tables()[table_name@];
                &&& after.listing() == before.listing()
                &&& after.next_record_id() == before.next_record_id()
                &&& after.indexes().dom() == before.indexes().dom().insert(index_name@)
                &&& after.indexes()[index_name@].column() == column_index
                &&& after.indexes()[index_name@].listing() == Seq::<Record>::empty()
            },
    {
        match self.tables.get_mut(table_name) {
            None => false,
            Some(table) => {
                table.create_index(index_name, column_index);
                true
            },
        }
    }

    /// The table with the given name, to be changed in place.
    pub fn table_mut(&mut self, table_name: &str) -> (found: Option<&mut InMemoryTableHandle>)
        requires
            old(self).wf(),
        ensures
            match found {
                Some(table) => old(self).tables().dom().contains(table_name@) && *table == old(self).tables()[table_name@] && table.wf() && (final(table).wf() ==> final(self).wf())
                    && final(self).tables() == old(self).tables().insert(
                    table_name@,
                    *final(table),
                ),
                None => !old(self).tables().dom().contains(table_name@) && *final(self) == *old(self),
            },
    {
        self.tables.get_mut(table_name)
    }

    /// Runs the operation on the table with the name, if the schema has
    /// it, and hands back what the operation returned.
    pub fn work_with<T, F: FnOnce(&mut InMemoryTableHandle) -> T>(
        &mut self,
        table_name: &str,
        operation: F,
    ) -> (outcome: Option<T>)
        requires
            old(self).wf(),
            forall|table: &mut InMemoryTableHandle|
                old(self).tables().dom().contains(table_name@) && *table == old(self).tables()[table_name@] && table.wf() ==> call_requires(operation, (table,)),
            forall|table: &mut InMemoryTableHandle, returned: T|
                table.wf() && call_ensures(operation, (table,), returned) ==> final(table).wf(),
        ensures
            final(self).wf(),
            match outcome {
                Some(returned) => old(self).tables().dom().contains(table_name@) && exists|
                    table: &mut InMemoryTableHandle,
                |
                    *table == old(self).tables()[table_name@] && table.wf() && call_ensures(
                        operation,
                        (table,),
                        returned,
                    ) && final(self).tables() == old(self).tables().insert(
                        table_name@,
                        *final(table),
                    ),
                None => !old(self).tables().dom().contains(table_name@) && final(self).tables()
                    == old(self).tables(),
            },
    {
        self.tables.work_with(table_name, operation)
    }
}

/// The catalog: its schemas by name.
pub struct InMemoryCatalogHandle {
    schemas: Registry<InMemorySchemaHandle>,
}

impl InMemoryCatalogHandle {
    /// The schemas of the catalog, by name.
    pub closed spec fn schemas(&self) -> Map<Seq<char>, InMemorySchemaHandle> {
        self.schemas@
    }

    /// The registry of schemas and every schema in it are well-formed.
    pub closed spec fn wf(&self) -> bool {
        &&& self.schemas.wf()
        &&& forall|name: Seq<char>| #[trigger]
            self.schemas@.dom().contains(name) ==> self.schemas@[name].wf()
    }

    /// Whether the catalog has the table in the schema.
    pub open spec fn has_table(&self, schema: Seq<char>, table: Seq<char>) -> bool {
        self.schemas().dom().contains(schema) && self.schemas()[schema].tables().dom().contains(
            table,
        )
    }

    pub fn new() -> (catalog: InMemoryCatalogHandle)
        ensures
            catalog.wf(),
            catalog.schemas() == Map::<Seq<char>, InMemorySchemaHandle>::empty(),
    {
        InMemoryCatalogHandle { schemas: Registry::new() }
    }

    /// The table with the given name, if the catalog has it.
    pub fn table(&self, schema_name: &str, table_name: &str) -> (found: Option<
        &InMemoryTableHandle,
    >)
        requires
            self.wf(),
        ensures
            match found {
                Some(table) => self.has_table(schema_name@, table_name@) && *table
                    == self.schemas()[schema_name@].tables()[table_name@] && table.wf(),
                None => !self.has_table(schema_name@, table_name@),
            },
    {
        match self.schemas.get(schema_name) {
            Some(schema) => schema.tables.get(table_name),
            None => None,
        }
    }

    /// The table with the given name, to be changed in place.
    pub fn table_mut(&mut self, schema_name: &str, table_name: &str) -> (found: Option<
        &mut InMemoryTableHandle,
    >)
        requires
            old(self).wf(),
        ensures
            match found {
                Some(table) => {
                    &&& old(self).has_table(schema_name@, table_name@)
                    &&& *table == old(self).schemas()[schema_name@].tables()[table_name@]
                    &&& table.wf()
                    &&& final(table).wf() ==> final(self).wf()
                    &&& exists|schema: InMemorySchemaHandle|
                        final(self).schemas() == old(self).schemas().insert(schema_name@, schema)
                            && #[trigger] schema.tables() == old(self).schemas()[schema_name@].tables().insert(table_name@, *final(table))
                },
                None => !old(self).has_table(schema_name@, table_name@) && final(self).schemas()
                    == old(self).schemas() && final(self).wf(),
            },
    {
        match self.schemas.get_mut(schema_name) {
            Some(schema) => schema.table_mut(table_name),
            None => None,
        }
    }

    /// The schema with the given name, to be changed in place.
    pub fn schema_mut(&mut self, schema_name: &str) -> (found: Option<&mut InMemorySchemaHandle>)
        requires
            old(self).wf(),
        ensures
            match found {
                Some(schema) => old(self).schemas().dom().contains(schema_name@) && *schema == old(self).schemas()[schema_name@] && schema.wf() && (final(schema).wf() ==> final(self).wf()) && final(self).schemas() == old(self).schemas().insert(
                    schema_name@,
                    *final(schema),
                ),
                None => !old(self).schemas().dom().contains(schema_name@) && final(self).schemas()
                    == old(self).schemas() && final(self).wf(),
            },
    {
        self.schemas.get_mut(schema_name)
    }

    /// Creates an empty schema under the name unless the name is taken;
    /// says whether it did.
    pub fn create_schema(&mut self, schema_name: &str) -> (created: bool)
        requires
            old(self).wf(),
        ensures
            final(self).wf(),
            created == !old(self).schemas().dom().contains(schema_name@),
            created ==> final(self).schemas().dom() == old(self).schemas().dom().insert(
                schema_name@,
            ) && final(self).schemas()[schema_name@].tables() == Map::<
                Seq<char>,
                InMemoryTableHandle,
            >::empty() && forall|name: Seq<char>|
                old(self).schemas().dom().contains(name) ==> (#[trigger] final(self).schemas()[name])
                    == old(self).schemas()[name],
            !created ==> final(self).schemas() == old(self).schemas(),
    {
        self.schemas.insert(schema_name, InMemorySchemaHandle::new())
    }

    /// Drops the schema with the name, and all its tables with it; says
    /// whether there was one.
    pub fn drop_schema(&mut self, schema_name: &str) -> (dropped: bool)
        requires
            old(self).wf(),
        ensures
            final(self).wf(),
            dropped == old(self).schemas().dom().contains(schema_name@),
            final(self).schemas() == old(self).schemas().remove(schema_name@),
    {
        self.schemas.remove(schema_name).is_some()
    }

    /// Runs the operation on the schema with the name, if the catalog has
    /// it, and hands back what the operation returned.
    pub fn work_with<T, F: FnOnce(&mut InMemorySchemaHandle) -> T>(
        &mut self,
        schema_name: &str,
        operation: F,
    ) -> (outcome: Option<T>)
        requires
            old(self).wf(),
            forall|schema: &mut InMemorySchemaHandle|
                old(self).schemas().dom().contains(schema_name@) && *schema == old(self).schemas()[schema_name@] && schema.wf() ==> call_requires(operation, (schema,)),
            forall|schema: &mut InMemorySchemaHandle, returned: T|
                schema.wf() && call_ensures(operation, (schema,), returned) ==> final(schema).wf(),
        ensures
            final(self).wf(),
            match outcome {
                Some(returned) => old(self).schemas().dom().contains(schema_name@) && exists|
                    schema: &mut InMemorySchemaHandle,
                |
                    *schema == old(self).schemas()[schema_name@] && schema.wf() && call_ensures(
                        operation,
                        (schema,),
                        returned,
                    ) && final(self).schemas() == old(self).schemas().insert(
                        schema_name@,
                        *final(schema),
                    ),
                None => !old(self).schemas().dom().contains(schema_name@) && final(self).schemas()
                    == old(self).schemas(),
            },
    {
        self.schemas.work_with(schema_name, operation)
    }
}

/// The keys of the records.
pub open spec fn keys_of(listing: Seq<Record>) -> Seq<Seq<u8>> {
    listing.map_values(|record: Record| record.0)
}

/// Whether `records` has, under each key of `listing` and in its order, a
/// value.
pub open spec fn same_keys(listing: Seq<Record>, records: Seq<Record>) -> bool {
    keys_of(records) == keys_of(listing)
}

proof fn lemma_rewritten_upto(listing: Seq<Record>, records: Seq<Record>, upto: int)
    requires
        ascending::<Binary, Seq<u8>>(listing),
        same_keys(listing, records),
        0 <= upto <= records.len(),
    ensures
        ascending::<Binary, Seq<u8>>(records.take(upto) + listing.skip(upto)),
        rewritten(bindings(listing), records.take(upto)) == bindings(
            records.take(upto) + listing.skip(upto),
        ),
    decreases upto,
{
    assert(keys_of(records).len() == keys_of(listing).len());
    if upto == 0 {
        assert(records.take(0) + listing.skip(0) =~= listing);
    } else {
        lemma_rewritten_upto(listing, records, upto - 1);
        let mixed = records.take(upto - 1) + listing.skip(upto - 1);
        assert(mixed[upto - 1] == listing[upto - 1]);
        assert(keys_of(records)[upto - 1] == keys_of(listing)[upto - 1]);
        crate::ordered::lemma_update_bindings::<Binary, Seq<u8>>(mixed, upto - 1, records[upto - 1].1);
        assert(mixed.update(upto - 1, (mixed[upto - 1].0, records[upto - 1].1)) =~= records.take(
            upto,
        ) + listing.skip(upto));
        assert(records.take(upto).drop_last() =~= records.take(upto - 1));
        assert(records.take(upto).last() == records[upto - 1]);
    }
}

/// Writing a value under every key of an ascending listing gives the
/// listing of those values.
pub proof fn lemma_rewritten_listing(listing: Seq<Record>, records: Seq<Record>)
    requires
        ascending::<Binary, Seq<u8>>(listing),
        same_keys(listing, records),
    ensures
        ascending::<Binary, Seq<u8>>(records),
        all_bound(bindings(listing), records),
        rewritten(bindings(listing), records) == bindings(records),
{
    assert(keys_of(records).len() == keys_of(listing).len());
    lemma_rewritten_upto(listing, records, records.len() as int);
    assert(records.take(records.len() as int) + listing.skip(records.len() as int) =~= records);
    assert(records.take(records.len() as int) =~= records);
    assert forall|i: int| 0 <= i < records.len() implies bindings(listing).dom().contains(
        (#[trigger] records[i]).0,
    ) by {
        assert(keys_of(records)[i] == keys_of(listing)[i]);
        lemma_bindings_at::<Binary, Seq<u8>>(listing, i);
    }
}

/// Taking out every key of a listing leaves nothing.
pub proof fn lemma_without_all(listing: Seq<Record>)
    ensures
        without(bindings(listing), keys_of(listing)) == Map::<Seq<u8>, Seq<u8>>::empty(),
{
    let left = without(bindings(listing), keys_of(listing));
    assert forall|key: Seq<u8>| !left.dom().contains(key) by {
        lemma_without_dom(bindings(listing), keys_of(listing), key);
        if bindings(listing).dom().contains(key) {
            let i = position(listing, key);
            assert(keys_of(listing)[i] == key);
        }
    }
    assert(left =~= Map::<Seq<u8>, Seq<u8>>::empty());
}

/// An ascending listing that binds nothing is empty.
pub proof fn lemma_nothing_listed(listing: Seq<Record>)
    requires
        ascending::<Binary, Seq<u8>>(listing),
        bindings(listing) == Map::<Seq<u8>, Seq<u8>>::empty(),
    ensures
        listing == Seq::<Record>::empty(),
{
    if listing.len() > 0 {
        lemma_bindings_at::<Binary, Seq<u8>>(listing, 0);
        assert(bindings(listing).dom().contains(listing[0].0));
    }
    assert(listing =~= Seq::<Record>::empty());
}

/// The keys of records ascend as their ids do.
pub proof fn lemma_keys_ascend(low: nat, high: nat)
    requires
        low < high <= u64::MAX,
    ensures
        lex_less(record_key(low), record_key(high)),
{
    lemma_pack_order(DatumModel::UInt64(low as u64), DatumModel::UInt64(high as u64));
}

/// The records of a table that was empty and had given out no id, after
/// values were inserted into it: each value stands under the key of its
/// place, and the keys strictly ascend, so no two are the same.
pub proof fn lemma_insert_into_fresh(values: Seq<Seq<u8>>)
    requires
        values.len() <= u64::MAX,
    ensures
        appended(Seq::empty(), 0, values).len() == values.len(),
        forall|i: int|
            0 <= i < values.len() ==> (#[trigger] appended(Seq::empty(), 0, values)[i]) == (
                record_key(i as nat),
                values[i],
            ),
        ascending::<Binary, Seq<u8>>(appended(Seq::empty(), 0, values)),
{
    let listing = appended(Seq::empty(), 0, values);
    assert forall|i: int, j: int| 0 <= i < j < listing.len() implies lex_less(
        (#[trigger] listing[i]).0,
        (#[trigger] listing[j]).0,
    ) by {
        lemma_keys_ascend(i as nat, j as nat);
    }
}

/// A table from which keys were taken out loses nothing when the same
/// keys are taken out of it again: the second time counts no record.
pub proof fn lemma_second_delete_counts_nothing(
    before: InMemoryTableHandle,
    once: InMemoryTableHandle,
    twice: InMemoryTableHandle,
    keys: Seq<Seq<u8>>,
)
    requires
        once.wf(),
        twice.wf(),
        once@ == without(before@, keys),
        twice@ == without(once@, keys),
    ensures
        twice.listing() == once.listing(),
        once.listing().len() - twice.listing().len() == 0,
{
    lemma_delete_again(before@, keys);
    once.lemma_listing();
    twice.lemma_listing();
    lemma_listing_determined::<Binary, Seq<u8>>(twice.listing(), once.listing());
}

} // verus!
