//! A database in memory: named trees of records, each tree ordered by the
//! keys of its records.

use vstd::prelude::*;
use crate::binary::{datums, packed, Binary, Datum, DatumModel};
use crate::ordered::{models, OrderedMap, Plain};
use crate::registry::Registry;
use crate::storage::{
    all_bound, binaries, lemma_rewritten_dom, record_key, rewritten, without, Key, Record, Value,
};

verus! {

/// The tree that lists the schemas of the database.
pub open spec fn schemata() -> Seq<char> {
    "DEFINITION_SCHEMA.SCHEMATA"@
}

/// The tree that lists the tables of the database, and their indexes.
pub open spec fn tables() -> Seq<char> {
    "DEFINITION_SCHEMA.TABLES"@
}

/// The tree that lists the columns of the tables.
pub open spec fn columns() -> Seq<char> {
    "DEFINITION_SCHEMA.COLUMNS"@
}

/// The record of the schema that every database starts with.
pub open spec fn public_schema() -> Seq<u8> {
    packed(seq![DatumModel::String("IN_MEMORY"@), DatumModel::String("public"@)])
}

/// The values under the keys made of `first`, `first + 1`, and so on.
pub open spec fn numbered(first: nat, values: Seq<Seq<u8>>) -> Seq<Record> {
    Seq::new(values.len(), |i: int| (record_key((first + i) as nat), values[i]))
}

/// Whether none of the keys made of `first`, `first + 1` and so on, `count`
/// of them, is bound.
pub open spec fn unbound(bindings: Map<Seq<u8>, Seq<u8>>, first: nat, count: nat) -> bool {
    forall|i: nat| i < count ==> !bindings.dom().contains(#[trigger] record_key(first + i))
}

/// A tree of records. A record that is inserted gets a key made of the
/// next record id; a record can also be put under a key of the caller's.
pub struct InMemoryTree {
    name: String,
    records: OrderedMap<Binary, Binary>,
    record_ids: u64,
}

impl InMemoryTree {
    pub closed spec fn wf(&self) -> bool {
        self.records.wf()
    }

    pub closed spec fn name(&self) -> Seq<char> {
        self.name@
    }

    /// The records of the tree, ascending by key.
    pub closed spec fn listing(&self) -> Seq<Record> {
        self.records.listing()
    }

    /// The value of each record, by key.
    pub closed spec fn view(&self) -> Map<Seq<u8>, Seq<u8>> {
        self.records@
    }

    /// The id that the next inserted record gets.
    pub closed spec fn next_record_id(&self) -> u64 {
        self.record_ids
    }

    /// The bindings of a tree are those of its listing.
    pub proof fn lemma_listing(&self)
        requires
            self.wf(),
        ensures
            crate::ordered::ascending::<Binary, Seq<u8>>(self.listing()),
            self@ == crate::ordered::bindings(self.listing()),
    {
    }

    /// An empty tree of the name.
    pub fn with_name(name: String) -> (tree: InMemoryTree)
        ensures
            tree.wf(),
            tree.name() == name@,
            tree.listing() == Seq::<Record>::empty(),
            tree@ == Map::<Seq<u8>, Seq<u8>>::empty(),
            tree.next_record_id() == 0,
    {
        let tree = InMemoryTree { name, records: OrderedMap::new(), record_ids: 0 };
        assert(tree@ =~= Map::<Seq<u8>, Seq<u8>>::empty());
        tree
    }

    /// Takes the record of the key out of the tree and returns its value.
    pub fn remove(&mut self, key: &Key) -> (removed: Option<Value>)
        requires
            old(self).wf(),
        ensures
            final(self).wf(),
            final(self).name() == old(self).name(),
            final(self).next_record_id() == old(self).next_record_id(),
            final(self)@ == old(self)@.remove(key@),
            match removed {
                Some(value) => old(self)@.dom().contains(key@) && value@ == old(self)@[key@],
                None => !old(self)@.dom().contains(key@),
            },
    {
        self.records.remove(key)
    }

    /// Puts the row under the key and returns the value that the key had.
    pub fn insert_key(&mut self, key: Key, row: Value) -> (replaced: Option<Value>)
        requires
            old(self).wf(),
        ensures
            final(self).wf(),
            final(self).name() == old(self).name(),
            final(self).next_record_id() == old(self).next_record_id(),
            final(self)@ == old(self)@.insert(key@, row@),
            match replaced {
                Some(value) => old(self)@.dom().contains(key@) && value@ == old(self)@[key@],
                None => !old(self)@.dom().contains(key@),
            },
    {
        self.records.insert(key, row)
    }

    /// A copy of the records, ascending by key.
    pub fn select(&self) -> (records: Vec<(Key, Value)>)
        ensures
            models(records@) == self.listing(),
    {
        self.records.entries()
    }

    /// Puts each value under a key made of the next record id, and
    /// returns the keys in the order of the values. None of these keys
    /// may be in use.
    pub fn insert(&mut self, data: Vec<Value>) -> (keys: Vec<Key>)
        requires
            old(self).wf(),
            old(self).next_record_id() + data@.len() <= u64::MAX,
            unbound(old(self)@, old(self).next_record_id() as nat, data@.len()),
        ensures
            final(self).wf(),
            final(self).name() == old(self).name(),
            final(self).next_record_id() == old(self).next_record_id() + data@.len(),
            binaries(keys@) == Seq::new(
                data@.len(),
                |i: int| record_key((old(self).next_record_id() + i) as nat),
            ),
            final(self)@ == rewritten(
                old(self)@,
                numbered(old(self).next_record_id() as nat, binaries(data@)),
            ),
    {
        let ghost first = self.record_ids as nat;
        let ghost start = self.records@;
        let ghost values = binaries(data@);
        let ghost all = numbered(first, values);
        let mut keys: Vec<Key> = Vec::new();
        let mut i: usize = 0;
        while i < data.len()
            invariant
                i <= data@.len(),
                first + data@.len() <= u64::MAX,
                values == binaries(data@),
                all == numbered(first, values),
                self.name == old(self).name,
                self.record_ids == first + i,
                self.records.wf(),
                self.records@ == rewritten(start, all.take(i as int)),
                binaries(keys@) == Seq::new(i as nat, |j: int| record_key((first + j) as nat)),
            decreases data.len() - i,
        {
            let record_id = self.record_ids;
            self.record_ids = self.record_ids + 1;
            let mut id: Vec<Datum> = Vec::new();
            id.push(Datum::from_u64(record_id));
            let key = Binary::pack(id.as_slice());
            proof {
                assert(datums(id@) =~= seq![DatumModel::UInt64(record_id)]);
                assert(all.take(i + 1).drop_last() =~= all.take(i as int));
                assert(all.take(i + 1).last() == (record_key(record_id as nat), data@[i as int]@));
            }
            self.records.insert(key.duplicate(), data[i].duplicate());
            let ghost keys_before = binaries(keys@);
            keys.push(key);
            proof {
                assert(binaries(keys@) =~= keys_before.push(record_key(record_id as nat)));
                assert(binaries(keys@) =~= Seq::new(
                    (i + 1) as nat,
                    |j: int| record_key((first + j) as nat),
                ));
            }
            i += 1;
        }
        proof {
            assert(all.take(data@.len() as int) =~= all);
        }
        keys
    }

    /// Puts each value in the place of the value of its key, and returns
    /// the number of records that it was given. Every key must be in use;
    /// a caller that breaks this is stopped before anything is written.
    pub fn update(&mut self, data: Vec<(Key, Value)>) -> (count: usize)
        requires
            old(self).wf(),
            all_bound(old(self)@, models(data@)),
        ensures
            final(self).wf(),
            final(self).name() == old(self).name(),
            final(self).next_record_id() == old(self).next_record_id(),
            count == data@.len(),
            final(self)@ == rewritten(old(self)@, models(data@)),
            final(self)@.dom() == old(self)@.dom(),
    {
        // a caller that writes under a key that no record has is stopped
        // before anything is written
        let mut checked: usize = 0;
        while checked < data.len()
            invariant
                checked <= data@.len(),
                self.records.wf(),
                all_bound(self.records@, models(data@)),
            decreases data.len() - checked,
        {
            if !self.records.contains_key(&data[checked].0) {
                proof {
                    assert(models(data@)[checked as int].0 == data@[checked as int].0@);
                }
                vstd::pervasive::unreached::<()>();
            }
            checked += 1;
        }
        proof {
            lemma_rewritten_dom(old(self)@, models(data@));
        }
        let ghost start = self.records@;
        let ghost all = models(data@);
        let mut i: usize = 0;
        while i < data.len()
            invariant
                i <= data@.len(),
                all == models(data@),
                self.name == old(self).name,
                self.record_ids == old(self).record_ids,
                self.records.wf(),
                self.records@ == rewritten(start, all.take(i as int)),
            decreases data.len() - i,
        {
            proof {
                assert(all.take(i + 1).drop_last() =~= all.take(i as int));
                assert(all.take(i + 1).last() == all[i as int]);
            }
            self.records.insert(data[i].0.duplicate(), data[i].1.duplicate());
            i += 1;
        }
        proof {
            assert(all.take(data@.len() as int) =~= all);
        }
        data.len()
    }

    /// Takes out the records that have one of the keys, and returns the
    /// number of records taken out.
    pub fn delete(&mut self, data: Vec<Key>) -> (count: usize)
        requires
            old(self).wf(),
        ensures
            final(self).wf(),
            final(self).name() == old(self).name(),
            final(self).next_record_id() == old(self).next_record_id(),
            final(self)@ == without(old(self)@, binaries(data@)),
            count == old(self).listing().len() - final(self).listing().len(),
    {
        let ghost start = self.records@;
        let ghost all = binaries(data@);
        let before = self.records.len();
        let mut i: usize = 0;
        while i < data.len()
            invariant
                i <= data@.len(),
                all == binaries(data@),
                self.name == old(self).name,
                self.record_ids == old(self).record_ids,
                self.records.wf(),
                self.records@ == without(start, all.take(i as int)),
                self.records.listing().len() <= before,
            decreases data.len() - i,
        {
            proof {
                assert(all.take(i + 1).drop_last() =~= all.take(i as int));
                assert(all.take(i + 1).last() == data@[i as int]@);
            }
            self.records.remove(&data[i]);
            i += 1;
        }
        proof {
            assert(all.take(data@.len() as int) =~= all);
        }
        before - self.records.len()
    }
}

/// The trees of a database, by name.
pub struct InMemoryDatabase {
    trees: Registry<InMemoryTree>,
}

impl InMemoryDatabase {
    /// The trees of the database, by name.
    pub closed spec fn view(&self) -> Map<Seq<char>, InMemoryTree> {
        self.trees@
    }

    pub closed spec fn wf(&self) -> bool {
        &&& self.trees.wf()
        &&& forall|name: Seq<char>| #[trigger]
            self.trees@.dom().contains(name) ==> self.trees@[name].wf()
    }

    /// A database with the trees that describe it: the schemas, with the
    /// record of the schema that every database has, the tables and the
    /// columns, both empty.
    pub fn create() -> (database: InMemoryDatabase)
        ensures
            database.wf(),
            database@.dom() == set![schemata(), tables(), columns()],
            database@[schemata()]@ == Map::<Seq<u8>, Seq<u8>>::empty().insert(
                record_key(0),
                public_schema(),
            ),
            database@[schemata()].next_record_id() == 1,
            database@[tables()].listing() == Seq::<Record>::empty(),
            database@[columns()].listing() == Seq::<Record>::empty(),
    {
        let mut this = InMemoryDatabase { trees: Registry::new() };
        proof {
            reveal_strlit("DEFINITION_SCHEMA.SCHEMATA");
            reveal_strlit("DEFINITION_SCHEMA.TABLES");
            reveal_strlit("DEFINITION_SCHEMA.COLUMNS");
            assert(schemata().len() == 26);
            assert(tables().len() == 24);
            assert(columns().len() == 25);
        }
        this.create_tree("DEFINITION_SCHEMA.SCHEMATA");
        let mut row: Vec<Datum> = Vec::new();
        row.push(Datum::from_string(String::from_str("IN_MEMORY")));
        row.push(Datum::from_string(String::from_str("public")));
        let mut rows: Vec<Value> = Vec::new();
        rows.push(Binary::pack(row.as_slice()));
        proof {
            assert(datums(row@) =~= seq![
                DatumModel::String("IN_MEMORY"@),
                DatumModel::String("public"@),
            ]);
            assert(binaries(rows@) =~= seq![public_schema()]);
            reveal_with_fuel(rewritten, 2);
            assert(numbered(0, binaries(rows@)) =~= seq![(record_key(0), public_schema())]);
            assert(numbered(0, binaries(rows@)).drop_last() =~= Seq::<Record>::empty());
        }
        match this.lookup_tree("DEFINITION_SCHEMA.SCHEMATA") {
            Some(tree) => {
                tree.insert(rows);
            },
            None => {},
        }
        this.create_tree("DEFINITION_SCHEMA.TABLES");
        this.create_tree("DEFINITION_SCHEMA.COLUMNS");
        this.create_tree("DEFINITION_SCHEMA.TABLES");
        proof {
            assert(this@.dom() =~= set![schemata(), tables(), columns()]);
        }
        this
    }

    /// The tree of the name, to be changed in place.
    pub fn lookup_tree(&mut self, table: &str) -> (found: Option<&mut InMemoryTree>)
        requires
            old(self).wf(),
        ensures
            match found {
                Some(tree) => old(self)@.dom().contains(table@) && *tree == old(self)@[table@]
                    && tree.wf() && (final(tree).wf() ==> final(self).wf()) && final(self)@
                    == old(self)@.insert(table@, *final(tree)),
                None => !old(self)@.dom().contains(table@) && final(self)@ == old(self)@ && final(self).wf(),
            },
    {
        self.trees.get_mut(table)
    }

    /// Takes the tree of the name out of the database.
    pub fn drop_tree(&mut self, table: &str)
        requires
            old(self).wf(),
        ensures
            final(self).wf(),
            final(self)@ == old(self)@.remove(table@),
    {
        self.trees.remove(table);
    }

    /// Puts an empty tree under the name, in the place of the tree that
    /// the name had.
    pub fn create_tree(&mut self, table: &str)
        requires
            old(self).wf(),
        ensures
            final(self).wf(),
            final(self)@.dom() == old(self)@.dom().insert(table@),
            final(self)@[table@].name() == table@,
            final(self)@[table@].listing() == Seq::<Record>::empty(),
            final(self)@[table@]@ == Map::<Seq<u8>, Seq<u8>>::empty(),
            final(self)@[table@].next_record_id() == 0,
            forall|other: Seq<char>|
                other != table@ && old(self)@.dom().contains(other) ==> (#[trigger] final(self)@[other]) == old(self)@[other],
    {
        self.trees.put(table, InMemoryTree::with_name(String::from_str(table)));
    }
}

} // verus!
