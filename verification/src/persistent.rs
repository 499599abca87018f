//! The store below the relational layer: namespaces of named objects, each
//! object a set of rows that are kept in the order of their keys.

use vstd::prelude::*;
use crate::bytes::byte_strings;
use crate::ordered::{ascending, bindings, models, OrderedMap, Plain};
use crate::registry::Registry;

verus! {

pub type Key = Vec<u8>;

pub type Values = Vec<Vec<u8>>;

pub type Row = (Key, Values);

#[derive(Debug, PartialEq)]
pub struct NamespaceAlreadyExists;

#[derive(Debug, PartialEq)]
pub struct NamespaceDoesNotExist;

#[derive(Debug, PartialEq)]
pub enum CreateObjectError {
    NamespaceDoesNotExist,
    ObjectAlreadyExists,
}

#[derive(Debug, PartialEq)]
pub enum DropObjectError {
    NamespaceDoesNotExist,
    ObjectDoesNotExist,
}

#[derive(Debug, PartialEq)]
pub enum OperationOnObjectError {
    NamespaceDoesNotExist,
    ObjectDoesNotExist,
}

/// A row as plain values: its key, then its values.
pub type RowModel = (Seq<u8>, Seq<Seq<u8>>);

/// The rows of an object, ascending by key.
pub type Listing = Seq<RowModel>;

/// The objects of a namespace, by name.
pub type Objects = Map<Seq<char>, Listing>;

/// The namespaces of a store, by name.
pub type Namespaces = Map<Seq<char>, Objects>;

/// Whether the store has the object `object` in the namespace `namespace`.
pub open spec fn has_object(store: Namespaces, namespace: Seq<char>, object: Seq<char>) -> bool {
    store.dom().contains(namespace) && store[namespace].dom().contains(object)
}

/// The store with `listing` as the rows of the object.
pub open spec fn with_listing(
    store: Namespaces,
    namespace: Seq<char>,
    object: Seq<char>,
    listing: Listing,
) -> Namespaces {
    store.insert(namespace, store[namespace].insert(object, listing))
}

/// The bindings of an object after `rows` were written to it one after the
/// other: a row replaces what its key was bound to.
pub open spec fn written(
    before: Map<Seq<u8>, Seq<Seq<u8>>>,
    rows: Seq<RowModel>,
) -> Map<Seq<u8>, Seq<Seq<u8>>>
    decreases rows.len(),
{
    if rows.len() == 0 {
        before
    } else {
        written(before, rows.drop_last()).insert(rows.last().0, rows.last().1)
    }
}

/// The bindings of an object after the rows with the keys `keys` were
/// deleted from it.
pub open spec fn deleted(
    before: Map<Seq<u8>, Seq<Seq<u8>>>,
    keys: Seq<Seq<u8>>,
) -> Map<Seq<u8>, Seq<Seq<u8>>>
    decreases keys.len(),
{
    if keys.len() == 0 {
        before
    } else {
        deleted(before, keys.drop_last()).remove(keys.last())
    }
}

/// What creating an object does to a store, and what it answers.
pub open spec fn object_created(
    before: Namespaces,
    after: Namespaces,
    namespace: Seq<char>,
    object: Seq<char>,
    created: Result<(), CreateObjectError>,
) -> bool {
    match created {
        Ok(()) => before.dom().contains(namespace) && !has_object(before, namespace, object)
            && after == with_listing(before, namespace, object, Seq::empty()),
        Err(CreateObjectError::NamespaceDoesNotExist) => !before.dom().contains(namespace)
            && after == before,
        Err(CreateObjectError::ObjectAlreadyExists) => has_object(before, namespace, object)
            && after == before,
    }
}

/// What dropping an object does to a store, and what it answers.
pub open spec fn object_dropped(
    before: Namespaces,
    after: Namespaces,
    namespace: Seq<char>,
    object: Seq<char>,
    dropped: Result<(), DropObjectError>,
) -> bool {
    match dropped {
        Ok(()) => has_object(before, namespace, object) && after == before.insert(
            namespace,
            before[namespace].remove(object),
        ),
        Err(DropObjectError::NamespaceDoesNotExist) => !before.dom().contains(namespace) && after
            == before,
        Err(DropObjectError::ObjectDoesNotExist) => before.dom().contains(namespace) && !has_object(
            before,
            namespace,
            object,
        ) && after == before,
    }
}

/// Whether `error` is the answer of a store that lacks the namespace, or
/// has the namespace and lacks the object in it.
pub open spec fn object_missing(
    store: Namespaces,
    namespace: Seq<char>,
    object: Seq<char>,
    error: OperationOnObjectError,
) -> bool {
    match error {
        OperationOnObjectError::NamespaceDoesNotExist => !store.dom().contains(namespace),
        OperationOnObjectError::ObjectDoesNotExist => store.dom().contains(namespace)
            && !has_object(store, namespace, object),
    }
}

/// Whether the two stores differ at most in the rows of the one object,
/// which both have.
pub open spec fn one_object_changed(
    before: Namespaces,
    after: Namespaces,
    namespace: Seq<char>,
    object: Seq<char>,
) -> bool {
    &&& has_object(before, namespace, object)
    &&& has_object(after, namespace, object)
    &&& after == with_listing(before, namespace, object, after[namespace][object])
}

/// What writing rows to an object does to a store, and what it answers.
pub open spec fn rows_written(
    before: Namespaces,
    after: Namespaces,
    namespace: Seq<char>,
    object: Seq<char>,
    rows: Seq<RowModel>,
    count: Result<usize, OperationOnObjectError>,
) -> bool {
    match count {
        Ok(count) => {
            &&& one_object_changed(before, after, namespace, object)
            &&& count == rows.len()
            &&& bindings(after[namespace][object]) == written(
                bindings(before[namespace][object]),
                rows,
            )
        },
        Err(error) => object_missing(before, namespace, object, error) && after == before,
    }
}

/// What deleting rows from an object does to a store, and what it answers.
pub open spec fn rows_deleted(
    before: Namespaces,
    after: Namespaces,
    namespace: Seq<char>,
    object: Seq<char>,
    keys: Seq<Seq<u8>>,
    count: Result<usize, OperationOnObjectError>,
) -> bool {
    match count {
        Ok(count) => {
            &&& one_object_changed(before, after, namespace, object)
            &&& bindings(after[namespace][object]) == deleted(
                bindings(before[namespace][object]),
                keys,
            )
            &&& count == before[namespace][object].len() - after[namespace][object].len()
        },
        Err(error) => object_missing(before, namespace, object, error) && after == before,
    }
}

/// What the relational layer asks of a store.
pub trait PersistentStorage {
    /// The invariant of the store.
    spec fn wf(&self) -> bool;

    /// What the store holds.
    spec fn namespaces(&self) -> Namespaces;

    /// In a well-formed store the rows of every object ascend by key.
    proof fn lemma_listings_ascend(&self, namespace: Seq<char>, object: Seq<char>)
        requires
            self.wf(),
            has_object(self.namespaces(), namespace, object),
        ensures
            ascending::<Key, Seq<Seq<u8>>>(self.namespaces()[namespace][object]),
    ;

    fn create_namespace(&mut self, namespace: &str) -> (created: Result<(), NamespaceAlreadyExists>)
        requires
            old(self).wf(),
        ensures
            final(self).wf(),
            created is Ok <==> !old(self).namespaces().dom().contains(namespace@),
            final(self).namespaces() == if created is Ok {
                old(self).namespaces().insert(namespace@, Map::empty())
            } else {
                old(self).namespaces()
            },
    ;

    fn drop_namespace(&mut self, namespace: &str) -> (dropped: Result<(), NamespaceDoesNotExist>)
        requires
            old(self).wf(),
        ensures
            final(self).wf(),
            dropped is Ok <==> old(self).namespaces().dom().contains(namespace@),
            final(self).namespaces() == old(self).namespaces().remove(namespace@),
    ;

    fn create_object(&mut self, namespace: &str, object: &str) -> (created: Result<
        (),
        CreateObjectError,
    >)
        requires
            old(self).wf(),
        ensures
            final(self).wf(),
            object_created(
                old(self).namespaces(),
                final(self).namespaces(),
                namespace@,
                object@,
                created,
            ),
    ;

    fn drop_object(&mut self, namespace: &str, object: &str) -> (dropped: Result<
        (),
        DropObjectError,
    >)
        requires
            old(self).wf(),
        ensures
            final(self).wf(),
            object_dropped(
                old(self).namespaces(),
                final(self).namespaces(),
                namespace@,
                object@,
                dropped,
            ),
    ;

    fn is_namespace_exists(&self, namespace: &str) -> (exists: bool)
        requires
            self.wf(),
        ensures
            exists == self.namespaces().dom().contains(namespace@),
    ;

    fn is_object_exists(&self, namespace: &str, object: &str) -> (exists: bool)
        requires
            self.wf(),
        ensures
            exists == has_object(self.namespaces(), namespace@, object@),
    ;

    /// Writes the rows one after the other and returns how many it was
    /// given; a row replaces the row that had its key.
    fn write(&mut self, namespace: &str, object: &str, rows: Vec<Row>) -> (count: Result<
        usize,
        OperationOnObjectError,
    >)
        requires
            old(self).wf(),
        ensures
            final(self).wf(),
            rows_written(
                old(self).namespaces(),
                final(self).namespaces(),
                namespace@,
                object@,
                models(rows@),
                count,
            ),
    ;

    /// A copy of the rows of the object, ascending by key.
    fn read(&self, namespace: &str, object: &str) -> (rows: Result<
        Vec<Row>,
        OperationOnObjectError,
    >)
        requires
            self.wf(),
        ensures
            match rows {
                Ok(rows) => has_object(self.namespaces(), namespace@, object@) && models(rows@)
                    == self.namespaces()[namespace@][object@],
                Err(error) => object_missing(self.namespaces(), namespace@, object@, error),
            },
    ;

    /// Deletes the rows that have one of the keys and returns how many rows
    /// it deleted.
    fn delete(&mut self, namespace: &str, object: &str, keys: Vec<Key>) -> (count: Result<
        usize,
        OperationOnObjectError,
    >)
        requires
            old(self).wf(),
        ensures
            final(self).wf(),
            rows_deleted(
                old(self).namespaces(),
                final(self).namespaces(),
                namespace@,
                object@,
                byte_strings(keys@),
                count,
            ),
    ;
}

/// The rows of one object.
pub type Records = OrderedMap<Key, Values>;

/// A store that keeps everything in memory.
pub struct InMemoryStorage {
    namespaces: Registry<Registry<Records>>,
}

/// The listing of each object of a namespace.
pub open spec fn objects_of(namespace: Registry<Records>) -> Objects {
    Map::new(
        |object: Seq<char>| namespace@.dom().contains(object),
        |object: Seq<char>| namespace@[object].listing(),
    )
}

/// The invariant of a namespace: the registry and every object of it.
pub open spec fn namespace_wf(namespace: Registry<Records>) -> bool {
    &&& namespace.wf()
    &&& forall|object: Seq<char>| #[trigger]
        namespace@.dom().contains(object) ==> namespace@[object].wf()
}

impl InMemoryStorage {
    pub fn new() -> (storage: Self)
        ensures
            storage.wf(),
            storage.namespaces() == Map::<Seq<char>, Objects>::empty(),
    {
        let storage = InMemoryStorage { namespaces: Registry::new() };
        assert(storage.namespaces() =~= Map::<Seq<char>, Objects>::empty());
        storage
    }
}

impl PersistentStorage for InMemoryStorage {
    closed spec fn wf(&self) -> bool {
        &&& self.namespaces.wf()
        &&& forall|namespace: Seq<char>| #[trigger]
            self.namespaces@.dom().contains(namespace) ==> namespace_wf(self.namespaces@[namespace])
    }

    closed spec fn namespaces(&self) -> Namespaces {
        Map::new(
            |namespace: Seq<char>| self.namespaces@.dom().contains(namespace),
            |namespace: Seq<char>| objects_of(self.namespaces@[namespace]),
        )
    }

    proof fn lemma_listings_ascend(&self, namespace: Seq<char>, object: Seq<char>) {
        assert(self.namespaces@.dom().contains(namespace));
        assert(self.namespaces@[namespace]@.dom().contains(object));
    }

    fn create_namespace(&mut self, namespace: &str) -> (created: Result<
        (),
        NamespaceAlreadyExists,
    >) {
        let objects: Registry<Records> = Registry::new();
        assert(objects_of(objects) =~= Map::<Seq<char>, Listing>::empty());
        if self.namespaces.insert(namespace, objects) {
            assert(self.namespaces() =~= old(self).namespaces().insert(namespace@, Map::empty()));
            Ok(())
        } else {
            Err(NamespaceAlreadyExists)
        }
    }

    fn drop_namespace(&mut self, namespace: &str) -> (dropped: Result<(), NamespaceDoesNotExist>) {
        let removed = self.namespaces.remove(namespace);
        assert(self.namespaces() =~= old(self).namespaces().remove(namespace@));
        match removed {
            Some(_) => Ok(()),
            None => Err(NamespaceDoesNotExist),
        }
    }

    fn create_object(&mut self, namespace: &str, object: &str) -> (created: Result<
        (),
        CreateObjectError,
    >) {
        let created = match self.namespaces.get_mut(namespace) {
            None => Err(CreateObjectError::NamespaceDoesNotExist),
            Some(objects) => if objects.insert(object, OrderedMap::new()) {
                Ok(())
            } else {
                Err(CreateObjectError::ObjectAlreadyExists)
            },
        };
        proof {
            if old(self).namespaces.view().dom().contains(namespace@) {
                let before = old(self).namespaces.view()[namespace@];
                let after = self.namespaces.view()[namespace@];
                if created is Ok {
                    assert(objects_of(after) =~= objects_of(before).insert(object@, Seq::empty()));
                    assert(self.namespaces() =~= with_listing(
                        old(self).namespaces(),
                        namespace@,
                        object@,
                        Seq::empty(),
                    ));
                } else {
                    assert(objects_of(after) =~= objects_of(before));
                    assert(self.namespaces() =~= old(self).namespaces());
                }
            }
        }
        created
    }

    fn drop_object(&mut self, namespace: &str, object: &str) -> (dropped: Result<
        (),
        DropObjectError,
    >) {
        let dropped = match self.namespaces.get_mut(namespace) {
            None => Err(DropObjectError::NamespaceDoesNotExist),
            Some(objects) => match objects.remove(object) {
                Some(_) => Ok(()),
                None => Err(DropObjectError::ObjectDoesNotExist),
            },
        };
        proof {
            if old(self).namespaces.view().dom().contains(namespace@) {
                let before = old(self).namespaces.view()[namespace@];
                let after = self.namespaces.view()[namespace@];
                assert(objects_of(after) =~= objects_of(before).remove(object@));
                assert(self.namespaces() =~= old(self).namespaces().insert(
                    namespace@,
                    old(self).namespaces()[namespace@].remove(object@),
                ));
                if !(dropped is Ok) {
                    assert(objects_of(after) =~= objects_of(before));
                    assert(self.namespaces() =~= old(self).namespaces());
                }
            }
        }
        dropped
    }

    fn write(&mut self, namespace: &str, object: &str, rows: Vec<Row>) -> (count: Result<
        usize,
        OperationOnObjectError,
    >) {
        let count = match self.namespaces.get_mut(namespace) {
            None => Err(OperationOnObjectError::NamespaceDoesNotExist),
            Some(objects) => match objects.get_mut(object) {
                None => Err(OperationOnObjectError::ObjectDoesNotExist),
                Some(records) => {
                    write_rows(records, &rows);
                    Ok(rows.len())
                },
            },
        };
        proof {
            if old(self).namespaces.view().dom().contains(namespace@) {
                self.lemma_one_object_changed(old(self), namespace@, object@);
            }
        }
        count
    }

    fn is_namespace_exists(&self, namespace: &str) -> (exists: bool) {
        self.namespaces.contains(namespace)
    }

    fn is_object_exists(&self, namespace: &str, object: &str) -> (exists: bool) {
        match self.namespaces.get(namespace) {
            None => false,
            Some(objects) => objects.contains(object),
        }
    }

    fn read(&self, namespace: &str, object: &str) -> (rows: Result<
        Vec<Row>,
        OperationOnObjectError,
    >) {
        match self.namespaces.get(namespace) {
            None => Err(OperationOnObjectError::NamespaceDoesNotExist),
            Some(objects) => match objects.get(object) {
                None => Err(OperationOnObjectError::ObjectDoesNotExist),
                Some(records) => Ok(records.entries()),
            },
        }
    }

    fn delete(&mut self, namespace: &str, object: &str, keys: Vec<Key>) -> (count: Result<
        usize,
        OperationOnObjectError,
    >) {
        let count = match self.namespaces.get_mut(namespace) {
            None => Err(OperationOnObjectError::NamespaceDoesNotExist),
            Some(objects) => match objects.get_mut(object) {
                None => Err(OperationOnObjectError::ObjectDoesNotExist),
                Some(records) => Ok(delete_rows(records, &keys)),
            },
        };
        proof {
            if old(self).namespaces.view().dom().contains(namespace@) {
                self.lemma_one_object_changed(old(self), namespace@, object@);
            }
        }
        count
    }
}

impl InMemoryStorage {
    /// A store in which the records of one object were replaced holds what
    /// it held before, but for the rows of that object.
    proof fn lemma_one_object_changed(&self, before: &Self, namespace: Seq<char>, object: Seq<char>)
        requires
            before.namespaces@.dom().contains(namespace),
            before.namespaces@[namespace]@.dom().contains(object) ==> self.namespaces@
                == before.namespaces@.insert(
                namespace,
                self.namespaces@[namespace],
            ) && self.namespaces@[namespace]@ == before.namespaces@[namespace]@.insert(
                object,
                self.namespaces@[namespace]@[object],
            ),
            !before.namespaces@[namespace]@.dom().contains(object) ==> self.namespaces@
                == before.namespaces@.insert(
                namespace,
                self.namespaces@[namespace],
            ) && self.namespaces@[namespace]@ == before.namespaces@[namespace]@,
        ensures
            before.namespaces@[namespace]@.dom().contains(object) ==> self.namespaces()
                == with_listing(
                before.namespaces(),
                namespace,
                object,
                self.namespaces()[namespace][object],
            ),
            !before.namespaces@[namespace]@.dom().contains(object) ==> self.namespaces()
                == before.namespaces(),
    {
        let objects_before = before.namespaces@[namespace];
        let objects_after = self.namespaces@[namespace];
        if objects_before@.dom().contains(object) {
            assert(objects_of(objects_after) =~= objects_of(objects_before).insert(
                object,
                objects_after@[object].listing(),
            ));
            assert(self.namespaces() =~= with_listing(
                before.namespaces(),
                namespace,
                object,
                self.namespaces()[namespace][object],
            ));
        } else {
            assert(objects_of(objects_after) =~= objects_of(objects_before));
            assert(self.namespaces() =~= before.namespaces());
        }
    }
}

/// Writes the rows to the records one after the other.
pub fn write_rows(records: &mut Records, rows: &Vec<Row>)
    requires
        old(records).wf(),
    ensures
        final(records).wf(),
        final(records)@ == written(old(records)@, models(rows@)),
{
    let ghost start = records@;
    let ghost all = models(rows@);
    let mut i: usize = 0;
    while i < rows.len()
        invariant
            records.wf(),
            i <= rows@.len(),
            all == models(rows@),
            records@ == written(start, all.take(i as int)),
        decreases rows.len() - i,
    {
        proof {
            assert(all.take(i + 1).drop_last() =~= all.take(i as int));
            assert(all.take(i + 1).last() == all[i as int]);
        }
        records.insert(rows[i].0.duplicate(), rows[i].1.duplicate());
        i += 1;
    }
    proof {
        assert(all.take(rows@.len() as int) =~= all);
    }
}

/// Deletes the rows that have one of the keys and returns how many rows it
/// deleted.
pub fn delete_rows(records: &mut Records, keys: &Vec<Key>) -> (count: usize)
    requires
        old(records).wf(),
    ensures
        final(records).wf(),
        final(records)@ == deleted(old(records)@, byte_strings(keys@)),
        count == old(records).listing().len() - final(records).listing().len(),
{
    let ghost start = records@;
    let ghost all = byte_strings(keys@);
    let before = records.len();
    let mut i: usize = 0;
    while i < keys.len()
        invariant
            records.wf(),
            i <= keys@.len(),
            all == byte_strings(keys@),
            records@ == deleted(start, all.take(i as int)),
            records.listing().len() <= before,
        decreases keys.len() - i,
    {
        proof {
            assert(all.take(i + 1).drop_last() =~= all.take(i as int));
            assert(all.take(i + 1).last() == keys@[i as int]@);
        }
        records.remove(&keys[i]);
        i += 1;
    }
    proof {
        assert(all.take(keys@.len() as int) =~= all);
    }
    before - records.len()
}

} // verus!
