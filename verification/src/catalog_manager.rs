//! The catalog of a database on top of a store: schemas are namespaces of
//! the store, tables are objects, and the columns of every table are
//! described in an object of their own.
//!
//! The store answers an operation that cannot be done with the reason. The
//! catalog is asked only for what the engine has checked before, so here
//! such an answer is a fault of the engine, and is reported as one.

use vstd::prelude::*;
use vstd::utf8::encode_utf8;
use crate::bytes::{byte_strings, bytes_equal};
use crate::ordered::{ascending, bindings, lemma_bindings_at, lists, models, position, Plain};
use crate::persistent::{
    has_object, one_object_changed, with_listing, written, Key, Listing, Namespaces,
    PersistentStorage, Row, RowModel, Values,
};
use crate::relational::{keys_of, lemma_deleted_dom};

verus! {

/// The namespace of the catalog's own objects.
pub open spec fn system() -> Seq<char> {
    "system"@
}

/// The object that describes the columns of every table.
pub open spec fn columns() -> Seq<char> {
    "columns"@
}

/// The byte that stands between the descriptions of two columns.
pub const SEPARATOR: u8 = 124;

/// What the engine was doing when the store refused.
#[derive(Debug, Clone, Copy, PartialEq, Eq, Structural)]
pub enum Operation {
    Create,
    Drop,
    Access,
}

/// What the engine was working on when the store refused.
#[derive(Debug, PartialEq)]
pub enum Object {
    /// A table, by the name of its schema and its own.
    Table(String, String),
    Schema(String),
}

/// An `Object` as plain values.
pub enum ObjectModel {
    Table(Seq<char>, Seq<char>),
    Schema(Seq<char>),
}

impl View for Object {
    type V = ObjectModel;

    open spec fn view(&self) -> ObjectModel {
        match self {
            Object::Table(schema, table) => ObjectModel::Table(schema@, table@),
            Object::Schema(schema) => ObjectModel::Schema(schema@),
        }
    }
}

/// A refusal of the store that the engine should have ruled out.
#[derive(Debug, PartialEq)]
pub struct SystemError {
    pub operation: Operation,
    pub object: Object,
}

impl View for SystemError {
    type V = (Operation, ObjectModel);

    open spec fn view(&self) -> (Operation, ObjectModel) {
        (self.operation, self.object@)
    }
}

impl SystemError {
    pub fn bug_in_sql_engine(operation: Operation, object: Object) -> (error: SystemError)
        ensures
            error.operation == operation,
            error.object == object,
    {
        SystemError { operation, object }
    }
}

pub type SystemResult<T> = Result<T, SystemError>;

/// The fault on a schema.
pub open spec fn schema_fault(operation: Operation, schema: Seq<char>) -> (Operation, ObjectModel) {
    (operation, ObjectModel::Schema(schema))
}

/// The fault on a table.
pub open spec fn table_fault(operation: Operation, schema: Seq<char>, table: Seq<char>) -> (
    Operation,
    ObjectModel,
) {
    (operation, ObjectModel::Table(schema, table))
}

fn on_schema(operation: Operation, schema: &str) -> (error: SystemError)
    ensures
        error@ == schema_fault(operation, schema@),
{
    SystemError::bug_in_sql_engine(operation, Object::Schema(String::from_str(schema)))
}

fn on_table(operation: Operation, schema: &str, table: &str) -> (error: SystemError)
    ensures
        error@ == table_fault(operation, schema@, table@),
{
    SystemError::bug_in_sql_engine(
        operation,
        Object::Table(String::from_str(schema), String::from_str(table)),
    )
}

/// The pieces with a separator between each two of them.
pub open spec fn joined(pieces: Seq<Seq<u8>>) -> Seq<u8>
    decreases pieces.len(),
{
    if pieces.len() == 0 {
        Seq::empty()
    } else if pieces.len() == 1 {
        pieces[0]
    } else {
        joined(pieces.drop_last()) + seq![SEPARATOR] + pieces.last()
    }
}

/// The bytes cut at the separators: the pieces that are complete, without
/// the empty ones, and the piece that the bytes end in.
pub open spec fn cut(bytes: Seq<u8>) -> (Seq<Seq<u8>>, Seq<u8>)
    decreases bytes.len(),
{
    if bytes.len() == 0 {
        (Seq::empty(), Seq::empty())
    } else {
        let (complete, open) = cut(bytes.drop_last());
        if bytes.last() == SEPARATOR {
            (
                if open.len() > 0 {
                    complete.push(open)
                } else {
                    complete
                },
                Seq::empty(),
            )
        } else {
            (complete, open.push(bytes.last()))
        }
    }
}

/// The pieces of the bytes between separators, without the empty ones.
pub open spec fn pieces(bytes: Seq<u8>) -> Seq<Seq<u8>> {
    let (complete, open) = cut(bytes);
    if open.len() > 0 {
        complete.push(open)
    } else {
        complete
    }
}

/// Whether the piece can be told from its neighbours after it was joined
/// with them: it is not empty and holds no separator.
pub open spec fn separable(piece: Seq<u8>) -> bool {
    piece.len() > 0 && !piece.contains(SEPARATOR)
}

proof fn lemma_cut_more(bytes: Seq<u8>, more: Seq<u8>)
    requires
        !more.contains(SEPARATOR),
    ensures
        cut(bytes + more) == (cut(bytes).0, cut(bytes).1 + more),
    decreases more.len(),
{
    if more.len() == 0 {
        assert(bytes + more =~= bytes);
        assert(cut(bytes).1 + more =~= cut(bytes).1);
    } else {
        let shorter = more.drop_last();
        assert(!shorter.contains(SEPARATOR)) by {
            if shorter.contains(SEPARATOR) {
                let i = choose|i: int| 0 <= i < shorter.len() && shorter[i] == SEPARATOR;
                assert(more[i] == SEPARATOR);
            }
        }
        lemma_cut_more(bytes, shorter);
        assert((bytes + more).drop_last() =~= bytes + shorter);
        assert((bytes + more).last() == more.last());
        assert(more[more.len() - 1] != SEPARATOR);
        assert((cut(bytes).1 + shorter).push(more.last()) =~= cut(bytes).1 + more);
    }
}

/// Pieces that are not empty and hold no separator come out of their
/// joined bytes as they went in.
pub proof fn lemma_pieces_of_joined(parts: Seq<Seq<u8>>)
    requires
        forall|i: int| 0 <= i < parts.len() ==> separable(#[trigger] parts[i]),
    ensures
        pieces(joined(parts)) == parts,
        parts.len() > 0 ==> cut(joined(parts)) == (parts.drop_last(), parts.last()),
    decreases parts.len(),
{
    if parts.len() == 0 {
        assert(pieces(joined(parts)) =~= parts);
    } else if parts.len() == 1 {
        assert(separable(parts[0]));
        lemma_cut_more(Seq::empty(), parts[0]);
        assert(Seq::<u8>::empty() + parts[0] =~= parts[0]);
        assert(parts.drop_last() =~= Seq::<Seq<u8>>::empty());
        assert(pieces(joined(parts)) =~= parts);
    } else {
        let before = parts.drop_last();
        assert forall|i: int| 0 <= i < before.len() implies separable(#[trigger] before[i]) by {
            assert(before[i] == parts[i]);
        }
        lemma_pieces_of_joined(before);
        assert(separable(parts[parts.len() - 1]));
        assert(separable(before[before.len() - 1]));
        let ended = joined(before) + seq![SEPARATOR];
        assert(ended.drop_last() =~= joined(before));
        assert(ended.last() == SEPARATOR);
        assert(cut(ended) == (before.drop_last().push(before.last()), Seq::<u8>::empty()));
        assert(before.drop_last().push(before.last()) =~= before);
        lemma_cut_more(ended, parts.last());
        assert(Seq::<u8>::empty() + parts.last() =~= parts.last());
        assert(before.push(parts.last()) =~= parts);
    }
}

/// The pieces with a separator between each two of them.
pub fn join(parts: &Vec<Vec<u8>>) -> (bytes: Vec<u8>)
    ensures
        bytes@ == joined(byte_strings(parts@)),
{
    let ghost all = byte_strings(parts@);
    let mut bytes: Vec<u8> = Vec::new();
    let mut i: usize = 0;
    proof {
        assert(all.take(0) =~= Seq::<Seq<u8>>::empty());
    }
    while i < parts.len()
        invariant
            i <= parts@.len(),
            all == byte_strings(parts@),
            bytes@ == joined(all.take(i as int)),
        decreases parts.len() - i,
    {
        let ghost before = bytes@;
        if i > 0 {
            bytes.push(SEPARATOR);
        }
        let mut j: usize = 0;
        while j < parts[i].len()
            invariant
                i < parts@.len(),
                j <= parts@[i as int]@.len(),
                bytes@ == before + (if i > 0 {
                    seq![SEPARATOR]
                } else {
                    Seq::<u8>::empty()
                }) + parts@[i as int]@.take(j as int),
            decreases parts@[i as int]@.len() - j,
        {
            bytes.push(parts[i][j]);
            proof {
                assert(parts@[i as int]@.take(j + 1) =~= parts@[i as int]@.take(j as int).push(
                    parts@[i as int]@[j as int],
                ));
            }
            j += 1;
        }
        proof {
            assert(parts@[i as int]@.take(parts@[i as int]@.len() as int) =~= parts@[i as int]@);
            assert(all.take(i + 1).drop_last() =~= all.take(i as int));
            assert(all.take(i + 1).last() == parts@[i as int]@);
            if i == 0 {
                assert(bytes@ =~= parts@[i as int]@);
            }
        }
        i += 1;
    }
    proof {
        assert(all.take(parts@.len() as int) =~= all);
    }
    bytes
}

/// The pieces of the bytes between separators, without the empty ones.
pub fn split(bytes: &Vec<u8>) -> (parts: Vec<Vec<u8>>)
    ensures
        byte_strings(parts@) == pieces(bytes@),
{
    let mut parts: Vec<Vec<u8>> = Vec::new();
    let mut open: Vec<u8> = Vec::new();
    let mut i: usize = 0;
    proof {
        assert(byte_strings(parts@) =~= Seq::<Seq<u8>>::empty());
        assert(bytes@.take(0) =~= Seq::<u8>::empty());
    }
    while i < bytes.len()
        invariant
            i <= bytes@.len(),
            cut(bytes@.take(i as int)) == (byte_strings(parts@), open@),
        decreases bytes.len() - i,
    {
        proof {
            assert(bytes@.take(i + 1).drop_last() =~= bytes@.take(i as int));
            assert(bytes@.take(i + 1).last() == bytes@[i as int]);
        }
        if bytes[i] == SEPARATOR {
            if open.len() > 0 {
                let ghost before = byte_strings(parts@);
                parts.push(open);
                assert(byte_strings(parts@) =~= before.push(open@));
            }
            open = Vec::new();
        } else {
            open.push(bytes[i]);
        }
        i += 1;
    }
    proof {
        assert(bytes@.take(bytes@.len() as int) =~= bytes@);
    }
    if open.len() > 0 {
        let ghost before = byte_strings(parts@);
        parts.push(open);
        assert(byte_strings(parts@) =~= before.push(open@));
    }
    parts
}

/// The key that the columns of the table are described under.
pub open spec fn table_key(schema: Seq<char>, table: Seq<char>) -> Seq<u8> {
    encode_utf8(schema + table)
}

/// The descriptions of the columns that the listing holds under the key:
/// the pieces of the first value that is listed with it.
pub open spec fn described(listing: Listing, key: Seq<u8>) -> Seq<Seq<u8>> {
    if lists(listing, key) && bindings(listing)[key].len() > 0 {
        pieces(bindings(listing)[key][0])
    } else {
        Seq::empty()
    }
}

/// What creating a table does to the store, and what it answers. The table
/// is made first and described then: where the catalog has no object for
/// the descriptions, the table stays without one.
pub open spec fn table_described(
    before: Namespaces,
    after: Namespaces,
    schema: Seq<char>,
    table: Seq<char>,
    descriptions: Seq<Seq<u8>>,
    created: Result<(), SystemError>,
) -> bool {
    let made = with_listing(before, schema, table, Seq::empty());
    if !before.dom().contains(schema) || has_object(before, schema, table) {
        &&& after == before
        &&& created matches Err(error) && error@ == table_fault(Operation::Create, schema, table)
    } else if !has_object(made, system(), columns()) {
        &&& after == made
        &&& created matches Err(error) && error@ == table_fault(
            Operation::Access,
            system(),
            columns(),
        )
    } else {
        &&& created is Ok
        &&& one_object_changed(made, after, system(), columns())
        &&& bindings(after[system()][columns()]) == bindings(made[system()][columns()]).insert(
            table_key(schema, table),
            seq![joined(descriptions)],
        )
    }
}

/// The descriptions of the columns of a table that was created are the
/// descriptions that it was created with, if each of them can be told from
/// its neighbours.
pub proof fn lemma_described_as_created(
    before: Namespaces,
    after: Namespaces,
    schema: Seq<char>,
    table: Seq<char>,
    descriptions: Seq<Seq<u8>>,
)
    requires
        table_described(before, after, schema, table, descriptions, Ok(())),
        forall|i: int| 0 <= i < descriptions.len() ==> separable(#[trigger] descriptions[i]),
    ensures
        has_object(after, schema, table),
        has_object(after, system(), columns()),
        described(after[system()][columns()], table_key(schema, table)) == descriptions,
{
    let key = table_key(schema, table);
    let made = with_listing(before, schema, table, Seq::empty());
    let listing = after[system()][columns()];
    assert(bindings(listing).dom().contains(key));
    assert(bindings(listing)[key] == seq![joined(descriptions)]);
    lemma_pieces_of_joined(descriptions);
    assert(has_object(made, schema, table));
    if schema == system() {
        assert(after[system()].dom().contains(table));
    }
}

/// What writing rows to a table does to the store, and what it answers.
pub open spec fn rows_stored(
    before: Namespaces,
    after: Namespaces,
    schema: Seq<char>,
    table: Seq<char>,
    rows: Seq<RowModel>,
    count: Result<usize, SystemError>,
) -> bool {
    match count {
        Ok(count) => {
            &&& one_object_changed(before, after, schema, table)
            &&& count == rows.len()
            &&& bindings(after[schema][table]) == written(bindings(before[schema][table]), rows)
        },
        Err(error) => !has_object(before, schema, table) && after == before && error@
            == table_fault(Operation::Access, schema, table),
    }
}

pub struct CatalogManager<P: PersistentStorage> {
    key_id_generator: usize,
    persistent: P,
}

impl<P: PersistentStorage> CatalogManager<P> {
    /// What the store holds.
    pub closed spec fn store(&self) -> Namespaces {
        self.persistent.namespaces()
    }

    pub closed spec fn wf(&self) -> bool {
        self.persistent.wf()
    }

    /// The id that is given out next.
    pub closed spec fn next_id(&self) -> usize {
        self.key_id_generator
    }

    /// A catalog on the store, with its own namespace and the object that
    /// describes the columns made in it. A store that has the namespace
    /// already cannot take a catalog.
    pub fn new(persistent: P) -> (manager: SystemResult<Self>)
        requires
            persistent.wf(),
        ensures
            match manager {
                Ok(manager) => manager.wf() && manager.next_id() == 0
                    && !persistent.namespaces().dom().contains(system()) && manager.store()
                    == persistent.namespaces().insert(
                    system(),
                    Map::<Seq<char>, Listing>::empty().insert(columns(), Seq::empty()),
                ),
                Err(error) => persistent.namespaces().dom().contains(system()) && error@
                    == schema_fault(Operation::Create, system()),
            },
    {
        let mut store = persistent;
        if store.create_namespace("system").is_err() {
            return Err(on_schema(Operation::Create, "system"));
        }
        let _ = store.create_object("system", "columns");
        proof {
            assert(store.namespaces() =~= persistent.namespaces().insert(
                system(),
                Map::<Seq<char>, Listing>::empty().insert(columns(), Seq::empty()),
            ));
        }
        Ok(CatalogManager { key_id_generator: 0, persistent: store })
    }

    /// Gives out the next id.
    pub fn next_key_id(&mut self) -> (id: usize)
        requires
            old(self).next_id() < usize::MAX,
        ensures
            id == old(self).next_id(),
            final(self).next_id() == id + 1,
            final(self).store() == old(self).store(),
            final(self).wf() == old(self).wf(),
    {
        let key_id = self.key_id_generator;
        self.key_id_generator += 1;
        key_id
    }

    /// Creates the schema, which the store must not have.
    pub fn create_schema(&mut self, schema_name: &str) -> (created: SystemResult<()>)
        requires
            old(self).wf(),
        ensures
            final(self).wf(),
            final(self).next_id() == old(self).next_id(),
            match created {
                Ok(()) => !old(self).store().dom().contains(schema_name@) && final(self).store()
                    == old(self).store().insert(schema_name@, Map::empty()),
                Err(error) => old(self).store().dom().contains(schema_name@) && final(self).store()
                    == old(self).store() && error@ == schema_fault(Operation::Create, schema_name@),
            },
    {
        match self.persistent.create_namespace(schema_name) {
            Ok(()) => Ok(()),
            Err(_) => Err(on_schema(Operation::Create, schema_name)),
        }
    }

    /// Drops the schema, which the store must have, with its tables.
    pub fn drop_schema(&mut self, schema_name: &str) -> (dropped: SystemResult<()>)
        requires
            old(self).wf(),
        ensures
            final(self).wf(),
            final(self).next_id() == old(self).next_id(),
            final(self).store() == old(self).store().remove(schema_name@),
            match dropped {
                Ok(()) => old(self).store().dom().contains(schema_name@),
                Err(error) => !old(self).store().dom().contains(schema_name@) && error@
                    == schema_fault(Operation::Drop, schema_name@),
            },
    {
        match self.persistent.drop_namespace(schema_name) {
            Ok(()) => Ok(()),
            Err(_) => Err(on_schema(Operation::Drop, schema_name)),
        }
    }

    /// Creates the table and records the descriptions of its columns.
    pub fn create_table(
        &mut self,
        schema_name: &str,
        table_name: &str,
        column_definitions: &Vec<Vec<u8>>,
    ) -> (created: SystemResult<()>)
        requires
            old(self).wf(),
        ensures
            final(self).wf(),
            final(self).next_id() == old(self).next_id(),
            table_described(
                old(self).store(),
                final(self).store(),
                schema_name@,
                table_name@,
                byte_strings(column_definitions@),
                created,
            ),
    {
        if self.persistent.create_object(schema_name, table_name).is_err() {
            return Err(on_table(Operation::Create, schema_name, table_name));
        }
        let mut name = String::from_str(schema_name);
        name.append(table_name);
        let key = name.as_str().as_bytes_vec();
        let mut values: Values = Vec::new();
        values.push(join(column_definitions));
        let mut rows: Vec<Row> = Vec::new();
        rows.push((key, values));
        proof {
            reveal_with_fuel(written, 2);
            assert(byte_strings(values@) =~= seq![joined(byte_strings(column_definitions@))]);
            assert(models(rows@) =~= seq![
                (table_key(schema_name@, table_name@), seq![joined(byte_strings(column_definitions@))]),
            ]);
            assert(models(rows@).drop_last() =~= Seq::<RowModel>::empty());
        }
        match self.persistent.write("system", "columns", rows) {
            Ok(_) => Ok(()),
            Err(_) => Err(on_table(Operation::Access, "system", "columns")),
        }
    }

    /// The descriptions of the columns of the table; none where the
    /// catalog describes no such table.
    pub fn table_columns(&self, schema_name: &str, table_name: &str) -> (found: SystemResult<
        Vec<Vec<u8>>,
    >)
        requires
            self.wf(),
        ensures
            match found {
                Ok(found) => has_object(self.store(), system(), columns()) && byte_strings(found@)
                    == described(
                    self.store()[system()][columns()],
                    table_key(schema_name@, table_name@),
                ),
                Err(error) => !has_object(self.store(), system(), columns()) && error@
                    == table_fault(Operation::Access, schema_name@, table_name@),
            },
    {
        let rows = match self.persistent.read("system", "columns") {
            Ok(rows) => rows,
            Err(_) => {
                return Err(on_table(Operation::Access, schema_name, table_name));
            },
        };
        let mut name = String::from_str(schema_name);
        name.append(table_name);
        let key = name.as_str().as_bytes_vec();
        let ghost listing = self.persistent.namespaces()[system()][columns()];
        proof {
            self.persistent.lemma_listings_ascend(system(), columns());
        }
        let mut i: usize = 0;
        while i < rows.len()
            invariant
                i <= rows@.len(),
                has_object(self.persistent.namespaces(), system(), columns()),
                listing == self.persistent.namespaces()[system()][columns()],
                listing == models(rows@),
                ascending::<Key, Seq<Seq<u8>>>(listing),
                key@ == table_key(schema_name@, table_name@),
                forall|j: int| 0 <= j < i ==> (#[trigger] listing[j]).0 != key@,
            decreases rows.len() - i,
        {
            proof {
                assert(listing[i as int] == (rows@[i as int].0@, byte_strings(rows@[i as int].1@)));
            }
            if bytes_equal(&rows[i].0, &key) {
                proof {
                    lemma_bindings_at::<Key, Seq<Seq<u8>>>(listing, i as int);
                }
                if rows[i].1.len() > 0 {
                    return Ok(split(&rows[i].1[0]));
                } else {
                    let none: Vec<Vec<u8>> = Vec::new();
                    assert(byte_strings(none@) =~= Seq::<Seq<u8>>::empty());
                    return Ok(none);
                }
            }
            i += 1;
        }
        let none: Vec<Vec<u8>> = Vec::new();
        proof {
            assert(byte_strings(none@) =~= Seq::<Seq<u8>>::empty());
            if lists(listing, key@) {
                let at = position(listing, key@);
                assert(listing[at].0 == key@);
            }
        }
        Ok(none)
    }

    /// The descriptions of the columns of a table that the store has.
    pub fn table_descriptor(&self, schema_name: &str, table_name: &str) -> (found: SystemResult<
        Vec<Vec<u8>>,
    >)
        requires
            self.wf(),
        ensures
            match found {
                Ok(found) => has_object(self.store(), schema_name@, table_name@) && has_object(
                    self.store(),
                    system(),
                    columns(),
                ) && byte_strings(found@) == described(
                    self.store()[system()][columns()],
                    table_key(schema_name@, table_name@),
                ),
                Err(error) => (!has_object(self.store(), schema_name@, table_name@) || !has_object(
                    self.store(),
                    system(),
                    columns(),
                )) && error@ == table_fault(Operation::Access, schema_name@, table_name@),
            },
    {
        if !self.persistent.is_object_exists(schema_name, table_name) {
            return Err(on_table(Operation::Access, schema_name, table_name));
        }
        self.table_columns(schema_name, table_name)
    }

    /// Drops the table, which the store must have.
    pub fn drop_table(&mut self, schema_name: &str, table_name: &str) -> (dropped: SystemResult<()>)
        requires
            old(self).wf(),
        ensures
            final(self).wf(),
            final(self).next_id() == old(self).next_id(),
            match dropped {
                Ok(()) => has_object(old(self).store(), schema_name@, table_name@) && final(self).store() == old(self).store().insert(
                    schema_name@,
                    old(self).store()[schema_name@].remove(table_name@),
                ),
                Err(error) => !has_object(old(self).store(), schema_name@, table_name@) && final(self).store() == old(self).store() && error@ == table_fault(
                    Operation::Drop,
                    schema_name@,
                    table_name@,
                ),
            },
    {
        match self.persistent.drop_object(schema_name, table_name) {
            Ok(()) => Ok(()),
            Err(_) => Err(on_table(Operation::Drop, schema_name, table_name)),
        }
    }

    /// Writes the rows to the table; a row replaces the row of its key.
    pub fn insert_into(&mut self, schema_name: &str, table_name: &str, values: Vec<Row>) -> (count:
        SystemResult<usize>)
        requires
            old(self).wf(),
        ensures
            final(self).wf(),
            final(self).next_id() == old(self).next_id(),
            rows_stored(
                old(self).store(),
                final(self).store(),
                schema_name@,
                table_name@,
                models(values@),
                count,
            ),
    {
        match self.persistent.write(schema_name, table_name, values) {
            Ok(size) => Ok(size),
            Err(_) => Err(on_table(Operation::Access, schema_name, table_name)),
        }
    }

    /// The rows of the table, ascending by key.
    pub fn table_scan(&self, schema_name: &str, table_name: &str) -> (rows: SystemResult<Vec<Row>>)
        requires
            self.wf(),
        ensures
            match rows {
                Ok(rows) => has_object(self.store(), schema_name@, table_name@) && models(rows@)
                    == self.store()[schema_name@][table_name@],
                Err(error) => !has_object(self.store(), schema_name@, table_name@) && error@
                    == table_fault(Operation::Access, schema_name@, table_name@),
            },
    {
        match self.persistent.read(schema_name, table_name) {
            Ok(rows) => Ok(rows),
            Err(_) => Err(on_table(Operation::Access, schema_name, table_name)),
        }
    }

    /// Writes the rows to the table in the place of the rows of their keys.
    pub fn update_all(&mut self, schema_name: &str, table_name: &str, rows: Vec<Row>) -> (count:
        SystemResult<usize>)
        requires
            old(self).wf(),
        ensures
            final(self).wf(),
            final(self).next_id() == old(self).next_id(),
            rows_stored(
                old(self).store(),
                final(self).store(),
                schema_name@,
                table_name@,
                models(rows@),
                count,
            ),
    {
        self.insert_into(schema_name, table_name, rows)
    }

    /// Deletes every row of the table and returns the number of rows.
    pub fn delete_all_from(&mut self, schema_name: &str, table_name: &str) -> (count: SystemResult<
        usize,
    >)
        requires
            old(self).wf(),
        ensures
            final(self).wf(),
            final(self).next_id() == old(self).next_id(),
            match count {
                Ok(count) => one_object_changed(
                    old(self).store(),
                    final(self).store(),
                    schema_name@,
                    table_name@,
                ) && count == old(self).store()[schema_name@][table_name@].len() && final(self).store()[schema_name@][table_name@] == Seq::<RowModel>::empty(),
                Err(error) => !has_object(old(self).store(), schema_name@, table_name@) && final(self).store() == old(self).store() && error@ == table_fault(
                    Operation::Access,
                    schema_name@,
                    table_name@,
                ),
            },
    {
        let stored = match self.persistent.read(schema_name, table_name) {
            Ok(stored) => stored,
            Err(_) => {
                return Err(on_table(Operation::Access, schema_name, table_name));
            },
        };
        let ghost listing = self.persistent.namespaces()[schema_name@][table_name@];
        let mut keys: Vec<Key> = Vec::new();
        let mut i: usize = 0;
        proof {
            assert(byte_strings(keys@) =~= keys_of(listing).take(0));
        }
        while i < stored.len()
            invariant
                i <= stored@.len(),
                models(stored@) == listing,
                byte_strings(keys@) == keys_of(listing).take(i as int),
            decreases stored.len() - i,
        {
            let ghost before = keys@;
            assert(models(stored@)[i as int].0 == stored@[i as int].0.model());
            keys.push(stored[i].0.duplicate());
            proof {
                assert(byte_strings(keys@) =~= byte_strings(before).push(listing[i as int].0));
                assert(keys_of(listing).take(i + 1) =~= keys_of(listing).take(i as int).push(
                    listing[i as int].0,
                ));
            }
            i += 1;
        }
        proof {
            assert(keys_of(listing).take(stored@.len() as int) =~= keys_of(listing));
        }
        let count = keys.len();
        let _ = self.persistent.delete(schema_name, table_name, keys);
        proof {
            let after = self.persistent.namespaces()[schema_name@][table_name@];
            if after.len() > 0 {
                let key = after[0].0;
                assert(lists(after, key));
                assert(bindings(after).dom().contains(key));
                lemma_deleted_dom(bindings(listing), keys_of(listing), key);
                let at = position(listing, key);
                assert(keys_of(listing)[at] == key);
                assert(false);
            }
            assert(after =~= Seq::<RowModel>::empty());
        }
        Ok(count)
    }

    pub fn schema_exists(&self, schema_name: &str) -> (exists: bool)
        requires
            self.wf(),
        ensures
            exists == self.store().dom().contains(schema_name@),
    {
        self.persistent.is_namespace_exists(schema_name)
    }

    pub fn table_exists(&self, schema_name: &str, table_name: &str) -> (exists: bool)
        requires
            self.wf(),
        ensures
            exists == has_object(self.store(), schema_name@, table_name@),
    {
        self.persistent.is_object_exists(schema_name, table_name)
    }
}

} // verus!
