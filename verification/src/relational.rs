//! Schemas and tables of text rows on top of a store of namespaces and
//! objects. The column names of a table are kept as a row of the object
//! that the `system` namespace has for the table.

use vstd::prelude::*;
use vstd::utf8::{decode_utf8, encode_utf8, valid_utf8};
use crate::bytes::{be_bytes, be_encode, byte_strings};
use crate::ordered::{ascending, bindings, lemma_bindings_at, lists, models, position, Plain};
use crate::persistent::{
    deleted, has_object, with_listing, written, CreateObjectError, DropObjectError,
    InMemoryStorage, Key, Listing, Namespaces, OperationOnObjectError, PersistentStorage, Row,
    RowModel, Values,
};
use crate::text::{str_eq, text_from_utf8, texts};

verus! {

/// The columns that were asked for, then the rows with a value for each.
pub type Projection = (Vec<String>, Vec<Vec<String>>);

#[derive(Debug, PartialEq)]
pub enum Error {
    SchemaAlreadyExists(String),
    TableAlreadyExists(String),
    SchemaDoesNotExist(String),
    TableDoesNotExist(String),
    NotSupportedOperation(String),
}

/// What an `Error` holds, as plain values.
pub enum ErrorModel {
    SchemaAlreadyExists(Seq<char>),
    TableAlreadyExists(Seq<char>),
    SchemaDoesNotExist(Seq<char>),
    TableDoesNotExist(Seq<char>),
    NotSupportedOperation(Seq<char>),
}

impl View for Error {
    type V = ErrorModel;

    open spec fn view(&self) -> ErrorModel {
        match self {
            Error::SchemaAlreadyExists(name) => ErrorModel::SchemaAlreadyExists(name@),
            Error::TableAlreadyExists(name) => ErrorModel::TableAlreadyExists(name@),
            Error::SchemaDoesNotExist(name) => ErrorModel::SchemaDoesNotExist(name@),
            Error::TableDoesNotExist(name) => ErrorModel::TableDoesNotExist(name@),
            Error::NotSupportedOperation(text) => ErrorModel::NotSupportedOperation(text@),
        }
    }
}

impl ErrorModel {
    pub open spec fn message(self) -> Seq<char> {
        match self {
            ErrorModel::SchemaAlreadyExists(name) => "schema "@ + name + " already exists"@,
            ErrorModel::TableAlreadyExists(name) => "table "@ + name + " already exists"@,
            ErrorModel::SchemaDoesNotExist(name) => "schema "@ + name + " does not exist"@,
            ErrorModel::TableDoesNotExist(name) => "table "@ + name + " does not exist"@,
            ErrorModel::NotSupportedOperation(_) => "not supported operation"@,
        }
    }
}

impl Error {
    /// The error in words.
    pub fn message(&self) -> (text: String)
        ensures
            text@ == self@.message(),
    {
        match self {
            Error::SchemaAlreadyExists(name) => {
                let mut text = String::from_str("schema ");
                text.append(name.as_str());
                text.append(" already exists");
                text
            },
            Error::TableAlreadyExists(name) => {
                let mut text = String::from_str("table ");
                text.append(name.as_str());
                text.append(" already exists");
                text
            },
            Error::SchemaDoesNotExist(name) => {
                let mut text = String::from_str("schema ");
                text.append(name.as_str());
                text.append(" does not exist");
                text
            },
            Error::TableDoesNotExist(name) => {
                let mut text = String::from_str("table ");
                text.append(name.as_str());
                text.append(" does not exist");
                text
            },
            Error::NotSupportedOperation(_) => String::from_str("not supported operation"),
        }
    }
}

/// The name of the namespace that holds the column names of the tables.
pub open spec fn system() -> Seq<char> {
    "system"@
}

/// The name under which the column names of a table are kept.
pub open spec fn full_name(schema: Seq<char>, table: Seq<char>) -> Seq<char> {
    schema + "."@ + table
}

fn full_table_name(schema: &str, table: &str) -> (name: String)
    ensures
        name@ == full_name(schema@, table@),
{
    let mut name = String::from_str(schema);
    name.append(".");
    name.append(table);
    name
}

/// Each text in UTF-8.
pub open spec fn encoded(parts: Seq<Seq<char>>) -> Seq<Seq<u8>> {
    parts.map_values(|part: Seq<char>| encode_utf8(part))
}

/// The text that each of the byte strings encodes.
pub open spec fn decoded(values: Seq<Seq<u8>>) -> Seq<Seq<char>> {
    values.map_values(|value: Seq<u8>| decode_utf8(value))
}

/// Whether each of the byte strings is valid UTF-8.
pub open spec fn all_text(values: Seq<Seq<u8>>) -> bool {
    forall|i: int| 0 <= i < values.len() ==> valid_utf8(#[trigger] values[i])
}

/// Whether the values of every row are valid UTF-8.
pub open spec fn rows_all_text(rows: Seq<RowModel>) -> bool {
    forall|i: int| 0 <= i < rows.len() ==> all_text((#[trigger] rows[i]).1)
}

/// Whether every value that the bindings hold is valid UTF-8.
pub open spec fn bindings_all_text(records: Map<Seq<u8>, Seq<Seq<u8>>>) -> bool {
    forall|key: Seq<u8>| #[trigger] records.dom().contains(key) ==> all_text(records[key])
}

/// Whether every value of every row of the store is valid UTF-8.
pub open spec fn text_only(store: Namespaces) -> bool {
    forall|namespace: Seq<char>, object: Seq<char>| #[trigger]
        has_object(store, namespace, object) ==> rows_all_text(store[namespace][object])
}

/// A store that differs from a store of text in one namespace only, and
/// holds text there, holds text only.
proof fn lemma_text_only_kept(before: Namespaces, after: Namespaces, namespace: Seq<char>)
    requires
        text_only(before),
        forall|other: Seq<char>|
            other != namespace && #[trigger] after.dom().contains(other) ==> before.dom().contains(
                other,
            ) && after[other] == before[other],
        forall|object: Seq<char>| #[trigger]
            has_object(after, namespace, object) ==> rows_all_text(after[namespace][object]),
    ensures
        text_only(after),
{
    assert forall|other: Seq<char>, object: Seq<char>| #[trigger]
        has_object(after, other, object) implies rows_all_text(after[other][object]) by {
        if other != namespace {
            assert(has_object(before, other, object));
        }
    }
}

proof fn lemma_encoded_is_text(parts: Seq<Seq<char>>)
    ensures
        all_text(encoded(parts)),
        decoded(encoded(parts)) == parts,
{
    assert forall|i: int| 0 <= i < parts.len() implies valid_utf8(#[trigger] encoded(parts)[i])
        && decode_utf8(encoded(parts)[i]) == parts[i] by {
        vstd::utf8::encode_utf8_valid_utf8(parts[i]);
        vstd::utf8::encode_utf8_decode_utf8(parts[i]);
    }
    assert(decoded(encoded(parts)) =~= parts);
}

/// An ascending listing holds text only exactly when its bindings do.
proof fn lemma_listing_text(listing: Listing)
    requires
        ascending::<Key, Seq<Seq<u8>>>(listing),
    ensures
        rows_all_text(listing) <==> bindings_all_text(bindings(listing)),
{
    if rows_all_text(listing) {
        assert forall|key: Seq<u8>| #[trigger]
            bindings(listing).dom().contains(key) implies all_text(bindings(listing)[key]) by {
            let i = position(listing, key);
            lemma_bindings_at::<Key, Seq<Seq<u8>>>(listing, i);
            assert(all_text(listing[i].1));
        }
    }
    if bindings_all_text(bindings(listing)) {
        assert forall|i: int| 0 <= i < listing.len() implies all_text(
            (#[trigger] listing[i]).1,
        ) by {
            lemma_bindings_at::<Key, Seq<Seq<u8>>>(listing, i);
            assert(bindings(listing).dom().contains(listing[i].0));
        }
    }
}

proof fn lemma_written_text(before: Map<Seq<u8>, Seq<Seq<u8>>>, rows: Seq<RowModel>)
    requires
        bindings_all_text(before),
        rows_all_text(rows),
    ensures
        bindings_all_text(written(before, rows)),
    decreases rows.len(),
{
    if rows.len() > 0 {
        assert(rows_all_text(rows.drop_last())) by {
            assert forall|i: int| 0 <= i < rows.drop_last().len() implies all_text(
                (#[trigger] rows.drop_last()[i]).1,
            ) by {
                assert(rows.drop_last()[i] == rows[i]);
            }
        }
        lemma_written_text(before, rows.drop_last());
        assert(all_text(rows[rows.len() - 1].1));
    }
}

proof fn lemma_deleted_text(before: Map<Seq<u8>, Seq<Seq<u8>>>, keys: Seq<Seq<u8>>)
    requires
        bindings_all_text(before),
    ensures
        bindings_all_text(deleted(before, keys)),
    decreases keys.len(),
{
    if keys.len() > 0 {
        lemma_deleted_text(before, keys.drop_last());
    }
}

/// After the keys were deleted, the bindings hold a key exactly if they
/// held it before and it is none of the keys.
pub proof fn lemma_deleted_dom(before: Map<Seq<u8>, Seq<Seq<u8>>>, keys: Seq<Seq<u8>>, key: Seq<u8>)
    ensures
        deleted(before, keys).dom().contains(key) <==> before.dom().contains(key) && !keys.contains(
            key,
        ),
    decreases keys.len(),
{
    if keys.len() > 0 {
        lemma_deleted_dom(before, keys.drop_last(), key);
        if keys.drop_last().contains(key) {
            let i = choose|i: int| 0 <= i < keys.drop_last().len() && keys.drop_last()[i] == key;
            assert(keys[i] == key);
        }
        if keys.contains(key) && key != keys.last() {
            let i = choose|i: int| 0 <= i < keys.len() && keys[i] == key;
            assert(keys.drop_last()[i] == key);
        }
    }
}

/// The texts as values of a row.
fn to_values(parts: &Vec<String>) -> (values: Values)
    ensures
        values.model() == encoded(texts(parts@)),
{
    let mut values: Values = Vec::new();
    let mut i: usize = 0;
    while i < parts.len()
        invariant
            i <= parts@.len(),
            values@.len() == i,
            forall|j: int| 0 <= j < i ==> (#[trigger] values@[j])@ == encode_utf8(parts@[j]@),
        decreases parts.len() - i,
    {
        values.push(parts[i].as_str().as_bytes_vec());
        i += 1;
    }
    assert(values.model() =~= encoded(texts(parts@)));
    values
}

/// The values of a row as texts.
fn to_texts(values: &Values) -> (parts: Vec<String>)
    requires
        all_text(values.model()),
    ensures
        texts(parts@) == decoded(values.model()),
{
    let mut parts: Vec<String> = Vec::new();
    let mut i: usize = 0;
    while i < values.len()
        invariant
            i <= values@.len(),
            all_text(values.model()),
            parts@.len() == i,
            forall|j: int| 0 <= j < i ==> (#[trigger] parts@[j])@ == decode_utf8(values@[j]@),
        decreases values.len() - i,
    {
        assert(valid_utf8(values.model()[i as int]));
        match text_from_utf8(values[i].duplicate()) {
            Some(text) => parts.push(text),
            None => {
                assert(false);
            },
        }
        i += 1;
    }
    assert(texts(parts@) =~= decoded(values.model()));
    parts
}

/// The positions at which `column` stands in `all`, ascending.
pub open spec fn matching(all: Seq<Seq<char>>, column: Seq<char>) -> Seq<int>
    decreases all.len(),
{
    if all.len() == 0 {
        Seq::empty()
    } else if all.last() == column {
        matching(all.drop_last(), column).push(all.len() - 1)
    } else {
        matching(all.drop_last(), column)
    }
}

/// For each of the columns asked for, in their order, the positions at
/// which it stands in `all`.
pub open spec fn selected(all: Seq<Seq<char>>, columns: Seq<Seq<char>>) -> Seq<int>
    decreases columns.len(),
{
    if columns.len() == 0 {
        Seq::empty()
    } else {
        selected(all, columns.drop_last()) + matching(all, columns.last())
    }
}

/// The values of `row` at the positions `indexes`, in the order of the
/// positions; a position beyond the row gives nothing.
pub open spec fn picked(row: Seq<Seq<char>>, indexes: Seq<int>) -> Seq<Seq<char>>
    decreases indexes.len(),
{
    if indexes.len() == 0 {
        Seq::empty()
    } else if 0 <= indexes.last() < row.len() {
        picked(row, indexes.drop_last()).push(row[indexes.last()])
    } else {
        picked(row, indexes.drop_last())
    }
}

/// The rows that `values` become with the keys `first`, `first + 1`, and
/// so on.
pub open spec fn new_rows(first: nat, values: Seq<Seq<Seq<char>>>) -> Seq<RowModel> {
    Seq::new(values.len(), |i: int| (be_bytes((first + i) as nat, 8), encoded(values[i])))
}

/// The rows of `listing`, each with `value` as its only value.
pub open spec fn overwritten(listing: Listing, value: Seq<char>) -> Seq<RowModel> {
    Seq::new(listing.len(), |i: int| (listing[i].0, seq![encode_utf8(value)]))
}

/// The keys of the rows of `listing`.
pub open spec fn keys_of(listing: Listing) -> Seq<Seq<u8>> {
    Seq::new(listing.len(), |i: int| listing[i].0)
}

/// The texts of each of the rows.
pub open spec fn row_texts(rows: Seq<Vec<String>>) -> Seq<Seq<Seq<char>>> {
    rows.map_values(|row: Vec<String>| texts(row@))
}

fn select_indexes(all: &Vec<String>, columns: &Vec<String>) -> (indexes: Vec<usize>)
    ensures
        indexes@.map_values(|index: usize| index as int) == selected(texts(all@), texts(columns@)),
{
    let ghost all_texts = texts(all@);
    let ghost column_texts = texts(columns@);
    let mut indexes: Vec<usize> = Vec::new();
    let mut i: usize = 0;
    while i < columns.len()
        invariant
            i <= columns@.len(),
            all_texts == texts(all@),
            column_texts == texts(columns@),
            indexes@.map_values(|index: usize| index as int) == selected(
                all_texts,
                column_texts.take(i as int),
            ),
        decreases columns.len() - i,
    {
        let ghost so_far = indexes@.map_values(|index: usize| index as int);
        let ghost column = column_texts[i as int];
        let mut j: usize = 0;
        while j < all.len()
            invariant
                j <= all@.len(),
                i < columns@.len(),
                all_texts == texts(all@),
                column == columns@[i as int]@,
                indexes@.map_values(|index: usize| index as int) == so_far + matching(
                    all_texts.take(j as int),
                    column,
                ),
            decreases all.len() - j,
        {
            proof {
                assert(all_texts.take(j + 1).drop_last() =~= all_texts.take(j as int));
                assert(all_texts.take(j + 1).last() == all@[j as int]@);
            }
            if str_eq(all[j].as_str(), columns[i].as_str()) {
                let ghost before = indexes@;
                indexes.push(j);
                proof {
                    let found = matching(all_texts.take(j as int), column);
                    assert(indexes@.map_values(|index: usize| index as int)
                        =~= before.map_values(|index: usize| index as int).push(j as int));
                    assert((so_far + found).push(j as int) =~= so_far + found.push(j as int));
                }
            }
            j += 1;
        }
        proof {
            assert(all_texts.take(all@.len() as int) =~= all_texts);
            assert(column_texts.take(i + 1).drop_last() =~= column_texts.take(i as int));
            assert(column_texts.take(i + 1).last() == column);
        }
        i += 1;
    }
    proof {
        assert(column_texts.take(columns@.len() as int) =~= column_texts);
    }
    indexes
}

fn pick(row: &Vec<String>, indexes: &Vec<usize>) -> (values: Vec<String>)
    ensures
        texts(values@) == picked(texts(row@), indexes@.map_values(|index: usize| index as int)),
{
    let ghost positions = indexes@.map_values(|index: usize| index as int);
    let mut values: Vec<String> = Vec::new();
    let mut i: usize = 0;
    while i < indexes.len()
        invariant
            i <= indexes@.len(),
            positions == indexes@.map_values(|index: usize| index as int),
            texts(values@) == picked(texts(row@), positions.take(i as int)),
        decreases indexes.len() - i,
    {
        proof {
            assert(positions.take(i + 1).drop_last() =~= positions.take(i as int));
            assert(positions.take(i + 1).last() == indexes@[i as int] as int);
        }
        if indexes[i] < row.len() {
            let ghost before = values@;
            values.push(row[indexes[i]].clone());
            assert(texts(values@) =~= texts(before).push(row@[indexes@[i as int] as int]@));
        }
        i += 1;
    }
    proof {
        assert(positions.take(indexes@.len() as int) =~= positions);
    }
    values
}

/// The column names that a listing of the `system` namespace describes:
/// those of its first row.
pub open spec fn described_columns(listing: Listing) -> Seq<Seq<char>> {
    if listing.len() == 0 {
        Seq::empty()
    } else {
        decoded(listing[0].1)
    }
}

/// For each row of `listing` the values of the columns asked for, as far
/// as `all` names them.
pub open spec fn projected(
    listing: Listing,
    all: Seq<Seq<char>>,
    columns: Seq<Seq<char>>,
) -> Seq<Seq<Seq<char>>> {
    Seq::new(listing.len(), |i: int| picked(decoded(listing[i].1), selected(all, columns)))
}

/// Whether `error` is the answer to a request on a table that the store
/// lacks: the schema is named if it is missing, else the table.
pub open spec fn missing_table(
    store: Namespaces,
    schema: Seq<char>,
    table: Seq<char>,
    error: ErrorModel,
) -> bool {
    if !store.dom().contains(schema) {
        error == ErrorModel::SchemaDoesNotExist(schema)
    } else {
        !has_object(store, schema, table) && error == ErrorModel::TableDoesNotExist(
            full_name(schema, table),
        )
    }
}

/// What creating a table does to a store: the table is there and empty,
/// and its column names are written, under the key made of `key_id`, to
/// the object that the `system` namespace has for the table.
pub open spec fn table_created(
    before: Namespaces,
    after: Namespaces,
    schema: Seq<char>,
    table: Seq<char>,
    key_id: u64,
    columns: Seq<Seq<char>>,
) -> bool {
    let with_table = with_listing(before, schema, table, Seq::empty());
    let name = full_name(schema, table);
    &&& before.dom().contains(schema)
    &&& !has_object(before, schema, table)
    &&& if with_table.dom().contains(system()) {
        let described = if has_object(with_table, system(), name) {
            with_table[system()][name]
        } else {
            Seq::empty()
        };
        &&& has_object(after, system(), name)
        &&& after == with_listing(with_table, system(), name, after[system()][name])
        &&& bindings(after[system()][name]) == bindings(described).insert(
            be_bytes(key_id as nat, 8),
            encoded(columns),
        )
    } else {
        after == with_table
    }
}

/// A store of text in which the rows of one object were replaced by rows of
/// text holds text only.
proof fn lemma_one_object_text(
    before: Namespaces,
    after: Namespaces,
    namespace: Seq<char>,
    object: Seq<char>,
)
    requires
        text_only(before),
        before.dom().contains(namespace),
        after == with_listing(before, namespace, object, after[namespace][object]),
        rows_all_text(after[namespace][object]),
    ensures
        text_only(after),
{
    assert forall|other: Seq<char>, name: Seq<char>| #[trigger]
        has_object(after, other, name) implies rows_all_text(after[other][name]) by {
        if other != namespace || name != object {
            assert(has_object(before, other, name));
        }
    }
}

/// A store of text from which an object was taken holds text only.
proof fn lemma_object_dropped_text(
    before: Namespaces,
    after: Namespaces,
    namespace: Seq<char>,
    object: Seq<char>,
)
    requires
        text_only(before),
        before.dom().contains(namespace),
        after == before.insert(namespace, before[namespace].remove(object)),
    ensures
        text_only(after),
{
    assert forall|other: Seq<char>, name: Seq<char>| #[trigger]
        has_object(after, other, name) implies rows_all_text(after[other][name]) by {
        assert(has_object(before, other, name));
    }
}

pub struct RelationalStorage<P: PersistentStorage> {
    key_id_generator: u64,
    persistent: P,
}

impl Default for RelationalStorage<InMemoryStorage> {
    fn default() -> (storage: Self)
        ensures
            storage.wf(),
            storage.next_key_id() == 0,
            storage.namespaces() == Map::<Seq<char>, crate::persistent::Objects>::empty().insert(
                system(),
                Map::empty(),
            ),
    {
        Self::new(InMemoryStorage::new())
    }
}

impl<P: PersistentStorage> RelationalStorage<P> {
    /// What the store below holds.
    pub closed spec fn namespaces(&self) -> Namespaces {
        self.persistent.namespaces()
    }

    /// The number that the key of the next row is made of.
    pub closed spec fn next_key_id(&self) -> u64 {
        self.key_id_generator
    }

    /// The store below is well-formed and holds text only.
    pub closed spec fn wf(&self) -> bool {
        self.persistent.wf() && text_only(self.persistent.namespaces())
    }

    /// Takes the store into service; the `system` namespace is created
    /// unless the store has it.
    pub fn new(persistent: P) -> (storage: Self)
        requires
            persistent.wf(),
            text_only(persistent.namespaces()),
        ensures
            storage.wf(),
            storage.next_key_id() == 0,
            storage.namespaces() == if persistent.namespaces().dom().contains(system()) {
                persistent.namespaces()
            } else {
                persistent.namespaces().insert(system(), Map::empty())
            },
    {
        let ghost before = persistent.namespaces();
        let mut persistent = persistent;
        let _ = persistent.create_namespace("system");
        proof {
            lemma_text_only_kept(before, persistent.namespaces(), system());
        }
        Self { key_id_generator: 0, persistent }
    }

    pub fn create_schema(&mut self, schema_name: String) -> (created: Result<(), Error>)
        requires
            old(self).wf(),
        ensures
            final(self).wf(),
            final(self).next_key_id() == old(self).next_key_id(),
            match created {
                Ok(()) => !old(self).namespaces().dom().contains(schema_name@) && final(self).namespaces() == old(self).namespaces().insert(schema_name@, Map::empty()),
                Err(error) => old(self).namespaces().dom().contains(schema_name@) && error@
                    == ErrorModel::SchemaAlreadyExists(schema_name@) && final(self).namespaces()
                    == old(self).namespaces(),
            },
    {
        let created = self.persistent.create_namespace(schema_name.as_str());
        proof {
            lemma_text_only_kept(
                old(self).persistent.namespaces(),
                self.persistent.namespaces(),
                schema_name@,
            );
        }
        match created {
            Ok(()) => Ok(()),
            Err(_) => Err(Error::SchemaAlreadyExists(schema_name)),
        }
    }

    pub fn drop_schema(&mut self, schema_name: String) -> (dropped: Result<(), Error>)
        requires
            old(self).wf(),
        ensures
            final(self).wf(),
            final(self).next_key_id() == old(self).next_key_id(),
            final(self).namespaces() == old(self).namespaces().remove(schema_name@),
            match dropped {
                Ok(()) => old(self).namespaces().dom().contains(schema_name@),
                Err(error) => !old(self).namespaces().dom().contains(schema_name@) && error@
                    == ErrorModel::SchemaDoesNotExist(schema_name@),
            },
    {
        let dropped = self.persistent.drop_namespace(schema_name.as_str());
        proof {
            lemma_text_only_kept(
                old(self).persistent.namespaces(),
                self.persistent.namespaces(),
                schema_name@,
            );
        }
        match dropped {
            Ok(()) => Ok(()),
            Err(_) => Err(Error::SchemaDoesNotExist(schema_name)),
        }
    }

    /// Creates the object in the store below.
    fn create_object(&mut self, namespace: &str, object: &str) -> (created: Result<
        (),
        CreateObjectError,
    >)
        requires
            old(self).wf(),
        ensures
            final(self).wf(),
            final(self).next_key_id() == old(self).next_key_id(),
            crate::persistent::object_created(
                old(self).namespaces(),
                final(self).namespaces(),
                namespace@,
                object@,
                created,
            ),
    {
        let created = self.persistent.create_object(namespace, object);
        proof {
            if created is Ok {
                lemma_one_object_text(
                    old(self).persistent.namespaces(),
                    self.persistent.namespaces(),
                    namespace@,
                    object@,
                );
            }
        }
        created
    }

    /// Writes rows of text to the object in the store below.
    fn write(&mut self, namespace: &str, object: &str, rows: Vec<Row>) -> (count: Result<
        usize,
        OperationOnObjectError,
    >)
        requires
            old(self).wf(),
            rows_all_text(models(rows@)),
        ensures
            final(self).wf(),
            final(self).next_key_id() == old(self).next_key_id(),
            crate::persistent::rows_written(
                old(self).namespaces(),
                final(self).namespaces(),
                namespace@,
                object@,
                models(rows@),
                count,
            ),
    {
        let ghost written_rows = models(rows@);
        let count = self.persistent.write(namespace, object, rows);
        proof {
            if count is Ok {
                let before = old(self).persistent.namespaces();
                let after = self.persistent.namespaces();
                old(self).persistent.lemma_listings_ascend(namespace@, object@);
                self.persistent.lemma_listings_ascend(namespace@, object@);
                lemma_listing_text(before[namespace@][object@]);
                lemma_written_text(bindings(before[namespace@][object@]), written_rows);
                lemma_listing_text(after[namespace@][object@]);
                lemma_one_object_text(before, after, namespace@, object@);
            }
        }
        count
    }

    /// A copy of the rows of the object in the store below.
    fn read(&self, namespace: &str, object: &str) -> (rows: Result<
        Vec<Row>,
        OperationOnObjectError,
    >)
        requires
            self.wf(),
        ensures
            match rows {
                Ok(rows) => has_object(self.namespaces(), namespace@, object@) && models(rows@)
                    == self.namespaces()[namespace@][object@] && rows_all_text(models(rows@)),
                Err(error) => crate::persistent::object_missing(
                    self.namespaces(),
                    namespace@,
                    object@,
                    error,
                ),
            },
    {
        self.persistent.read(namespace, object)
    }

    /// Creates the table with the given columns in the schema.
    pub fn create_table(
        &mut self,
        schema_name: String,
        table_name: String,
        column_names: Vec<String>,
    ) -> (created: Result<(), Error>)
        requires
            old(self).wf(),
            old(self).next_key_id() < u64::MAX,
        ensures
            final(self).wf(),
            match created {
                Ok(()) => table_created(
                    old(self).namespaces(),
                    final(self).namespaces(),
                    schema_name@,
                    table_name@,
                    old(self).next_key_id(),
                    texts(column_names@),
                ) && final(self).next_key_id() == old(self).next_key_id() + 1,
                Err(error) => final(self).namespaces() == old(self).namespaces() && final(self).next_key_id() == old(self).next_key_id() && if old(self).namespaces().dom().contains(
                    schema_name@,
                ) {
                    has_object(old(self).namespaces(), schema_name@, table_name@) && error@
                        == ErrorModel::TableAlreadyExists(full_name(schema_name@, table_name@))
                } else {
                    error@ == ErrorModel::SchemaDoesNotExist(schema_name@)
                },
            },
    {
        match self.create_object(schema_name.as_str(), table_name.as_str()) {
            Ok(()) => {
                let name = full_table_name(schema_name.as_str(), table_name.as_str());
                let ghost with_table = self.namespaces();
                let _ = self.create_object("system", name.as_str());
                let ghost with_description = self.namespaces();
                let key = be_encode(self.key_id_generator, 8);
                let values = to_values(&column_names);
                let mut rows: Vec<Row> = Vec::new();
                rows.push((key, values));
                proof {
                    lemma_encoded_is_text(texts(column_names@));
                    assert(models(rows@) =~= seq![
                        (be_bytes(old(self).key_id_generator as nat, 8), encoded(texts(column_names@))),
                    ]);
                    assert(models(rows@).drop_last() =~= Seq::<RowModel>::empty());
                }
                let _ = self.write("system", name.as_str(), rows);
                proof {
                    if with_table.dom().contains(system()) {
                        reveal_with_fuel(written, 3);
                        let listing = self.namespaces()[system()][name@];
                        let described = if has_object(with_table, system(), name@) {
                            with_table[system()][name@]
                        } else {
                            Seq::<RowModel>::empty()
                        };
                        assert(bindings(with_description[system()][name@]) =~= bindings(described));
                        assert(bindings(listing) == bindings(described).insert(
                            be_bytes(old(self).key_id_generator as nat, 8),
                            encoded(texts(column_names@)),
                        ));
                        assert(with_description[system()].insert(name@, listing)
                            =~= with_table[system()].insert(name@, listing));
                        assert(self.namespaces() =~= with_listing(
                            with_table,
                            system(),
                            name@,
                            self.namespaces()[system()][name@],
                        ));
                    }
                }
                self.key_id_generator += 1;
                Ok(())
            },
            Err(CreateObjectError::ObjectAlreadyExists) => Err(
                Error::TableAlreadyExists(
                    full_table_name(schema_name.as_str(), table_name.as_str()),
                ),
            ),
            Err(CreateObjectError::NamespaceDoesNotExist) => Err(
                Error::SchemaDoesNotExist(schema_name),
            ),
        }
    }

    /// The column names of the table.
    pub fn table_columns(&mut self, schema_name: String, table_name: String) -> (columns: Result<
        Vec<String>,
        Error,
    >)
        requires
            old(self).wf(),
        ensures
            final(self).wf(),
            final(self).namespaces() == old(self).namespaces(),
            final(self).next_key_id() == old(self).next_key_id(),
            match columns {
                Ok(columns) => has_object(
                    old(self).namespaces(),
                    system(),
                    full_name(schema_name@, table_name@),
                ) && texts(columns@) == described_columns(
                    old(self).namespaces()[system()][full_name(schema_name@, table_name@)],
                ),
                Err(error) => !has_object(
                    old(self).namespaces(),
                    system(),
                    full_name(schema_name@, table_name@),
                ) && error@ == ErrorModel::TableDoesNotExist(full_name(schema_name@, table_name@)),
            },
    {
        let name = full_table_name(schema_name.as_str(), table_name.as_str());
        match self.read("system", name.as_str()) {
            Ok(rows) => {
                if rows.len() == 0 {
                    let columns: Vec<String> = Vec::new();
                    assert(texts(columns@) =~= Seq::<Seq<char>>::empty());
                    Ok(columns)
                } else {
                    assert(models(rows@)[0].1 == rows@[0].1.model());
                    Ok(to_texts(&rows[0].1))
                }
            },
            Err(_) => Err(Error::TableDoesNotExist(name)),
        }
    }

    pub fn drop_table(&mut self, schema_name: String, table_name: String) -> (dropped: Result<
        (),
        Error,
    >)
        requires
            old(self).wf(),
        ensures
            final(self).wf(),
            final(self).next_key_id() == old(self).next_key_id(),
            match dropped {
                Ok(()) => has_object(old(self).namespaces(), schema_name@, table_name@) && final(self).namespaces() == old(self).namespaces().insert(
                    schema_name@,
                    old(self).namespaces()[schema_name@].remove(table_name@),
                ),
                Err(error) => final(self).namespaces() == old(self).namespaces() && missing_table(
                    old(self).namespaces(),
                    schema_name@,
                    table_name@,
                    error@,
                ),
            },
    {
        let dropped = self.persistent.drop_object(schema_name.as_str(), table_name.as_str());
        proof {
            if dropped is Ok {
                lemma_object_dropped_text(
                    old(self).persistent.namespaces(),
                    self.persistent.namespaces(),
                    schema_name@,
                    table_name@,
                );
            }
        }
        match dropped {
            Ok(()) => Ok(()),
            Err(DropObjectError::ObjectDoesNotExist) => Err(
                Error::TableDoesNotExist(
                    full_table_name(schema_name.as_str(), table_name.as_str()),
                ),
            ),
            Err(DropObjectError::NamespaceDoesNotExist) => Err(
                Error::SchemaDoesNotExist(schema_name),
            ),
        }
    }

    /// The error that answers a request on a table that the store lacks.
    fn missing(schema_name: String, table_name: &str, error: OperationOnObjectError) -> (missing:
        Error)
        ensures
            missing@ == match error {
                OperationOnObjectError::NamespaceDoesNotExist => ErrorModel::SchemaDoesNotExist(
                    schema_name@,
                ),
                OperationOnObjectError::ObjectDoesNotExist => ErrorModel::TableDoesNotExist(
                    full_name(schema_name@, table_name@),
                ),
            },
    {
        match error {
            OperationOnObjectError::NamespaceDoesNotExist => Error::SchemaDoesNotExist(schema_name),
            OperationOnObjectError::ObjectDoesNotExist => Error::TableDoesNotExist(
                full_table_name(schema_name.as_str(), table_name),
            ),
        }
    }

    /// Adds the rows to the table, each under a key of its own. The keys
    /// are used up whether or not the table exists.
    pub fn insert_into(
        &mut self,
        schema_name: String,
        table_name: String,
        values: Vec<Vec<String>>,
    ) -> (inserted: Result<(), Error>)
        requires
            old(self).wf(),
            old(self).next_key_id() + values@.len() <= u64::MAX,
        ensures
            final(self).wf(),
            final(self).next_key_id() == old(self).next_key_id() + values@.len(),
            match inserted {
                Ok(()) => crate::persistent::one_object_changed(
                    old(self).namespaces(),
                    final(self).namespaces(),
                    schema_name@,
                    table_name@,
                ) && bindings(final(self).namespaces()[schema_name@][table_name@]) == written(
                    bindings(old(self).namespaces()[schema_name@][table_name@]),
                    new_rows(old(self).next_key_id() as nat, row_texts(values@)),
                ),
                Err(error) => final(self).namespaces() == old(self).namespaces() && missing_table(
                    old(self).namespaces(),
                    schema_name@,
                    table_name@,
                    error@,
                ),
            },
    {
        let ghost first = self.key_id_generator as nat;
        let ghost all = new_rows(first, row_texts(values@));
        let mut to_write: Vec<Row> = Vec::new();
        let mut i: usize = 0;
        while i < values.len()
            invariant
                i <= values@.len(),
                first + values@.len() <= u64::MAX,
                self.key_id_generator == first + i,
                self.persistent == old(self).persistent,
                all == new_rows(first, row_texts(values@)),
                models(to_write@) == all.take(i as int),
                rows_all_text(models(to_write@)),
            decreases values.len() - i,
        {
            let key = be_encode(self.key_id_generator, 8);
            let row = to_values(&values[i]);
            let ghost before = to_write@;
            to_write.push((key, row));
            proof {
                lemma_encoded_is_text(texts(values@[i as int]@));
                assert(models(to_write@) =~= models(before).push(all[i as int]));
                assert(all.take(i + 1) =~= all.take(i as int).push(all[i as int]));
                assert forall|j: int| 0 <= j < to_write@.len() implies all_text(
                    (#[trigger] models(to_write@)[j]).1,
                ) by {
                    if j < i {
                        assert(models(to_write@)[j] == models(before)[j]);
                    }
                }
            }
            self.key_id_generator += 1;
            i += 1;
        }
        proof {
            assert(all.take(values@.len() as int) =~= all);
        }
        match self.write(schema_name.as_str(), table_name.as_str(), to_write) {
            Ok(_) => Ok(()),
            Err(error) => Err(Self::missing(schema_name, table_name.as_str(), error)),
        }
    }

    /// The values of the columns asked for, for every row of the table in
    /// the order of the keys. A column that the table lacks gives no
    /// value; a column asked for twice gives its value twice.
    pub fn select_all_from(
        &mut self,
        schema_name: String,
        table_name: String,
        columns: Vec<String>,
    ) -> (projection: Result<Projection, Error>)
        requires
            old(self).wf(),
        ensures
            final(self).wf(),
            final(self).namespaces() == old(self).namespaces(),
            final(self).next_key_id() == old(self).next_key_id(),
            match projection {
                Ok(projection) => {
                    let store = old(self).namespaces();
                    let name = full_name(schema_name@, table_name@);
                    &&& has_object(store, system(), name)
                    &&& has_object(store, schema_name@, table_name@)
                    &&& projection.0 == columns
                    &&& row_texts(projection.1@) == projected(
                        store[schema_name@][table_name@],
                        described_columns(store[system()][name]),
                        texts(columns@),
                    )
                },
                Err(error) => if has_object(
                    old(self).namespaces(),
                    system(),
                    full_name(schema_name@, table_name@),
                ) {
                    missing_table(old(self).namespaces(), schema_name@, table_name@, error@)
                } else {
                    error@ == ErrorModel::TableDoesNotExist(full_name(schema_name@, table_name@))
                },
            },
    {
        let name = full_table_name(schema_name.as_str(), table_name.as_str());
        let all_columns = match self.read("system", name.as_str()) {
            Ok(rows) => {
                if rows.len() == 0 {
                    let none: Vec<String> = Vec::new();
                    assert(texts(none@) =~= Seq::<Seq<char>>::empty());
                    none
                } else {
                    assert(models(rows@)[0].1 == rows@[0].1.model());
                    to_texts(&rows[0].1)
                }
            },
            Err(_) => {
                return Err(Error::TableDoesNotExist(name));
            },
        };
        let indexes = select_indexes(&all_columns, &columns);
        match self.read(schema_name.as_str(), table_name.as_str()) {
            Err(error) => Err(Self::missing(schema_name, table_name.as_str(), error)),
            Ok(stored) => {
                let ghost listing = self.namespaces()[schema_name@][table_name@];
                let ghost expected = projected(listing, texts(all_columns@), texts(columns@));
                let mut rows: Vec<Vec<String>> = Vec::new();
                let mut i: usize = 0;
                while i < stored.len()
                    invariant
                        i <= stored@.len(),
                        models(stored@) == listing,
                        rows_all_text(listing),
                        expected == projected(listing, texts(all_columns@), texts(columns@)),
                        indexes@.map_values(|index: usize| index as int) == selected(
                            texts(all_columns@),
                            texts(columns@),
                        ),
                        row_texts(rows@) == expected.take(i as int),
                    decreases stored.len() - i,
                {
                    assert(models(stored@)[i as int].1 == stored@[i as int].1.model());
                    let all_values = to_texts(&stored[i].1);
                    let ghost before = rows@;
                    rows.push(pick(&all_values, &indexes));
                    proof {
                        assert(row_texts(rows@) =~= row_texts(before).push(expected[i as int]));
                        assert(expected.take(i + 1) =~= expected.take(i as int).push(
                            expected[i as int],
                        ));
                    }
                    i += 1;
                }
                proof {
                    assert(expected.take(stored@.len() as int) =~= expected);
                }
                Ok((columns, rows))
            },
        }
    }

    /// Gives every row of the table `value` as its only value, and returns
    /// the number of rows.
    pub fn update_all(&mut self, schema_name: String, table_name: String, value: String) -> (count:
        Result<usize, Error>)
        requires
            old(self).wf(),
        ensures
            final(self).wf(),
            final(self).next_key_id() == old(self).next_key_id(),
            match count {
                Ok(count) => crate::persistent::one_object_changed(
                    old(self).namespaces(),
                    final(self).namespaces(),
                    schema_name@,
                    table_name@,
                ) && count == old(self).namespaces()[schema_name@][table_name@].len() && bindings(
                    final(self).namespaces()[schema_name@][table_name@],
                ) == written(
                    bindings(old(self).namespaces()[schema_name@][table_name@]),
                    overwritten(old(self).namespaces()[schema_name@][table_name@], value@),
                ),
                Err(error) => final(self).namespaces() == old(self).namespaces() && missing_table(
                    old(self).namespaces(),
                    schema_name@,
                    table_name@,
                    error@,
                ),
            },
    {
        match self.read(schema_name.as_str(), table_name.as_str()) {
            Err(error) => Err(Self::missing(schema_name, table_name.as_str(), error)),
            Ok(stored) => {
                let ghost listing = self.namespaces()[schema_name@][table_name@];
                let ghost all = overwritten(listing, value@);
                let mut to_update: Vec<Row> = Vec::new();
                let mut i: usize = 0;
                while i < stored.len()
                    invariant
                        i <= stored@.len(),
                        models(stored@) == listing,
                        all == overwritten(listing, value@),
                        models(to_update@) == all.take(i as int),
                        rows_all_text(models(to_update@)),
                    decreases stored.len() - i,
                {
                    let mut values: Values = Vec::new();
                    values.push(value.as_str().as_bytes_vec());
                    let ghost before = to_update@;
                    assert(models(stored@)[i as int].0 == stored@[i as int].0.model());
                    to_update.push((stored[i].0.duplicate(), values));
                    proof {
                        vstd::utf8::encode_utf8_valid_utf8(value@);
                        assert(values.model() =~= seq![vstd::utf8::encode_utf8(value@)]);
                        assert(models(to_update@) =~= models(before).push(all[i as int]));
                        assert(all.take(i + 1) =~= all.take(i as int).push(all[i as int]));
                        assert forall|j: int| 0 <= j < to_update@.len() implies all_text(
                            (#[trigger] models(to_update@)[j]).1,
                        ) by {
                            if j < i {
                                assert(models(to_update@)[j] == models(before)[j]);
                            }
                        }
                    }
                    i += 1;
                }
                proof {
                    assert(all.take(stored@.len() as int) =~= all);
                }
                let count = to_update.len();
                let _ = self.write(schema_name.as_str(), table_name.as_str(), to_update);
                Ok(count)
            },
        }
    }

    /// Deletes every row of the table and returns the number of rows.
    pub fn delete_all_from(&mut self, schema_name: String, table_name: String) -> (count: Result<
        usize,
        Error,
    >)
        requires
            old(self).wf(),
        ensures
            final(self).wf(),
            final(self).next_key_id() == old(self).next_key_id(),
            match count {
                Ok(count) => crate::persistent::one_object_changed(
                    old(self).namespaces(),
                    final(self).namespaces(),
                    schema_name@,
                    table_name@,
                ) && count == old(self).namespaces()[schema_name@][table_name@].len() && final(self).namespaces()[schema_name@][table_name@] == Seq::<RowModel>::empty(),
                Err(error) => final(self).namespaces() == old(self).namespaces() && missing_table(
                    old(self).namespaces(),
                    schema_name@,
                    table_name@,
                    error@,
                ),
            },
    {
        match self.read(schema_name.as_str(), table_name.as_str()) {
            Err(error) => Err(Self::missing(schema_name, table_name.as_str(), error)),
            Ok(stored) => {
                let ghost listing = self.namespaces()[schema_name@][table_name@];
                let mut to_delete: Vec<Key> = Vec::new();
                let mut i: usize = 0;
                while i < stored.len()
                    invariant
                        i <= stored@.len(),
                        models(stored@) == listing,
                        byte_strings(to_delete@) == keys_of(listing).take(i as int),
                    decreases stored.len() - i,
                {
                    let ghost before = to_delete@;
                    assert(models(stored@)[i as int].0 == stored@[i as int].0.model());
                    to_delete.push(stored[i].0.duplicate());
                    proof {
                        assert(byte_strings(to_delete@) =~= byte_strings(before).push(
                            listing[i as int].0,
                        ));
                        assert(keys_of(listing).take(i + 1) =~= keys_of(listing).take(
                            i as int,
                        ).push(listing[i as int].0));
                    }
                    i += 1;
                }
                proof {
                    assert(keys_of(listing).take(stored@.len() as int) =~= keys_of(listing));
                }
                let count = to_delete.len();
                let _ = self.persistent.delete(schema_name.as_str(), table_name.as_str(), to_delete);
                proof {
                    let after = self.persistent.namespaces()[schema_name@][table_name@];
                    if after.len() > 0 {
                        let key = after[0].0;
                        assert(lists(after, key));
                        assert(bindings(after).dom().contains(key));
                        lemma_deleted_dom(bindings(listing), keys_of(listing), key);
                        let at = position(listing, key);
                        assert(keys_of(listing)[at] == key);
                        assert(false);
                    }
                    assert(after =~= Seq::<RowModel>::empty());
                    lemma_one_object_text(
                        old(self).persistent.namespaces(),
                        self.persistent.namespaces(),
                        schema_name@,
                        table_name@,
                    );
                }
                Ok(count)
            },
        }
    }
}

} // verus!
