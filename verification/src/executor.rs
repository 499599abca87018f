//! Running a statement: the statement is planned against the definitions
//! of the database, and the plan is applied to the definitions and to the
//! stored tables. Every statement ends in the events that the client is
//! told.

use vstd::prelude::*;
use crate::binary::{datums, packed, unpacked, Binary, Datum, DatumModel};
use crate::expr::syntax_error;
use crate::metadata::DataDefinition;
use crate::ordered::{models, Plain};
use crate::planner::{
    column_models, op_models, planned, row_models, ColumnIndex, ColumnIndexModel, Plan,
    QueryPlanner, SelectInput, TableDeletes, TableInserts, TableUpdates,
};
use crate::results::{
    ErrorKindView, ErrorView, QueryError, QueryErrorBuilder, QueryEvent, QueryResult, error_of,
    one_error,
};
use crate::scalar::{evaluated, EvalScalarOp, ScalarOp, ScalarOpModel};
use crate::sql_ast::Statement;
use crate::sql_model::{ColumnDefinition, ColumnType, FullTableName, SchemaName};
use crate::sql_types::SqlType;
use crate::engine::statement_text;
use crate::expr::feature_not_supported;
use crate::ordered::lemma_listing_determined;
use crate::storage::{
    appended, binaries, keys_of, lemma_nothing_listed, lemma_rewritten_listing, lemma_without_all,
    same_keys, InMemoryCatalogHandle, InMemoryTableHandle, Key, Record, Value,
};
use crate::text::texts;

verus! {

pub open spec fn type_mismatch(pg_type: SqlType, value: Seq<char>) -> ErrorView {
    error_of("2200G"@, ErrorKindView::DataTypeMismatch(pg_type, value))
}

pub open spec fn out_of_range(pg_type: SqlType) -> ErrorView {
    error_of("22003"@, ErrorKindView::NumericTypeOutOfRange(pg_type))
}

pub open spec fn too_long(pg_type: SqlType, len: u64) -> ErrorView {
    error_of("22026"@, ErrorKindView::StringTypeLengthMismatch(pg_type, len))
}

/// What a value becomes when it is stored in a column of the type.
///
/// A null is stored in every column. An integer is stored in an integer
/// column as an integer of the width of the column, if it is within the
/// range of the column; a boolean in a boolean column; a text in a text
/// column, if it is no longer than the column. Everything else is of the
/// wrong type for the column.
pub open spec fn conformed(column_type: ColumnType, datum: DatumModel) -> Result<
    DatumModel,
    ErrorView,
> {
    let pg_type = column_type.spec_pg_type();
    if datum is Null {
        Ok(datum)
    } else {
        match column_type {
            ColumnType::Bool => if datum is True || datum is False {
                Ok(datum)
            } else {
                Err(type_mismatch(pg_type, datum.text()))
            },
            ColumnType::SmallInt => if !datum.is_integer() {
                Err(type_mismatch(pg_type, datum.text()))
            } else if i16::MIN <= datum.number() <= i16::MAX {
                Ok(DatumModel::Int16(datum.number() as i16))
            } else {
                Err(out_of_range(pg_type))
            },
            ColumnType::Integer => if !datum.is_integer() {
                Err(type_mismatch(pg_type, datum.text()))
            } else if i32::MIN <= datum.number() <= i32::MAX {
                Ok(DatumModel::Int32(datum.number() as i32))
            } else {
                Err(out_of_range(pg_type))
            },
            ColumnType::BigInt => if !datum.is_integer() {
                Err(type_mismatch(pg_type, datum.text()))
            } else if i64::MIN <= datum.number() <= i64::MAX {
                Ok(DatumModel::Int64(datum.number() as i64))
            } else {
                Err(out_of_range(pg_type))
            },
            ColumnType::Char(len) | ColumnType::VarChar(len) => match datum {
                DatumModel::String(text) => if text.len() <= len {
                    Ok(datum)
                } else {
                    Err(too_long(pg_type, len))
                },
                _ => Err(type_mismatch(pg_type, datum.text())),
            },
            _ => Err(type_mismatch(pg_type, datum.text())),
        }
    }
}

/// The values of a row as they are stored in the columns of a table, as
/// far as they can be stored.
pub open spec fn conformed_row(columns: Seq<ColumnDefinition>, row: Seq<DatumModel>) -> Seq<
    DatumModel,
>
    decreases row.len(),
{
    if row.len() == 0 {
        Seq::empty()
    } else {
        let before = conformed_row(columns, row.drop_last());
        if row.len() <= columns.len() {
            match conformed(columns[row.len() - 1].spec_sql_type(), row.last()) {
                Ok(datum) => before.push(datum),
                Err(_) => before.push(row.last()),
            }
        } else {
            before.push(row.last())
        }
    }
}

/// The errors in the values of a row with respect to the columns of a
/// table, in the order of the values.
pub open spec fn row_errors(columns: Seq<ColumnDefinition>, row: Seq<DatumModel>) -> Seq<ErrorView>
    decreases row.len(),
{
    if row.len() == 0 {
        Seq::empty()
    } else {
        let before = row_errors(columns, row.drop_last());
        if row.len() <= columns.len() {
            match conformed(columns[row.len() - 1].spec_sql_type(), row.last()) {
                Ok(_) => before,
                Err(error) => before.push(error),
            }
        } else {
            before
        }
    }
}

/// Stores a value in a column of the type, or adds the error to the
/// errors.
fn conform(column_type: ColumnType, datum: Datum, errors: &mut QueryErrorBuilder) -> (stored: Datum)
    ensures
        match conformed(column_type, datum@) {
            Ok(expected) => stored@ == expected && final(errors)@ == old(errors)@,
            Err(error) => stored@ == datum@ && final(errors)@ == old(errors)@.push(error),
        },
{
    let pg_type = column_type.pg_type();
    match &datum {
        Datum::Null => {
            return datum;
        },
        _ => {},
    }
    match column_type {
        ColumnType::Bool => {
            if datum.is_boolean() {
                return datum;
            }
        },
        ColumnType::SmallInt => {
            if datum.is_integer() {
                let number = datum.number();
                if -0x8000 <= number && number <= 0x7fff {
                    return Datum::Int16(number as i16);
                }
                errors.out_of_range(pg_type);
                return datum;
            }
        },
        ColumnType::Integer => {
            if datum.is_integer() {
                let number = datum.number();
                if -0x8000_0000 <= number && number <= 0x7fff_ffff {
                    return Datum::Int32(number as i32);
                }
                errors.out_of_range(pg_type);
                return datum;
            }
        },
        ColumnType::BigInt => {
            if datum.is_integer() {
                let number = datum.number();
                if -0x8000_0000_0000_0000 <= number && number <= 0x7fff_ffff_ffff_ffff {
                    return Datum::Int64(number as i64);
                }
                errors.out_of_range(pg_type);
                return datum;
            }
        },
        ColumnType::Char(len) | ColumnType::VarChar(len) => {
            match &datum {
                Datum::String(text) => {
                    if text.as_str().unicode_len() as u64 <= len {
                        return datum;
                    }
                    errors.string_length_mismatch(pg_type, len);
                    return datum;
                },
                _ => {},
            }
        },
        _ => {},
    }
    let text = datum.text();
    errors.type_mismatch(text.as_str(), pg_type);
    datum
}

/// Stores the values of a row in the columns of a table, and adds the
/// errors in the values to the errors.
pub fn conform_row(columns: &Vec<ColumnDefinition>, row: Vec<Datum>, errors: &mut QueryErrorBuilder) -> (stored:
    Vec<Datum>)
    ensures
        datums(stored@) == conformed_row(columns@, datums(row@)),
        final(errors)@ == old(errors)@ + row_errors(columns@, datums(row@)),
{
    let ghost all = datums(row@);
    let mut stored: Vec<Datum> = Vec::new();
    let mut i: usize = 0;
    proof {
        assert(datums(stored@) =~= conformed_row(columns@, all.take(0)));
        assert(errors@ =~= old(errors)@ + row_errors(columns@, all.take(0)));
    }
    while i < row.len()
        invariant
            i <= row@.len(),
            all == datums(row@),
            datums(stored@) == conformed_row(columns@, all.take(i as int)),
            errors@ == old(errors)@ + row_errors(columns@, all.take(i as int)),
        decreases row.len() - i,
    {
        proof {
            assert(all.take(i + 1).drop_last() =~= all.take(i as int));
            assert(all.take(i + 1).last() == row@[i as int]@);
        }
        let ghost before = datums(stored@);
        let ghost collected = errors@;
        let datum = row[i].duplicate();
        if i < columns.len() {
            let conforming = conform(columns[i].sql_type(), datum, errors);
            stored.push(conforming);
            proof {
                assert(datums(stored@) =~= before.push(conforming@));
                let found = row_errors(columns@, all.take(i as int));
                match conformed(columns@[i as int].spec_sql_type(), row@[i as int]@) {
                    Ok(_) => {},
                    Err(error) => {
                        assert((old(errors)@ + found).push(error) =~= old(errors)@ + found.push(
                            error,
                        ));
                    },
                }
            }
        } else {
            stored.push(datum);
            assert(datums(stored@) =~= before.push(datum@));
        }
        i += 1;
    }
    proof {
        assert(all.take(row@.len() as int) =~= all);
    }
    stored
}

/// What an event holds, as plain values.
pub enum EventView {
    SchemaCreated,
    SchemaDropped,
    TableCreated,
    TableDropped,
    VariableSet,
    TransactionStarted,
    RecordsInserted(usize),
    /// The name and type of each column, then the values of each row.
    RecordsSelected(Seq<(Seq<char>, SqlType)>, Seq<Seq<Seq<char>>>),
    RecordsUpdated(usize),
    RecordsDeleted(usize),
    QueryComplete,
    Failed(Seq<ErrorView>),
}

/// The names and types of the columns, as plain values.
pub open spec fn header(columns: Seq<(String, SqlType)>) -> Seq<(Seq<char>, SqlType)> {
    columns.map_values(|column: (String, SqlType)| (column.0@, column.1))
}

/// The values of the rows, as characters.
pub open spec fn row_texts(rows: Seq<Vec<String>>) -> Seq<Seq<Seq<char>>> {
    rows.map_values(|row: Vec<String>| texts(row@))
}

/// The event as plain values.
pub open spec fn event_view(result: QueryResult) -> EventView {
    match result {
        Ok(QueryEvent::SchemaCreated) => EventView::SchemaCreated,
        Ok(QueryEvent::SchemaDropped) => EventView::SchemaDropped,
        Ok(QueryEvent::TableCreated) => EventView::TableCreated,
        Ok(QueryEvent::TableDropped) => EventView::TableDropped,
        Ok(QueryEvent::VariableSet) => EventView::VariableSet,
        Ok(QueryEvent::TransactionStarted) => EventView::TransactionStarted,
        Ok(QueryEvent::RecordsInserted(count)) => EventView::RecordsInserted(count),
        Ok(QueryEvent::RecordsSelected(projection)) => EventView::RecordsSelected(
            header(projection.0@),
            row_texts(projection.1@),
        ),
        Ok(QueryEvent::RecordsUpdated(count)) => EventView::RecordsUpdated(count),
        Ok(QueryEvent::RecordsDeleted(count)) => EventView::RecordsDeleted(count),
        Ok(QueryEvent::QueryComplete) => EventView::QueryComplete,
        Err(error) => EventView::Failed(error@),
    }
}

/// The events as plain values.
pub open spec fn event_views(events: Seq<QueryResult>) -> Seq<EventView> {
    events.map_values(|event: QueryResult| event_view(event))
}

/// Whether the definitions and the stored tables name the same schemas
/// and, in each schema, the same tables.
pub open spec fn consistent(definition: DataDefinition, catalog: InMemoryCatalogHandle) -> bool {
    &&& forall|schema: Seq<char>|
        #[trigger] definition.schemas().dom().contains(schema) <==> catalog.schemas().dom().contains(
            schema,
        )
    &&& forall|schema: Seq<char>, table: Seq<char>|
        #[trigger] definition.has_table(schema, table) <==> catalog.has_table(schema, table)
}

/// Whether the two catalogs differ at most in the one table, which both
/// have.
pub open spec fn only_table_changed(
    before: InMemoryCatalogHandle,
    after: InMemoryCatalogHandle,
    schema: Seq<char>,
    table: Seq<char>,
) -> bool {
    &&& before.has_table(schema, table)
    &&& after.has_table(schema, table)
    &&& after.schemas().dom() == before.schemas().dom()
    &&& after.schemas()[schema].tables() == before.schemas()[schema].tables().insert(
        table,
        after.schemas()[schema].tables()[table],
    )
    &&& forall|other: Seq<char>|
        other != schema && before.schemas().dom().contains(other) ==> (#[trigger] after.schemas()[other])
            == before.schemas()[other]
}

/// Definitions and stored tables that name what consistent ones name are
/// consistent.
pub proof fn lemma_consistent_same(
    definition: DataDefinition,
    catalog: InMemoryCatalogHandle,
    same_definition: DataDefinition,
    same_catalog: InMemoryCatalogHandle,
)
    requires
        consistent(definition, catalog),
        same_definition.schemas() == definition.schemas(),
        same_catalog.schemas() == catalog.schemas(),
    ensures
        consistent(same_definition, same_catalog),
{
    assert forall|schema: Seq<char>| #[trigger]
        same_definition.schemas().dom().contains(schema) <==> same_catalog.schemas().dom().contains(
            schema,
        ) by {
        assert(definition.schemas().dom().contains(schema) <==> catalog.schemas().dom().contains(
            schema,
        ));
    }
    assert forall|schema: Seq<char>, table: Seq<char>| #[trigger]
        same_definition.has_table(schema, table) <==> same_catalog.has_table(schema, table) by {
        assert(definition.has_table(schema, table) <==> catalog.has_table(schema, table));
    }
}

pub struct QueryExecutor {
    definition: DataDefinition,
    catalog: InMemoryCatalogHandle,
}

impl QueryExecutor {
    /// The definitions of the database.
    pub closed spec fn definition(&self) -> DataDefinition {
        self.definition
    }

    /// The stored tables of the database.
    pub closed spec fn catalog(&self) -> InMemoryCatalogHandle {
        self.catalog
    }

    /// The definitions and the stored tables are well-formed and name the
    /// same schemas and tables.
    pub open spec fn wf(&self) -> bool {
        self.definition().wf() && self.catalog().wf() && consistent(
            self.definition(),
            self.catalog(),
        )
    }

    /// The stored table of the name.
    pub open spec fn table(&self, schema: Seq<char>, table: Seq<char>) -> InMemoryTableHandle {
        self.catalog().schemas()[schema].tables()[table]
    }

    /// An executor on an empty database.
    pub fn new() -> (executor: QueryExecutor)
        ensures
            executor.wf(),
            executor.definition().schemas().dom() == Set::<Seq<char>>::empty(),
    {
        QueryExecutor { definition: DataDefinition::in_memory(), catalog: InMemoryCatalogHandle::new() }
    }

    /// Creates the schema in the definitions and among the stored tables.
    pub fn create_schema(&mut self, schema_name: &str) -> (event: QueryResult)
        requires
            old(self).wf(),
        ensures
            final(self).wf(),
            schema_created(*old(self), *final(self), schema_name@, event_view(event)),
    {
        match self.definition.create_schema(schema_name) {
            Some(_) => {
                self.catalog.create_schema(schema_name);
                proof {
                    let definition = self.definition;
                    let catalog = self.catalog;
                    assert forall|schema: Seq<char>, table: Seq<char>| #[trigger]
                        definition.has_table(schema, table) <==> catalog.has_table(
                            schema,
                            table,
                        ) by {
                        if schema != schema_name@ {
                            assert(old(self).definition.has_table(schema, table) <==> old(self).catalog.has_table(schema, table));
                        }
                    }
                    assert(self.definition.wf());
                    assert(self.catalog.wf());
                    assert forall|schema: Seq<char>| #[trigger]
                        definition.schemas().dom().contains(schema)
                            <==> catalog.schemas().dom().contains(schema) by {
                        assert(old(self).definition.schemas().dom().contains(schema) <==> old(self).catalog.schemas().dom().contains(schema));
                    }
                    assert(consistent(self.definition, self.catalog));
                    assert(self.wf());
                }
                Ok(QueryEvent::SchemaCreated)
            },
            None => {
                proof {
                    lemma_consistent_same(
                        old(self).definition,
                        old(self).catalog,
                        self.definition,
                        self.catalog,
                    );
                }
                let error = QueryErrorBuilder::new().schema_already_exists(
                    String::from_str(schema_name),
                ).build();
                assert(error@ =~= seq![crate::planner::schema_already_exists(schema_name@)]);
                Err(error)
            },
        }
    }

    /// Drops the schema, with its tables, from the definitions and from
    /// the stored tables.
    pub fn drop_schema(&mut self, schema_name: &str) -> (event: QueryResult)
        requires
            old(self).wf(),
        ensures
            final(self).wf(),
            schema_dropped(*old(self), *final(self), schema_name@, event_view(event)),
    {
        if self.definition.drop_schema(schema_name) {
            self.catalog.drop_schema(schema_name);
            proof {
                let definition = self.definition;
                let catalog = self.catalog;
                assert forall|schema: Seq<char>, table: Seq<char>| #[trigger]
                    definition.has_table(schema, table) <==> catalog.has_table(schema, table) by {
                    assert(old(self).definition.has_table(schema, table) <==> old(self).catalog.has_table(schema, table));
                }
                assert forall|schema: Seq<char>| #[trigger]
                    definition.schemas().dom().contains(schema)
                        <==> catalog.schemas().dom().contains(schema) by {
                    assert(old(self).definition.schemas().dom().contains(schema) <==> old(self).catalog.schemas().dom().contains(schema));
                }
            }
            Ok(QueryEvent::SchemaDropped)
        } else {
            proof {
                assert(self.definition.schemas() =~= old(self).definition.schemas());
                assert(self.catalog.schemas() =~= old(self).catalog.schemas().remove(schema_name@));
                lemma_consistent_same(
                    old(self).definition,
                    old(self).catalog,
                    self.definition,
                    self.catalog,
                );
            }
            let error = QueryErrorBuilder::new().schema_does_not_exist(
                String::from_str(schema_name),
            ).build();
            assert(error@ =~= seq![crate::planner::schema_does_not_exist(schema_name@)]);
            Err(error)
        }
    }

    /// Creates the table in the definitions and among the stored tables.
    pub fn create_table(&mut self, schema_name: &str, table_name: &str, columns: Vec<ColumnDefinition>) -> (event:
        QueryResult)
        requires
            old(self).wf(),
        ensures
            final(self).wf(),
            table_created(
                *old(self),
                *final(self),
                schema_name@,
                table_name@,
                columns@,
                event_view(event),
            ),
    {
        match self.definition.create_table(schema_name, table_name, columns) {
            Some(Some(_)) => {
                match self.catalog.schema_mut(schema_name) {
                    Some(schema) => {
                        schema.create_table(table_name);
                    },
                    None => {},
                }
                proof {
                    let definition = self.definition;
                    let catalog = self.catalog;
                    assert(old(self).definition.has_table(schema_name@, table_name@) <==> old(self).catalog.has_table(schema_name@, table_name@));
                    assert forall|schema: Seq<char>, table: Seq<char>| #[trigger]
                        definition.has_table(schema, table) <==> catalog.has_table(
                            schema,
                            table,
                        ) by {
                        assert(old(self).definition.has_table(schema, table) <==> old(self).catalog.has_table(schema, table));
                    }
                    assert forall|schema: Seq<char>| #[trigger]
                        definition.schemas().dom().contains(schema)
                            <==> catalog.schemas().dom().contains(schema) by {
                        assert(old(self).definition.schemas().dom().contains(schema) <==> old(self).catalog.schemas().dom().contains(schema));
                    }
                }
                Ok(QueryEvent::TableCreated)
            },
            Some(None) => {
                proof {
                    lemma_consistent_same(
                        old(self).definition,
                        old(self).catalog,
                        self.definition,
                        self.catalog,
                    );
                }
                let mut name = String::from_str(schema_name);
                name.append(".");
                name.append(table_name);
                let error = QueryErrorBuilder::new().table_already_exists(name).build();
                assert(error@ =~= seq![
                    crate::planner::table_already_exists(schema_name@ + "."@ + table_name@),
                ]);
                Err(error)
            },
            None => {
                proof {
                    lemma_consistent_same(
                        old(self).definition,
                        old(self).catalog,
                        self.definition,
                        self.catalog,
                    );
                }
                let error = QueryErrorBuilder::new().schema_does_not_exist(
                    String::from_str(schema_name),
                ).build();
                assert(error@ =~= seq![crate::planner::schema_does_not_exist(schema_name@)]);
                Err(error)
            },
        }
    }

    /// Drops the table from the definitions and from the stored tables.
    pub fn drop_table(&mut self, schema_name: &str, table_name: &str) -> (event: QueryResult)
        requires
            old(self).wf(),
        ensures
            final(self).wf(),
            table_dropped(*old(self), *final(self), schema_name@, table_name@, event_view(event)),
    {
        match self.definition.drop_table(schema_name, table_name) {
            Some(true) => {
                match self.catalog.schema_mut(schema_name) {
                    Some(schema) => {
                        schema.drop_table(table_name);
                    },
                    None => {},
                }
                proof {
                    let definition = self.definition;
                    let catalog = self.catalog;
                    assert forall|schema: Seq<char>, table: Seq<char>| #[trigger]
                        definition.has_table(schema, table) <==> catalog.has_table(
                            schema,
                            table,
                        ) by {
                        assert(old(self).definition.has_table(schema, table) <==> old(self).catalog.has_table(schema, table));
                    }
                    assert forall|schema: Seq<char>| #[trigger]
                        definition.schemas().dom().contains(schema)
                            <==> catalog.schemas().dom().contains(schema) by {
                        assert(old(self).definition.schemas().dom().contains(schema) <==> old(self).catalog.schemas().dom().contains(schema));
                    }
                    assert(catalog.schemas().dom() =~= old(self).catalog.schemas().dom());
                    assert(definition.schemas().dom() =~= old(self).definition.schemas().dom());
                }
                Ok(QueryEvent::TableDropped)
            },
            Some(false) => {
                proof {
                    let definition = self.definition;
                    assert(definition.schemas().dom() =~= old(self).definition.schemas().dom());
                    assert(definition.schemas()[schema_name@].tables =~= old(self).definition.schemas()[schema_name@].tables);
                    assert forall|schema: Seq<char>, table: Seq<char>| #[trigger]
                        definition.has_table(schema, table) <==> self.catalog.has_table(
                            schema,
                            table,
                        ) by {
                        assert(old(self).definition.has_table(schema, table) <==> old(self).catalog.has_table(schema, table));
                    }
                    assert forall|schema: Seq<char>| #[trigger]
                        definition.schemas().dom().contains(schema)
                            <==> self.catalog.schemas().dom().contains(schema) by {
                        assert(old(self).definition.schemas().dom().contains(schema) <==> old(self).catalog.schemas().dom().contains(schema));
                    }
                }
                let mut name = String::from_str(schema_name);
                name.append(".");
                name.append(table_name);
                let error = QueryErrorBuilder::new().table_does_not_exist(name).build();
                assert(error@ =~= seq![
                    crate::planner::table_does_not_exist(schema_name@ + "."@ + table_name@),
                ]);
                Err(error)
            },
            None => {
                proof {
                    lemma_consistent_same(
                        old(self).definition,
                        old(self).catalog,
                        self.definition,
                        self.catalog,
                    );
                }
                let error = QueryErrorBuilder::new().schema_does_not_exist(
                    String::from_str(schema_name),
                ).build();
                assert(error@ =~= seq![crate::planner::schema_does_not_exist(schema_name@)]);
                Err(error)
            },
        }
    }
}

/// What creating a schema does, and what it answers.
pub open spec fn schema_created(
    before: QueryExecutor,
    after: QueryExecutor,
    name: Seq<char>,
    event: EventView,
) -> bool {
    if before.definition().schemas().dom().contains(name) {
        after.definition().schemas() == before.definition().schemas() && after.catalog().schemas()
            == before.catalog().schemas() && event == EventView::Failed(
            seq![crate::planner::schema_already_exists(name)],
        )
    } else {
        &&& event == EventView::SchemaCreated
        &&& after.definition().schemas().dom() == before.definition().schemas().dom().insert(name)
        &&& after.definition().schemas()[name].id == before.definition().next_schema_id()
        &&& after.definition().schemas()[name].tables == Map::<
            Seq<char>,
            crate::metadata::TableModel,
        >::empty()
        &&& after.catalog().schemas()[name].tables() == Map::<
            Seq<char>,
            InMemoryTableHandle,
        >::empty()
        &&& forall|other: Seq<char>|
            before.definition().schemas().dom().contains(other) ==> (
            #[trigger] after.definition().schemas()[other]) == before.definition().schemas()[other]
                && after.catalog().schemas()[other] == before.catalog().schemas()[other]
    }
}

/// What dropping a schema does, and what it answers.
pub open spec fn schema_dropped(
    before: QueryExecutor,
    after: QueryExecutor,
    name: Seq<char>,
    event: EventView,
) -> bool {
    &&& after.definition().schemas() == before.definition().schemas().remove(name)
    &&& after.catalog().schemas() == before.catalog().schemas().remove(name)
    &&& event == if before.definition().schemas().dom().contains(name) {
        EventView::SchemaDropped
    } else {
        EventView::Failed(seq![crate::planner::schema_does_not_exist(name)])
    }
}

/// What creating a table does, and what it answers.
pub open spec fn table_created(
    before: QueryExecutor,
    after: QueryExecutor,
    schema: Seq<char>,
    table: Seq<char>,
    columns: Seq<ColumnDefinition>,
    event: EventView,
) -> bool {
    if !before.definition().schemas().dom().contains(schema) {
        after.definition().schemas() == before.definition().schemas() && after.catalog().schemas()
            == before.catalog().schemas() && event == EventView::Failed(
            seq![crate::planner::schema_does_not_exist(schema)],
        )
    } else if before.definition().has_table(schema, table) {
        after.definition().schemas() == before.definition().schemas() && after.catalog().schemas()
            == before.catalog().schemas() && event == EventView::Failed(
            seq![crate::planner::table_already_exists(schema + "."@ + table)],
        )
    } else {
        &&& event == EventView::TableCreated
        &&& after.definition().has_table(schema, table)
        &&& after.definition().columns(schema, table) == columns
        &&& after.definition().schemas()[schema].tables.dom() == before.definition().schemas()[schema].tables.dom().insert(
            table,
        )
        &&& after.catalog().has_table(schema, table)
        &&& after.table(schema, table).listing() == Seq::<Record>::empty()
        &&& after.table(schema, table).next_record_id() == 0
        &&& forall|other: Seq<char>|
            other != schema && before.definition().schemas().dom().contains(other) ==> (
            #[trigger] after.definition().schemas()[other]) == before.definition().schemas()[other]
                && after.catalog().schemas()[other] == before.catalog().schemas()[other]
        &&& forall|other: Seq<char>|
            before.definition().has_table(schema, other) ==> (
            #[trigger] after.definition().schemas()[schema].tables[other])
                == before.definition().schemas()[schema].tables[other] && after.table(
                schema,
                other,
            ) == before.table(schema, other)
    }
}

/// What dropping a table does, and what it answers.
pub open spec fn table_dropped(
    before: QueryExecutor,
    after: QueryExecutor,
    schema: Seq<char>,
    table: Seq<char>,
    event: EventView,
) -> bool {
    if !before.definition().schemas().dom().contains(schema) {
        after.definition().schemas() == before.definition().schemas() && after.catalog().schemas()
            == before.catalog().schemas() && event == EventView::Failed(
            seq![crate::planner::schema_does_not_exist(schema)],
        )
    } else if !before.definition().has_table(schema, table) {
        after.definition().schemas().dom() == before.definition().schemas().dom()
            && after.definition().schemas()[schema].tables
            == before.definition().schemas()[schema].tables && after.catalog().schemas()
            == before.catalog().schemas() && event == EventView::Failed(
            seq![crate::planner::table_does_not_exist(schema + "."@ + table)],
        )
    } else {
        &&& event == EventView::TableDropped
        &&& after.definition().schemas().dom() == before.definition().schemas().dom()
        &&& after.definition().schemas()[schema].tables
            == before.definition().schemas()[schema].tables.remove(table)
        &&& after.catalog().schemas().dom() == before.catalog().schemas().dom()
        &&& after.catalog().schemas()[schema].tables()
            == before.catalog().schemas()[schema].tables().remove(table)
        &&& forall|other: Seq<char>|
            other != schema && before.definition().schemas().dom().contains(other) ==> (
            #[trigger] after.definition().schemas()[other]) == before.definition().schemas()[other]
                && after.catalog().schemas()[other] == before.catalog().schemas()[other]
    }
}

/// The values that the operations stand for by themselves, without a row;
/// the first operation that stands for none decides the error.
pub open spec fn constant_values(ops: Seq<ScalarOpModel>) -> Result<Seq<DatumModel>, ErrorView>
    decreases ops.len(),
{
    if ops.len() == 0 {
        Ok(Seq::empty())
    } else {
        match constant_values(ops.drop_last()) {
            Ok(before) => if !ops.last().evaluable(0) {
                Err(syntax_error("value is not a constant"@))
            } else {
                match evaluated(ops.last(), Seq::empty()) {
                    Ok(value) => Ok(before.push(value)),
                    Err(error) => Err(error),
                }
            },
            Err(error) => Err(error),
        }
    }
}

/// A row of `width` values in which each of `values` stands at the
/// position of the column that it goes to, and a null everywhere else.
pub open spec fn placed(width: nat, targets: Seq<ColumnIndexModel>, values: Seq<DatumModel>) -> Seq<
    DatumModel,
>
    decreases values.len(),
{
    if values.len() == 0 {
        Seq::new(width, |i: int| DatumModel::Null)
    } else {
        let before = placed(width, targets, values.drop_last());
        let at = values.len() - 1;
        if at < targets.len() && 0 <= targets[at].0 < width {
            before.update(targets[at].0, values.last())
        } else {
            before
        }
    }
}

pub open spec fn too_many_expressions() -> ErrorView {
    error_of("42601"@, ErrorKindView::TooManyInsertExpressions)
}

/// The bytes that a row of an insert is stored as, or the errors in the
/// row.
pub open spec fn row_to_insert(
    columns: Seq<ColumnDefinition>,
    targets: Seq<ColumnIndexModel>,
    ops: Seq<ScalarOpModel>,
) -> Result<Seq<u8>, Seq<ErrorView>> {
    match constant_values(ops) {
        Ok(values) => if values.len() > targets.len() {
            Err(seq![too_many_expressions()])
        } else {
            let row = placed(columns.len(), targets, values);
            if row_errors(columns, row).len() > 0 {
                Err(row_errors(columns, row))
            } else {
                Ok(packed(conformed_row(columns, row)))
            }
        },
        Err(error) => Err(seq![error]),
    }
}

/// The bytes that the rows of an insert are stored as; the first row with
/// errors decides the errors.
pub open spec fn rows_to_insert(
    columns: Seq<ColumnDefinition>,
    targets: Seq<ColumnIndexModel>,
    input: Seq<Seq<ScalarOpModel>>,
) -> Result<Seq<Seq<u8>>, Seq<ErrorView>>
    decreases input.len(),
{
    if input.len() == 0 {
        Ok(Seq::empty())
    } else {
        match rows_to_insert(columns, targets, input.drop_last()) {
            Ok(before) => match row_to_insert(columns, targets, input.last()) {
                Ok(row) => Ok(before.push(row)),
                Err(errors) => Err(errors),
            },
            Err(errors) => Err(errors),
        }
    }
}

proof fn lemma_constants_fail(ops: Seq<ScalarOpModel>, upto: int)
    requires
        0 <= upto <= ops.len(),
        constant_values(ops.take(upto)) is Err,
    ensures
        constant_values(ops) == constant_values(ops.take(upto)),
    decreases ops.len() - upto,
{
    if upto < ops.len() {
        assert(ops.take(upto + 1).drop_last() =~= ops.take(upto));
        lemma_constants_fail(ops, upto + 1);
    } else {
        assert(ops.take(upto) =~= ops);
    }
}

proof fn lemma_rows_fail(
    columns: Seq<ColumnDefinition>,
    targets: Seq<ColumnIndexModel>,
    input: Seq<Seq<ScalarOpModel>>,
    upto: int,
)
    requires
        0 <= upto <= input.len(),
        rows_to_insert(columns, targets, input.take(upto)) is Err,
    ensures
        rows_to_insert(columns, targets, input) == rows_to_insert(
            columns,
            targets,
            input.take(upto),
        ),
    decreases input.len() - upto,
{
    if upto < input.len() {
        assert(input.take(upto + 1).drop_last() =~= input.take(upto));
        lemma_rows_fail(columns, targets, input, upto + 1);
    } else {
        assert(input.take(upto) =~= input);
    }
}

fn syntax(text: &str) -> (error: QueryError)
    ensures
        error@ == seq![syntax_error(text@)],
{
    one_error(QueryErrorBuilder::new().syntax_error(String::from_str(text)))
}

/// The values that the operations stand for by themselves.
fn constants(ops: &Vec<ScalarOp>) -> (values: Result<Vec<Datum>, QueryError>)
    ensures
        match values {
            Ok(values) => constant_values(op_models(ops@)) == Ok::<Seq<DatumModel>, ErrorView>(
                datums(values@),
            ),
            Err(error) => constant_values(op_models(ops@)) matches Err(expected) && error@ == seq![
                expected,
            ],
        },
{
    let ghost all = op_models(ops@);
    let mut values: Vec<Datum> = Vec::new();
    let none: Vec<Datum> = Vec::new();
    let mut i: usize = 0;
    proof {
        assert(datums(values@) =~= Seq::<DatumModel>::empty());
        assert(datums(none@) =~= Seq::<DatumModel>::empty());
    }
    while i < ops.len()
        invariant
            i <= ops@.len(),
            all == op_models(ops@),
            datums(none@) == Seq::<DatumModel>::empty(),
            none@.len() == 0,
            constant_values(all.take(i as int)) == Ok::<Seq<DatumModel>, ErrorView>(datums(values@)),
        decreases ops.len() - i,
    {
        proof {
            assert(all.take(i + 1).drop_last() =~= all.take(i as int));
            assert(all.take(i + 1).last() == ops@[i as int]@);
        }
        if !ops[i].is_evaluable(0) {
            proof {
                lemma_constants_fail(all, i + 1);
            }
            return Err(syntax("value is not a constant"));
        }
        match EvalScalarOp::eval(none.as_slice(), &ops[i]) {
            Ok(value) => {
                let ghost before = datums(values@);
                values.push(value);
                assert(datums(values@) =~= before.push(value@));
            },
            Err(error) => {
                proof {
                    lemma_constants_fail(all, i + 1);
                }
                return Err(error);
            },
        }
        i += 1;
    }
    proof {
        assert(all.take(ops@.len() as int) =~= all);
    }
    Ok(values)
}

/// A row of `width` values in which each of `values` stands at the
/// position of the column that it goes to.
fn place(width: usize, targets: &Vec<ColumnIndex>, values: Vec<Datum>) -> (row: Vec<Datum>)
    ensures
        datums(row@) == placed(width as nat, column_models(targets@), datums(values@)),
{
    let ghost all = datums(values@);
    let ghost wanted = column_models(targets@);
    let mut row: Vec<Datum> = Vec::new();
    let mut i: usize = 0;
    while i < width
        invariant
            i <= width,
            datums(row@) == Seq::new(i as nat, |j: int| DatumModel::Null),
        decreases width - i,
    {
        let ghost before = datums(row@);
        row.push(Datum::Null);
        assert(datums(row@) =~= before.push(DatumModel::Null));
        assert(before.push(DatumModel::Null) =~= Seq::new((i + 1) as nat, |j: int| DatumModel::Null));
        i += 1;
    }
    let mut i: usize = 0;
    proof {
        assert(datums(row@) =~= placed(width as nat, wanted, all.take(0)));
    }
    while i < values.len()
        invariant
            i <= values@.len(),
            all == datums(values@),
            wanted == column_models(targets@),
            row@.len() == width,
            datums(row@) == placed(width as nat, wanted, all.take(i as int)),
        decreases values.len() - i,
    {
        proof {
            assert(all.take(i + 1).drop_last() =~= all.take(i as int));
            assert(all.take(i + 1).last() == values@[i as int]@);
        }
        if i < targets.len() && targets[i].0 < width {
            let ghost before = datums(row@);
            let value = values[i].duplicate();
            row.set(targets[i].0, value);
            assert(datums(row@) =~= before.update(targets@[i as int].0 as int, value@));
        }
        i += 1;
    }
    proof {
        assert(all.take(values@.len() as int) =~= all);
    }
    row
}

/// The bytes that a row of an insert is stored as.
fn insert_row(columns: &Vec<ColumnDefinition>, targets: &Vec<ColumnIndex>, ops: &Vec<ScalarOp>) -> (stored:
    Result<Binary, QueryError>)
    ensures
        match stored {
            Ok(stored) => row_to_insert(columns@, column_models(targets@), op_models(ops@)) == Ok::<
                Seq<u8>,
                Seq<ErrorView>,
            >(stored@),
            Err(error) => row_to_insert(columns@, column_models(targets@), op_models(ops@)) == Err::<
                Seq<u8>,
                Seq<ErrorView>,
            >(error@),
        },
{
    let values = constants(ops)?;
    if values.len() > targets.len() {
        return Err(one_error(QueryErrorBuilder::new().too_many_insert_expressions()));
    }
    let row = place(columns.len(), targets, values);
    let mut errors = QueryErrorBuilder::new();
    let stored = conform_row(columns, row, &mut errors);
    proof {
        assert(errors@ =~= row_errors(columns@, datums(row@)));
    }
    if errors.errors.len() > 0 {
        return Err(errors.build());
    }
    Ok(Binary::pack(stored.as_slice()))
}

/// The bytes that the rows of an insert are stored as.
pub fn insert_rows(columns: &Vec<ColumnDefinition>, inserts: &TableInserts) -> (batch: Result<
    Vec<Binary>,
    QueryError,
>)
    ensures
        match batch {
            Ok(batch) => rows_to_insert(
                columns@,
                column_models(inserts.column_indices@),
                row_models(inserts.input@),
            ) == Ok::<Seq<Seq<u8>>, Seq<ErrorView>>(binaries(batch@)),
            Err(error) => rows_to_insert(
                columns@,
                column_models(inserts.column_indices@),
                row_models(inserts.input@),
            ) == Err::<Seq<Seq<u8>>, Seq<ErrorView>>(error@),
        },
{
    let ghost targets = column_models(inserts.column_indices@);
    let ghost input = row_models(inserts.input@);
    let mut batch: Vec<Binary> = Vec::new();
    let mut i: usize = 0;
    proof {
        assert(binaries(batch@) =~= Seq::<Seq<u8>>::empty());
    }
    while i < inserts.input.len()
        invariant
            i <= inserts.input@.len(),
            targets == column_models(inserts.column_indices@),
            input == row_models(inserts.input@),
            rows_to_insert(columns@, targets, input.take(i as int)) == Ok::<
                Seq<Seq<u8>>,
                Seq<ErrorView>,
            >(binaries(batch@)),
        decreases inserts.input.len() - i,
    {
        proof {
            assert(input.take(i + 1).drop_last() =~= input.take(i as int));
            assert(input.take(i + 1).last() == op_models(inserts.input@[i as int]@));
        }
        match insert_row(columns, &inserts.column_indices, &inserts.input[i]) {
            Ok(row) => {
                let ghost before = binaries(batch@);
                batch.push(row);
                assert(binaries(batch@) =~= before.push(row@));
            },
            Err(error) => {
                proof {
                    lemma_rows_fail(columns@, targets, input, i + 1);
                }
                return Err(error);
            },
        }
        i += 1;
    }
    proof {
        assert(input.take(inserts.input@.len() as int) =~= input);
    }
    Ok(batch)
}

/// The row after the assignments were applied one after the other: each
/// value is evaluated on the row as the assignments before it have left
/// it, and put into the column that it is assigned to. The first
/// assignment that cannot be applied, or whose value cannot be evaluated,
/// decides the error.
pub open spec fn assigned_row(
    row: Seq<DatumModel>,
    targets: Seq<ColumnIndexModel>,
    values: Seq<ScalarOpModel>,
) -> Result<Seq<DatumModel>, ErrorView>
    decreases values.len(),
{
    if values.len() == 0 {
        Ok(row)
    } else {
        match assigned_row(row, targets, values.drop_last()) {
            Ok(before) => {
                let at = values.len() - 1;
                if at < targets.len() && 0 <= targets[at].0 < before.len()
                    && values.last().evaluable(before.len()) {
                    match evaluated(values.last(), before) {
                        Ok(value) => Ok(before.update(targets[at].0, value)),
                        Err(error) => Err(error),
                    }
                } else {
                    Err(syntax_error("assignment cannot be applied"@))
                }
            },
            Err(error) => Err(error),
        }
    }
}

pub open spec fn cannot_decode() -> ErrorView {
    syntax_error("row cannot be decoded"@)
}

/// The bytes that a stored row is replaced by in an update, or the errors
/// in the new row.
pub open spec fn row_to_update(
    columns: Seq<ColumnDefinition>,
    targets: Seq<ColumnIndexModel>,
    values: Seq<ScalarOpModel>,
    stored: Seq<u8>,
) -> Result<Seq<u8>, Seq<ErrorView>> {
    match unpacked(stored) {
        Some(row) => match assigned_row(row, targets, values) {
            Ok(new) => if row_errors(columns, new).len() > 0 {
                Err(row_errors(columns, new))
            } else {
                Ok(packed(conformed_row(columns, new)))
            },
            Err(error) => Err(seq![error]),
        },
        None => Err(seq![cannot_decode()]),
    }
}

/// The records that the records of a table are replaced by in an update;
/// the first record with errors decides the errors.
pub open spec fn records_to_update(
    columns: Seq<ColumnDefinition>,
    targets: Seq<ColumnIndexModel>,
    values: Seq<ScalarOpModel>,
    listing: Seq<Record>,
) -> Result<Seq<Record>, Seq<ErrorView>>
    decreases listing.len(),
{
    if listing.len() == 0 {
        Ok(Seq::empty())
    } else {
        match records_to_update(columns, targets, values, listing.drop_last()) {
            Ok(before) => match row_to_update(columns, targets, values, listing.last().1) {
                Ok(row) => Ok(before.push((listing.last().0, row))),
                Err(errors) => Err(errors),
            },
            Err(errors) => Err(errors),
        }
    }
}

proof fn lemma_assignments_fail(
    row: Seq<DatumModel>,
    targets: Seq<ColumnIndexModel>,
    values: Seq<ScalarOpModel>,
    upto: int,
)
    requires
        0 <= upto <= values.len(),
        assigned_row(row, targets, values.take(upto)) is Err,
    ensures
        assigned_row(row, targets, values) == assigned_row(row, targets, values.take(upto)),
    decreases values.len() - upto,
{
    if upto < values.len() {
        assert(values.take(upto + 1).drop_last() =~= values.take(upto));
        lemma_assignments_fail(row, targets, values, upto + 1);
    } else {
        assert(values.take(upto) =~= values);
    }
}

proof fn lemma_updates_fail(
    columns: Seq<ColumnDefinition>,
    targets: Seq<ColumnIndexModel>,
    values: Seq<ScalarOpModel>,
    listing: Seq<Record>,
    upto: int,
)
    requires
        0 <= upto <= listing.len(),
        records_to_update(columns, targets, values, listing.take(upto)) is Err,
    ensures
        records_to_update(columns, targets, values, listing) == records_to_update(
            columns,
            targets,
            values,
            listing.take(upto),
        ),
    decreases listing.len() - upto,
{
    if upto < listing.len() {
        assert(listing.take(upto + 1).drop_last() =~= listing.take(upto));
        lemma_updates_fail(columns, targets, values, listing, upto + 1);
    } else {
        assert(listing.take(upto) =~= listing);
    }
}

/// Applies the assignments to the row, one after the other.
fn assign(row: Vec<Datum>, targets: &Vec<ColumnIndex>, values: &Vec<ScalarOp>) -> (assigned: Result<
    Vec<Datum>,
    QueryError,
>)
    ensures
        match assigned {
            Ok(assigned) => assigned_row(datums(row@), column_models(targets@), op_models(values@))
                == Ok::<Seq<DatumModel>, ErrorView>(datums(assigned@)),
            Err(error) => assigned_row(
                datums(row@),
                column_models(targets@),
                op_models(values@),
            ) matches Err(expected) && error@ == seq![expected],
        },
{
    let ghost start = datums(row@);
    let ghost wanted = column_models(targets@);
    let ghost all = op_models(values@);
    let mut current = row;
    let mut i: usize = 0;
    while i < values.len()
        invariant
            i <= values@.len(),
            start == datums(row@),
            wanted == column_models(targets@),
            all == op_models(values@),
            assigned_row(start, wanted, all.take(i as int)) == Ok::<Seq<DatumModel>, ErrorView>(
                datums(current@),
            ),
        decreases values.len() - i,
    {
        proof {
            assert(all.take(i + 1).drop_last() =~= all.take(i as int));
            assert(all.take(i + 1).last() == values@[i as int]@);
            assert(datums(current@).len() == current@.len());
            assert(wanted.len() == targets@.len());
            if i < targets@.len() {
                assert(wanted[i as int].0 == targets@[i as int].0);
            }
        }
        if !(i < targets.len() && targets[i].0 < current.len() && values[i].is_evaluable(current.len())) {
            proof {
                lemma_assignments_fail(start, wanted, all, i + 1);
            }
            return Err(syntax("assignment cannot be applied"));
        }
        match EvalScalarOp::eval(current.as_slice(), &values[i]) {
            Ok(value) => {
                let ghost before = datums(current@);
                current.set(targets[i].0, value);
                assert(datums(current@) =~= before.update(targets@[i as int].0 as int, value@));
            },
            Err(error) => {
                proof {
                    lemma_assignments_fail(start, wanted, all, i + 1);
                }
                return Err(error);
            },
        }
        i += 1;
    }
    proof {
        assert(all.take(values@.len() as int) =~= all);
    }
    Ok(current)
}

/// The bytes that a stored row is replaced by in an update.
fn update_row(columns: &Vec<ColumnDefinition>, updates: &TableUpdates, stored: &Binary) -> (replaced:
    Result<Binary, QueryError>)
    ensures
        match replaced {
            Ok(replaced) => row_to_update(
                columns@,
                column_models(updates.column_indices@),
                op_models(updates.input@),
                stored@,
            ) == Ok::<Seq<u8>, Seq<ErrorView>>(replaced@),
            Err(error) => row_to_update(
                columns@,
                column_models(updates.column_indices@),
                op_models(updates.input@),
                stored@,
            ) == Err::<Seq<u8>, Seq<ErrorView>>(error@),
        },
{
    let row = match stored.unpack() {
        Some(row) => row,
        None => {
            return Err(syntax("row cannot be decoded"));
        },
    };
    let assigned = assign(row, &updates.column_indices, &updates.input)?;
    let mut errors = QueryErrorBuilder::new();
    let conforming = conform_row(columns, assigned, &mut errors);
    proof {
        assert(errors@ =~= row_errors(columns@, datums(assigned@)));
    }
    if errors.errors.len() > 0 {
        return Err(errors.build());
    }
    Ok(Binary::pack(conforming.as_slice()))
}

/// The records that the records of a table are replaced by in an update.
pub fn update_records(
    columns: &Vec<ColumnDefinition>,
    updates: &TableUpdates,
    records: &Vec<(Key, Value)>,
) -> (batch: Result<Vec<(Key, Value)>, QueryError>)
    ensures
        match batch {
            Ok(batch) => records_to_update(
                columns@,
                column_models(updates.column_indices@),
                op_models(updates.input@),
                models(records@),
            ) == Ok::<Seq<Record>, Seq<ErrorView>>(models(batch@)),
            Err(error) => records_to_update(
                columns@,
                column_models(updates.column_indices@),
                op_models(updates.input@),
                models(records@),
            ) == Err::<Seq<Record>, Seq<ErrorView>>(error@),
        },
{
    let ghost targets = column_models(updates.column_indices@);
    let ghost values = op_models(updates.input@);
    let ghost listing = models(records@);
    let mut batch: Vec<(Key, Value)> = Vec::new();
    let mut i: usize = 0;
    proof {
        assert(models(batch@) =~= Seq::<Record>::empty());
    }
    while i < records.len()
        invariant
            i <= records@.len(),
            targets == column_models(updates.column_indices@),
            values == op_models(updates.input@),
            listing == models(records@),
            records_to_update(columns@, targets, values, listing.take(i as int)) == Ok::<
                Seq<Record>,
                Seq<ErrorView>,
            >(models(batch@)),
        decreases records.len() - i,
    {
        proof {
            assert(listing.take(i + 1).drop_last() =~= listing.take(i as int));
            assert(listing.take(i + 1).last() == (records@[i as int].0@, records@[i as int].1@));
        }
        match update_row(columns, updates, &records[i].1) {
            Ok(row) => {
                let ghost before = models(batch@);
                let key = records[i].0.duplicate();
                batch.push((key, row));
                assert(models(batch@) =~= before.push((records@[i as int].0@, row@)));
            },
            Err(error) => {
                proof {
                    lemma_updates_fail(columns@, targets, values, listing, i + 1);
                }
                return Err(error);
            },
        }
        i += 1;
    }
    proof {
        assert(listing.take(records@.len() as int) =~= listing);
    }
    Ok(batch)
}

/// The values of a row at the positions, as text; a position beyond the
/// row gives a null.
pub open spec fn picked_texts(row: Seq<DatumModel>, positions: Seq<int>) -> Seq<Seq<char>> {
    Seq::new(
        positions.len(),
        |i: int|
            if 0 <= positions[i] < row.len() {
                row[positions[i]].text()
            } else {
                "NULL"@
            },
    )
}

/// The values of the records at the positions, as text; the first record
/// that cannot be decoded decides the error.
pub open spec fn rows_read(listing: Seq<Record>, positions: Seq<int>) -> Result<
    Seq<Seq<Seq<char>>>,
    ErrorView,
>
    decreases listing.len(),
{
    if listing.len() == 0 {
        Ok(Seq::empty())
    } else {
        match rows_read(listing.drop_last(), positions) {
            Ok(before) => match unpacked(listing.last().1) {
                Some(row) => Ok(before.push(picked_texts(row, positions))),
                None => Err(cannot_decode()),
            },
            Err(error) => Err(error),
        }
    }
}

/// The names and types of the columns at the positions.
pub open spec fn columns_read(columns: Seq<ColumnDefinition>, positions: Seq<int>) -> Seq<
    (Seq<char>, SqlType),
> {
    Seq::new(
        positions.len(),
        |i: int|
            if 0 <= positions[i] < columns.len() {
                (
                    columns[positions[i]].spec_name(),
                    columns[positions[i]].spec_sql_type().spec_pg_type(),
                )
            } else {
                ("?"@, SqlType::Unknown)
            },
    )
}

proof fn lemma_reads_fail(listing: Seq<Record>, positions: Seq<int>, upto: int)
    requires
        0 <= upto <= listing.len(),
        rows_read(listing.take(upto), positions) is Err,
    ensures
        rows_read(listing, positions) == rows_read(listing.take(upto), positions),
    decreases listing.len() - upto,
{
    if upto < listing.len() {
        assert(listing.take(upto + 1).drop_last() =~= listing.take(upto));
        lemma_reads_fail(listing, positions, upto + 1);
    } else {
        assert(listing.take(upto) =~= listing);
    }
}

/// The values of a row at the positions, as text.
fn pick_texts(row: &Vec<Datum>, positions: &Vec<usize>) -> (values: Vec<String>)
    ensures
        texts(values@) == picked_texts(datums(row@), crate::planner::positions(positions@)),
{
    let ghost wanted = crate::planner::positions(positions@);
    let ghost expected = picked_texts(datums(row@), wanted);
    let mut values: Vec<String> = Vec::new();
    let mut i: usize = 0;
    proof {
        assert(texts(values@) =~= expected.take(0));
    }
    while i < positions.len()
        invariant
            i <= positions@.len(),
            wanted == crate::planner::positions(positions@),
            expected == picked_texts(datums(row@), wanted),
            texts(values@) == expected.take(i as int),
        decreases positions.len() - i,
    {
        let ghost before = texts(values@);
        let value = if positions[i] < row.len() {
            row[positions[i]].text()
        } else {
            String::from_str("NULL")
        };
        values.push(value);
        proof {
            assert(texts(values@) =~= before.push(value@));
            assert(expected.take(i + 1) =~= expected.take(i as int).push(expected[i as int]));
        }
        i += 1;
    }
    proof {
        assert(expected.take(positions@.len() as int) =~= expected);
    }
    values
}

/// The values of the records at the positions, as text.
pub fn read_rows(records: &Vec<(Key, Value)>, positions: &Vec<usize>) -> (rows: Result<
    Vec<Vec<String>>,
    QueryError,
>)
    ensures
        match rows {
            Ok(rows) => rows_read(models(records@), crate::planner::positions(positions@)) == Ok::<
                Seq<Seq<Seq<char>>>,
                ErrorView,
            >(row_texts(rows@)),
            Err(error) => rows_read(
                models(records@),
                crate::planner::positions(positions@),
            ) matches Err(expected) && error@ == seq![expected],
        },
{
    let ghost listing = models(records@);
    let ghost wanted = crate::planner::positions(positions@);
    let mut rows: Vec<Vec<String>> = Vec::new();
    let mut i: usize = 0;
    proof {
        assert(row_texts(rows@) =~= Seq::<Seq<Seq<char>>>::empty());
    }
    while i < records.len()
        invariant
            i <= records@.len(),
            listing == models(records@),
            wanted == crate::planner::positions(positions@),
            rows_read(listing.take(i as int), wanted) == Ok::<Seq<Seq<Seq<char>>>, ErrorView>(
                row_texts(rows@),
            ),
        decreases records.len() - i,
    {
        proof {
            assert(listing.take(i + 1).drop_last() =~= listing.take(i as int));
            assert(listing.take(i + 1).last() == (records@[i as int].0@, records@[i as int].1@));
        }
        match records[i].1.unpack() {
            Some(row) => {
                let ghost before = row_texts(rows@);
                let values = pick_texts(&row, positions);
                rows.push(values);
                assert(row_texts(rows@) =~= before.push(texts(values@)));
            },
            None => {
                proof {
                    lemma_reads_fail(listing, wanted, i + 1);
                }
                return Err(syntax("row cannot be decoded"));
            },
        }
        i += 1;
    }
    proof {
        assert(listing.take(records@.len() as int) =~= listing);
    }
    Ok(rows)
}

/// The names and types of the columns at the positions.
pub fn read_columns(columns: &Vec<ColumnDefinition>, positions: &Vec<usize>) -> (read: Vec<
    (String, SqlType),
>)
    ensures
        header(read@) == columns_read(columns@, crate::planner::positions(positions@)),
{
    let ghost wanted = crate::planner::positions(positions@);
    let ghost expected = columns_read(columns@, wanted);
    let mut read: Vec<(String, SqlType)> = Vec::new();
    let mut i: usize = 0;
    proof {
        assert(header(read@) =~= expected.take(0));
    }
    while i < positions.len()
        invariant
            i <= positions@.len(),
            wanted == crate::planner::positions(positions@),
            expected == columns_read(columns@, wanted),
            header(read@) == expected.take(i as int),
        decreases positions.len() - i,
    {
        let ghost before = header(read@);
        let column = if positions[i] < columns.len() {
            (columns[positions[i]].name(), columns[positions[i]].sql_type().pg_type())
        } else {
            (String::from_str("?"), SqlType::Unknown)
        };
        read.push(column);
        proof {
            assert(header(read@) =~= before.push((column.0@, column.1)));
            assert(expected.take(i + 1) =~= expected.take(i as int).push(expected[i as int]));
        }
        i += 1;
    }
    proof {
        assert(expected.take(positions@.len() as int) =~= expected);
    }
    read
}

/// Whether the definitions and the stored tables are what they were.
pub open spec fn unchanged(before: QueryExecutor, after: QueryExecutor) -> bool {
    after.definition().schemas() == before.definition().schemas() && after.catalog().schemas()
        == before.catalog().schemas()
}

/// Whether nothing but the records of the one table has changed.
pub open spec fn only_rows_changed(
    before: QueryExecutor,
    after: QueryExecutor,
    schema: Seq<char>,
    table: Seq<char>,
) -> bool {
    &&& after.definition().schemas() == before.definition().schemas()
    &&& only_table_changed(before.catalog(), after.catalog(), schema, table)
    &&& after.table(schema, table).next_ord() == before.table(schema, table).next_ord()
    &&& after.table(schema, table).indexes() == before.table(schema, table).indexes()
}

/// Why the table cannot be worked on: its schema is not defined, or the
/// table is not defined in it.
pub open spec fn missing(definition: DataDefinition, schema: Seq<char>, table: Seq<char>) -> Option<
    ErrorView,
> {
    if !definition.schemas().dom().contains(schema) {
        Some(crate::planner::schema_does_not_exist(schema))
    } else if !definition.has_table(schema, table) {
        Some(crate::planner::table_does_not_exist(schema + "."@ + table))
    } else {
        None
    }
}

/// The error for rows that the table has no record ids left for.
pub open spec fn no_room() -> ErrorView {
    feature_not_supported("more records than a table can number"@)
}

/// What an insert does, and what it answers: nothing is stored unless
/// every row can be.
pub open spec fn rows_inserted(
    before: QueryExecutor,
    after: QueryExecutor,
    inserts: TableInserts,
    event: EventView,
) -> bool {
    let schema = inserts.full_table_name.spec_schema();
    let table = inserts.full_table_name.spec_table();
    match missing(before.definition(), schema, table) {
        Some(error) => unchanged(before, after) && event == EventView::Failed(seq![error]),
        None => match rows_to_insert(
            before.definition().columns(schema, table),
            column_models(inserts.column_indices@),
            row_models(inserts.input@),
        ) {
            Err(errors) => unchanged(before, after) && event == EventView::Failed(errors),
            Ok(rows) => if before.table(schema, table).next_record_id() + rows.len() > u64::MAX {
                unchanged(before, after) && event == EventView::Failed(seq![no_room()])
            } else {
                &&& event == EventView::RecordsInserted(rows.len() as usize)
                &&& only_rows_changed(before, after, schema, table)
                &&& after.table(schema, table).listing() == appended(
                    before.table(schema, table).listing(),
                    before.table(schema, table).next_record_id() as nat,
                    rows,
                )
                &&& after.table(schema, table).next_record_id() == before.table(
                    schema,
                    table,
                ).next_record_id() + rows.len()
            },
        },
    }
}

/// What an update does, and what it answers: nothing is stored unless
/// every record can be rewritten.
pub open spec fn rows_updated(
    before: QueryExecutor,
    after: QueryExecutor,
    updates: TableUpdates,
    event: EventView,
) -> bool {
    let schema = updates.full_table_name.spec_schema();
    let table = updates.full_table_name.spec_table();
    match missing(before.definition(), schema, table) {
        Some(error) => unchanged(before, after) && event == EventView::Failed(seq![error]),
        None => match records_to_update(
            before.definition().columns(schema, table),
            column_models(updates.column_indices@),
            op_models(updates.input@),
            before.table(schema, table).listing(),
        ) {
            Err(errors) => unchanged(before, after) && event == EventView::Failed(errors),
            Ok(records) => {
                &&& event == EventView::RecordsUpdated(records.len() as usize)
                &&& only_rows_changed(before, after, schema, table)
                &&& after.table(schema, table).listing() == records
                &&& after.table(schema, table).next_record_id() == before.table(
                    schema,
                    table,
                ).next_record_id()
            },
        },
    }
}

/// What a delete does, and what it answers: every record of the table
/// goes.
pub open spec fn rows_deleted(
    before: QueryExecutor,
    after: QueryExecutor,
    deletes: TableDeletes,
    event: EventView,
) -> bool {
    let schema = deletes.full_table_name.spec_schema();
    let table = deletes.full_table_name.spec_table();
    match missing(before.definition(), schema, table) {
        Some(error) => unchanged(before, after) && event == EventView::Failed(seq![error]),
        None => {
            &&& event == EventView::RecordsDeleted(
                before.table(schema, table).listing().len() as usize,
            )
            &&& only_rows_changed(before, after, schema, table)
            &&& after.table(schema, table).listing() == Seq::<Record>::empty()
            &&& after.table(schema, table).next_record_id() == before.table(
                schema,
                table,
            ).next_record_id()
        },
    }
}

/// What a query answers.
pub open spec fn rows_selected(executor: QueryExecutor, select: SelectInput) -> EventView {
    let schema = select.full_table_name.spec_schema();
    let table = select.full_table_name.spec_table();
    let positions = crate::planner::positions(select.selected_columns@);
    match missing(executor.definition(), schema, table) {
        Some(error) => EventView::Failed(seq![error]),
        None => match rows_read(executor.table(schema, table).listing(), positions) {
            Ok(rows) => EventView::RecordsSelected(
                columns_read(executor.definition().columns(schema, table), positions),
                rows,
            ),
            Err(error) => EventView::Failed(seq![error]),
        },
    }
}

/// What a statement that is not planned answers.
pub open spec fn not_processed(statement: Statement) -> EventView {
    match statement {
        Statement::StartTransaction => EventView::TransactionStarted,
        Statement::SetVariable => EventView::VariableSet,
        _ => EventView::Failed(seq![feature_not_supported(statement_text(statement))]),
    }
}

/// An update keeps the keys of the records.
proof fn lemma_updates_keep_keys(
    columns: Seq<ColumnDefinition>,
    targets: Seq<ColumnIndexModel>,
    values: Seq<ScalarOpModel>,
    listing: Seq<Record>,
)
    requires
        records_to_update(columns, targets, values, listing) is Ok,
    ensures
        same_keys(listing, records_to_update(columns, targets, values, listing)->Ok_0),
    decreases listing.len(),
{
    let records = records_to_update(columns, targets, values, listing)->Ok_0;
    if listing.len() > 0 {
        lemma_updates_keep_keys(columns, targets, values, listing.drop_last());
        let before = records_to_update(columns, targets, values, listing.drop_last())->Ok_0;
        assert(keys_of(before) == keys_of(listing.drop_last()));
        assert(keys_of(records) =~= keys_of(before).push(listing.last().0));
        assert(keys_of(listing) =~= keys_of(listing.drop_last()).push(listing.last().0));
    } else {
        assert(keys_of(records) =~= keys_of(listing));
    }
}

/// Stored tables that differ from consistent ones in the records of one
/// table are consistent with the same definitions.
proof fn lemma_consistent_changed(
    definition: DataDefinition,
    before: InMemoryCatalogHandle,
    after: InMemoryCatalogHandle,
    schema: Seq<char>,
    table: Seq<char>,
)
    requires
        consistent(definition, before),
        only_table_changed(before, after, schema, table),
    ensures
        consistent(definition, after),
{
    assert forall|name: Seq<char>| #[trigger]
        definition.schemas().dom().contains(name) <==> after.schemas().dom().contains(name) by {
        assert(definition.schemas().dom().contains(name) <==> before.schemas().dom().contains(
            name,
        ));
    }
    assert forall|name: Seq<char>, other: Seq<char>| #[trigger]
        definition.has_table(name, other) <==> after.has_table(name, other) by {
        assert(definition.has_table(name, other) <==> before.has_table(name, other));
        if name == schema {
            assert(after.schemas()[schema].tables().dom() =~= before.schemas()[schema].tables().dom());
        } else if before.schemas().dom().contains(name) {
            assert(after.schemas()[name] == before.schemas()[name]);
        }
    }
}

/// The keys of the records.
fn keys(records: &Vec<(Key, Value)>) -> (keys: Vec<Key>)
    ensures
        binaries(keys@) == keys_of(models(records@)),
{
    let ghost expected = keys_of(models(records@));
    let mut keys: Vec<Key> = Vec::new();
    let mut i: usize = 0;
    proof {
        assert(binaries(keys@) =~= expected.take(0));
    }
    while i < records.len()
        invariant
            i <= records@.len(),
            expected == keys_of(models(records@)),
            binaries(keys@) == expected.take(i as int),
        decreases records.len() - i,
    {
        let ghost before = binaries(keys@);
        let key = records[i].0.duplicate();
        keys.push(key);
        proof {
            assert(binaries(keys@) =~= before.push(key@));
            assert(expected.take(i + 1) =~= expected.take(i as int).push(expected[i as int]));
        }
        i += 1;
    }
    proof {
        assert(expected.take(records@.len() as int) =~= expected);
    }
    keys
}

/// Adds the rows to the table.
fn store(catalog: &mut InMemoryCatalogHandle, schema_name: &str, table_name: &str, rows: Vec<Binary>)
    requires
        old(catalog).wf(),
        old(catalog).has_table(schema_name@, table_name@),
        old(catalog).schemas()[schema_name@].tables()[table_name@].next_record_id() + rows@.len()
            <= u64::MAX,
    ensures
        final(catalog).wf(),
        only_table_changed(*old(catalog), *final(catalog), schema_name@, table_name@),
        ({
            let before = old(catalog).schemas()[schema_name@].tables()[table_name@];
            let after = final(catalog).schemas()[schema_name@].tables()[table_name@];
            &&& after.listing() == appended(
                before.listing(),
                before.next_record_id() as nat,
                binaries(rows@),
            )
            &&& after.next_record_id() == before.next_record_id() + rows@.len()
            &&& after.next_ord() == before.next_ord()
            &&& after.indexes() == before.indexes()
        }),
{
    match catalog.table_mut(schema_name, table_name) {
        Some(table) => {
            table.insert(rows);
        },
        None => {},
    }
    proof {
        assert(catalog.schemas().dom() =~= old(catalog).schemas().dom());
    }
}

/// Puts the records in the place of the records of the table.
fn rewrite(
    catalog: &mut InMemoryCatalogHandle,
    schema_name: &str,
    table_name: &str,
    records: Vec<(Key, Value)>,
) -> (count: usize)
    requires
        old(catalog).wf(),
        old(catalog).has_table(schema_name@, table_name@),
        same_keys(
            old(catalog).schemas()[schema_name@].tables()[table_name@].listing(),
            models(records@),
        ),
    ensures
        final(catalog).wf(),
        only_table_changed(*old(catalog), *final(catalog), schema_name@, table_name@),
        count == records@.len(),
        ({
            let before = old(catalog).schemas()[schema_name@].tables()[table_name@];
            let after = final(catalog).schemas()[schema_name@].tables()[table_name@];
            &&& after.listing() == models(records@)
            &&& after.next_record_id() == before.next_record_id()
            &&& after.next_ord() == before.next_ord()
            &&& after.indexes() == before.indexes()
        }),
{
    let count = match catalog.table_mut(schema_name, table_name) {
        Some(table) => {
            proof {
                table.lemma_listing();
                lemma_rewritten_listing(table.listing(), models(records@));
            }
            let count = table.update(records);
            proof {
                table.lemma_listing();
                lemma_listing_determined::<Binary, Seq<u8>>(table.listing(), models(records@));
            }
            count
        },
        None => 0,
    };
    proof {
        assert(catalog.schemas().dom() =~= old(catalog).schemas().dom());
    }
    count
}

/// Takes every record out of the table.
fn clear(catalog: &mut InMemoryCatalogHandle, schema_name: &str, table_name: &str) -> (count: usize)
    requires
        old(catalog).wf(),
        old(catalog).has_table(schema_name@, table_name@),
    ensures
        final(catalog).wf(),
        only_table_changed(*old(catalog), *final(catalog), schema_name@, table_name@),
        ({
            let before = old(catalog).schemas()[schema_name@].tables()[table_name@];
            let after = final(catalog).schemas()[schema_name@].tables()[table_name@];
            &&& count == before.listing().len()
            &&& after.listing() == Seq::<Record>::empty()
            &&& after.next_record_id() == before.next_record_id()
            &&& after.next_ord() == before.next_ord()
            &&& after.indexes() == before.indexes()
        }),
{
    let count = match catalog.table_mut(schema_name, table_name) {
        Some(table) => {
            let records = table.select();
            let all = keys(&records);
            proof {
                table.lemma_listing();
                lemma_without_all(table.listing());
            }
            let count = table.delete(all);
            proof {
                table.lemma_listing();
                lemma_nothing_listed(table.listing());
            }
            count
        },
        None => 0,
    };
    proof {
        assert(catalog.schemas().dom() =~= old(catalog).schemas().dom());
    }
    count
}

impl QueryExecutor {
    /// The columns of the table, or why it cannot be worked on.
    fn columns_of(&self, name: &FullTableName) -> (found: Result<
        Vec<ColumnDefinition>,
        QueryError,
    >)
        requires
            self.wf(),
        ensures
            match found {
                Ok(columns) => missing(self.definition(), name.spec_schema(), name.spec_table())
                    is None && columns@ == self.definition().columns(
                    name.spec_schema(),
                    name.spec_table(),
                ),
                Err(error) => missing(
                    self.definition(),
                    name.spec_schema(),
                    name.spec_table(),
                ) matches Some(expected) && error@ == seq![expected],
            },
    {
        if self.definition.schema_exists(name.schema()).is_none() {
            return Err(
                one_error(
                    QueryErrorBuilder::new().schema_does_not_exist(String::from_str(name.schema())),
                ),
            );
        }
        match self.definition.table_columns(name.schema(), name.table()) {
            Some(columns) => Ok(columns),
            None => Err(one_error(QueryErrorBuilder::new().table_does_not_exist(name.text()))),
        }
    }

    /// The records of a table that is defined.
    fn records_of(&self, name: &FullTableName) -> (records: Vec<(Key, Value)>)
        requires
            self.wf(),
            self.definition().has_table(name.spec_schema(), name.spec_table()),
        ensures
            models(records@) == self.table(name.spec_schema(), name.spec_table()).listing(),
    {
        proof {
            assert(self.definition().has_table(name.spec_schema(), name.spec_table())
                <==> self.catalog().has_table(name.spec_schema(), name.spec_table()));
        }
        match self.catalog.table(name.schema(), name.table()) {
            Some(table) => table.select(),
            None => Vec::new(),
        }
    }

    /// How many more records a table that is defined can number.
    fn room_of(&self, name: &FullTableName) -> (room: u64)
        requires
            self.wf(),
            self.definition().has_table(name.spec_schema(), name.spec_table()),
        ensures
            room == u64::MAX - self.table(name.spec_schema(), name.spec_table()).next_record_id(),
    {
        proof {
            assert(self.definition().has_table(name.spec_schema(), name.spec_table())
                <==> self.catalog().has_table(name.spec_schema(), name.spec_table()));
        }
        match self.catalog.table(name.schema(), name.table()) {
            Some(table) => table.room(),
            None => 0,
        }
    }

    /// Stores the rows of the insert in its table.
    pub fn insert(&mut self, inserts: &TableInserts) -> (event: QueryResult)
        requires
            old(self).wf(),
        ensures
            final(self).wf(),
            rows_inserted(*old(self), *final(self), *inserts, event_view(event)),
    {
        let columns = match self.columns_of(&inserts.full_table_name) {
            Ok(columns) => columns,
            Err(error) => {
                return Err(error);
            },
        };
        let rows = match insert_rows(&columns, inserts) {
            Ok(rows) => rows,
            Err(error) => {
                return Err(error);
            },
        };
        let count = rows.len();
        let room = self.room_of(&inserts.full_table_name);
        if count as u64 > room {
            return Err(
                one_error(
                    QueryErrorBuilder::new().feature_not_supported(
                        String::from_str("more records than a table can number"),
                    ),
                ),
            );
        }
        proof {
            let schema = inserts.full_table_name.spec_schema();
            let table = inserts.full_table_name.spec_table();
            assert(self.definition().has_table(schema, table) <==> self.catalog().has_table(
                schema,
                table,
            ));
        }
        store(&mut self.catalog, inserts.full_table_name.schema(), inserts.full_table_name.table(), rows);
        proof {
            lemma_consistent_changed(
                self.definition,
                old(self).catalog,
                self.catalog,
                inserts.full_table_name.spec_schema(),
                inserts.full_table_name.spec_table(),
            );
        }
        Ok(QueryEvent::RecordsInserted(count))
    }

    /// Rewrites every record of the table of the update.
    pub fn update(&mut self, updates: &TableUpdates) -> (event: QueryResult)
        requires
            old(self).wf(),
        ensures
            final(self).wf(),
            rows_updated(*old(self), *final(self), *updates, event_view(event)),
    {
        let columns = match self.columns_of(&updates.full_table_name) {
            Ok(columns) => columns,
            Err(error) => {
                return Err(error);
            },
        };
        let records = self.records_of(&updates.full_table_name);
        let batch = match update_records(&columns, updates, &records) {
            Ok(batch) => batch,
            Err(error) => {
                return Err(error);
            },
        };
        proof {
            let schema = updates.full_table_name.spec_schema();
            let table = updates.full_table_name.spec_table();
            assert(self.definition().has_table(schema, table) <==> self.catalog().has_table(
                schema,
                table,
            ));
            lemma_updates_keep_keys(
                columns@,
                column_models(updates.column_indices@),
                op_models(updates.input@),
                models(records@),
            );
        }
        let count = rewrite(
            &mut self.catalog,
            updates.full_table_name.schema(),
            updates.full_table_name.table(),
            batch,
        );
        proof {
            lemma_consistent_changed(
                self.definition,
                old(self).catalog,
                self.catalog,
                updates.full_table_name.spec_schema(),
                updates.full_table_name.spec_table(),
            );
        }
        Ok(QueryEvent::RecordsUpdated(count))
    }

    /// Takes every record out of the table of the delete.
    pub fn delete(&mut self, deletes: &TableDeletes) -> (event: QueryResult)
        requires
            old(self).wf(),
        ensures
            final(self).wf(),
            rows_deleted(*old(self), *final(self), *deletes, event_view(event)),
    {
        match self.columns_of(&deletes.full_table_name) {
            Ok(_) => {},
            Err(error) => {
                return Err(error);
            },
        }
        proof {
            let schema = deletes.full_table_name.spec_schema();
            let table = deletes.full_table_name.spec_table();
            assert(self.definition().has_table(schema, table) <==> self.catalog().has_table(
                schema,
                table,
            ));
        }
        let count = clear(
            &mut self.catalog,
            deletes.full_table_name.schema(),
            deletes.full_table_name.table(),
        );
        proof {
            lemma_consistent_changed(
                self.definition,
                old(self).catalog,
                self.catalog,
                deletes.full_table_name.spec_schema(),
                deletes.full_table_name.spec_table(),
            );
        }
        Ok(QueryEvent::RecordsDeleted(count))
    }

    /// Reads the selected columns of every record of the table.
    pub fn select(&self, select: &SelectInput) -> (event: QueryResult)
        requires
            self.wf(),
        ensures
            event_view(event) == rows_selected(*self, *select),
    {
        let columns = match self.columns_of(&select.full_table_name) {
            Ok(columns) => columns,
            Err(error) => {
                return Err(error);
            },
        };
        let records = self.records_of(&select.full_table_name);
        match read_rows(&records, &select.selected_columns) {
            Ok(rows) => Ok(
                QueryEvent::RecordsSelected((read_columns(&columns, &select.selected_columns), rows)),
            ),
            Err(error) => Err(error),
        }
    }
}

/// The names of the schemas.
pub open spec fn schema_names(schemas: Seq<(SchemaName, bool)>) -> Seq<Seq<char>> {
    schemas.map_values(|schema: (SchemaName, bool)| schema.0.spec_name())
}

/// The names of the tables, each with the name of its schema.
pub open spec fn table_names(tables: Seq<FullTableName>) -> Seq<(Seq<char>, Seq<char>)> {
    tables.map_values(|table: FullTableName| (table.spec_schema(), table.spec_table()))
}

/// Whether `states` are the executor before the first drop of a schema,
/// and after each drop in turn: every drop works on what the drop before
/// it has left.
pub open spec fn dropping_schemas(
    states: Seq<QueryExecutor>,
    names: Seq<Seq<char>>,
    events: Seq<EventView>,
) -> bool {
    &&& states.len() == names.len() + 1
    &&& events.len() == names.len()
    &&& forall|i: int|
        0 <= i < names.len() ==> #[trigger] schema_dropped(
            states[i],
            states[i + 1],
            names[i],
            events[i],
        )
}

/// What dropping the schemas one after the other does, and what each drop
/// answers.
pub open spec fn schemas_dropped(
    before: QueryExecutor,
    after: QueryExecutor,
    names: Seq<Seq<char>>,
    events: Seq<EventView>,
) -> bool {
    exists|states: Seq<QueryExecutor>| #[trigger]
        dropping_schemas(states, names, events) && states.first() == before && states.last()
            == after
}

/// Whether `states` are the executor before the first drop of a table,
/// and after each drop in turn: every drop works on what the drop before
/// it has left.
pub open spec fn dropping_tables(
    states: Seq<QueryExecutor>,
    names: Seq<(Seq<char>, Seq<char>)>,
    events: Seq<EventView>,
) -> bool {
    &&& states.len() == names.len() + 1
    &&& events.len() == names.len()
    &&& forall|i: int|
        0 <= i < names.len() ==> #[trigger] table_dropped(
            states[i],
            states[i + 1],
            names[i].0,
            names[i].1,
            events[i],
        )
}

/// What dropping the tables one after the other does, and what each drop
/// answers.
pub open spec fn tables_dropped(
    before: QueryExecutor,
    after: QueryExecutor,
    names: Seq<(Seq<char>, Seq<char>)>,
    events: Seq<EventView>,
) -> bool {
    exists|states: Seq<QueryExecutor>| #[trigger]
        dropping_tables(states, names, events) && states.first() == before && states.last()
            == after
}

/// What applying a plan does, and the events that it answers with: the
/// events of the plan, then the event that the statement is complete. A
/// statement that could not be planned changes nothing and answers with
/// its errors.
pub open spec fn applied(
    plan: Result<Plan, QueryError>,
    before: QueryExecutor,
    after: QueryExecutor,
    events: Seq<EventView>,
) -> bool {
    &&& events.len() > 0
    &&& events.last() == EventView::QueryComplete
    &&& match plan {
        Ok(Plan::CreateSchema(info)) => events.len() == 2 && schema_created(
            before,
            after,
            info.schema_name@,
            events[0],
        ),
        Ok(Plan::CreateTable(info)) => events.len() == 2 && table_created(
            before,
            after,
            info.schema_name@,
            info.table_name@,
            info.columns@,
            events[0],
        ),
        Ok(Plan::DropSchemas(schemas)) => schemas_dropped(
            before,
            after,
            schema_names(schemas@),
            events.drop_last(),
        ),
        Ok(Plan::DropTables(tables)) => tables_dropped(
            before,
            after,
            table_names(tables@),
            events.drop_last(),
        ),
        Ok(Plan::Insert(inserts)) => events.len() == 2 && rows_inserted(
            before,
            after,
            inserts,
            events[0],
        ),
        Ok(Plan::Update(updates)) => events.len() == 2 && rows_updated(
            before,
            after,
            updates,
            events[0],
        ),
        Ok(Plan::Delete(deletes)) => events.len() == 2 && rows_deleted(
            before,
            after,
            deletes,
            events[0],
        ),
        Ok(Plan::Select(select)) => events.len() == 2 && after == before && events[0]
            == rows_selected(before, select),
        Ok(Plan::NotProcessed(statement)) => events.len() == 2 && after == before && events[0]
            == not_processed(*statement),
        Err(error) => events.len() == 2 && after == before && events[0] == EventView::Failed(
            error@,
        ),
    }
}

/// The answer to a statement that is not planned.
pub fn answer_not_processed(statement: &Statement) -> (event: QueryResult)
    ensures
        event_view(event) == not_processed(*statement),
{
    let what = match statement {
        Statement::StartTransaction => {
            return Ok(QueryEvent::TransactionStarted);
        },
        Statement::SetVariable => {
            return Ok(QueryEvent::VariableSet);
        },
        Statement::CreateSchema { .. } => String::from_str("CREATE SCHEMA"),
        Statement::Drop { .. } => String::from_str("DROP"),
        Statement::Other(text) => text.clone(),
        _ => String::new(),
    };
    proof {
        reveal_strlit("");
        assert(""@ =~= Seq::<char>::empty());
    }
    Err(one_error(QueryErrorBuilder::new().feature_not_supported(what)))
}

impl QueryExecutor {
    /// Drops the schemas, one after the other.
    pub fn drop_schemas(&mut self, schemas: &Vec<(SchemaName, bool)>) -> (events: Vec<QueryResult>)
        requires
            old(self).wf(),
        ensures
            final(self).wf(),
            schemas_dropped(*old(self), *final(self), schema_names(schemas@), event_views(events@)),
    {
        let ghost names = schema_names(schemas@);
        let ghost mut states = seq![*self];
        let mut events: Vec<QueryResult> = Vec::new();
        let mut i: usize = 0;
        while i < schemas.len()
            invariant
                i <= schemas@.len(),
                self.wf(),
                names == schema_names(schemas@),
                states.first() == *old(self),
                states.last() == *self,
                dropping_schemas(states, names.take(i as int), event_views(events@)),
            decreases schemas.len() - i,
        {
            let ghost reached = states;
            let ghost answered = event_views(events@);
            let event = self.drop_schema(schemas[i].0.name());
            events.push(event);
            proof {
                states = reached.push(*self);
                let now = event_views(events@);
                assert(now =~= answered.push(event_view(event)));
                assert forall|j: int| 0 <= j < i + 1 implies #[trigger] schema_dropped(
                    states[j],
                    states[j + 1],
                    names.take(i + 1)[j],
                    now[j],
                ) by {
                    if j < i {
                        assert(schema_dropped(
                            reached[j],
                            reached[j + 1],
                            names.take(i as int)[j],
                            answered[j],
                        ));
                    }
                }
            }
            i += 1;
        }
        proof {
            assert(names.take(schemas@.len() as int) =~= names);
        }
        events
    }

    /// Drops the tables, one after the other.
    pub fn drop_tables(&mut self, tables: &Vec<FullTableName>) -> (events: Vec<QueryResult>)
        requires
            old(self).wf(),
        ensures
            final(self).wf(),
            tables_dropped(*old(self), *final(self), table_names(tables@), event_views(events@)),
    {
        let ghost names = table_names(tables@);
        let ghost mut states = seq![*self];
        let mut events: Vec<QueryResult> = Vec::new();
        let mut i: usize = 0;
        while i < tables.len()
            invariant
                i <= tables@.len(),
                self.wf(),
                names == table_names(tables@),
                states.first() == *old(self),
                states.last() == *self,
                dropping_tables(states, names.take(i as int), event_views(events@)),
            decreases tables.len() - i,
        {
            let ghost reached = states;
            let ghost answered = event_views(events@);
            let event = self.drop_table(tables[i].schema(), tables[i].table());
            events.push(event);
            proof {
                states = reached.push(*self);
                let now = event_views(events@);
                assert(now =~= answered.push(event_view(event)));
                assert forall|j: int| 0 <= j < i + 1 implies #[trigger] table_dropped(
                    states[j],
                    states[j + 1],
                    names.take(i + 1)[j].0,
                    names.take(i + 1)[j].1,
                    now[j],
                ) by {
                    if j < i {
                        assert(table_dropped(
                            reached[j],
                            reached[j + 1],
                            names.take(i as int)[j].0,
                            names.take(i as int)[j].1,
                            answered[j],
                        ));
                    }
                }
            }
            i += 1;
        }
        proof {
            assert(names.take(tables@.len() as int) =~= names);
        }
        events
    }

    /// Plans the statement against the definitions and applies the plan.
    /// The answer is the events of the plan, or the errors of the
    /// planning, and then the event that the statement is complete.
    pub fn execute(&mut self, statement: Statement) -> (events: Vec<QueryResult>)
        requires
            old(self).wf(),
        ensures
            final(self).wf(),
            exists|plan: Result<Plan, QueryError>| #[trigger]
                planned(statement, old(self).definition(), plan) && applied(
                    plan,
                    *old(self),
                    *final(self),
                    event_views(events@),
                ),
    {
        let plan = QueryPlanner::plan(statement, &self.definition);
        let ghost chosen = plan;
        let mut events: Vec<QueryResult> = match plan {
            Ok(Plan::CreateSchema(info)) => {
                let event = self.create_schema(info.schema_name.as_str());
                vec![event]
            },
            Ok(Plan::CreateTable(info)) => {
                let event = self.create_table(
                    info.schema_name.as_str(),
                    info.table_name.as_str(),
                    info.columns,
                );
                vec![event]
            },
            Ok(Plan::DropSchemas(schemas)) => self.drop_schemas(&schemas),
            Ok(Plan::DropTables(tables)) => self.drop_tables(&tables),
            Ok(Plan::Insert(inserts)) => {
                let event = self.insert(&inserts);
                vec![event]
            },
            Ok(Plan::Update(updates)) => {
                let event = self.update(&updates);
                vec![event]
            },
            Ok(Plan::Delete(deletes)) => {
                let event = self.delete(&deletes);
                vec![event]
            },
            Ok(Plan::Select(select)) => {
                let event = self.select(&select);
                vec![event]
            },
            Ok(Plan::NotProcessed(statement)) => {
                let event = answer_not_processed(&*statement);
                vec![event]
            },
            Err(error) => {
                let event: QueryResult = Err(error);
                vec![event]
            },
        };
        let ghost answered = event_views(events@);
        events.push(Ok(QueryEvent::QueryComplete));
        proof {
            assert(event_views(events@).drop_last() =~= answered);
            assert(event_views(events@).last() == EventView::QueryComplete);
            if answered.len() == 1 {
                assert(event_views(events@)[0] == answered[0]);
            }
            assert(applied(chosen, *old(self), *self, event_views(events@)));
        }
        events
    }
}

} // verus!
