//! Planning: a statement is checked against the definitions of the
//! database and turned into a plan, or into the errors that the client is
//! shown.

use vstd::prelude::*;
use crate::expr::{
    columns_of, expr_text, feature_not_supported, resolved, syntax_error, undefined_column,
    write_expr, ExpressionEvaluation,
};
use crate::metadata::{DataDefinition, Id, TableId};
use crate::results::{ErrorKindView, ErrorView, QueryError, QueryErrorBuilder, error_of, one_error};
use crate::scalar::{ScalarOp, ScalarOpModel};
use crate::sql_ast::{
    Assignment, ColumnDef, Expr, Ident, ObjectName, ObjectType, Query, SetExpr, Statement,
    TableFactor,
};
use crate::sql_model::{
    column_position, dotted, find_column, lowercase, to_lowercase, ColumnDefinition, ColumnType,
    FullTableName, SchemaName, TableDefinition,
};
use crate::text::{str_eq, texts};

verus! {

pub struct SchemaCreationInfo {
    pub schema_name: String,
}

impl SchemaCreationInfo {
    pub fn new(schema_name: &str) -> (info: SchemaCreationInfo)
        ensures
            info.schema_name@ == schema_name@,
    {
        SchemaCreationInfo { schema_name: String::from_str(schema_name) }
    }
}

pub struct TableCreationInfo {
    pub schema_id: Id,
    pub schema_name: String,
    pub table_name: String,
    pub columns: Vec<ColumnDefinition>,
}

/// A column that takes part in a statement: its position in the table,
/// its name and its type.
pub type ColumnIndex = (usize, String, ColumnType);

/// A `ColumnIndex` as plain values.
pub type ColumnIndexModel = (int, Seq<char>, ColumnType);

/// The columns as plain values.
pub open spec fn column_models(columns: Seq<ColumnIndex>) -> Seq<ColumnIndexModel> {
    columns.map_values(|column: ColumnIndex| (column.0 as int, column.1@, column.2))
}

/// The operations as plain values.
pub open spec fn op_models(ops: Seq<ScalarOp>) -> Seq<ScalarOpModel> {
    ops.map_values(|op: ScalarOp| op@)
}

/// The rows of operations as plain values.
pub open spec fn row_models(rows: Seq<Vec<ScalarOp>>) -> Seq<Seq<ScalarOpModel>> {
    rows.map_values(|row: Vec<ScalarOp>| op_models(row@))
}

pub struct TableInserts {
    pub table_id: TableId,
    pub full_table_name: FullTableName,
    /// The columns that the values of a row go to, in the order of the
    /// values.
    pub column_indices: Vec<ColumnIndex>,
    pub input: Vec<Vec<ScalarOp>>,
}

pub struct TableUpdates {
    pub table_id: TableId,
    pub full_table_name: FullTableName,
    /// The columns that are assigned to, in the order of the assignments.
    pub column_indices: Vec<ColumnIndex>,
    pub input: Vec<ScalarOp>,
}

pub struct TableDeletes {
    pub table_id: TableId,
    pub full_table_name: FullTableName,
}

pub struct SelectInput {
    pub table_id: TableId,
    pub full_table_name: FullTableName,
    /// The positions in the table of the columns that are selected.
    pub selected_columns: Vec<usize>,
}

pub enum Plan {
    CreateSchema(SchemaCreationInfo),
    CreateTable(TableCreationInfo),
    /// The schemas to drop, each with whether its tables go with it.
    DropSchemas(Vec<(SchemaName, bool)>),
    DropTables(Vec<FullTableName>),
    Insert(TableInserts),
    Update(TableUpdates),
    Delete(TableDeletes),
    Select(SelectInput),
    NotProcessed(Box<Statement>),
}

pub open spec fn schema_does_not_exist(name: Seq<char>) -> ErrorView {
    error_of("3F000"@, ErrorKindView::SchemaDoesNotExist(name))
}

pub open spec fn schema_already_exists(name: Seq<char>) -> ErrorView {
    error_of("42P06"@, ErrorKindView::SchemaAlreadyExists(name))
}

pub open spec fn table_does_not_exist(name: Seq<char>) -> ErrorView {
    error_of("42P01"@, ErrorKindView::TableDoesNotExist(name))
}

pub open spec fn table_already_exists(name: Seq<char>) -> ErrorView {
    error_of("42P07"@, ErrorKindView::TableAlreadyExists(name))
}

pub open spec fn duplicate_column(name: Seq<char>) -> ErrorView {
    error_of("42701"@, ErrorKindView::DuplicateColumn(name))
}

/// The name of a table is its schema and its own name, both in lower
/// case. A name of one part or of more than two is an error.
pub open spec fn table_named(name: ObjectName) -> Result<(Seq<char>, Seq<char>), ErrorView> {
    if name.0@.len() == 2 {
        Ok((lowercase(name.0@[0].value@), lowercase(name.0@[1].value@)))
    } else if name.0@.len() == 1 {
        Err(
            syntax_error(
                "unsupported table name '"@ + dotted(name)
                    + "'. All table names must be qualified"@,
            ),
        )
    } else {
        Err(syntax_error("unable to process table name '"@ + dotted(name) + "'"@))
    }
}

/// What finding the table of a statement gives: the names and identifiers
/// of the table, or the error that says what is missing.
pub open spec fn table_found(name: ObjectName, definition: DataDefinition) -> Result<
    (Seq<char>, Seq<char>, TableId),
    ErrorView,
> {
    match table_named(name) {
        Ok((schema, table)) => if !definition.schemas().dom().contains(schema) {
            Err(schema_does_not_exist(schema))
        } else if !definition.has_table(schema, table) {
            Err(table_does_not_exist(schema + "."@ + table))
        } else {
            Ok(
                (
                    schema,
                    table,
                    TableId(
                        definition.schemas()[schema].id,
                        definition.schemas()[schema].tables[table].id,
                    ),
                ),
            )
        },
        Err(error) => Err(error),
    }
}

/// Finds the table that the name names.
pub fn find_table(name: &ObjectName, definition: &DataDefinition) -> (found: Result<
    (FullTableName, TableId),
    QueryError,
>)
    requires
        definition.wf(),
    ensures
        match found {
            Ok((full_name, id)) => table_found(*name, *definition) == Ok::<
                (Seq<char>, Seq<char>, TableId),
                ErrorView,
            >((full_name.spec_schema(), full_name.spec_table(), id)),
            Err(error) => table_found(*name, *definition) matches Err(expected) && error@ == seq![
                expected,
            ],
        },
{
    let full_name = match FullTableName::try_from(name) {
        Ok(full_name) => full_name,
        Err(error) => {
            return Err(one_error(QueryErrorBuilder::new().syntax_error(error.message())));
        },
    };
    match definition.table_exists(full_name.schema(), full_name.table()) {
        None => Err(
            one_error(
                QueryErrorBuilder::new().schema_does_not_exist(String::from_str(full_name.schema())),
            ),
        ),
        Some((_, None)) => Err(
            one_error(QueryErrorBuilder::new().table_does_not_exist(full_name.text())),
        ),
        Some((schema_id, Some(table_id))) => Ok((full_name, TableId(schema_id, table_id))),
    }
}

/// The operations that the expressions of a row stand for; the first
/// expression that stands for none decides the error.
pub open spec fn row_resolved(row: Seq<Expr>, tables: Seq<Seq<ColumnDefinition>>) -> Result<
    Seq<ScalarOpModel>,
    ErrorView,
>
    decreases row.len(),
{
    if row.len() == 0 {
        Ok(Seq::empty())
    } else {
        match row_resolved(row.drop_last(), tables) {
            Ok(before) => match resolved(row.last(), tables) {
                Ok(op) => Ok(before.push(op)),
                Err(error) => Err(error),
            },
            Err(error) => Err(error),
        }
    }
}

/// The operations that the expressions of the rows stand for; the first
/// expression that stands for none decides the error.
pub open spec fn rows_resolved(rows: Seq<Vec<Expr>>) -> Result<Seq<Seq<ScalarOpModel>>, ErrorView>
    decreases rows.len(),
{
    if rows.len() == 0 {
        Ok(Seq::empty())
    } else {
        match rows_resolved(rows.drop_last()) {
            Ok(before) => match row_resolved(rows.last()@, Seq::empty()) {
                Ok(row) => Ok(before.push(row)),
                Err(error) => Err(error),
            },
            Err(error) => Err(error),
        }
    }
}

proof fn lemma_row_fails(row: Seq<Expr>, tables: Seq<Seq<ColumnDefinition>>, upto: int)
    requires
        0 <= upto <= row.len(),
        row_resolved(row.take(upto), tables) is Err,
    ensures
        row_resolved(row, tables) == row_resolved(row.take(upto), tables),
    decreases row.len() - upto,
{
    if upto < row.len() {
        assert(row.take(upto + 1).drop_last() =~= row.take(upto));
        lemma_row_fails(row, tables, upto + 1);
    } else {
        assert(row.take(upto) =~= row);
    }
}

proof fn lemma_rows_fail(rows: Seq<Vec<Expr>>, upto: int)
    requires
        0 <= upto <= rows.len(),
        rows_resolved(rows.take(upto)) is Err,
    ensures
        rows_resolved(rows) == rows_resolved(rows.take(upto)),
    decreases rows.len() - upto,
{
    if upto < rows.len() {
        assert(rows.take(upto + 1).drop_last() =~= rows.take(upto));
        lemma_rows_fail(rows, upto + 1);
    } else {
        assert(rows.take(upto) =~= rows);
    }
}

/// Resolves the expressions of a row.
pub fn resolve_row(row: &Vec<Expr>, evaluation: &ExpressionEvaluation) -> (ops: Result<
    Vec<ScalarOp>,
    QueryError,
>)
    ensures
        match ops {
            Ok(ops) => row_resolved(row@, columns_of(evaluation.table_info@)) == Ok::<
                Seq<ScalarOpModel>,
                ErrorView,
            >(op_models(ops@)),
            Err(error) => row_resolved(row@, columns_of(evaluation.table_info@)) matches Err(expected)
                && error@ == seq![expected],
        },
{
    let mut ops: Vec<ScalarOp> = Vec::new();
    let mut i: usize = 0;
    proof {
        assert(op_models(ops@) =~= Seq::<ScalarOpModel>::empty());
    }
    while i < row.len()
        invariant
            i <= row@.len(),
            row_resolved(row@.take(i as int), columns_of(evaluation.table_info@)) == Ok::<
                Seq<ScalarOpModel>,
                ErrorView,
            >(op_models(ops@)),
        decreases row.len() - i,
    {
        proof {
            assert(row@.take(i + 1).drop_last() =~= row@.take(i as int));
            assert(row@.take(i + 1).last() == row@[i as int]);
        }
        match evaluation.eval(&row[i]) {
            Ok(op) => {
                let ghost before = op_models(ops@);
                ops.push(op);
                assert(op_models(ops@) =~= before.push(op@));
            },
            Err(error) => {
                proof {
                    lemma_row_fails(row@, columns_of(evaluation.table_info@), i + 1);
                }
                return Err(error);
            },
        }
        i += 1;
    }
    proof {
        assert(row@.take(row@.len() as int) =~= row@);
    }
    Ok(ops)
}

/// Resolves the expressions of the rows of an insert, in which no column
/// can be named.
pub fn resolve_rows(rows: &Vec<Vec<Expr>>) -> (input: Result<Vec<Vec<ScalarOp>>, QueryError>)
    ensures
        match input {
            Ok(input) => rows_resolved(rows@) == Ok::<Seq<Seq<ScalarOpModel>>, ErrorView>(
                row_models(input@),
            ),
            Err(error) => rows_resolved(rows@) matches Err(expected) && error@ == seq![expected],
        },
{
    let evaluation = ExpressionEvaluation::new(Vec::new());
    let mut input: Vec<Vec<ScalarOp>> = Vec::new();
    let mut i: usize = 0;
    proof {
        assert(row_models(input@) =~= Seq::<Seq<ScalarOpModel>>::empty());
        assert(columns_of(evaluation.table_info@) =~= Seq::<Seq<ColumnDefinition>>::empty());
    }
    while i < rows.len()
        invariant
            i <= rows@.len(),
            columns_of(evaluation.table_info@) == Seq::<Seq<ColumnDefinition>>::empty(),
            rows_resolved(rows@.take(i as int)) == Ok::<Seq<Seq<ScalarOpModel>>, ErrorView>(
                row_models(input@),
            ),
        decreases rows.len() - i,
    {
        proof {
            assert(rows@.take(i + 1).drop_last() =~= rows@.take(i as int));
            assert(rows@.take(i + 1).last() == rows@[i as int]);
        }
        match resolve_row(&rows[i], &evaluation) {
            Ok(row) => {
                let ghost before = row_models(input@);
                input.push(row);
                assert(row_models(input@) =~= before.push(op_models(row@)));
            },
            Err(error) => {
                proof {
                    lemma_rows_fail(rows@, i + 1);
                }
                return Err(error);
            },
        }
        i += 1;
    }
    proof {
        assert(rows@.take(rows@.len() as int) =~= rows@);
    }
    Ok(input)
}

/// The names in lower case.
pub open spec fn lowered(names: Seq<Ident>) -> Seq<Seq<char>> {
    names.map_values(|name: Ident| lowercase(name.value@))
}

/// All columns of a table, each at its position.
pub open spec fn positional(all: Seq<ColumnDefinition>) -> Seq<ColumnIndexModel> {
    Seq::new(all.len(), |i: int| (i, all[i].spec_name(), all[i].spec_sql_type()))
}

/// The columns that the names name, in the order of the names; a name
/// that names no column is passed over.
pub open spec fn named(all: Seq<ColumnDefinition>, names: Seq<Seq<char>>) -> Seq<ColumnIndexModel>
    decreases names.len(),
{
    if names.len() == 0 {
        Seq::empty()
    } else {
        match column_position(all, names.last()) {
            Some(position) => named(all, names.drop_last()).push(
                (position, names.last(), all[position].spec_sql_type()),
            ),
            None => named(all, names.drop_last()),
        }
    }
}

/// The errors in the names, in the order of the names: a name that names
/// no column, and a name that names a column that was named before.
pub open spec fn naming_errors(all: Seq<ColumnDefinition>, names: Seq<Seq<char>>) -> Seq<ErrorView>
    decreases names.len(),
{
    if names.len() == 0 {
        Seq::empty()
    } else {
        let before = naming_errors(all, names.drop_last());
        match column_position(all, names.last()) {
            Some(_) => if names.drop_last().contains(names.last()) {
                before.push(duplicate_column(names.last()))
            } else {
                before
            },
            None => before.push(undefined_column(names.last())),
        }
    }
}

/// Whether one of the texts is `text`.
fn contains_text(all: &Vec<String>, text: &str) -> (found: bool)
    ensures
        found == texts(all@).contains(text@),
{
    let mut i: usize = 0;
    while i < all.len()
        invariant
            i <= all@.len(),
            !texts(all@).take(i as int).contains(text@),
        decreases all.len() - i,
    {
        if str_eq(all[i].as_str(), text) {
            assert(texts(all@)[i as int] == text@);
            return true;
        }
        proof {
            let upto = texts(all@).take(i + 1);
            if upto.contains(text@) {
                let at = choose|at: int| 0 <= at < upto.len() && upto[at] == text@;
                if at < i {
                    assert(texts(all@).take(i as int)[at] == text@);
                }
            }
        }
        i += 1;
    }
    proof {
        assert(texts(all@).take(all@.len() as int) =~= texts(all@));
    }
    false
}

/// All columns of a table, each at its position.
pub fn all_columns(all: &Vec<ColumnDefinition>) -> (columns: Vec<ColumnIndex>)
    ensures
        column_models(columns@) == positional(all@),
{
    let mut columns: Vec<ColumnIndex> = Vec::new();
    let mut i: usize = 0;
    while i < all.len()
        invariant
            i <= all@.len(),
            column_models(columns@) == positional(all@).take(i as int),
        decreases all.len() - i,
    {
        let ghost before = column_models(columns@);
        columns.push((i, all[i].name(), all[i].sql_type()));
        proof {
            assert(column_models(columns@) =~= before.push(positional(all@)[i as int]));
            assert(positional(all@).take(i + 1) =~= positional(all@).take(i as int).push(
                positional(all@)[i as int],
            ));
        }
        i += 1;
    }
    proof {
        assert(positional(all@).take(all@.len() as int) =~= positional(all@));
    }
    columns
}

/// The columns that the names name, and the errors in the names.
pub fn name_columns(all: &Vec<ColumnDefinition>, names: &[Ident]) -> (outcome: (
    Vec<ColumnIndex>,
    QueryErrorBuilder,
))
    ensures
        column_models(outcome.0@) == named(all@, lowered(names@)),
        outcome.1@ == naming_errors(all@, lowered(names@)),
{
    let ghost wanted = lowered(names@);
    let mut columns: Vec<ColumnIndex> = Vec::new();
    let mut errors = QueryErrorBuilder::new();
    let mut seen: Vec<String> = Vec::new();
    let mut i: usize = 0;
    while i < names.len()
        invariant
            i <= names@.len(),
            wanted == lowered(names@),
            texts(seen@) == wanted.take(i as int),
            column_models(columns@) == named(all@, wanted.take(i as int)),
            errors@ == naming_errors(all@, wanted.take(i as int)),
        decreases names.len() - i,
    {
        let name = to_lowercase(names[i].value.as_str());
        proof {
            assert(wanted.take(i + 1).drop_last() =~= wanted.take(i as int));
            assert(wanted.take(i + 1).last() == name@);
        }
        match find_column(all, name.as_str()) {
            Some((index, column)) => {
                if contains_text(&seen, name.as_str()) {
                    errors = errors.duplicate_column(name.clone());
                }
                let ghost before = column_models(columns@);
                columns.push((index, name.clone(), column.sql_type()));
                assert(column_models(columns@) =~= before.push(
                    (index as int, name@, all@[index as int].spec_sql_type()),
                ));
            },
            None => {
                errors = errors.undefined_column(name.clone());
            },
        }
        let ghost before = texts(seen@);
        seen.push(name);
        assert(texts(seen@) =~= before.push(wanted[i as int]));
        assert(wanted.take(i + 1) =~= wanted.take(i as int).push(wanted[i as int]));
        i += 1;
    }
    proof {
        assert(wanted.take(names@.len() as int) =~= wanted);
    }
    (columns, errors)
}

/// The source of the rows of an insert, as it is named in an error.
pub open spec fn source_text(source: SetExpr) -> Seq<char> {
    match source {
        SetExpr::Select(_) => "SELECT"@,
        SetExpr::Values(_) => "VALUES"@,
        SetExpr::Other(text) => text@,
    }
}

/// What planning an insert gives: nothing but the errors, if there are
/// any.
pub open spec fn insert_errors(
    table_name: ObjectName,
    columns: Seq<Ident>,
    source: Query,
    definition: DataDefinition,
) -> Seq<ErrorView> {
    match table_found(table_name, definition) {
        Ok((schema, table, _)) => match source.body {
            SetExpr::Values(rows) => match rows_resolved(rows@) {
                Ok(_) => if columns.len() == 0 {
                    Seq::empty()
                } else {
                    naming_errors(definition.columns(schema, table), lowered(columns))
                },
                Err(error) => seq![error],
            },
            other => seq![syntax_error(source_text(other) + " is not supported"@)],
        },
        Err(error) => seq![error],
    }
}

/// Whether `plan` is what planning the insert gives.
pub open spec fn insert_planned(
    table_name: ObjectName,
    columns: Seq<Ident>,
    source: Query,
    definition: DataDefinition,
    plan: Result<Plan, QueryError>,
) -> bool {
    match plan {
        Ok(Plan::Insert(inserts)) => {
            let all = definition.columns(
                inserts.full_table_name.spec_schema(),
                inserts.full_table_name.spec_table(),
            );
            &&& insert_errors(table_name, columns, source, definition).len() == 0
            &&& table_found(table_name, definition) == Ok::<
                (Seq<char>, Seq<char>, TableId),
                ErrorView,
            >(
                (
                    inserts.full_table_name.spec_schema(),
                    inserts.full_table_name.spec_table(),
                    inserts.table_id,
                ),
            )
            &&& source.body matches SetExpr::Values(rows) && rows_resolved(rows@) == Ok::<
                Seq<Seq<ScalarOpModel>>,
                ErrorView,
            >(row_models(inserts.input@))
            &&& column_models(inserts.column_indices@) == if columns.len() == 0 {
                positional(all)
            } else {
                named(all, lowered(columns))
            }
        },
        Ok(_) => false,
        Err(error) => error@.len() > 0 && error@ == insert_errors(
            table_name,
            columns,
            source,
            definition,
        ),
    }
}

/// Plans the insertion of rows into a table.
pub struct InsertPlanner<'ip> {
    pub table_name: &'ip ObjectName,
    pub columns: &'ip [Ident],
    pub source: &'ip Query,
}

impl<'ip> InsertPlanner<'ip> {
    pub fn new(table_name: &'ip ObjectName, columns: &'ip [Ident], source: &'ip Query) -> (planner:
        InsertPlanner<'ip>)
        ensures
            planner.table_name == table_name,
            planner.columns == columns,
            planner.source == source,
    {
        InsertPlanner { table_name, columns, source }
    }

    /// The plan of the insertion.
    ///
    /// The table must exist. The rows must be given as values, and every
    /// value must stand for a scalar operation. Where target columns are
    /// named, each must name a column of the table, and none may be named
    /// twice; where none is named, the values go to all columns in their
    /// order.
    pub fn plan(self, data_manager: &DataDefinition) -> (plan: Result<Plan, QueryError>)
        requires
            data_manager.wf(),
        ensures
            insert_planned(*self.table_name, self.columns@, *self.source, *data_manager, plan),
    {
        let (full_table_name, table_id) = find_table(self.table_name, data_manager)?;
        let rows = match &self.source.body {
            SetExpr::Values(rows) => rows,
            SetExpr::Select(_) => {
                return Err(
                    one_error(
                        QueryErrorBuilder::new().syntax_error(
                            String::from_str("SELECT").concat(" is not supported"),
                        ),
                    ),
                );
            },
            SetExpr::Other(text) => {
                return Err(
                    one_error(
                        QueryErrorBuilder::new().syntax_error(text.clone().concat(" is not supported")),
                    ),
                );
            },
        };
        let input = resolve_rows(rows)?;
        let all = match data_manager.table_columns(full_table_name.schema(), full_table_name.table()) {
            Some(all) => all,
            None => {
                assert(false);
                Vec::new()
            },
        };
        let column_indices = if self.columns.len() == 0 {
            all_columns(&all)
        } else {
            let (columns, errors) = name_columns(&all, self.columns);
            if errors.errors.len() > 0 {
                return Err(errors.build());
            }
            columns
        };
        Ok(Plan::Insert(TableInserts { table_id, full_table_name, column_indices, input }))
    }
}

/// What planning the creation of a schema gives: the name of the schema,
/// or the error.
pub open spec fn schema_to_create(name: ObjectName, definition: DataDefinition) -> Result<
    Seq<char>,
    ErrorView,
> {
    if name.0@.len() != 1 {
        Err(
            syntax_error(
                "only unqualified schema names are supported, '"@ + dotted(name) + "'"@,
            ),
        )
    } else if definition.schemas().dom().contains(lowercase(name.0@[0].value@)) {
        Err(schema_already_exists(lowercase(name.0@[0].value@)))
    } else {
        Ok(lowercase(name.0@[0].value@))
    }
}

/// Whether `plan` is what planning the creation of the schema gives.
pub open spec fn create_schema_planned(
    schema_name: ObjectName,
    definition: DataDefinition,
    plan: Result<Plan, QueryError>,
) -> bool {
    match plan {
        Ok(Plan::CreateSchema(info)) => schema_to_create(schema_name, definition) == Ok::<
            Seq<char>,
            ErrorView,
        >(info.schema_name@),
        Ok(_) => false,
        Err(error) => schema_to_create(schema_name, definition) matches Err(expected) && error@
            == seq![expected],
    }
}

/// Plans the creation of a schema.
pub struct CreateSchemaPlanner {
    pub schema_name: ObjectName,
}

impl CreateSchemaPlanner {
    pub fn new(schema_name: ObjectName) -> (planner: CreateSchemaPlanner)
        ensures
            planner.schema_name == schema_name,
    {
        CreateSchemaPlanner { schema_name }
    }

    /// The plan of the creation: the schema must be named by one name, and
    /// no schema of the name may exist.
    pub fn plan(self, data_manager: &DataDefinition) -> (plan: Result<Plan, QueryError>)
        requires
            data_manager.wf(),
        ensures
            create_schema_planned(self.schema_name, *data_manager, plan),
    {
        match SchemaName::try_from(&self.schema_name) {
            Ok(schema_name) => match data_manager.schema_exists(schema_name.name()) {
                Some(_) => Err(
                    one_error(
                        QueryErrorBuilder::new().schema_already_exists(
                            String::from_str(schema_name.name()),
                        ),
                    ),
                ),
                None => Ok(Plan::CreateSchema(SchemaCreationInfo::new(schema_name.name()))),
            },
            Err(error) => Err(one_error(QueryErrorBuilder::new().syntax_error(error.message()))),
        }
    }
}

/// The names that the assignments assign to, in lower case.
pub open spec fn assigned_names(assignments: Seq<Assignment>) -> Seq<Seq<char>> {
    assignments.map_values(|assignment: Assignment| lowercase(assignment.id.value@))
}

pub open spec fn assigned_twice(name: Seq<char>) -> ErrorView {
    syntax_error("multiple assignments to same column \""@ + name + "\""@)
}

/// The errors in the assignments, in the order of the assignments: for an
/// assignment to a column of the table, the value that stands for no
/// scalar operation, then the column that was assigned to before; for
/// any other assignment, the column that does not exist.
pub open spec fn assignment_errors(all: Seq<ColumnDefinition>, assignments: Seq<Assignment>) -> Seq<
    ErrorView,
>
    decreases assignments.len(),
{
    if assignments.len() == 0 {
        Seq::empty()
    } else {
        let before = assignment_errors(all, assignments.drop_last());
        let name = lowercase(assignments.last().id.value@);
        match column_position(all, name) {
            Some(_) => {
                let valued = match resolved(assignments.last().value, seq![all]) {
                    Ok(_) => before,
                    Err(error) => before.push(error),
                };
                if assigned_names(assignments.drop_last()).contains(name) {
                    valued.push(assigned_twice(name))
                } else {
                    valued
                }
            },
            None => before.push(undefined_column(name)),
        }
    }
}

/// The values of the assignments to columns of the table, as far as they
/// stand for scalar operations, in the order of the assignments.
pub open spec fn assigned_values(all: Seq<ColumnDefinition>, assignments: Seq<Assignment>) -> Seq<
    ScalarOpModel,
>
    decreases assignments.len(),
{
    if assignments.len() == 0 {
        Seq::empty()
    } else {
        let before = assigned_values(all, assignments.drop_last());
        match column_position(all, lowercase(assignments.last().id.value@)) {
            Some(_) => match resolved(assignments.last().value, seq![all]) {
                Ok(value) => before.push(value),
                Err(_) => before,
            },
            None => before,
        }
    }
}

/// What planning an update gives: nothing but the errors, if there are
/// any.
pub open spec fn update_errors(
    table_name: ObjectName,
    assignments: Seq<Assignment>,
    definition: DataDefinition,
) -> Seq<ErrorView> {
    match table_found(table_name, definition) {
        Ok((schema, table, _)) => assignment_errors(definition.columns(schema, table), assignments),
        Err(error) => seq![error],
    }
}

/// Whether `plan` is what planning the update gives.
pub open spec fn update_planned(
    table_name: ObjectName,
    assignments: Seq<Assignment>,
    definition: DataDefinition,
    plan: Result<Plan, QueryError>,
) -> bool {
    match plan {
        Ok(Plan::Update(updates)) => {
            let all = definition.columns(
                updates.full_table_name.spec_schema(),
                updates.full_table_name.spec_table(),
            );
            &&& update_errors(table_name, assignments, definition).len() == 0
            &&& table_found(table_name, definition) == Ok::<
                (Seq<char>, Seq<char>, TableId),
                ErrorView,
            >(
                (
                    updates.full_table_name.spec_schema(),
                    updates.full_table_name.spec_table(),
                    updates.table_id,
                ),
            )
            &&& column_models(updates.column_indices@) == named(all, assigned_names(assignments))
            &&& op_models(updates.input@) == assigned_values(all, assignments)
        },
        Ok(_) => false,
        Err(error) => error@.len() > 0 && error@ == update_errors(
            table_name,
            assignments,
            definition,
        ),
    }
}

/// Plans the update of the rows of a table.
pub struct UpdatePlanner<'up> {
    pub table_name: &'up ObjectName,
    pub assignments: &'up [Assignment],
}

impl<'up> UpdatePlanner<'up> {
    pub fn new(table_name: &'up ObjectName, assignments: &'up [Assignment]) -> (planner:
        UpdatePlanner<'up>)
        ensures
            planner.table_name == table_name,
            planner.assignments == assignments,
    {
        UpdatePlanner { table_name, assignments }
    }

    /// The plan of the update.
    ///
    /// The table must exist. Each assignment must name a column of the
    /// table that no assignment before it names, and its value must stand
    /// for a scalar operation on the columns of the table.
    pub fn plan(self, data_manager: &DataDefinition) -> (plan: Result<Plan, QueryError>)
        requires
            data_manager.wf(),
        ensures
            update_planned(*self.table_name, self.assignments@, *data_manager, plan),
    {
        let (full_table_name, table_id) = find_table(self.table_name, data_manager)?;
        let all = match data_manager.table_columns(full_table_name.schema(), full_table_name.table()) {
            Some(all) => all,
            None => {
                assert(false);
                Vec::new()
            },
        };
        let mut tables: Vec<TableDefinition> = Vec::new();
        tables.push(
            TableDefinition::new(
                full_table_name.schema(),
                full_table_name.table(),
                crate::metadata::copy_columns(&all),
            ),
        );
        let evaluation = ExpressionEvaluation::new(tables);
        proof {
            assert(columns_of(evaluation.table_info@) =~= seq![all@]);
        }
        let (column_indices, input, errors) = plan_assignments(&all, self.assignments, &evaluation);
        if errors.errors.len() > 0 {
            return Err(errors.build());
        }
        Ok(Plan::Update(TableUpdates { table_id, full_table_name, column_indices, input }))
    }
}

/// The columns and values of the assignments, and the errors in them.
pub fn plan_assignments(
    all: &Vec<ColumnDefinition>,
    assignments: &[Assignment],
    evaluation: &ExpressionEvaluation,
) -> (outcome: (Vec<ColumnIndex>, Vec<ScalarOp>, QueryErrorBuilder))
    requires
        columns_of(evaluation.table_info@) == seq![all@],
    ensures
        column_models(outcome.0@) == named(all@, assigned_names(assignments@)),
        op_models(outcome.1@) == assigned_values(all@, assignments@),
        outcome.2@ == assignment_errors(all@, assignments@),
{
    let ghost wanted = assigned_names(assignments@);
    let mut column_indices: Vec<ColumnIndex> = Vec::new();
    let mut input: Vec<ScalarOp> = Vec::new();
    let mut errors = QueryErrorBuilder::new();
    let mut seen: Vec<String> = Vec::new();
    let mut i: usize = 0;
    proof {
        assert(op_models(input@) =~= Seq::<ScalarOpModel>::empty());
        assert(column_models(column_indices@) =~= Seq::<ColumnIndexModel>::empty());
        assert(texts(seen@) =~= wanted.take(0));
    }
    while i < assignments.len()
        invariant
            i <= assignments@.len(),
            columns_of(evaluation.table_info@) == seq![all@],
            wanted == assigned_names(assignments@),
            texts(seen@) == wanted.take(i as int),
            column_models(column_indices@) == named(all@, wanted.take(i as int)),
            op_models(input@) == assigned_values(all@, assignments@.take(i as int)),
            errors@ == assignment_errors(all@, assignments@.take(i as int)),
        decreases assignments.len() - i,
    {
        let name = to_lowercase(assignments[i].id.value.as_str());
        proof {
            assert(wanted.take(i + 1).drop_last() =~= wanted.take(i as int));
            assert(wanted.take(i + 1).last() == name@);
            assert(assignments@.take(i + 1).drop_last() =~= assignments@.take(i as int));
            assert(assignments@.take(i + 1).last() == assignments@[i as int]);
            assert(assigned_names(assignments@.take(i as int)) =~= wanted.take(i as int));
        }
        match find_column(all, name.as_str()) {
            Some((index, column)) => {
                match evaluation.eval(&assignments[i].value) {
                    Ok(value) => {
                        let ghost before = op_models(input@);
                        input.push(value);
                        assert(op_models(input@) =~= before.push(value@));
                    },
                    Err(error) => {
                        errors = add_errors(errors, error);
                    },
                }
                if contains_text(&seen, name.as_str()) {
                    let mut text = String::from_str("multiple assignments to same column \"");
                    text.append(name.as_str());
                    text.append("\"");
                    errors = errors.syntax_error(text);
                }
                let ghost before = column_models(column_indices@);
                column_indices.push((index, column.name(), column.sql_type()));
                assert(column_models(column_indices@) =~= before.push(
                    (index as int, name@, all@[index as int].spec_sql_type()),
                ));
            },
            None => {
                errors = errors.undefined_column(name.clone());
            },
        }
        let ghost before = texts(seen@);
        seen.push(name);
        assert(texts(seen@) =~= before.push(wanted[i as int]));
        assert(wanted.take(i + 1) =~= wanted.take(i as int).push(wanted[i as int]));
        i += 1;
    }
    proof {
        assert(wanted.take(assignments@.len() as int) =~= wanted);
        assert(assignments@.take(assignments@.len() as int) =~= assignments@);
    }
    (column_indices, input, errors)
}

/// Adds the one error of `error` to the errors collected so far.
fn add_errors(errors: QueryErrorBuilder, error: QueryError) -> (all: QueryErrorBuilder)
    requires
        error@.len() == 1,
    ensures
        all@ == errors@.push(error@[0]),
{
    let mut errors = errors;
    let mut error = error;
    let ghost before = errors@;
    let ghost added = error@;
    errors.errors.append(&mut error.errors);
    proof {
        assert(errors@ =~= before + added);
        assert(before + added =~= before.push(added[0]));
    }
    errors
}

/// The definitions of the columns of a new table, in their order; the
/// first column of a type that has no column type decides the error.
pub open spec fn defined_columns(columns: Seq<ColumnDef>) -> Result<
    Seq<(Seq<char>, ColumnType)>,
    ErrorView,
>
    decreases columns.len(),
{
    if columns.len() == 0 {
        Ok(Seq::empty())
    } else {
        match defined_columns(columns.drop_last()) {
            Ok(before) => match ColumnType::spec_from_data_type(columns.last().data_type) {
                Some(column_type) => Ok(
                    before.push((lowercase(columns.last().name.value@), column_type)),
                ),
                None => Err(
                    feature_not_supported(
                        "type of column \""@ + columns.last().name.value@ + "\" is not supported"@,
                    ),
                ),
            },
            Err(error) => Err(error),
        }
    }
}

/// The names and types of the column definitions.
pub open spec fn definition_models(columns: Seq<ColumnDefinition>) -> Seq<(Seq<char>, ColumnType)> {
    columns.map_values(|column: ColumnDefinition| (column.spec_name(), column.spec_sql_type()))
}

proof fn lemma_definitions_fail(columns: Seq<ColumnDef>, upto: int)
    requires
        0 <= upto <= columns.len(),
        defined_columns(columns.take(upto)) is Err,
    ensures
        defined_columns(columns) == defined_columns(columns.take(upto)),
    decreases columns.len() - upto,
{
    if upto < columns.len() {
        assert(columns.take(upto + 1).drop_last() =~= columns.take(upto));
        lemma_definitions_fail(columns, upto + 1);
    } else {
        assert(columns.take(upto) =~= columns);
    }
}

/// What planning the creation of a table gives: where the table goes and
/// how its columns are defined, or the error.
pub open spec fn table_to_create(
    name: ObjectName,
    columns: Seq<ColumnDef>,
    definition: DataDefinition,
) -> Result<(Seq<char>, Seq<char>, Seq<(Seq<char>, ColumnType)>), ErrorView> {
    match table_named(name) {
        Ok((schema, table)) => if !definition.schemas().dom().contains(schema) {
            Err(schema_does_not_exist(schema))
        } else if definition.has_table(schema, table) {
            Err(table_already_exists(schema + "."@ + table))
        } else {
            match defined_columns(columns) {
                Ok(defined) => Ok((schema, table, defined)),
                Err(error) => Err(error),
            }
        },
        Err(error) => Err(error),
    }
}

/// Whether `plan` is what planning the creation of the table gives.
pub open spec fn create_table_planned(
    name: ObjectName,
    columns: Seq<ColumnDef>,
    definition: DataDefinition,
    plan: Result<Plan, QueryError>,
) -> bool {
    match plan {
        Ok(Plan::CreateTable(info)) => table_to_create(name, columns, definition) == Ok::<
            (Seq<char>, Seq<char>, Seq<(Seq<char>, ColumnType)>),
            ErrorView,
        >((info.schema_name@, info.table_name@, definition_models(info.columns@)))
            && definition.schemas().dom().contains(info.schema_name@) && info.schema_id
            == definition.schemas()[info.schema_name@].id,
        Ok(_) => false,
        Err(error) => table_to_create(name, columns, definition) matches Err(expected) && error@
            == seq![expected],
    }
}

/// The definitions of the columns of a new table.
pub fn define_columns(columns: &Vec<ColumnDef>) -> (defined: Result<
    Vec<ColumnDefinition>,
    QueryError,
>)
    ensures
        match defined {
            Ok(defined) => defined_columns(columns@) == Ok::<
                Seq<(Seq<char>, ColumnType)>,
                ErrorView,
            >(definition_models(defined@)),
            Err(error) => defined_columns(columns@) matches Err(expected) && error@ == seq![
                expected,
            ],
        },
{
    let mut defined: Vec<ColumnDefinition> = Vec::new();
    let mut i: usize = 0;
    proof {
        assert(definition_models(defined@) =~= Seq::<(Seq<char>, ColumnType)>::empty());
    }
    while i < columns.len()
        invariant
            i <= columns@.len(),
            defined_columns(columns@.take(i as int)) == Ok::<
                Seq<(Seq<char>, ColumnType)>,
                ErrorView,
            >(definition_models(defined@)),
        decreases columns.len() - i,
    {
        proof {
            assert(columns@.take(i + 1).drop_last() =~= columns@.take(i as int));
            assert(columns@.take(i + 1).last() == columns@[i as int]);
        }
        match ColumnType::from_data_type(&columns[i].data_type) {
            Some(column_type) => {
                let ghost before = definition_models(defined@);
                let column = ColumnDefinition::new(columns[i].name.value.as_str(), column_type);
                defined.push(column);
                assert(definition_models(defined@) =~= before.push(
                    (lowercase(columns@[i as int].name.value@), column_type),
                ));
            },
            None => {
                proof {
                    lemma_definitions_fail(columns@, i + 1);
                }
                let mut text = String::from_str("type of column \"");
                text.append(columns[i].name.value.as_str());
                text.append("\" is not supported");
                return Err(one_error(QueryErrorBuilder::new().feature_not_supported(text)));
            },
        }
        i += 1;
    }
    proof {
        assert(columns@.take(columns@.len() as int) =~= columns@);
    }
    Ok(defined)
}

/// Plans the creation of a table: its schema must exist and have no table
/// of the name, and every column must be of a type that has a column type.
pub fn plan_create_table(name: &ObjectName, columns: &Vec<ColumnDef>, definition: &DataDefinition) -> (plan:
    Result<Plan, QueryError>)
    requires
        definition.wf(),
    ensures
        create_table_planned(*name, columns@, *definition, plan),
{
    let full_name = match FullTableName::try_from(name) {
        Ok(full_name) => full_name,
        Err(error) => {
            return Err(one_error(QueryErrorBuilder::new().syntax_error(error.message())));
        },
    };
    let schema_id = match definition.table_exists(full_name.schema(), full_name.table()) {
        None => {
            return Err(
                one_error(
                    QueryErrorBuilder::new().schema_does_not_exist(
                        String::from_str(full_name.schema()),
                    ),
                ),
            );
        },
        Some((_, Some(_))) => {
            return Err(one_error(QueryErrorBuilder::new().table_already_exists(full_name.text())));
        },
        Some((schema_id, None)) => schema_id,
    };
    let defined = define_columns(columns)?;
    Ok(
        Plan::CreateTable(
            TableCreationInfo {
                schema_id,
                schema_name: String::from_str(full_name.schema()),
                table_name: String::from_str(full_name.table()),
                columns: defined,
            },
        ),
    )
}

/// The schemas that the names name, in the order of the names; the first
/// name that names no schema decides the error.
pub open spec fn schemas_named(names: Seq<ObjectName>, definition: DataDefinition) -> Result<
    Seq<Seq<char>>,
    ErrorView,
>
    decreases names.len(),
{
    if names.len() == 0 {
        Ok(Seq::empty())
    } else {
        match schemas_named(names.drop_last(), definition) {
            Ok(before) => if names.last().0@.len() != 1 {
                Err(
                    syntax_error(
                        "only unqualified schema names are supported, '"@ + dotted(names.last())
                            + "'"@,
                    ),
                )
            } else if !definition.schemas().dom().contains(lowercase(names.last().0@[0].value@)) {
                Err(schema_does_not_exist(lowercase(names.last().0@[0].value@)))
            } else {
                Ok(before.push(lowercase(names.last().0@[0].value@)))
            },
            Err(error) => Err(error),
        }
    }
}

/// The tables that the names name, in the order of the names; the first
/// name that names no table decides the error.
pub open spec fn tables_named(names: Seq<ObjectName>, definition: DataDefinition) -> Result<
    Seq<(Seq<char>, Seq<char>)>,
    ErrorView,
>
    decreases names.len(),
{
    if names.len() == 0 {
        Ok(Seq::empty())
    } else {
        match tables_named(names.drop_last(), definition) {
            Ok(before) => match table_found(names.last(), definition) {
                Ok((schema, table, _)) => Ok(before.push((schema, table))),
                Err(error) => Err(error),
            },
            Err(error) => Err(error),
        }
    }
}

proof fn lemma_schemas_fail(names: Seq<ObjectName>, definition: DataDefinition, upto: int)
    requires
        0 <= upto <= names.len(),
        schemas_named(names.take(upto), definition) is Err,
    ensures
        schemas_named(names, definition) == schemas_named(names.take(upto), definition),
    decreases names.len() - upto,
{
    if upto < names.len() {
        assert(names.take(upto + 1).drop_last() =~= names.take(upto));
        lemma_schemas_fail(names, definition, upto + 1);
    } else {
        assert(names.take(upto) =~= names);
    }
}

proof fn lemma_tables_fail(names: Seq<ObjectName>, definition: DataDefinition, upto: int)
    requires
        0 <= upto <= names.len(),
        tables_named(names.take(upto), definition) is Err,
    ensures
        tables_named(names, definition) == tables_named(names.take(upto), definition),
    decreases names.len() - upto,
{
    if upto < names.len() {
        assert(names.take(upto + 1).drop_last() =~= names.take(upto));
        lemma_tables_fail(names, definition, upto + 1);
    } else {
        assert(names.take(upto) =~= names);
    }
}

/// The names of the schemas, as characters.
pub open spec fn schema_names(schemas: Seq<(SchemaName, bool)>) -> Seq<Seq<char>> {
    schemas.map_values(|schema: (SchemaName, bool)| schema.0.spec_name())
}

/// The names of the tables, as characters.
pub open spec fn table_names(tables: Seq<FullTableName>) -> Seq<(Seq<char>, Seq<char>)> {
    tables.map_values(|table: FullTableName| (table.spec_schema(), table.spec_table()))
}

/// Whether `plan` is what planning the drop gives.
pub open spec fn drop_planned(
    object_type: ObjectType,
    names: Seq<ObjectName>,
    cascade: bool,
    definition: DataDefinition,
    plan: Result<Plan, QueryError>,
) -> bool {
    match object_type {
        ObjectType::Schema => match plan {
            Ok(Plan::DropSchemas(schemas)) => schemas_named(names, definition) == Ok::<
                Seq<Seq<char>>,
                ErrorView,
            >(schema_names(schemas@)) && forall|i: int|
                0 <= i < schemas@.len() ==> (#[trigger] schemas@[i]).1 == cascade,
            Ok(_) => false,
            Err(error) => schemas_named(names, definition) matches Err(expected) && error@
                == seq![expected],
        },
        ObjectType::Table => match plan {
            Ok(Plan::DropTables(tables)) => tables_named(names, definition) == Ok::<
                Seq<(Seq<char>, Seq<char>)>,
                ErrorView,
            >(table_names(tables@)),
            Ok(_) => false,
            Err(error) => tables_named(names, definition) matches Err(expected) && error@
                == seq![expected],
        },
        ObjectType::Other => false,
    }
}

/// Plans the drop of schemas: each must be named by one name and exist.
pub fn plan_drop_schemas(names: &Vec<ObjectName>, cascade: bool, definition: &DataDefinition) -> (plan:
    Result<Plan, QueryError>)
    requires
        definition.wf(),
    ensures
        drop_planned(ObjectType::Schema, names@, cascade, *definition, plan),
{
    let mut schemas: Vec<(SchemaName, bool)> = Vec::new();
    let mut i: usize = 0;
    proof {
        assert(schema_names(schemas@) =~= Seq::<Seq<char>>::empty());
    }
    while i < names.len()
        invariant
            i <= names@.len(),
            definition.wf(),
            schemas_named(names@.take(i as int), *definition) == Ok::<Seq<Seq<char>>, ErrorView>(
                schema_names(schemas@),
            ),
            forall|j: int| 0 <= j < schemas@.len() ==> (#[trigger] schemas@[j]).1 == cascade,
        decreases names.len() - i,
    {
        proof {
            assert(names@.take(i + 1).drop_last() =~= names@.take(i as int));
            assert(names@.take(i + 1).last() == names@[i as int]);
        }
        let schema_name = match SchemaName::try_from(&names[i]) {
            Ok(schema_name) => schema_name,
            Err(error) => {
                proof {
                    lemma_schemas_fail(names@, *definition, i + 1);
                }
                return Err(one_error(QueryErrorBuilder::new().syntax_error(error.message())));
            },
        };
        if definition.schema_exists(schema_name.name()).is_none() {
            proof {
                lemma_schemas_fail(names@, *definition, i + 1);
            }
            return Err(
                one_error(
                    QueryErrorBuilder::new().schema_does_not_exist(
                        String::from_str(schema_name.name()),
                    ),
                ),
            );
        }
        let ghost before = schema_names(schemas@);
        schemas.push((schema_name, cascade));
        assert(schema_names(schemas@) =~= before.push(lowercase(names@[i as int].0@[0].value@)));
        i += 1;
    }
    proof {
        assert(names@.take(names@.len() as int) =~= names@);
    }
    Ok(Plan::DropSchemas(schemas))
}

/// Plans the drop of tables: each must be named with its schema and exist.
pub fn plan_drop_tables(names: &Vec<ObjectName>, definition: &DataDefinition) -> (plan: Result<
    Plan,
    QueryError,
>)
    requires
        definition.wf(),
    ensures
        drop_planned(ObjectType::Table, names@, false, *definition, plan),
{
    let mut tables: Vec<FullTableName> = Vec::new();
    let mut i: usize = 0;
    proof {
        assert(table_names(tables@) =~= Seq::<(Seq<char>, Seq<char>)>::empty());
    }
    while i < names.len()
        invariant
            i <= names@.len(),
            definition.wf(),
            tables_named(names@.take(i as int), *definition) == Ok::<
                Seq<(Seq<char>, Seq<char>)>,
                ErrorView,
            >(table_names(tables@)),
        decreases names.len() - i,
    {
        proof {
            assert(names@.take(i + 1).drop_last() =~= names@.take(i as int));
            assert(names@.take(i + 1).last() == names@[i as int]);
        }
        match find_table(&names[i], definition) {
            Ok((full_name, _)) => {
                let ghost before = table_names(tables@);
                tables.push(full_name);
                assert(table_names(tables@) =~= before.push(
                    (full_name.spec_schema(), full_name.spec_table()),
                ));
            },
            Err(error) => {
                proof {
                    lemma_tables_fail(names@, *definition, i + 1);
                }
                return Err(error);
            },
        }
        i += 1;
    }
    proof {
        assert(names@.take(names@.len() as int) =~= names@);
    }
    Ok(Plan::DropTables(tables))
}

pub open spec fn not_supported_operation(text: Seq<char>) -> ErrorView {
    error_of("42601"@, ErrorKindView::NotSupportedOperation(text))
}

/// Whether `plan` is what planning the delete gives: all rows of the table
/// are deleted; a condition is not supported.
pub open spec fn delete_planned(
    table_name: ObjectName,
    selection: Option<Expr>,
    definition: DataDefinition,
    plan: Result<Plan, QueryError>,
) -> bool {
    match selection {
        Some(condition) => plan matches Err(error) && error@ == seq![
            not_supported_operation(expr_text(condition)),
        ],
        None => match plan {
            Ok(Plan::Delete(deletes)) => table_found(table_name, definition) == Ok::<
                (Seq<char>, Seq<char>, TableId),
                ErrorView,
            >(
                (
                    deletes.full_table_name.spec_schema(),
                    deletes.full_table_name.spec_table(),
                    deletes.table_id,
                ),
            ),
            Ok(_) => false,
            Err(error) => table_found(table_name, definition) matches Err(expected) && error@
                == seq![expected],
        },
    }
}

fn condition_not_supported(condition: &Expr) -> (error: QueryError)
    ensures
        error@ == seq![not_supported_operation(expr_text(*condition))],
{
    one_error(QueryErrorBuilder::new().not_supported_operation(write_expr(condition)))
}

/// Plans the deletion of the rows of a table.
pub fn plan_delete(table_name: &ObjectName, selection: &Option<Expr>, definition: &DataDefinition) -> (plan:
    Result<Plan, QueryError>)
    requires
        definition.wf(),
    ensures
        delete_planned(*table_name, *selection, *definition, plan),
{
    match selection {
        Some(condition) => Err(condition_not_supported(condition)),
        None => {
            let (full_table_name, table_id) = find_table(table_name, definition)?;
            Ok(Plan::Delete(TableDeletes { table_id, full_table_name }))
        },
    }
}

/// The positions of the columns that the names name, in the order of the
/// names; a name that names no column is passed over.
pub open spec fn selected_positions(all: Seq<ColumnDefinition>, names: Seq<Seq<char>>) -> Seq<int>
    decreases names.len(),
{
    if names.len() == 0 {
        Seq::empty()
    } else {
        match column_position(all, names.last()) {
            Some(position) => selected_positions(all, names.drop_last()).push(position),
            None => selected_positions(all, names.drop_last()),
        }
    }
}

/// The names that name no column, in their order.
pub open spec fn missing_columns(all: Seq<ColumnDefinition>, names: Seq<Seq<char>>) -> Seq<Seq<char>>
    decreases names.len(),
{
    if names.len() == 0 {
        Seq::empty()
    } else {
        match column_position(all, names.last()) {
            Some(_) => missing_columns(all, names.drop_last()),
            None => missing_columns(all, names.drop_last()).push(names.last()),
        }
    }
}

/// The table that a query selects from, and what it selects, as far as
/// the query is supported: it selects named columns, or all, from one
/// table, without a condition.
pub open spec fn query_parts(query: Query) -> Result<(ObjectName, Seq<Ident>), ErrorView> {
    match query.body {
        SetExpr::Select(select) => if select.from@.len() != 1 {
            Err(feature_not_supported("selection from other than one table"@))
        } else {
            match select.from@[0].relation {
                TableFactor::Table { name } => match select.selection {
                    Some(condition) => Err(not_supported_operation(expr_text(condition))),
                    None => Ok((name, select.projection@)),
                },
                TableFactor::Other(text) => Err(feature_not_supported(text@)),
            }
        },
        other => Err(feature_not_supported(source_text(other))),
    }
}

/// The positions as numbers.
pub open spec fn positions(indexes: Seq<usize>) -> Seq<int> {
    indexes.map_values(|index: usize| index as int)
}

/// Whether `plan` is what planning the query gives.
pub open spec fn select_planned(
    query: Query,
    definition: DataDefinition,
    plan: Result<Plan, QueryError>,
) -> bool {
    match query_parts(query) {
        Ok((name, projection)) => match table_found(name, definition) {
            Ok((schema, table, id)) => {
                let all = definition.columns(schema, table);
                let missing = missing_columns(all, lowered(projection));
                if missing.len() > 0 {
                    plan matches Err(error) && error@ == seq![
                        error_of("42703"@, ErrorKindView::ColumnDoesNotExist(missing)),
                    ]
                } else {
                    plan matches Ok(Plan::Select(input)) && input.table_id == id
                        && input.full_table_name.spec_schema() == schema
                        && input.full_table_name.spec_table() == table && positions(
                        input.selected_columns@,
                    ) == if projection.len() == 0 {
                        Seq::new(all.len(), |i: int| i)
                    } else {
                        selected_positions(all, lowered(projection))
                    }
                }
            },
            Err(expected) => plan matches Err(error) && error@ == seq![expected],
        },
        Err(expected) => plan matches Err(error) && error@ == seq![expected],
    }
}

fn not_supported(text: String) -> (error: QueryError)
    ensures
        error@ == seq![feature_not_supported(text@)],
{
    one_error(QueryErrorBuilder::new().feature_not_supported(text))
}

/// Plans a query.
pub fn plan_select(query: &Query, definition: &DataDefinition) -> (plan: Result<Plan, QueryError>)
    requires
        definition.wf(),
    ensures
        select_planned(*query, *definition, plan),
{
    let select = match &query.body {
        SetExpr::Select(select) => select,
        SetExpr::Values(_) => {
            return Err(not_supported(String::from_str("VALUES")));
        },
        SetExpr::Other(text) => {
            return Err(not_supported(text.clone()));
        },
    };
    if select.from.len() != 1 {
        return Err(not_supported(String::from_str("selection from other than one table")));
    }
    let name = match &select.from[0].relation {
        TableFactor::Table { name } => name,
        TableFactor::Other(text) => {
            return Err(not_supported(text.clone()));
        },
    };
    match &select.selection {
        Some(condition) => {
            return Err(condition_not_supported(condition));
        },
        None => {},
    }
    let (full_table_name, table_id) = find_table(name, definition)?;
    let all = match definition.table_columns(full_table_name.schema(), full_table_name.table()) {
        Some(all) => all,
        None => {
            assert(false);
            Vec::new()
        },
    };
    let ghost wanted = lowered(select.projection@);
    let mut selected_columns: Vec<usize> = Vec::new();
    if select.projection.len() == 0 {
        let mut i: usize = 0;
        while i < all.len()
            invariant
                i <= all@.len(),
                positions(selected_columns@) == Seq::new(i as nat, |j: int| j),
            decreases all.len() - i,
        {
            let ghost before = positions(selected_columns@);
            selected_columns.push(i);
            assert(positions(selected_columns@) =~= before.push(i as int));
            assert(before.push(i as int) =~= Seq::new((i + 1) as nat, |j: int| j));
            i += 1;
        }
        proof {
            assert(missing_columns(all@, wanted) =~= Seq::<Seq<char>>::empty());
        }
        return Ok(Plan::Select(SelectInput { table_id, full_table_name, selected_columns }));
    }
    let mut missing: Vec<String> = Vec::new();
    let mut i: usize = 0;
    proof {
        assert(positions(selected_columns@) =~= Seq::<int>::empty());
        assert(texts(missing@) =~= Seq::<Seq<char>>::empty());
    }
    while i < select.projection.len()
        invariant
            i <= select.projection@.len(),
            wanted == lowered(select.projection@),
            positions(selected_columns@) == selected_positions(all@, wanted.take(i as int)),
            texts(missing@) == missing_columns(all@, wanted.take(i as int)),
        decreases select.projection.len() - i,
    {
        let name = to_lowercase(select.projection[i].value.as_str());
        proof {
            assert(wanted.take(i + 1).drop_last() =~= wanted.take(i as int));
            assert(wanted.take(i + 1).last() == name@);
        }
        match find_column(&all, name.as_str()) {
            Some((index, _)) => {
                let ghost before = positions(selected_columns@);
                selected_columns.push(index);
                assert(positions(selected_columns@) =~= before.push(index as int));
            },
            None => {
                let ghost before = texts(missing@);
                missing.push(name);
                assert(texts(missing@) =~= before.push(name@));
            },
        }
        i += 1;
    }
    proof {
        assert(wanted.take(select.projection@.len() as int) =~= wanted);
    }
    if missing.len() > 0 {
        return Err(one_error(QueryErrorBuilder::new().column_does_not_exist(missing)));
    }
    Ok(Plan::Select(SelectInput { table_id, full_table_name, selected_columns }))
}

/// Whether `plan` is what planning the statement gives.
///
/// The creation and the drop of schemas and tables, inserts, updates,
/// deletes and queries are planned each in its way. An update with a
/// condition is not supported. Every other statement is handed on as it
/// is, not processed.
pub open spec fn planned(
    statement: Statement,
    definition: DataDefinition,
    plan: Result<Plan, QueryError>,
) -> bool {
    match statement {
        Statement::CreateSchema { schema_name } => create_schema_planned(
            schema_name,
            definition,
            plan,
        ),
        Statement::CreateTable { name, columns } => create_table_planned(
            name,
            columns@,
            definition,
            plan,
        ),
        Statement::Drop { object_type, names, cascade } => if object_type == ObjectType::Other {
            plan matches Ok(Plan::NotProcessed(kept)) && *kept == statement
        } else {
            drop_planned(
                object_type,
                names@,
                if object_type == ObjectType::Schema {
                    cascade
                } else {
                    false
                },
                definition,
                plan,
            )
        },
        Statement::Insert { table_name, columns, source } => insert_planned(
            table_name,
            columns@,
            *source,
            definition,
            plan,
        ),
        Statement::Update { table_name, assignments, selection } => match selection {
            Some(condition) => plan matches Err(error) && error@ == seq![
                not_supported_operation(expr_text(condition)),
            ],
            None => update_planned(table_name, assignments@, definition, plan),
        },
        Statement::Delete { table_name, selection } => delete_planned(
            table_name,
            selection,
            definition,
            plan,
        ),
        Statement::Query(query) => select_planned(*query, definition, plan),
        _ => plan matches Ok(Plan::NotProcessed(kept)) && *kept == statement,
    }
}

/// Plans statements against the definitions of a database.
pub struct QueryPlanner;

impl QueryPlanner {
    /// The plan of the statement.
    pub fn plan(statement: Statement, definition: &DataDefinition) -> (plan: Result<Plan, QueryError>)
        requires
            definition.wf(),
        ensures
            planned(statement, *definition, plan),
    {
        match &statement {
            Statement::CreateSchema { schema_name } => {
                let name = ObjectName(copy_idents(&schema_name.0));
                proof {
                    lemma_same_name(name, *schema_name);
                }
                CreateSchemaPlanner::new(name).plan(definition)
            },
            Statement::CreateTable { name, columns } => plan_create_table(
                name,
                columns,
                definition,
            ),
            Statement::Drop { object_type, names, cascade } => match object_type {
                ObjectType::Schema => plan_drop_schemas(names, *cascade, definition),
                ObjectType::Table => plan_drop_tables(names, definition),
                ObjectType::Other => Ok(Plan::NotProcessed(Box::new(statement))),
            },
            Statement::Insert { table_name, columns, source } => InsertPlanner::new(
                table_name,
                columns.as_slice(),
                source,
            ).plan(definition),
            Statement::Update { table_name, assignments, selection } => match selection {
                Some(condition) => Err(condition_not_supported(condition)),
                None => UpdatePlanner::new(table_name, assignments.as_slice()).plan(definition),
            },
            Statement::Delete { table_name, selection } => plan_delete(
                table_name,
                selection,
                definition,
            ),
            Statement::Query(query) => plan_select(query, definition),
            _ => Ok(Plan::NotProcessed(Box::new(statement))),
        }
    }
}

/// A copy of the names.
fn copy_idents(idents: &Vec<Ident>) -> (copy: Vec<Ident>)
    ensures
        copy@ == idents@,
{
    let mut copy: Vec<Ident> = Vec::new();
    let mut i: usize = 0;
    while i < idents.len()
        invariant
            i <= idents@.len(),
            copy@ == idents@.take(i as int),
        decreases idents.len() - i,
    {
        copy.push(Ident { value: idents[i].value.clone() });
        assert(copy@ =~= idents@.take(i + 1));
        i += 1;
    }
    assert(idents@.take(idents@.len() as int) =~= idents@);
    copy
}

/// Names of the same parts plan alike.
proof fn lemma_same_name(a: ObjectName, b: ObjectName)
    requires
        a.0@ == b.0@,
    ensures
        dotted(a) == dotted(b),
        forall|definition: DataDefinition|
            #[trigger] schema_to_create(a, definition) == schema_to_create(b, definition),
{
    assert(crate::sql_model::parts(a) =~= crate::sql_model::parts(b));
}

} // verus!
