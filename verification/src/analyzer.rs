//! Describing a statement: what it refers to in the database, without
//! running it.

use vstd::prelude::*;
use std::sync::Arc;
use crate::metadata::{DataDefinition, Id, TableId};
use crate::sql_ast::{ColumnDef, ObjectName, Query, SetExpr, Statement, TableFactor};
use crate::sql_model::{
    dotted, lowercase, ColumnDefinition, ColumnType, FullTableName, TableNamingError,
};
use crate::sql_types::SqlType;

verus! {

/// What an insert refers to: its table, and the types of the columns of
/// the table.
#[derive(Debug, PartialEq)]
pub struct InsertStatement {
    pub table_id: TableId,
    pub sql_types: Vec<SqlType>,
}

/// What a query refers to: its table, and the types of the columns of the
/// table.
#[derive(Debug, PartialEq)]
pub struct SelectStatement {
    pub table_id: TableId,
    pub sql_types: Vec<SqlType>,
}

/// A column of a table that is to be created.
#[derive(Debug, PartialEq)]
pub struct ColumnDesc {
    pub name: String,
    pub pg_type: SqlType,
}

/// A table that is to be created.
#[derive(Debug, PartialEq)]
pub struct TableCreationInfo {
    pub schema_id: Id,
    pub table_name: String,
    pub columns: Vec<ColumnDesc>,
}

#[derive(Debug, PartialEq)]
pub enum Description {
    Insert(InsertStatement),
    CreateTable(TableCreationInfo),
    Select(SelectStatement),
}

#[derive(Debug, PartialEq)]
pub enum DescriptionError {
    SyntaxError(String),
    SchemaDoesNotExist(String),
    TableDoesNotExist(String),
    TableAlreadyExists(String),
    FeatureNotSupported(String),
}

/// What a `Description` holds, as plain values.
pub enum DescriptionModel {
    Insert { table_id: TableId, sql_types: Seq<SqlType> },
    CreateTable { schema_id: Id, table_name: Seq<char>, columns: Seq<(Seq<char>, SqlType)> },
    Select { table_id: TableId, sql_types: Seq<SqlType> },
}

/// What a `DescriptionError` holds, as plain values.
pub enum DescriptionErrorModel {
    SyntaxError(Seq<char>),
    SchemaDoesNotExist(Seq<char>),
    TableDoesNotExist(Seq<char>),
    TableAlreadyExists(Seq<char>),
    FeatureNotSupported(Seq<char>),
}

impl View for Description {
    type V = DescriptionModel;

    open spec fn view(&self) -> DescriptionModel {
        match self {
            Description::Insert(insert) => DescriptionModel::Insert {
                table_id: insert.table_id,
                sql_types: insert.sql_types@,
            },
            Description::CreateTable(info) => DescriptionModel::CreateTable {
                schema_id: info.schema_id,
                table_name: info.table_name@,
                columns: info.columns@.map_values(
                    |column: ColumnDesc| (column.name@, column.pg_type),
                ),
            },
            Description::Select(select) => DescriptionModel::Select {
                table_id: select.table_id,
                sql_types: select.sql_types@,
            },
        }
    }
}

impl View for DescriptionError {
    type V = DescriptionErrorModel;

    open spec fn view(&self) -> DescriptionErrorModel {
        match self {
            DescriptionError::SyntaxError(text) => DescriptionErrorModel::SyntaxError(text@),
            DescriptionError::SchemaDoesNotExist(name) => DescriptionErrorModel::SchemaDoesNotExist(
                name@,
            ),
            DescriptionError::TableDoesNotExist(name) => DescriptionErrorModel::TableDoesNotExist(
                name@,
            ),
            DescriptionError::TableAlreadyExists(name) => DescriptionErrorModel::TableAlreadyExists(
                name@,
            ),
            DescriptionError::FeatureNotSupported(text) => DescriptionErrorModel::FeatureNotSupported(
                text@,
            ),
        }
    }
}

impl DescriptionError {
    pub fn syntax_error(error: &TableNamingError) -> (description: DescriptionError)
        ensures
            description@ == DescriptionErrorModel::SyntaxError(error.spec_message()),
    {
        DescriptionError::SyntaxError(error.message())
    }

    pub fn schema_does_not_exist(schema_name: &str) -> (description: DescriptionError)
        ensures
            description@ == DescriptionErrorModel::SchemaDoesNotExist(schema_name@),
    {
        DescriptionError::SchemaDoesNotExist(String::from_str(schema_name))
    }

    pub fn table_does_not_exist(full_table_name: &FullTableName) -> (description: DescriptionError)
        ensures
            description@ == DescriptionErrorModel::TableDoesNotExist(full_table_name.spec_text()),
    {
        DescriptionError::TableDoesNotExist(full_table_name.text())
    }

    pub fn table_already_exists(full_table_name: &FullTableName) -> (description: DescriptionError)
        ensures
            description@ == DescriptionErrorModel::TableAlreadyExists(full_table_name.spec_text()),
    {
        DescriptionError::TableAlreadyExists(full_table_name.text())
    }

    pub fn feature_not_supported(what: &str) -> (description: DescriptionError)
        ensures
            description@ == DescriptionErrorModel::FeatureNotSupported(what@),
    {
        DescriptionError::FeatureNotSupported(String::from_str(what))
    }
}

/// The error for a name that is not the name of a table.
pub open spec fn naming_error(name: ObjectName) -> DescriptionErrorModel {
    DescriptionErrorModel::SyntaxError(
        if name.0@.len() == 1 {
            "unsupported table name '"@ + dotted(name) + "'. All table names must be qualified"@
        } else {
            "unable to process table name '"@ + dotted(name) + "'"@
        },
    )
}

/// The types that the wire protocol reports for the columns.
pub open spec fn pg_types(columns: Seq<ColumnDefinition>) -> Seq<SqlType> {
    columns.map_values(|column: ColumnDefinition| column.spec_sql_type().spec_pg_type())
}

/// The table that a statement refers to, with the types of its columns;
/// the error names the schema if the schema is missing, else the table
/// with its schema.
pub open spec fn referred(name: ObjectName, definition: DataDefinition) -> Result<
    (TableId, Seq<SqlType>),
    DescriptionErrorModel,
> {
    if name.0@.len() != 2 {
        Err(naming_error(name))
    } else {
        let schema = lowercase(name.0@[0].value@);
        let table = lowercase(name.0@[1].value@);
        if !definition.schemas().dom().contains(schema) {
            Err(DescriptionErrorModel::SchemaDoesNotExist(schema))
        } else if !definition.has_table(schema, table) {
            Err(DescriptionErrorModel::TableDoesNotExist(schema + "."@ + table))
        } else {
            Ok(
                (
                    TableId(
                        definition.schemas()[schema].id,
                        definition.schemas()[schema].tables[table].id,
                    ),
                    pg_types(definition.columns(schema, table)),
                ),
            )
        }
    }
}

/// The columns of a table that is to be created, with the types that the
/// wire protocol reports for them; the first column of a type that has no
/// column type decides the error.
pub open spec fn described_columns(columns: Seq<ColumnDef>) -> Result<
    Seq<(Seq<char>, SqlType)>,
    DescriptionErrorModel,
>
    decreases columns.len(),
{
    if columns.len() == 0 {
        Ok(Seq::empty())
    } else {
        match described_columns(columns.drop_last()) {
            Ok(before) => match ColumnType::spec_from_data_type(columns.last().data_type) {
                Some(column_type) => Ok(
                    before.push((columns.last().name.value@, column_type.spec_pg_type())),
                ),
                None => Err(DescriptionErrorModel::FeatureNotSupported(columns.last().name.value@)),
            },
            Err(error) => Err(error),
        }
    }
}

/// The table that a query selects from: the one table of its one source.
pub open spec fn source_of(query: Query) -> Option<ObjectName> {
    match query.body {
        SetExpr::Select(select) => if select.from@.len() == 1 {
            match select.from@[0].relation {
                TableFactor::Table { name } => Some(name),
                _ => None,
            }
        } else {
            None
        },
        _ => None,
    }
}

/// What the statement refers to.
pub open spec fn described(statement: Statement, definition: DataDefinition) -> Result<
    DescriptionModel,
    DescriptionErrorModel,
> {
    match statement {
        Statement::Insert { table_name, .. } => match referred(table_name, definition) {
            Ok((table_id, sql_types)) => Ok(DescriptionModel::Insert { table_id, sql_types }),
            Err(error) => Err(error),
        },
        Statement::CreateTable { name, columns } => if name.0@.len() != 2 {
            Err(naming_error(name))
        } else {
            let schema = lowercase(name.0@[0].value@);
            let table = lowercase(name.0@[1].value@);
            if !definition.schemas().dom().contains(schema) {
                Err(DescriptionErrorModel::SchemaDoesNotExist(schema))
            } else if definition.has_table(schema, table) {
                Err(DescriptionErrorModel::TableAlreadyExists(schema + "."@ + table))
            } else {
                match described_columns(columns@) {
                    Ok(columns) => Ok(
                        DescriptionModel::CreateTable {
                            schema_id: definition.schemas()[schema].id,
                            table_name: table,
                            columns,
                        },
                    ),
                    Err(error) => Err(error),
                }
            }
        },
        Statement::Query(query) => match source_of(*query) {
            Some(name) => match referred(name, definition) {
                Ok((table_id, sql_types)) => Ok(DescriptionModel::Select { table_id, sql_types }),
                Err(error) => Err(error),
            },
            None => Err(DescriptionErrorModel::FeatureNotSupported("SELECT"@)),
        },
        _ => Err(DescriptionErrorModel::FeatureNotSupported("statement"@)),
    }
}

proof fn lemma_columns_fail(columns: Seq<ColumnDef>, upto: int)
    requires
        0 <= upto <= columns.len(),
        described_columns(columns.take(upto)) is Err,
    ensures
        described_columns(columns) == described_columns(columns.take(upto)),
    decreases columns.len() - upto,
{
    if upto < columns.len() {
        assert(columns.take(upto + 1).drop_last() =~= columns.take(upto));
        lemma_columns_fail(columns, upto + 1);
    } else {
        assert(columns.take(upto) =~= columns);
    }
}

pub struct Analyzer {
    metadata: Arc<DataDefinition>,
}

impl Analyzer {
    /// The definitions that statements are described against.
    pub closed spec fn definition(&self) -> DataDefinition {
        *self.metadata
    }

    pub fn new(metadata: Arc<DataDefinition>) -> (analyzer: Analyzer)
        ensures
            analyzer.definition() == *metadata,
    {
        Analyzer { metadata }
    }

    fn refer(&self, name: &ObjectName) -> (found: Result<(TableId, Vec<SqlType>), DescriptionError>)
        requires
            self.definition().wf(),
        ensures
            match found {
                Ok((table_id, sql_types)) => referred(*name, self.definition()) == Ok::<
                    (TableId, Seq<SqlType>),
                    DescriptionErrorModel,
                >((table_id, sql_types@)),
                Err(error) => referred(*name, self.definition()) == Err::<
                    (TableId, Seq<SqlType>),
                    DescriptionErrorModel,
                >(error@),
            },
    {
        let full_table_name = match FullTableName::try_from(name) {
            Ok(full_table_name) => full_table_name,
            Err(error) => {
                return Err(DescriptionError::syntax_error(&error));
            },
        };
        let (schema_name, table_name) = full_table_name.as_tuple();
        match self.metadata.table_exists(schema_name, table_name) {
            None => Err(DescriptionError::schema_does_not_exist(schema_name)),
            Some((_, None)) => Err(DescriptionError::table_does_not_exist(&full_table_name)),
            Some((schema_id, Some(table_id))) => {
                let columns = match self.metadata.table_columns(schema_name, table_name) {
                    Some(columns) => columns,
                    None => {
                        assert(false);
                        Vec::new()
                    },
                };
                let mut sql_types: Vec<SqlType> = Vec::new();
                let mut i: usize = 0;
                while i < columns.len()
                    invariant
                        i <= columns@.len(),
                        sql_types@ == pg_types(columns@).take(i as int),
                    decreases columns.len() - i,
                {
                    sql_types.push(columns[i].sql_type().pg_type());
                    assert(sql_types@ =~= pg_types(columns@).take(i + 1));
                    i += 1;
                }
                assert(pg_types(columns@).take(columns@.len() as int) =~= pg_types(columns@));
                Ok((TableId(schema_id, table_id), sql_types))
            },
        }
    }

    fn describe_columns(columns: &Vec<ColumnDef>) -> (described: Result<
        Vec<ColumnDesc>,
        DescriptionError,
    >)
        ensures
            match described {
                Ok(described) => described_columns(columns@) == Ok::<
                    Seq<(Seq<char>, SqlType)>,
                    DescriptionErrorModel,
                >(described@.map_values(|column: ColumnDesc| (column.name@, column.pg_type))),
                Err(error) => described_columns(columns@) == Err::<
                    Seq<(Seq<char>, SqlType)>,
                    DescriptionErrorModel,
                >(error@),
            },
    {
        let mut described: Vec<ColumnDesc> = Vec::new();
        let mut i: usize = 0;
        proof {
            assert(described@.map_values(|column: ColumnDesc| (column.name@, column.pg_type))
                =~= Seq::<(Seq<char>, SqlType)>::empty());
        }
        while i < columns.len()
            invariant
                i <= columns@.len(),
                described_columns(columns@.take(i as int)) == Ok::<
                    Seq<(Seq<char>, SqlType)>,
                    DescriptionErrorModel,
                >(described@.map_values(|column: ColumnDesc| (column.name@, column.pg_type))),
            decreases columns.len() - i,
        {
            proof {
                assert(columns@.take(i + 1).drop_last() =~= columns@.take(i as int));
                assert(columns@.take(i + 1).last() == columns@[i as int]);
            }
            match ColumnType::from_data_type(&columns[i].data_type) {
                Some(column_type) => {
                    let ghost before = described@.map_values(
                        |column: ColumnDesc| (column.name@, column.pg_type),
                    );
                    described.push(
                        ColumnDesc {
                            name: columns[i].name.value.clone(),
                            pg_type: column_type.pg_type(),
                        },
                    );
                    assert(described@.map_values(
                        |column: ColumnDesc| (column.name@, column.pg_type),
                    ) =~= before.push(
                        (columns@[i as int].name.value@, column_type.spec_pg_type()),
                    ));
                },
                None => {
                    proof {
                        lemma_columns_fail(columns@, i + 1);
                    }
                    return Err(
                        DescriptionError::feature_not_supported(columns[i].name.value.as_str()),
                    );
                },
            }
            i += 1;
        }
        proof {
            assert(columns@.take(columns@.len() as int) =~= columns@);
        }
        Ok(described)
    }

    /// What the statement refers to: for an insert and for a query the
    /// table and the types of its columns, for the creation of a table the
    /// schema and the columns of the table. A schema or a table that is
    /// missing is an error, and so is a table that is to be created and
    /// exists.
    pub fn describe(&self, statement: &Statement) -> (description: Result<
        Description,
        DescriptionError,
    >)
        requires
            self.definition().wf(),
        ensures
            match description {
                Ok(description) => described(*statement, self.definition()) == Ok::<
                    DescriptionModel,
                    DescriptionErrorModel,
                >(description@),
                Err(error) => described(*statement, self.definition()) == Err::<
                    DescriptionModel,
                    DescriptionErrorModel,
                >(error@),
            },
    {
        match statement {
            Statement::Insert { table_name, .. } => match self.refer(table_name) {
                Ok((table_id, sql_types)) => Ok(
                    Description::Insert(InsertStatement { table_id, sql_types }),
                ),
                Err(error) => Err(error),
            },
            Statement::CreateTable { name, columns } => {
                let full_table_name = match FullTableName::try_from(name) {
                    Ok(full_table_name) => full_table_name,
                    Err(error) => {
                        return Err(DescriptionError::syntax_error(&error));
                    },
                };
                let (schema_name, table_name) = full_table_name.as_tuple();
                match self.metadata.table_exists(schema_name, table_name) {
                    Some((_, Some(_))) => Err(
                        DescriptionError::table_already_exists(&full_table_name),
                    ),
                    None => Err(DescriptionError::schema_does_not_exist(schema_name)),
                    Some((schema_id, None)) => match Self::describe_columns(columns) {
                        Ok(columns) => Ok(
                            Description::CreateTable(
                                TableCreationInfo {
                                    schema_id,
                                    table_name: String::from_str(table_name),
                                    columns,
                                },
                            ),
                        ),
                        Err(error) => Err(error),
                    },
                }
            },
            Statement::Query(query) => {
                let name = match &query.body {
                    SetExpr::Select(select) => if select.from.len() == 1 {
                        match &select.from[0].relation {
                            TableFactor::Table { name } => Some(name),
                            _ => None,
                        }
                    } else {
                        None
                    },
                    _ => None,
                };
                match name {
                    Some(name) => match self.refer(name) {
                        Ok((table_id, sql_types)) => Ok(
                            Description::Select(SelectStatement { table_id, sql_types }),
                        ),
                        Err(error) => Err(error),
                    },
                    None => Err(DescriptionError::feature_not_supported("SELECT")),
                }
            },
            _ => Err(DescriptionError::feature_not_supported("statement")),
        }
    }
}

} // verus!
