//! The types of columns and of scalar values, the definitions of columns
//! and tables, and the names that statements refer to tables and schemas
//! by.

use vstd::prelude::*;
use crate::sql_ast::{DataType, Ident, ObjectName};
use crate::sql_types::SqlType;
use crate::text::{spec_join, str_eq};

verus! {

/// The text in lower case.
pub uninterp spec fn lowercase(text: Seq<char>) -> Seq<char>;

/// `str::to_lowercase`: the text with every character that has a lower
/// case form replaced by it.
#[verifier::external_body]
pub(crate) fn to_lowercase(text: &str) -> (lowered: String)
    ensures
        lowered@ == lowercase(text@),
{
    text.to_lowercase()
}

/// The type of a column.
#[derive(Debug, Clone, Copy, PartialEq, Eq, Structural)]
pub enum ColumnType {
    Bool,
    /// With the length that the column is declared with.
    Char(u64),
    /// With the length that the column is declared with.
    VarChar(u64),
    SmallInt,
    Integer,
    BigInt,
    Real,
    DoublePrecision,
    Time,
    Timestamp,
    Date,
    Interval,
    Decimal,
}

impl ColumnType {
    /// The column type that a declared type stands for; a text type without
    /// a length has the length 255.
    pub open spec fn spec_from_data_type(data_type: DataType) -> Option<ColumnType> {
        match data_type {
            DataType::Boolean => Some(ColumnType::Bool),
            DataType::SmallInt => Some(ColumnType::SmallInt),
            DataType::Int => Some(ColumnType::Integer),
            DataType::BigInt => Some(ColumnType::BigInt),
            DataType::Char(len) => Some(
                ColumnType::Char(
                    match len {
                        Some(len) => len,
                        None => 255,
                    },
                ),
            ),
            DataType::Varchar(len) => Some(
                ColumnType::VarChar(
                    match len {
                        Some(len) => len,
                        None => 255,
                    },
                ),
            ),
            DataType::Real => Some(ColumnType::Real),
            DataType::Double => Some(ColumnType::DoublePrecision),
            DataType::Time => Some(ColumnType::Time),
            DataType::Timestamp => Some(ColumnType::Timestamp),
            DataType::Date => Some(ColumnType::Date),
            DataType::Interval => Some(ColumnType::Interval),
            DataType::Decimal => Some(ColumnType::Decimal),
            DataType::Other => None,
        }
    }

    pub fn from_data_type(data_type: &DataType) -> (column_type: Option<ColumnType>)
        ensures
            column_type == Self::spec_from_data_type(*data_type),
    {
        match data_type {
            DataType::Boolean => Some(ColumnType::Bool),
            DataType::SmallInt => Some(ColumnType::SmallInt),
            DataType::Int => Some(ColumnType::Integer),
            DataType::BigInt => Some(ColumnType::BigInt),
            DataType::Char(len) => Some(
                ColumnType::Char(
                    match len {
                        Some(len) => *len,
                        None => 255,
                    },
                ),
            ),
            DataType::Varchar(len) => Some(
                ColumnType::VarChar(
                    match len {
                        Some(len) => *len,
                        None => 255,
                    },
                ),
            ),
            DataType::Real => Some(ColumnType::Real),
            DataType::Double => Some(ColumnType::DoublePrecision),
            DataType::Time => Some(ColumnType::Time),
            DataType::Timestamp => Some(ColumnType::Timestamp),
            DataType::Date => Some(ColumnType::Date),
            DataType::Interval => Some(ColumnType::Interval),
            DataType::Decimal => Some(ColumnType::Decimal),
            DataType::Other => None,
        }
    }

    /// The type that the wire protocol reports for the column.
    pub open spec fn spec_pg_type(self) -> SqlType {
        match self {
            ColumnType::Bool => SqlType::Bool,
            ColumnType::Char(_) => SqlType::Bpchar,
            ColumnType::VarChar(_) => SqlType::Varchar,
            ColumnType::SmallInt => SqlType::Int2,
            ColumnType::Integer => SqlType::Int4,
            ColumnType::BigInt => SqlType::Int8,
            ColumnType::Real => SqlType::Float4,
            ColumnType::DoublePrecision => SqlType::Float8,
            ColumnType::Time => SqlType::Time,
            ColumnType::Timestamp => SqlType::Timestamp,
            ColumnType::Date => SqlType::Date,
            ColumnType::Interval => SqlType::Interval,
            ColumnType::Decimal => SqlType::Numeric,
        }
    }

    pub fn pg_type(&self) -> (pg_type: SqlType)
        ensures
            pg_type == self.spec_pg_type(),
    {
        match self {
            ColumnType::Bool => SqlType::Bool,
            ColumnType::Char(_) => SqlType::Bpchar,
            ColumnType::VarChar(_) => SqlType::Varchar,
            ColumnType::SmallInt => SqlType::Int2,
            ColumnType::Integer => SqlType::Int4,
            ColumnType::BigInt => SqlType::Int8,
            ColumnType::Real => SqlType::Float4,
            ColumnType::DoublePrecision => SqlType::Float8,
            ColumnType::Time => SqlType::Time,
            ColumnType::Timestamp => SqlType::Timestamp,
            ColumnType::Date => SqlType::Date,
            ColumnType::Interval => SqlType::Interval,
            ColumnType::Decimal => SqlType::Numeric,
        }
    }
}

/// The type of a scalar value.
#[derive(Debug, Clone, Copy, PartialEq, Eq, Structural)]
pub enum ScalarType {
    Boolean,
    Int16,
    Int32,
    Int64,
    Float32,
    Float64,
    String,
}

impl ScalarType {
    pub open spec fn spec_is_integer(self) -> bool {
        self == ScalarType::Int16 || self == ScalarType::Int32 || self == ScalarType::Int64
    }

    pub open spec fn spec_is_float(self) -> bool {
        self == ScalarType::Float32 || self == ScalarType::Float64
    }

    pub open spec fn spec_is_string(self) -> bool {
        self == ScalarType::String
    }

    pub fn is_integer(&self) -> (integer: bool)
        ensures
            integer == self.spec_is_integer(),
    {
        match self {
            ScalarType::Int16 | ScalarType::Int32 | ScalarType::Int64 => true,
            _ => false,
        }
    }

    pub fn is_float(&self) -> (float: bool)
        ensures
            float == self.spec_is_float(),
    {
        match self {
            ScalarType::Float32 | ScalarType::Float64 => true,
            _ => false,
        }
    }

    pub fn is_string(&self) -> (string: bool)
        ensures
            string == self.spec_is_string(),
    {
        match self {
            ScalarType::String => true,
            _ => false,
        }
    }

    pub open spec fn spec_text(self) -> Seq<char> {
        match self {
            ScalarType::Boolean => "boolean"@,
            ScalarType::Int16 => "smallint"@,
            ScalarType::Int32 => "integer"@,
            ScalarType::Int64 => "bigint"@,
            ScalarType::Float32 => "real"@,
            ScalarType::Float64 => "double precision"@,
            ScalarType::String => "text"@,
        }
    }

    /// The name of the type.
    pub fn text(&self) -> (text: &'static str)
        ensures
            text@ == self.spec_text(),
    {
        match self {
            ScalarType::Boolean => "boolean",
            ScalarType::Int16 => "smallint",
            ScalarType::Int32 => "integer",
            ScalarType::Int64 => "bigint",
            ScalarType::Float32 => "real",
            ScalarType::Float64 => "double precision",
            ScalarType::String => "text",
        }
    }

    /// The type that the wire protocol reports for values of the type.
    pub open spec fn spec_pg_type(self) -> SqlType {
        match self {
            ScalarType::Boolean => SqlType::Bool,
            ScalarType::Int16 => SqlType::Int2,
            ScalarType::Int32 => SqlType::Int4,
            ScalarType::Int64 => SqlType::Int8,
            ScalarType::Float32 => SqlType::Float4,
            ScalarType::Float64 => SqlType::Float8,
            ScalarType::String => SqlType::Varchar,
        }
    }

    pub fn to_pg_types(&self) -> (pg_type: SqlType)
        ensures
            pg_type == self.spec_pg_type(),
    {
        match self {
            ScalarType::Boolean => SqlType::Bool,
            ScalarType::Int16 => SqlType::Int2,
            ScalarType::Int32 => SqlType::Int4,
            ScalarType::Int64 => SqlType::Int8,
            ScalarType::Float32 => SqlType::Float4,
            ScalarType::Float64 => SqlType::Float8,
            ScalarType::String => SqlType::Varchar,
        }
    }

    /// The scalar type of the values of a column, for the column types that
    /// have one.
    pub open spec fn spec_of_column(column_type: ColumnType) -> Option<ScalarType> {
        match column_type {
            ColumnType::Bool => Some(ScalarType::Boolean),
            ColumnType::Char(_) | ColumnType::VarChar(_) => Some(ScalarType::String),
            ColumnType::SmallInt => Some(ScalarType::Int16),
            ColumnType::Integer => Some(ScalarType::Int32),
            ColumnType::BigInt => Some(ScalarType::Int64),
            ColumnType::Real => Some(ScalarType::Float32),
            ColumnType::DoublePrecision => Some(ScalarType::Float64),
            _ => None,
        }
    }
}

/// The definition of a column: its name, in lower case, and its type.
#[derive(Debug, Clone, PartialEq)]
pub struct DeprecatedColumnDefinition {
    name: String,
    sql_type: ColumnType,
}

pub type ColumnDefinition = DeprecatedColumnDefinition;

impl DeprecatedColumnDefinition {
    /// The name of the column.
    pub closed spec fn spec_name(&self) -> Seq<char> {
        self.name@
    }

    /// The type of the column.
    pub closed spec fn spec_sql_type(&self) -> ColumnType {
        self.sql_type
    }

    pub fn new(name: &str, sql_type: ColumnType) -> (definition: Self)
        ensures
            definition.spec_name() == lowercase(name@),
            definition.spec_sql_type() == sql_type,
    {
        Self { name: to_lowercase(name), sql_type }
    }

    pub fn sql_type(&self) -> (sql_type: ColumnType)
        ensures
            sql_type == self.spec_sql_type(),
    {
        self.sql_type
    }

    pub fn has_name(&self, other_name: &str) -> (same: bool)
        ensures
            same == (self.spec_name() == other_name@),
    {
        str_eq(self.name.as_str(), other_name)
    }

    pub fn name(&self) -> (name: String)
        ensures
            name@ == self.spec_name(),
    {
        self.name.clone()
    }

    /// A copy of the definition.
    pub fn duplicate(&self) -> (copy: Self)
        ensures
            copy == *self,
    {
        Self { name: self.name.clone(), sql_type: self.sql_type }
    }
}

/// The position of the first column of `columns` that has the name.
pub open spec fn column_position(columns: Seq<ColumnDefinition>, name: Seq<char>) -> Option<int>
    decreases columns.len(),
{
    if columns.len() == 0 {
        None
    } else {
        match column_position(columns.drop_last(), name) {
            Some(position) => Some(position),
            None => if columns.last().spec_name() == name {
                Some(columns.len() - 1)
            } else {
                None
            },
        }
    }
}

/// The position that `column_position` gives is that of a column with the
/// name, and no column before it has the name.
pub proof fn lemma_column_position(columns: Seq<ColumnDefinition>, name: Seq<char>)
    ensures
        match column_position(columns, name) {
            Some(position) => 0 <= position < columns.len() && columns[position].spec_name() == name
                && forall|i: int| 0 <= i < position ==> (#[trigger] columns[i]).spec_name() != name,
            None => forall|i: int| 0 <= i < columns.len() ==> (#[trigger] columns[i]).spec_name() != name,
        },
    decreases columns.len(),
{
    if columns.len() > 0 {
        lemma_column_position(columns.drop_last(), name);
        match column_position(columns.drop_last(), name) {
            Some(position) => {
                assert(columns.drop_last()[position] == columns[position]);
                assert forall|i: int| 0 <= i < position implies (#[trigger] columns[i]).spec_name()
                    != name by {
                    assert(columns.drop_last()[i] == columns[i]);
                }
            },
            None => {
                assert forall|i: int| 0 <= i < columns.len() - 1 implies (#[trigger] columns[i]).spec_name()
                    != name by {
                    assert(columns.drop_last()[i] == columns[i]);
                }
            },
        }
    }
}

/// The first column of `columns` that has the name, with its position.
pub fn find_column(columns: &Vec<ColumnDefinition>, name: &str) -> (found: Option<
    (usize, ColumnDefinition),
>)
    ensures
        match found {
            Some((index, column)) => column_position(columns@, name@) == Some(index as int)
                && index < columns@.len() && column.spec_name() == name@ && column
                == columns@[index as int],
            None => column_position(columns@, name@) is None,
        },
{
    let mut i: usize = 0;
    while i < columns.len()
        invariant
            i <= columns@.len(),
            column_position(columns@.take(i as int), name@) is None,
        decreases columns.len() - i,
    {
        proof {
            assert(columns@.take(i + 1).drop_last() =~= columns@.take(i as int));
            assert(columns@.take(i + 1).last() == columns@[i as int]);
        }
        if columns[i].has_name(name) {
            proof {
                lemma_position_kept(columns@, i + 1, name@);
            }
            return Some((i, columns[i].duplicate()));
        }
        i += 1;
    }
    proof {
        assert(columns@.take(columns@.len() as int) =~= columns@);
    }
    None
}

/// A position found among the first columns is the position among all.
proof fn lemma_position_kept(columns: Seq<ColumnDefinition>, upto: int, name: Seq<char>)
    requires
        0 <= upto <= columns.len(),
        column_position(columns.take(upto), name) is Some,
    ensures
        column_position(columns, name) == column_position(columns.take(upto), name),
    decreases columns.len() - upto,
{
    if upto < columns.len() {
        assert(columns.take(upto + 1).drop_last() =~= columns.take(upto));
        lemma_position_kept(columns, upto + 1, name);
    } else {
        assert(columns.take(upto) =~= columns);
    }
}

/// The definition of a table: where it is, and its columns in their order.
#[derive(Debug, PartialEq)]
pub struct TableDefinition {
    pub schema: String,
    pub table: String,
    pub columns: Vec<ColumnDefinition>,
}

impl TableDefinition {
    pub fn new(schema_name: &str, table_name: &str, columns: Vec<ColumnDefinition>) -> (table:
        TableDefinition)
        ensures
            table.schema@ == schema_name@,
            table.table@ == table_name@,
            table.columns == columns,
    {
        TableDefinition {
            schema: String::from_str(schema_name),
            table: String::from_str(table_name),
            columns,
        }
    }

    /// The first column that has the name, with its position.
    pub fn column_by_name_with_index(&self, name: &str) -> (found: Option<
        (usize, ColumnDefinition),
    >)
        ensures
            match found {
                Some((index, column)) => column_position(self.columns@, name@) == Some(
                    index as int,
                ) && index < self.columns@.len() && column.spec_name() == name@ && column
                    == self.columns@[index as int],
                None => column_position(self.columns@, name@) is None,
            },
    {
        find_column(&self.columns, name)
    }
}

/// The parts of a name, as characters.
pub open spec fn parts(name: ObjectName) -> Seq<Seq<char>> {
    name.0@.map_values(|part: Ident| part.value@)
}

/// The name as it is written: the parts with dots between them.
pub open spec fn dotted(name: ObjectName) -> Seq<char> {
    spec_join(parts(name), "."@)
}

/// Writes the name with dots between its parts.
pub fn dotted_name(name: &ObjectName) -> (text: String)
    ensures
        text@ == dotted(*name),
{
    let mut text = String::new();
    let mut i: usize = 0;
    while i < name.0.len()
        invariant
            i <= name.0@.len(),
            text@ == spec_join(parts(*name).take(i as int), "."@),
        decreases name.0.len() - i,
    {
        proof {
            let before = parts(*name).take(i as int);
            let after = parts(*name).take(i + 1);
            assert(after.drop_last() =~= before);
            assert(after.last() == name.0@[i as int].value@);
            if i == 0 {
                assert(text@ + name.0@[i as int].value@ =~= name.0@[i as int].value@);
            }
        }
        if i > 0 {
            text.append(".");
        }
        text.append(name.0[i].value.as_str());
        i += 1;
    }
    proof {
        assert(parts(*name).take(name.0@.len() as int) =~= parts(*name));
    }
    text
}

/// Why a name is not the name of a table.
#[derive(Debug, PartialEq)]
pub enum TableNamingError {
    /// The name has no schema; it is kept as it was written.
    Unqualified(String),
    /// The name has more parts than a schema and a table; it is kept as it
    /// was written.
    NotProcessed(String),
}

impl TableNamingError {
    pub open spec fn spec_message(&self) -> Seq<char> {
        match self {
            TableNamingError::Unqualified(name) => "unsupported table name '"@ + name@
                + "'. All table names must be qualified"@,
            TableNamingError::NotProcessed(name) => "unable to process table name '"@ + name@
                + "'"@,
        }
    }

    /// The error in words.
    pub fn message(&self) -> (text: String)
        ensures
            text@ == self.spec_message(),
    {
        match self {
            TableNamingError::Unqualified(name) => {
                let mut text = String::from_str("unsupported table name '");
                text.append(name.as_str());
                text.append("'. All table names must be qualified");
                text
            },
            TableNamingError::NotProcessed(name) => {
                let mut text = String::from_str("unable to process table name '");
                text.append(name.as_str());
                text.append("'");
                text
            },
        }
    }
}

/// The name of a table with the name of its schema, both in lower case.
#[derive(Debug, PartialEq)]
pub struct FullTableName {
    schema: String,
    table: String,
}

impl FullTableName {
    pub closed spec fn spec_schema(&self) -> Seq<char> {
        self.schema@
    }

    pub closed spec fn spec_table(&self) -> Seq<char> {
        self.table@
    }

    /// The table that a name of exactly two parts names.
    pub fn try_from(object: &ObjectName) -> (name: Result<FullTableName, TableNamingError>)
        ensures
            match name {
                Ok(name) => object.0@.len() == 2 && name.spec_schema() == lowercase(
                    object.0@[0].value@,
                ) && name.spec_table() == lowercase(object.0@[1].value@),
                Err(TableNamingError::Unqualified(text)) => object.0@.len() == 1 && text@ == dotted(
                    *object,
                ),
                Err(TableNamingError::NotProcessed(text)) => object.0@.len() != 1 && object.0@.len()
                    != 2 && text@ == dotted(*object),
            },
    {
        if object.0.len() == 1 {
            Err(TableNamingError::Unqualified(dotted_name(object)))
        } else if object.0.len() != 2 {
            Err(TableNamingError::NotProcessed(dotted_name(object)))
        } else {
            Ok(
                FullTableName {
                    schema: to_lowercase(object.0[0].value.as_str()),
                    table: to_lowercase(object.0[1].value.as_str()),
                },
            )
        }
    }

    pub fn schema(&self) -> (schema: &str)
        ensures
            schema@ == self.spec_schema(),
    {
        self.schema.as_str()
    }

    pub fn table(&self) -> (table: &str)
        ensures
            table@ == self.spec_table(),
    {
        self.table.as_str()
    }

    pub fn as_tuple(&self) -> (names: (&str, &str))
        ensures
            names.0@ == self.spec_schema(),
            names.1@ == self.spec_table(),
    {
        (self.schema.as_str(), self.table.as_str())
    }

    pub open spec fn spec_text(&self) -> Seq<char> {
        self.spec_schema() + "."@ + self.spec_table()
    }

    /// The name as `schema.table`.
    pub fn text(&self) -> (text: String)
        ensures
            text@ == self.spec_text(),
    {
        let mut text = self.schema.clone();
        text.append(".");
        text.append(self.table.as_str());
        text
    }
}

/// Why a name is not the name of a schema: it has more than one part. The
/// name is kept as it was written.
#[derive(Debug, PartialEq)]
pub struct SchemaNamingError(pub String);

impl SchemaNamingError {
    pub open spec fn spec_message(&self) -> Seq<char> {
        "only unqualified schema names are supported, '"@ + self.0@ + "'"@
    }

    /// The error in words.
    pub fn message(&self) -> (text: String)
        ensures
            text@ == self.spec_message(),
    {
        let mut text = String::from_str("only unqualified schema names are supported, '");
        text.append(self.0.as_str());
        text.append("'");
        text
    }
}

/// The name of a schema, in lower case.
#[derive(Debug, PartialEq)]
pub struct SchemaName(String);

impl SchemaName {
    pub closed spec fn spec_name(&self) -> Seq<char> {
        self.0@
    }

    /// The schema that a name of exactly one part names.
    pub fn try_from(object: &ObjectName) -> (name: Result<SchemaName, SchemaNamingError>)
        ensures
            match name {
                Ok(name) => object.0@.len() == 1 && name.spec_name() == lowercase(
                    object.0@[0].value@,
                ),
                Err(error) => object.0@.len() != 1 && error.0@ == dotted(*object),
            },
    {
        if object.0.len() != 1 {
            Err(SchemaNamingError(dotted_name(object)))
        } else {
            Ok(SchemaName(to_lowercase(object.0[0].value.as_str())))
        }
    }

    pub fn name(&self) -> (name: &str)
        ensures
            name@ == self.spec_name(),
    {
        self.0.as_str()
    }
}

} // verus!
