use relational_db::protocol::Message;
use relational_db::results::{QueryError, QueryErrorBuilder, QueryErrorInner, QueryErrorKind, Severity};
use relational_db::sql_ast::{DataType, Ident, ObjectName};
use relational_db::sql_model::{
    dotted_name, ColumnType, FullTableName, ScalarType, SchemaName, TableNamingError,
};
use relational_db::sql_types::SqlType;
use relational_db::text::{decimal, join};

fn name(parts: &[&str]) -> ObjectName {
    ObjectName(parts.iter().map(|part| Ident { value: (*part).to_owned() }).collect())
}

#[test]
fn types_are_found_by_their_object_id() {
    assert_eq!(SqlType::from_oid(16), Some(SqlType::Bool));
    assert_eq!(SqlType::from_oid(21), Some(SqlType::Int2));
    assert_eq!(SqlType::from_oid(23), Some(SqlType::Int4));
    assert_eq!(SqlType::from_oid(1043), Some(SqlType::Varchar));
    assert_eq!(SqlType::from_oid(0), None);
    assert_eq!(SqlType::from_oid(-1), None);
    assert_eq!(SqlType::Bool.oid(), 16);
    assert_eq!(SqlType::Int2.oid(), 21);
}

#[test]
fn types_are_found_by_their_name() {
    assert_eq!(SqlType::from_str("bool"), Some(SqlType::Bool));
    assert_eq!(SqlType::from_str("int2"), Some(SqlType::Int2));
    assert_eq!(SqlType::from_str("varchar"), Some(SqlType::Varchar));
    assert_eq!(SqlType::from_str("no such type"), None);
    assert_eq!(SqlType::from_str(""), None);
    assert_eq!(SqlType::Int4.name(), "int4");
}

#[test]
fn types_have_their_storage_size() {
    assert_eq!(SqlType::Bool.len(), 1);
    assert_eq!(SqlType::Int2.len(), 2);
    assert_eq!(SqlType::Int4.len(), 4);
    assert_eq!(SqlType::Varchar.len(), -1);
}

#[test]
fn object_ids_and_names_of_types_come_back() {
    for oid in -10..20000 {
        if let Some(sql_type) = SqlType::from_oid(oid) {
            assert_eq!(sql_type.oid(), oid);
            assert_eq!(SqlType::from_str(sql_type.name()), Some(sql_type));
        }
    }
}

#[test]
fn columns_have_the_type_of_the_wire() {
    assert_eq!(ColumnType::from_data_type(&DataType::SmallInt), Some(ColumnType::SmallInt));
    assert_eq!(ColumnType::from_data_type(&DataType::Other), None);
    assert_eq!(ColumnType::SmallInt.pg_type(), SqlType::Int2);
    assert_eq!(ColumnType::Integer.pg_type(), SqlType::Int4);
    assert_eq!(ColumnType::BigInt.pg_type(), SqlType::Int8);
    assert_eq!(ColumnType::Char(3).pg_type(), SqlType::Bpchar);
    assert_eq!(ColumnType::VarChar(3).pg_type(), SqlType::Varchar);
    assert_eq!(ColumnType::Bool.pg_type(), SqlType::Bool);
    assert_eq!(ScalarType::Int16.to_pg_types(), SqlType::Int2);
    assert_eq!(ScalarType::String.to_pg_types(), SqlType::Varchar);
    assert!(ScalarType::Int64.is_integer());
    assert!(ScalarType::Float32.is_float());
    assert!(ScalarType::String.is_string());
    assert!(!ScalarType::Boolean.is_integer());
}

#[test]
fn names_of_tables_have_two_parts() {
    let full = FullTableName::try_from(&name(&["Schema_Name", "TABLE_name"])).expect("name of table");
    assert_eq!(full.schema(), "schema_name");
    assert_eq!(full.table(), "table_name");
    assert_eq!(full.as_tuple(), ("schema_name", "table_name"));
    assert_eq!(full.text(), "schema_name.table_name");
    assert_eq!(
        FullTableName::try_from(&name(&["only_table"])),
        Err(TableNamingError::Unqualified("only_table".to_owned()))
    );
    assert_eq!(
        FullTableName::try_from(&name(&["a", "b", "c"])),
        Err(TableNamingError::NotProcessed("a.b.c".to_owned()))
    );
    assert_eq!(dotted_name(&name(&["a", "B", "c"])), "a.B.c");
}

#[test]
fn names_of_schemas_have_one_part() {
    let schema = SchemaName::try_from(&name(&["Schema_Name"])).expect("name of schema");
    assert_eq!(schema.name(), "schema_name");
    let error = SchemaName::try_from(&name(&["a", "b"])).expect_err("not the name of a schema");
    assert_eq!(error.0, "a.b");
    assert_eq!(error.message(), "only unqualified schema names are supported, 'a.b'");
}

#[test]
fn lower_case_is_that_of_unicode() {
    let schema = SchemaName::try_from(&name(&["\u{00C4}BC"])).expect("name of schema");
    assert_eq!(schema.name(), "\u{00E4}bc");
}

#[test]
fn texts_are_joined_and_numbers_written() {
    assert_eq!(join(&vec![], ", "), "");
    assert_eq!(join(&vec!["a".to_owned()], ", "), "a");
    assert_eq!(join(&vec!["a".to_owned(), "b".to_owned(), "c".to_owned()], ", "), "a, b, c");
    assert_eq!(decimal(0), "0");
    assert_eq!(decimal(10), "10");
    assert_eq!(decimal(u64::MAX), "18446744073709551615");
}

fn only(error: QueryError) -> QueryErrorInner {
    let mut errors = error.errors;
    assert_eq!(errors.len(), 1);
    errors.remove(0)
}

fn check(error: QueryError, code: &str, message: &str) {
    let inner = only(error);
    assert_eq!(inner.code(), Some(code.to_owned()));
    assert_eq!(inner.severity(), Some("ERROR".to_owned()));
    assert_eq!(inner.message(), Some(message.to_owned()));
}

#[test]
fn every_error_has_its_code_and_message() {
    check(
        QueryErrorBuilder::new().schema_already_exists("s".to_owned()).build(),
        "42P06",
        "schema \"s\" already exists",
    );
    check(
        QueryErrorBuilder::new().schema_does_not_exist("s".to_owned()).build(),
        "3F000",
        "schema \"s\" does not exist",
    );
    check(
        QueryErrorBuilder::new().table_already_exists("s.t".to_owned()).build(),
        "42P07",
        "table \"s.t\" already exists",
    );
    check(
        QueryErrorBuilder::new().table_does_not_exist("s.t".to_owned()).build(),
        "42P01",
        "table \"s.t\" does not exist",
    );
    check(
        QueryErrorBuilder::new().column_does_not_exist(vec!["a".to_owned()]).build(),
        "42703",
        "column a does not exist",
    );
    check(
        QueryErrorBuilder::new().column_does_not_exist(vec!["a".to_owned(), "b".to_owned()]).build(),
        "42703",
        "columns a, b do not exist",
    );
    check(
        QueryErrorBuilder::new().not_supported_operation("q".to_owned()).build(),
        "42601",
        "Currently, Query 'q' can't be executed",
    );
    check(
        QueryErrorBuilder::new().too_many_insert_expressions().build(),
        "42601",
        "INSERT has more epxressions then target columns",
    );
    check(QueryErrorBuilder::new().division_by_zero().build(), "22012", "division by zero");
}

#[test]
fn errors_of_values_have_their_code_and_message() {
    let mut builder = QueryErrorBuilder::new();
    builder.out_of_range(SqlType::Int2);
    check(builder.build(), "22003", "int2 out of range");
    let mut builder = QueryErrorBuilder::new();
    builder.type_mismatch("abc", SqlType::Int2);
    check(builder.build(), "2200G", "invalid input syntax for type int2: \"abc\"");
    let mut builder = QueryErrorBuilder::new();
    builder.string_length_mismatch(SqlType::Bpchar, 5);
    check(builder.build(), "22026", "value too long for type bpchar(5)");
}

#[test]
fn build_with_collects_what_the_closure_records() {
    let error = QueryErrorBuilder::build_with(|builder| {
        builder.out_of_range(SqlType::Int2);
        builder.type_mismatch("abc", SqlType::Int4);
    });
    assert_eq!(error.errors.len(), 2);
    assert_eq!(error.errors[0].kind, QueryErrorKind::NumericTypeOutOfRange(SqlType::Int2));
    assert_eq!(
        error.errors[1].kind,
        QueryErrorKind::DataTypeMismatch(SqlType::Int4, "abc".to_owned())
    );
    assert_eq!(QueryErrorBuilder::build_with(|_| {}).errors.len(), 0);
}

#[test]
fn errors_become_error_responses_in_their_order() {
    let mut builder = QueryErrorBuilder::new().schema_does_not_exist("s".to_owned());
    builder.out_of_range(SqlType::Int2);
    assert_eq!(
        builder.build().into_messages(),
        vec![
            Message::ErrorResponse(
                Some("ERROR".to_owned()),
                Some("3F000".to_owned()),
                Some("schema \"s\" does not exist".to_owned())
            ),
            Message::ErrorResponse(
                Some("ERROR".to_owned()),
                Some("22003".to_owned()),
                Some("int2 out of range".to_owned())
            ),
        ]
    );
}

#[test]
fn severities_are_written_in_capitals() {
    assert_eq!(Severity::Error.text(), "ERROR");
    assert_eq!(Severity::Fatal.text(), "FATAL");
    assert_eq!(Severity::Panic.text(), "PANIC");
    assert_eq!(Severity::Warning.text(), "WARNING");
    assert_eq!(Severity::Notice.text(), "NOTICE");
    assert_eq!(Severity::Debug.text(), "DEBUG");
    assert_eq!(Severity::Info.text(), "INFO");
    assert_eq!(Severity::Log.text(), "LOG");
}
