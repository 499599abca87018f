use relational_db::executor::QueryExecutor;
use relational_db::results::{QueryErrorBuilder, QueryEvent, QueryResult};
use relational_db::sql_ast::{
    Assignment, BinaryOperator, ColumnDef, DataType, Expr, Ident, ObjectName, ObjectType, Query,
    Select, SetExpr, Statement, TableFactor, TableWithJoins, UnaryOperator, Value,
};
use relational_db::sql_types::SqlType;

const SCHEMA: &str = "schema_name";
const TABLE: &str = "table_name";

fn ident(name: &str) -> Ident {
    Ident { value: name.to_owned() }
}

fn schema(name: &str) -> ObjectName {
    ObjectName(vec![ident(name)])
}

fn table(schema_name: &str, table_name: &str) -> ObjectName {
    ObjectName(vec![ident(schema_name), ident(table_name)])
}

fn number(value: i64) -> Expr {
    if value < 0 {
        Expr::UnaryOp {
            op: UnaryOperator::Minus,
            expr: Box::new(Expr::Value(Value::Number(value.unsigned_abs().to_string()))),
        }
    } else {
        Expr::Value(Value::Number(value.to_string()))
    }
}

fn text(value: &str) -> Expr {
    Expr::Value(Value::SingleQuotedString(value.to_owned()))
}

fn complete(event: QueryResult) -> Vec<QueryResult> {
    vec![event, Ok(QueryEvent::QueryComplete)]
}

fn create_schema(executor: &mut QueryExecutor, name: &str) -> Vec<QueryResult> {
    executor.execute(Statement::CreateSchema { schema_name: schema(name) })
}

fn create_table(
    executor: &mut QueryExecutor,
    schema_name: &str,
    table_name: &str,
    columns: Vec<(&str, DataType)>,
) -> Vec<QueryResult> {
    executor.execute(Statement::CreateTable {
        name: table(schema_name, table_name),
        columns: columns
            .into_iter()
            .map(|(name, data_type)| ColumnDef { name: ident(name), data_type })
            .collect(),
    })
}

fn insert(
    executor: &mut QueryExecutor,
    table_name: &str,
    columns: Vec<&str>,
    rows: Vec<Vec<Expr>>,
) -> Vec<QueryResult> {
    executor.execute(Statement::Insert {
        table_name: table(SCHEMA, table_name),
        columns: columns.into_iter().map(ident).collect(),
        source: Box::new(Query { body: SetExpr::Values(rows) }),
    })
}

fn select(executor: &mut QueryExecutor, schema_name: &str, table_name: &str, columns: Vec<&str>) -> Vec<QueryResult> {
    executor.execute(Statement::Query(Box::new(Query {
        body: SetExpr::Select(Box::new(Select {
            projection: columns.into_iter().map(ident).collect(),
            from: vec![TableWithJoins {
                relation: TableFactor::Table { name: table(schema_name, table_name) },
            }],
            selection: None,
        })),
    })))
}

fn update(executor: &mut QueryExecutor, table_name: &str, assignments: Vec<(&str, Expr)>) -> Vec<QueryResult> {
    executor.execute(Statement::Update {
        table_name: table(SCHEMA, table_name),
        assignments: assignments
            .into_iter()
            .map(|(name, value)| Assignment { id: ident(name), value })
            .collect(),
        selection: None,
    })
}

fn delete(executor: &mut QueryExecutor, table_name: &str) -> Vec<QueryResult> {
    executor.execute(Statement::Delete { table_name: table(SCHEMA, table_name), selection: None })
}

fn selected(columns: Vec<(&str, SqlType)>, rows: Vec<Vec<&str>>) -> Vec<QueryResult> {
    complete(Ok(QueryEvent::RecordsSelected((
        columns.into_iter().map(|(name, sql_type)| (name.to_owned(), sql_type)).collect(),
        rows.into_iter()
            .map(|row| row.into_iter().map(|value| value.to_owned()).collect())
            .collect(),
    ))))
}

fn with_small_ints() -> QueryExecutor {
    let mut executor = QueryExecutor::new();
    create_schema(&mut executor, SCHEMA);
    create_table(
        &mut executor,
        SCHEMA,
        TABLE,
        vec![("column_1", DataType::SmallInt), ("column_2", DataType::SmallInt)],
    );
    executor
}

#[test]
fn every_statement_ends_with_query_complete() {
    let mut executor = QueryExecutor::new();
    assert_eq!(create_schema(&mut executor, SCHEMA), complete(Ok(QueryEvent::SchemaCreated)));
    assert_eq!(
        create_table(&mut executor, SCHEMA, TABLE, vec![("column_1", DataType::SmallInt)]),
        complete(Ok(QueryEvent::TableCreated))
    );
}

#[test]
fn creating_a_schema_twice_is_reported() {
    let mut executor = QueryExecutor::new();
    create_schema(&mut executor, SCHEMA);
    assert_eq!(
        create_schema(&mut executor, SCHEMA),
        complete(Err(QueryErrorBuilder::new().schema_already_exists(SCHEMA.to_owned()).build()))
    );
}

#[test]
fn creating_a_table_twice_is_reported() {
    let mut executor = with_small_ints();
    assert_eq!(
        create_table(&mut executor, SCHEMA, TABLE, vec![("column_1", DataType::SmallInt)]),
        complete(Err(QueryErrorBuilder::new()
            .table_already_exists("schema_name.table_name".to_owned())
            .build()))
    );
}

#[test]
fn creating_a_table_in_a_missing_schema_is_reported() {
    let mut executor = QueryExecutor::new();
    assert_eq!(
        create_table(&mut executor, "nowhere", TABLE, vec![("column_1", DataType::SmallInt)]),
        complete(Err(QueryErrorBuilder::new().schema_does_not_exist("nowhere".to_owned()).build()))
    );
}

#[test]
fn inserted_rows_are_selected_in_the_order_of_insertion() {
    let mut executor = with_small_ints();
    assert_eq!(
        insert(
            &mut executor,
            TABLE,
            vec![],
            vec![vec![number(1), number(2)], vec![number(3), number(4)]]
        ),
        complete(Ok(QueryEvent::RecordsInserted(2)))
    );
    assert_eq!(
        insert(&mut executor, TABLE, vec![], vec![vec![number(5), number(6)]]),
        complete(Ok(QueryEvent::RecordsInserted(1)))
    );
    assert_eq!(
        select(&mut executor, SCHEMA, TABLE, vec![]),
        selected(
            vec![("column_1", SqlType::Int2), ("column_2", SqlType::Int2)],
            vec![vec!["1", "2"], vec!["3", "4"], vec!["5", "6"]]
        )
    );
}

#[test]
fn selected_columns_come_in_the_order_they_are_named() {
    let mut executor = with_small_ints();
    insert(&mut executor, TABLE, vec![], vec![vec![number(1), number(2)]]);
    assert_eq!(
        select(&mut executor, SCHEMA, TABLE, vec!["column_2", "column_1"]),
        selected(
            vec![("column_2", SqlType::Int2), ("column_1", SqlType::Int2)],
            vec![vec!["2", "1"]]
        )
    );
}

#[test]
fn values_go_to_the_columns_that_the_insert_names() {
    let mut executor = with_small_ints();
    assert_eq!(
        insert(&mut executor, TABLE, vec!["column_2", "column_1"], vec![vec![number(1), number(2)]]),
        complete(Ok(QueryEvent::RecordsInserted(1)))
    );
    assert_eq!(
        select(&mut executor, SCHEMA, TABLE, vec![]),
        selected(
            vec![("column_1", SqlType::Int2), ("column_2", SqlType::Int2)],
            vec![vec!["2", "1"]]
        )
    );
}

#[test]
fn update_rewrites_every_row() {
    let mut executor = with_small_ints();
    insert(
        &mut executor,
        TABLE,
        vec![],
        vec![vec![number(1), number(2)], vec![number(3), number(4)]],
    );
    assert_eq!(
        update(&mut executor, TABLE, vec![("column_2", number(10))]),
        complete(Ok(QueryEvent::RecordsUpdated(2)))
    );
    assert_eq!(
        select(&mut executor, SCHEMA, TABLE, vec![]),
        selected(
            vec![("column_1", SqlType::Int2), ("column_2", SqlType::Int2)],
            vec![vec!["1", "10"], vec!["3", "10"]]
        )
    );
}

#[test]
fn update_of_an_empty_table_updates_nothing() {
    let mut executor = with_small_ints();
    assert_eq!(
        update(&mut executor, TABLE, vec![("column_2", number(10))]),
        complete(Ok(QueryEvent::RecordsUpdated(0)))
    );
}

#[test]
fn update_with_a_condition_is_not_supported() {
    let mut executor = with_small_ints();
    let events = executor.execute(Statement::Update {
        table_name: table(SCHEMA, TABLE),
        assignments: vec![Assignment { id: ident("column_1"), value: number(1) }],
        selection: Some(Expr::BinaryOp {
            left: Box::new(Expr::Identifier(ident("column_1"))),
            op: BinaryOperator::Eq,
            right: Box::new(number(1)),
        }),
    });
    assert_eq!(events.len(), 2);
    assert!(events[0].is_err());
    assert_eq!(events[1], Ok(QueryEvent::QueryComplete));
}

#[test]
fn delete_takes_every_row() {
    let mut executor = with_small_ints();
    insert(
        &mut executor,
        TABLE,
        vec![],
        vec![vec![number(1), number(2)], vec![number(3), number(4)]],
    );
    assert_eq!(delete(&mut executor, TABLE), complete(Ok(QueryEvent::RecordsDeleted(2))));
    assert_eq!(delete(&mut executor, TABLE), complete(Ok(QueryEvent::RecordsDeleted(0))));
    assert_eq!(
        select(&mut executor, SCHEMA, TABLE, vec![]),
        selected(vec![("column_1", SqlType::Int2), ("column_2", SqlType::Int2)], vec![])
    );
}

#[test]
fn rows_inserted_after_a_delete_get_new_keys() {
    let mut executor = with_small_ints();
    insert(&mut executor, TABLE, vec![], vec![vec![number(1), number(2)]]);
    delete(&mut executor, TABLE);
    insert(&mut executor, TABLE, vec![], vec![vec![number(3), number(4)]]);
    assert_eq!(
        select(&mut executor, SCHEMA, TABLE, vec![]),
        selected(
            vec![("column_1", SqlType::Int2), ("column_2", SqlType::Int2)],
            vec![vec!["3", "4"]]
        )
    );
}

#[test]
fn a_number_beyond_the_column_is_out_of_range() {
    let mut executor = with_small_ints();
    let mut errors = QueryErrorBuilder::new();
    errors.out_of_range(SqlType::Int2);
    assert_eq!(
        insert(&mut executor, TABLE, vec![], vec![vec![number(32768), number(1)]]),
        complete(Err(errors.build()))
    );
}

#[test]
fn the_largest_number_of_the_column_is_stored() {
    let mut executor = with_small_ints();
    assert_eq!(
        insert(&mut executor, TABLE, vec![], vec![vec![number(32767), number(-32768)]]),
        complete(Ok(QueryEvent::RecordsInserted(1)))
    );
    assert_eq!(
        select(&mut executor, SCHEMA, TABLE, vec![]),
        selected(
            vec![("column_1", SqlType::Int2), ("column_2", SqlType::Int2)],
            vec![vec!["32767", "-32768"]]
        )
    );
}

#[test]
fn a_text_in_a_number_column_is_of_the_wrong_type() {
    let mut executor = with_small_ints();
    let mut errors = QueryErrorBuilder::new();
    errors.type_mismatch("abc", SqlType::Int2);
    assert_eq!(
        insert(&mut executor, TABLE, vec![], vec![vec![text("abc"), number(1)]]),
        complete(Err(errors.build()))
    );
}

#[test]
fn every_error_of_a_row_is_reported() {
    let mut executor = with_small_ints();
    let mut errors = QueryErrorBuilder::new();
    errors.out_of_range(SqlType::Int2);
    errors.type_mismatch("abc", SqlType::Int2);
    assert_eq!(
        insert(&mut executor, TABLE, vec![], vec![vec![number(100000), text("abc")]]),
        complete(Err(errors.build()))
    );
}

#[test]
fn a_text_longer_than_the_column_is_refused() {
    let mut executor = QueryExecutor::new();
    create_schema(&mut executor, SCHEMA);
    create_table(&mut executor, SCHEMA, TABLE, vec![("name", DataType::Char(Some(3)))]);
    let mut errors = QueryErrorBuilder::new();
    errors.string_length_mismatch(SqlType::Bpchar, 3);
    assert_eq!(
        insert(&mut executor, TABLE, vec![], vec![vec![text("abcd")]]),
        complete(Err(errors.build()))
    );
    assert_eq!(
        insert(&mut executor, TABLE, vec![], vec![vec![text("abc")]]),
        complete(Ok(QueryEvent::RecordsInserted(1)))
    );
    assert_eq!(
        select(&mut executor, SCHEMA, TABLE, vec![]),
        selected(vec![("name", SqlType::Bpchar)], vec![vec!["abc"]])
    );
}

#[test]
fn an_insert_with_a_bad_row_stores_nothing() {
    let mut executor = with_small_ints();
    let events = insert(
        &mut executor,
        TABLE,
        vec![],
        vec![vec![number(1), number(2)], vec![number(100000), number(4)]],
    );
    assert!(events[0].is_err());
    assert_eq!(
        select(&mut executor, SCHEMA, TABLE, vec![]),
        selected(vec![("column_1", SqlType::Int2), ("column_2", SqlType::Int2)], vec![])
    );
}

#[test]
fn an_update_with_a_bad_value_changes_nothing() {
    let mut executor = with_small_ints();
    insert(&mut executor, TABLE, vec![], vec![vec![number(1), number(2)]]);
    let mut errors = QueryErrorBuilder::new();
    errors.out_of_range(SqlType::Int2);
    assert_eq!(
        update(&mut executor, TABLE, vec![("column_1", number(100000))]),
        complete(Err(errors.build()))
    );
    assert_eq!(
        select(&mut executor, SCHEMA, TABLE, vec![]),
        selected(
            vec![("column_1", SqlType::Int2), ("column_2", SqlType::Int2)],
            vec![vec!["1", "2"]]
        )
    );
}

#[test]
fn more_values_than_columns_are_too_many() {
    let mut executor = with_small_ints();
    assert_eq!(
        insert(&mut executor, TABLE, vec![], vec![vec![number(1), number(2), number(3)]]),
        complete(Err(QueryErrorBuilder::new().too_many_insert_expressions().build()))
    );
}

#[test]
fn a_column_without_a_value_is_null() {
    let mut executor = with_small_ints();
    assert_eq!(
        insert(&mut executor, TABLE, vec!["column_2"], vec![vec![number(7)]]),
        complete(Ok(QueryEvent::RecordsInserted(1)))
    );
    assert_eq!(
        select(&mut executor, SCHEMA, TABLE, vec![]),
        selected(
            vec![("column_1", SqlType::Int2), ("column_2", SqlType::Int2)],
            vec![vec!["NULL", "7"]]
        )
    );
}

#[test]
fn statements_on_a_missing_schema_are_reported() {
    let mut executor = QueryExecutor::new();
    let missing = || complete(Err(QueryErrorBuilder::new().schema_does_not_exist("nowhere".to_owned()).build()));
    assert_eq!(select(&mut executor, "nowhere", TABLE, vec![]), missing());
    assert_eq!(
        executor.execute(Statement::Delete { table_name: table("nowhere", TABLE), selection: None }),
        missing()
    );
}

#[test]
fn statements_on_a_missing_table_are_reported() {
    let mut executor = QueryExecutor::new();
    create_schema(&mut executor, SCHEMA);
    let missing = || {
        complete(Err(QueryErrorBuilder::new()
            .table_does_not_exist("schema_name.nothing".to_owned())
            .build()))
    };
    assert_eq!(select(&mut executor, SCHEMA, "nothing", vec![]), missing());
    assert_eq!(insert(&mut executor, "nothing", vec![], vec![vec![number(1)]]), missing());
    assert_eq!(update(&mut executor, "nothing", vec![("column_1", number(1))]), missing());
    assert_eq!(delete(&mut executor, "nothing"), missing());
}

#[test]
fn selecting_a_missing_column_is_reported() {
    let mut executor = with_small_ints();
    assert_eq!(
        select(&mut executor, SCHEMA, TABLE, vec!["column_3"]),
        complete(Err(QueryErrorBuilder::new()
            .column_does_not_exist(vec!["column_3".to_owned()])
            .build()))
    );
}

#[test]
fn dropped_tables_answer_one_by_one() {
    let mut executor = with_small_ints();
    create_table(&mut executor, SCHEMA, "other", vec![("column_1", DataType::Int)]);
    assert_eq!(
        executor.execute(Statement::Drop {
            object_type: ObjectType::Table,
            names: vec![table(SCHEMA, TABLE), table(SCHEMA, "other")],
            cascade: false,
        }),
        vec![
            Ok(QueryEvent::TableDropped),
            Ok(QueryEvent::TableDropped),
            Ok(QueryEvent::QueryComplete)
        ]
    );
    assert_eq!(
        select(&mut executor, SCHEMA, TABLE, vec![]),
        complete(Err(QueryErrorBuilder::new()
            .table_does_not_exist("schema_name.table_name".to_owned())
            .build()))
    );
}

#[test]
fn a_dropped_schema_takes_its_tables_along() {
    let mut executor = with_small_ints();
    assert_eq!(
        executor.execute(Statement::Drop {
            object_type: ObjectType::Schema,
            names: vec![schema(SCHEMA)],
            cascade: true,
        }),
        complete(Ok(QueryEvent::SchemaDropped))
    );
    assert_eq!(create_schema(&mut executor, SCHEMA), complete(Ok(QueryEvent::SchemaCreated)));
    assert_eq!(
        select(&mut executor, SCHEMA, TABLE, vec![]),
        complete(Err(QueryErrorBuilder::new()
            .table_does_not_exist("schema_name.table_name".to_owned())
            .build()))
    );
}

#[test]
fn names_are_taken_in_lower_case() {
    let mut executor = QueryExecutor::new();
    create_schema(&mut executor, "SCHEMA_NAME");
    assert_eq!(
        create_schema(&mut executor, "schema_name"),
        complete(Err(QueryErrorBuilder::new().schema_already_exists("schema_name".to_owned()).build()))
    );
}

#[test]
fn statements_that_are_not_planned_are_answered() {
    let mut executor = QueryExecutor::new();
    assert_eq!(
        executor.execute(Statement::StartTransaction),
        complete(Ok(QueryEvent::TransactionStarted))
    );
    assert_eq!(executor.execute(Statement::SetVariable), complete(Ok(QueryEvent::VariableSet)));
    assert_eq!(
        executor.execute(Statement::Other("EXPLAIN SELECT 1".to_owned())),
        complete(Err(QueryErrorBuilder::new()
            .feature_not_supported("EXPLAIN SELECT 1".to_owned())
            .build()))
    );
}

#[test]
fn direct_commands_answer_without_query_complete() {
    let mut executor = QueryExecutor::new();
    assert_eq!(executor.create_schema(SCHEMA), Ok(QueryEvent::SchemaCreated));
    assert_eq!(
        executor.drop_table(SCHEMA, TABLE),
        Err(QueryErrorBuilder::new().table_does_not_exist("schema_name.table_name".to_owned()).build())
    );
    assert_eq!(executor.drop_schema(SCHEMA), Ok(QueryEvent::SchemaDropped));
    assert_eq!(
        executor.drop_schema(SCHEMA),
        Err(QueryErrorBuilder::new().schema_does_not_exist(SCHEMA.to_owned()).build())
    );
}
