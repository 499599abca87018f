use num_bigint::BigInt;
use relational_db::engine::{Engine, EngineEvent, ErrorEvent, ExecutionResult};
use relational_db::sql_ast::{
    Assignment, BinaryOperator, ColumnDef, DataType, Expr, Ident, ObjectName, Query, Select,
    SetExpr, Statement, TableFactor, TableWithJoins, Value,
};

const TABLE_NAME: &str = "simple_table";
const COLUMN_NAME: &str = "int_column";

fn ident(name: &str) -> Ident {
    Ident { value: name.to_owned() }
}

fn table(name: &str) -> ObjectName {
    ObjectName(vec![ident(name)])
}

fn number(value: i32) -> Expr {
    Expr::Value(Value::Number(value.to_string()))
}

fn column() -> Expr {
    Expr::Identifier(ident(COLUMN_NAME))
}

fn create_table_named(engine: &mut Engine, name: &str) -> ExecutionResult {
    engine.execute(Statement::CreateTable {
        name: table(name),
        columns: vec![ColumnDef { name: ident(COLUMN_NAME), data_type: DataType::Int }],
    })
}

#[allow(unused_must_use)]
fn create_table(engine: &mut Engine) {
    create_table_named(engine, TABLE_NAME);
}

fn insert_value(engine: &mut Engine, value: i32) -> ExecutionResult {
    engine.execute(Statement::Insert {
        table_name: table(TABLE_NAME),
        columns: vec![],
        source: Box::new(Query { body: SetExpr::Values(vec![vec![number(value)]]) }),
    })
}

fn select_where(engine: &mut Engine, selection: Option<Expr>) -> ExecutionResult {
    engine.execute(Statement::Query(Box::new(Query {
        body: SetExpr::Select(Box::new(Select {
            projection: vec![ident(COLUMN_NAME)],
            from: vec![TableWithJoins { relation: TableFactor::Table { name: table(TABLE_NAME) } }],
            selection,
        })),
    })))
}

fn equals(value: i32) -> Expr {
    Expr::BinaryOp { left: Box::new(column()), op: BinaryOperator::Eq, right: Box::new(number(value)) }
}

fn select_value(engine: &mut Engine, value: i32) -> ExecutionResult {
    select_where(engine, Some(equals(value)))
}

fn select_all(engine: &mut Engine) -> ExecutionResult {
    select_where(engine, None)
}

fn between(negated: bool, from: i32, to: i32) -> Expr {
    Expr::Between {
        expr: Box::new(column()),
        negated,
        low: Box::new(number(from)),
        high: Box::new(number(to)),
    }
}

fn select_between(engine: &mut Engine, from: i32, to: i32) -> ExecutionResult {
    select_where(engine, Some(between(false, from, to)))
}

fn select_not_between(engine: &mut Engine, from: i32, to: i32) -> ExecutionResult {
    select_where(engine, Some(between(true, from, to)))
}

fn in_list(negated: bool, one: i32, two: i32, three: i32) -> Expr {
    Expr::InList {
        expr: Box::new(column()),
        list: vec![number(one), number(two), number(three)],
        negated,
    }
}

fn select_in(engine: &mut Engine, one: i32, two: i32, three: i32) -> ExecutionResult {
    select_where(engine, Some(in_list(false, one, two, three)))
}

fn select_not_in(engine: &mut Engine, one: i32, two: i32, three: i32) -> ExecutionResult {
    select_where(engine, Some(in_list(true, one, two, three)))
}

fn update_where(engine: &mut Engine, value: i32, selection: Option<Expr>) -> ExecutionResult {
    engine.execute(Statement::Update {
        table_name: table(TABLE_NAME),
        assignments: vec![Assignment { id: ident(COLUMN_NAME), value: number(value) }],
        selection,
    })
}

fn update_value(engine: &mut Engine, from: i32, to: i32) -> ExecutionResult {
    update_where(engine, from, Some(equals(to)))
}

fn update_all(engine: &mut Engine) -> ExecutionResult {
    update_where(engine, 100, None)
}

fn delete_where(engine: &mut Engine, selection: Option<Expr>) -> ExecutionResult {
    engine.execute(Statement::Delete { table_name: table(TABLE_NAME), selection })
}

fn delete_value(engine: &mut Engine, value: i32) -> ExecutionResult {
    delete_where(engine, Some(equals(value)))
}

fn delete_all(engine: &mut Engine) -> ExecutionResult {
    delete_where(engine, None)
}

fn stored(val: i32) -> Vec<u8> {
    bincode::serialize(&BigInt::from(val)).unwrap()
}

#[test]
fn create_two_tables() {
    let mut engine = Engine::default();

    assert_eq!(
        create_table_named(&mut engine, "simple_table"),
        Ok(EngineEvent::TableCreated("simple_table".to_owned()))
    );

    assert_eq!(
        create_table_named(&mut engine, "another_table"),
        Ok(EngineEvent::TableCreated("another_table".to_owned()))
    );
}

#[test]
fn error_when_trying_to_create_table_with_existing_name() {
    let mut engine = Engine::default();

    assert_eq!(
        create_table_named(&mut engine, "simple_table"),
        Ok(EngineEvent::TableCreated("simple_table".to_owned()))
    );

    assert_eq!(
        create_table_named(&mut engine, "simple_table"),
        Err(ErrorEvent::TableAlreadyExists("simple_table".to_owned()))
    );
}

#[test]
fn create_table_if_not_exists() {
    let mut engine = Engine::default();

    assert_eq!(
        create_table_named(&mut engine, "simple_table"),
        Ok(EngineEvent::TableCreated("simple_table".to_owned()))
    );
}

#[test]
fn insert_into_not_existed_table() {
    let mut engine = Engine::default();

    assert_eq!(
        insert_value(&mut engine, 1),
        Err(ErrorEvent::TableDoesNotExist(TABLE_NAME.to_owned()))
    )
}

#[test]
fn select_from_not_existed_table() {
    let mut engine = Engine::default();

    assert_eq!(
        select_all(&mut engine),
        Err(ErrorEvent::TableDoesNotExist(TABLE_NAME.to_owned()))
    )
}

#[test]
fn update_from_not_existed_table() {
    let mut engine = Engine::default();

    assert_eq!(
        update_all(&mut engine),
        Err(ErrorEvent::TableDoesNotExist(TABLE_NAME.to_owned()))
    )
}

#[test]
fn delete_from_not_existed_table() {
    let mut engine = Engine::default();

    assert_eq!(
        delete_all(&mut engine),
        Err(ErrorEvent::TableDoesNotExist(TABLE_NAME.to_owned()))
    )
}

#[test]
fn insert_select_single_record() {
    let mut engine = Engine::default();
    create_table(&mut engine);

    assert_eq!(
        insert_value(&mut engine, 1),
        Ok(EngineEvent::RecordInserted)
    );

    assert_eq!(
        select_value(&mut engine, 1),
        Ok(EngineEvent::RecordsSelected(vec![stored(1)]))
    );
}

#[test]
fn insert_many_select_single_record() {
    let mut engine = Engine::default();
    create_table(&mut engine);

    assert_eq!(
        insert_value(&mut engine, 1),
        Ok(EngineEvent::RecordInserted)
    );
    assert_eq!(
        insert_value(&mut engine, 2),
        Ok(EngineEvent::RecordInserted)
    );
    assert_eq!(
        insert_value(&mut engine, 3),
        Ok(EngineEvent::RecordInserted)
    );

    assert_eq!(
        select_value(&mut engine, 2),
        Ok(EngineEvent::RecordsSelected(vec![stored(2)]))
    );
}

#[test]
fn insert_many_select_all_records() {
    let mut engine = Engine::default();
    create_table(&mut engine);

    assert_eq!(
        insert_value(&mut engine, 1),
        Ok(EngineEvent::RecordInserted)
    );
    assert_eq!(
        insert_value(&mut engine, 2),
        Ok(EngineEvent::RecordInserted)
    );
    assert_eq!(
        insert_value(&mut engine, 3),
        Ok(EngineEvent::RecordInserted)
    );

    assert_eq!(
        select_all(&mut engine),
        Ok(EngineEvent::RecordsSelected(vec![stored(1), stored(2), stored(3)]))
    );
}

#[test]
fn update_single_value() {
    let mut engine = Engine::default();
    create_table(&mut engine);

    assert_eq!(
        insert_value(&mut engine, 1),
        Ok(EngineEvent::RecordInserted)
    );
    assert_eq!(
        insert_value(&mut engine, 2),
        Ok(EngineEvent::RecordInserted)
    );
    assert_eq!(
        insert_value(&mut engine, 3),
        Ok(EngineEvent::RecordInserted)
    );

    assert_eq!(
        update_value(&mut engine, 4, 2),
        Ok(EngineEvent::RecordsUpdated)
    );
    assert_eq!(
        select_all(&mut engine),
        Ok(EngineEvent::RecordsSelected(vec![stored(1), stored(4), stored(3)]))
    );
}

#[test]
fn update_all_values() {
    let mut engine = Engine::default();
    create_table(&mut engine);

    assert_eq!(
        insert_value(&mut engine, 1),
        Ok(EngineEvent::RecordInserted)
    );
    assert_eq!(
        insert_value(&mut engine, 2),
        Ok(EngineEvent::RecordInserted)
    );
    assert_eq!(
        insert_value(&mut engine, 3),
        Ok(EngineEvent::RecordInserted)
    );

    assert_eq!(update_all(&mut engine), Ok(EngineEvent::RecordsUpdated));
    assert_eq!(
        select_all(&mut engine),
        Ok(EngineEvent::RecordsSelected(vec![
            stored(100),
            stored(100),
            stored(100)
        ]))
    );
}

#[test]
fn delete_single_value() {
    let mut engine = Engine::default();
    create_table(&mut engine);

    assert_eq!(
        insert_value(&mut engine, 1),
        Ok(EngineEvent::RecordInserted)
    );
    assert_eq!(
        insert_value(&mut engine, 2),
        Ok(EngineEvent::RecordInserted)
    );
    assert_eq!(
        insert_value(&mut engine, 3),
        Ok(EngineEvent::RecordInserted)
    );

    assert_eq!(
        delete_value(&mut engine, 2),
        Ok(EngineEvent::RecordsDeleted)
    );
    assert_eq!(
        select_all(&mut engine),
        Ok(EngineEvent::RecordsSelected(vec![stored(1), stored(3)]))
    );
}

#[test]
fn delete_all_values() {
    let mut engine = Engine::default();
    create_table(&mut engine);

    assert_eq!(
        insert_value(&mut engine, 1),
        Ok(EngineEvent::RecordInserted)
    );
    assert_eq!(
        insert_value(&mut engine, 2),
        Ok(EngineEvent::RecordInserted)
    );
    assert_eq!(
        insert_value(&mut engine, 3),
        Ok(EngineEvent::RecordInserted)
    );

    assert_eq!(delete_all(&mut engine), Ok(EngineEvent::RecordsDeleted));
    assert_eq!(
        select_all(&mut engine),
        Ok(EngineEvent::RecordsSelected(vec![]))
    );
}

#[test]
fn select_in_range() {
    let mut engine = Engine::default();
    create_table(&mut engine);

    assert_eq!(
        insert_value(&mut engine, 1),
        Ok(EngineEvent::RecordInserted)
    );
    assert_eq!(
        insert_value(&mut engine, 2),
        Ok(EngineEvent::RecordInserted)
    );
    assert_eq!(
        insert_value(&mut engine, 3),
        Ok(EngineEvent::RecordInserted)
    );
    assert_eq!(
        insert_value(&mut engine, 4),
        Ok(EngineEvent::RecordInserted)
    );
    assert_eq!(
        insert_value(&mut engine, 5),
        Ok(EngineEvent::RecordInserted)
    );

    assert_eq!(
        select_between(&mut engine, 2, 4),
        Ok(EngineEvent::RecordsSelected(vec![stored(2), stored(3), stored(4)]))
    );
}

#[test]
fn select_out_range() {
    let mut engine = Engine::default();
    create_table(&mut engine);

    assert_eq!(
        insert_value(&mut engine, 1),
        Ok(EngineEvent::RecordInserted)
    );
    assert_eq!(
        insert_value(&mut engine, 2),
        Ok(EngineEvent::RecordInserted)
    );
    assert_eq!(
        insert_value(&mut engine, 3),
        Ok(EngineEvent::RecordInserted)
    );
    assert_eq!(
        insert_value(&mut engine, 4),
        Ok(EngineEvent::RecordInserted)
    );
    assert_eq!(
        insert_value(&mut engine, 5),
        Ok(EngineEvent::RecordInserted)
    );

    assert_eq!(
        select_not_between(&mut engine, 2, 4),
        Ok(EngineEvent::RecordsSelected(vec![stored(1), stored(5)]))
    );
}

#[test]
fn select_in_enumeration() {
    let mut engine = Engine::default();
    create_table(&mut engine);

    assert_eq!(
        insert_value(&mut engine, 1),
        Ok(EngineEvent::RecordInserted)
    );
    assert_eq!(
        insert_value(&mut engine, 2),
        Ok(EngineEvent::RecordInserted)
    );
    assert_eq!(
        insert_value(&mut engine, 3),
        Ok(EngineEvent::RecordInserted)
    );
    assert_eq!(
        insert_value(&mut engine, 4),
        Ok(EngineEvent::RecordInserted)
    );
    assert_eq!(
        insert_value(&mut engine, 5),
        Ok(EngineEvent::RecordInserted)
    );

    assert_eq!(
        select_in(&mut engine, 1, 3, 5),
        Ok(EngineEvent::RecordsSelected(vec![stored(1), stored(3), stored(5)]))
    )
}

#[test]
fn select_out_of_enumeration() {
    let mut engine = Engine::default();
    create_table(&mut engine);

    assert_eq!(
        insert_value(&mut engine, 1),
        Ok(EngineEvent::RecordInserted)
    );
    assert_eq!(
        insert_value(&mut engine, 2),
        Ok(EngineEvent::RecordInserted)
    );
    assert_eq!(
        insert_value(&mut engine, 3),
        Ok(EngineEvent::RecordInserted)
    );
    assert_eq!(
        insert_value(&mut engine, 4),
        Ok(EngineEvent::RecordInserted)
    );
    assert_eq!(
        insert_value(&mut engine, 5),
        Ok(EngineEvent::RecordInserted)
    );

    assert_eq!(
        select_not_in(&mut engine, 1, 3, 5),
        Ok(EngineEvent::RecordsSelected(vec![stored(2), stored(4)]))
    )
}
