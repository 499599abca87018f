use relational_db::analyzer::{
    Analyzer, ColumnDesc, Description, DescriptionError, InsertStatement, SelectStatement,
    TableCreationInfo,
};
use relational_db::binary::Datum;
use relational_db::expr::{write_expr, ExpressionEvaluation};
use relational_db::metadata::{DataDefinition, TableId};
use relational_db::planner::{Plan, QueryPlanner};
use relational_db::results::QueryErrorBuilder;
use relational_db::scalar::ScalarOp;
use relational_db::sql_ast::{
    Assignment, BinaryOperator, ColumnDef, DataType, Expr, Ident, ObjectName, ObjectType, Query,
    Select, SetExpr, Statement, TableFactor, TableWithJoins, UnaryOperator, Value,
};
use relational_db::sql_model::{ColumnDefinition, ColumnType, FullTableName, ScalarType, TableDefinition};
use relational_db::sql_types::SqlType;
use std::sync::Arc;

const SCHEMA: &str = "schema_name";
const TABLE: &str = "table_name";

fn ident(name: &str) -> Ident {
    Ident { value: name.to_owned() }
}

fn table(schema_name: &str, table_name: &str) -> ObjectName {
    ObjectName(vec![ident(schema_name), ident(table_name)])
}

fn select(schema_name: &str, table_name: &str) -> Statement {
    Statement::Query(Box::new(Query {
        body: SetExpr::Select(Box::new(Select {
            projection: vec![],
            from: vec![TableWithJoins {
                relation: TableFactor::Table { name: table(schema_name, table_name) },
            }],
            selection: None,
        })),
    }))
}

fn insert(schema_name: &str, table_name: &str, rows: Vec<Vec<Expr>>) -> Statement {
    Statement::Insert {
        table_name: table(schema_name, table_name),
        columns: vec![],
        source: Box::new(Query { body: SetExpr::Values(rows) }),
    }
}

fn number(value: u32) -> Expr {
    Expr::Value(Value::Number(value.to_string()))
}

fn definition_with_table() -> DataDefinition {
    let mut definition = DataDefinition::in_memory();
    definition.create_schema(SCHEMA);
    definition.create_table(
        SCHEMA,
        TABLE,
        vec![
            ColumnDefinition::new("col1", ColumnType::SmallInt),
            ColumnDefinition::new("col2", ColumnType::VarChar(10)),
        ],
    );
    definition
}

fn full_name(schema_name: &str, table_name: &str) -> FullTableName {
    FullTableName::try_from(&table(schema_name, table_name)).expect("name of a table")
}

#[test]
fn schema_does_not_exist() {
    let analyzer = Analyzer::new(Arc::new(DataDefinition::in_memory()));
    assert_eq!(
        analyzer.describe(&select("non_existent_schema", TABLE)),
        Err(DescriptionError::schema_does_not_exist("non_existent_schema"))
    );
}

#[test]
fn table_does_not_exist() {
    let mut definition = DataDefinition::in_memory();
    definition.create_schema(SCHEMA);

    let analyzer = Analyzer::new(Arc::new(definition));
    assert_eq!(
        analyzer.describe(&select(SCHEMA, "non_existent_table")),
        Err(DescriptionError::table_does_not_exist(&full_name(SCHEMA, "non_existent_table")))
    );
    assert_eq!(
        analyzer.describe(&select(SCHEMA, "non_existent_table")),
        Err(DescriptionError::TableDoesNotExist(format!("{}.{}", SCHEMA, "non_existent_table")))
    );
}

#[test]
fn an_insert_and_a_query_are_described_by_their_table() {
    let analyzer = Analyzer::new(Arc::new(definition_with_table()));
    assert_eq!(
        analyzer.describe(&insert(SCHEMA, TABLE, vec![vec![number(1)]])),
        Ok(Description::Insert(InsertStatement {
            table_id: TableId(0, 0),
            sql_types: vec![SqlType::Int2, SqlType::Varchar],
        }))
    );
    assert_eq!(
        analyzer.describe(&select(SCHEMA, TABLE)),
        Ok(Description::Select(SelectStatement {
            table_id: TableId(0, 0),
            sql_types: vec![SqlType::Int2, SqlType::Varchar],
        }))
    );
}

#[test]
fn a_table_to_create_is_described_by_its_columns() {
    let analyzer = Analyzer::new(Arc::new(definition_with_table()));
    let create = |name: ObjectName, data_type: DataType| Statement::CreateTable {
        name,
        columns: vec![ColumnDef { name: ident("Col"), data_type }],
    };
    assert_eq!(
        analyzer.describe(&create(table(SCHEMA, "new_table"), DataType::Int)),
        Ok(Description::CreateTable(TableCreationInfo {
            schema_id: 0,
            table_name: "new_table".to_owned(),
            columns: vec![ColumnDesc { name: "Col".to_owned(), pg_type: SqlType::Int4 }],
        }))
    );
    assert_eq!(
        analyzer.describe(&create(table(SCHEMA, TABLE), DataType::Int)),
        Err(DescriptionError::table_already_exists(&full_name(SCHEMA, TABLE)))
    );
    assert_eq!(
        analyzer.describe(&create(table("nowhere", TABLE), DataType::Int)),
        Err(DescriptionError::schema_does_not_exist("nowhere"))
    );
    assert!(matches!(
        analyzer.describe(&create(ObjectName(vec![ident(TABLE)]), DataType::Int)),
        Err(DescriptionError::SyntaxError(_))
    ));
    assert!(matches!(
        analyzer.describe(&create(table(SCHEMA, "new_table"), DataType::Other)),
        Err(DescriptionError::FeatureNotSupported(_))
    ));
}

#[test]
fn expressions_are_written_as_in_a_statement() {
    let expr = Expr::BinaryOp {
        left: Box::new(Expr::Identifier(ident("col1"))),
        op: BinaryOperator::Plus,
        right: Box::new(Expr::UnaryOp { op: UnaryOperator::Minus, expr: Box::new(number(2)) }),
    };
    assert_eq!(write_expr(&expr), "col1 + - 2");
    assert_eq!(
        write_expr(&Expr::Between {
            expr: Box::new(Expr::Identifier(ident("a"))),
            negated: true,
            low: Box::new(number(1)),
            high: Box::new(Expr::Value(Value::SingleQuotedString("z".to_owned()))),
        }),
        "a NOT BETWEEN 1 AND 'z'"
    );
    assert_eq!(
        write_expr(&Expr::InList {
            expr: Box::new(Expr::CompoundIdentifier(vec![ident("t"), ident("a")])),
            list: vec![number(1), Expr::Value(Value::Boolean(true)), Expr::Value(Value::Null)],
            negated: false,
        }),
        "t.a IN (1, true, NULL)"
    );
}

fn evaluation() -> ExpressionEvaluation {
    ExpressionEvaluation::new(vec![TableDefinition::new(
        SCHEMA,
        TABLE,
        vec![
            ColumnDefinition::new("col1", ColumnType::SmallInt),
            ColumnDefinition::new("col2", ColumnType::VarChar(10)),
        ],
    )])
}

#[test]
fn expressions_resolve_to_operations() {
    let evaluation = evaluation();
    assert_eq!(evaluation.eval(&number(5)), Ok(ScalarOp::Literal(Datum::from_i32(5))));
    assert_eq!(
        evaluation.eval(&Expr::UnaryOp { op: UnaryOperator::Minus, expr: Box::new(number(5)) }),
        Ok(ScalarOp::Literal(Datum::from_i32(-5)))
    );
    assert_eq!(
        evaluation.eval(&Expr::Identifier(ident("col1"))),
        Ok(ScalarOp::Column(0, ScalarType::Int16))
    );
    assert_eq!(
        evaluation.eval(&Expr::Identifier(ident("col2"))),
        Ok(ScalarOp::Column(1, ScalarType::String))
    );
    assert_eq!(
        evaluation.eval(&Expr::Identifier(ident("col3"))),
        Err(QueryErrorBuilder::new().undefined_column("col3".to_owned()).build())
    );
    assert_eq!(
        evaluation.eval_assignment(&Assignment { id: ident("col1"), value: number(7) }),
        Ok(ScalarOp::Assignment {
            destination: 0,
            value: Box::new(ScalarOp::Literal(Datum::from_i32(7))),
            ty: ScalarType::Int32,
        })
    );
}

#[test]
fn column_types_have_their_scalar_type() {
    assert_eq!(ExpressionEvaluation::convert_sql_type(ColumnType::SmallInt), Some(ScalarType::Int16));
    assert_eq!(ExpressionEvaluation::convert_sql_type(ColumnType::Integer), Some(ScalarType::Int32));
    assert_eq!(ExpressionEvaluation::convert_sql_type(ColumnType::BigInt), Some(ScalarType::Int64));
    assert_eq!(ExpressionEvaluation::convert_sql_type(ColumnType::Bool), Some(ScalarType::Boolean));
    assert_eq!(ExpressionEvaluation::convert_sql_type(ColumnType::VarChar(1)), Some(ScalarType::String));
}

#[test]
fn plans_name_what_is_to_be_done() {
    let definition = definition_with_table();
    match QueryPlanner::plan(
        Statement::CreateSchema { schema_name: ObjectName(vec![ident("New_Schema")]) },
        &definition,
    ) {
        Ok(Plan::CreateSchema(info)) => assert_eq!(info.schema_name, "new_schema"),
        _ => panic!("a schema is to be created"),
    }
    match QueryPlanner::plan(insert(SCHEMA, TABLE, vec![vec![number(1)], vec![number(2)]]), &definition) {
        Ok(Plan::Insert(inserts)) => {
            assert_eq!(inserts.table_id, TableId(0, 0));
            assert_eq!(inserts.full_table_name, full_name(SCHEMA, TABLE));
            assert_eq!(inserts.input.len(), 2);
            assert_eq!(inserts.input[0], vec![ScalarOp::Literal(Datum::from_i32(1))]);
            assert_eq!(inserts.column_indices.len(), 2);
        }
        _ => panic!("rows are to be inserted"),
    }
    match QueryPlanner::plan(select(SCHEMA, TABLE), &definition) {
        Ok(Plan::Select(input)) => assert_eq!(input.selected_columns, vec![0, 1]),
        _ => panic!("rows are to be selected"),
    }
    match QueryPlanner::plan(
        Statement::Drop { object_type: ObjectType::Other, names: vec![], cascade: false },
        &definition,
    ) {
        Ok(Plan::NotProcessed(statement)) => assert!(matches!(*statement, Statement::Drop { .. })),
        _ => panic!("the statement is handed on"),
    }
}

#[test]
fn planning_reports_what_is_missing() {
    let definition = definition_with_table();
    assert_eq!(
        QueryPlanner::plan(select("nowhere", TABLE), &definition).err(),
        Some(QueryErrorBuilder::new().schema_does_not_exist("nowhere".to_owned()).build())
    );
    assert_eq!(
        QueryPlanner::plan(insert(SCHEMA, "nothing", vec![]), &definition).err(),
        Some(QueryErrorBuilder::new().table_does_not_exist("schema_name.nothing".to_owned()).build())
    );
    assert_eq!(
        QueryPlanner::plan(
            Statement::CreateSchema { schema_name: ObjectName(vec![ident(SCHEMA)]) },
            &definition
        )
        .err(),
        Some(QueryErrorBuilder::new().schema_already_exists(SCHEMA.to_owned()).build())
    );
}

#[test]
fn concatenation_takes_a_text_with_anything_on_either_side() {
    let evaluation = evaluation();
    let others = [
        ScalarType::Boolean,
        ScalarType::Int16,
        ScalarType::Int32,
        ScalarType::Int64,
        ScalarType::Float32,
        ScalarType::Float64,
        ScalarType::String,
    ];
    for other in others {
        assert_eq!(
            evaluation.compatible_types_for_op(BinaryOperator::StringConcat, ScalarType::String, other),
            Some(ScalarType::String)
        );
        assert_eq!(
            evaluation.compatible_types_for_op(BinaryOperator::StringConcat, other, ScalarType::String),
            Some(ScalarType::String)
        );
        assert_eq!(
            evaluation.compatible_types_for_op(BinaryOperator::Plus, ScalarType::String, other),
            None
        );
    }
    assert_eq!(
        evaluation.compatible_types_for_op(BinaryOperator::StringConcat, ScalarType::Boolean, ScalarType::Int16),
        None
    );
    assert_eq!(
        evaluation.compatible_types_for_op(BinaryOperator::StringConcat, ScalarType::Int16, ScalarType::Int16),
        Some(ScalarType::String)
    );
}

#[test]
fn arithmetic_takes_two_numbers_of_one_type() {
    let evaluation = evaluation();
    assert_eq!(
        evaluation.compatible_types_for_op(BinaryOperator::Plus, ScalarType::Int32, ScalarType::Int32),
        Some(ScalarType::Int32)
    );
    assert_eq!(
        evaluation.compatible_types_for_op(BinaryOperator::Plus, ScalarType::Int16, ScalarType::Int32),
        None
    );
    assert_eq!(
        evaluation.compatible_types_for_op(BinaryOperator::Multiply, ScalarType::Float64, ScalarType::Float64),
        Some(ScalarType::Float64)
    );
    assert_eq!(
        evaluation.compatible_types_for_op(BinaryOperator::Plus, ScalarType::Int32, ScalarType::Float32),
        None
    );
    assert_eq!(
        evaluation.compatible_types_for_op(BinaryOperator::BitwiseAnd, ScalarType::Float32, ScalarType::Float32),
        None
    );
}

#[test]
fn a_number_and_a_text_are_written_one_after_the_other() {
    let evaluation = evaluation();
    let concat = |left: Expr, right: Expr| Expr::BinaryOp {
        left: Box::new(left),
        op: BinaryOperator::StringConcat,
        right: Box::new(right),
    };
    let text = |value: &str| Expr::Value(Value::SingleQuotedString(value.to_owned()));
    assert_eq!(
        evaluation.eval(&concat(number(1), text("a"))),
        Ok(ScalarOp::Literal(Datum::from_string("1a".to_owned())))
    );
    assert_eq!(
        evaluation.eval(&concat(text("a"), Expr::Value(Value::Boolean(true)))),
        Ok(ScalarOp::Literal(Datum::from_string("at".to_owned())))
    );
    assert_eq!(
        evaluation.eval(&concat(Expr::Identifier(ident("col1")), text("a"))),
        Ok(ScalarOp::Binary(
            BinaryOperator::StringConcat,
            Box::new(ScalarOp::Column(0, ScalarType::Int16)),
            Box::new(ScalarOp::Literal(Datum::from_string("a".to_owned()))),
            ScalarType::String,
        ))
    );
    assert_eq!(
        evaluation.eval(&concat(Expr::Value(Value::Boolean(true)), number(1))),
        Err(QueryErrorBuilder::new()
            .undefined_function("||".to_owned(), "boolean".to_owned(), "integer".to_owned())
            .build())
    );
}
