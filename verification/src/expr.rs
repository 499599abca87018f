//! Turning the expressions of a statement into scalar operations: names
//! are resolved against the tables of the statement, literals become
//! values, and operators are checked against the types of their operands.

use vstd::prelude::*;
use crate::binary::{Datum, DatumModel};
use crate::results::{ErrorKindView, ErrorView, QueryError, QueryErrorBuilder, error_of, one_error};
use crate::scalar::{
    binary_outcome, literal_datum, undefined, EvalError, EvalErrorModel, EvalScalarOp, ScalarOp,
    ScalarOpModel,
};
use crate::sql_ast::{Assignment, BinaryOperator, DataType, Expr, Ident, UnaryOperator, Value};
use crate::sql_model::{
    column_position, ColumnDefinition, ColumnType, ScalarType, TableDefinition,
};
use crate::text::spec_join;

verus! {

/// The literal as it is written.
pub open spec fn value_text(value: Value) -> Seq<char> {
    match value {
        Value::Number(digits) => digits@,
        Value::SingleQuotedString(text) => "'"@ + text@ + "'"@,
        Value::Boolean(value) => if value {
            "true"@
        } else {
            "false"@
        },
        Value::Null => "NULL"@,
    }
}

/// The names with dots between them.
pub open spec fn idents_text(idents: Seq<Ident>) -> Seq<char> {
    spec_join(idents.map_values(|ident: Ident| ident.value@), "."@)
}

/// The expressions as they are written, with `, ` between them.
pub open spec fn list_text(list: Seq<Expr>) -> Seq<char>
    decreases list,
{
    if list.len() == 0 {
        Seq::empty()
    } else if list.len() == 1 {
        expr_text(list[0])
    } else {
        list_text(list.drop_last()) + ", "@ + expr_text(list.last())
    }
}

/// The expression as it is written.
pub open spec fn expr_text(expr: Expr) -> Seq<char>
    decreases expr,
{
    match expr {
        Expr::Identifier(ident) => ident.value@,
        Expr::CompoundIdentifier(idents) => idents_text(idents@),
        Expr::Value(value) => value_text(value),
        Expr::UnaryOp { op, expr } => op.spec_text() + " "@ + expr_text(*expr),
        Expr::BinaryOp { left, op, right } => expr_text(*left) + " "@ + op.spec_text() + " "@
            + expr_text(*right),
        Expr::Between { expr, negated, low, high } => expr_text(*expr) + (if negated {
            " NOT BETWEEN "@
        } else {
            " BETWEEN "@
        }) + expr_text(*low) + " AND "@ + expr_text(*high),
        Expr::InList { expr, list, negated } => expr_text(*expr) + (if negated {
            " NOT IN ("@
        } else {
            " IN ("@
        }) + list_text(list@) + ")"@,
        Expr::Cast { expr, data_type } => "CAST("@ + expr_text(*expr) + ")"@,
        Expr::Other(text) => text@,
    }
}

/// Writes the literal as it is written in a statement.
pub fn write_value(value: &Value) -> (text: String)
    ensures
        text@ == value_text(*value),
{
    match value {
        Value::Number(digits) => digits.clone(),
        Value::SingleQuotedString(quoted) => {
            let mut text = String::from_str("'");
            text.append(quoted.as_str());
            text.append("'");
            text
        },
        Value::Boolean(value) => if *value {
            String::from_str("true")
        } else {
            String::from_str("false")
        },
        Value::Null => String::from_str("NULL"),
    }
}

/// Writes the names with dots between them.
pub fn write_idents(idents: &Vec<Ident>) -> (text: String)
    ensures
        text@ == idents_text(idents@),
{
    let ghost names = idents@.map_values(|ident: Ident| ident.value@);
    let mut text = String::new();
    let mut i: usize = 0;
    while i < idents.len()
        invariant
            i <= idents@.len(),
            names == idents@.map_values(|ident: Ident| ident.value@),
            text@ == spec_join(names.take(i as int), "."@),
        decreases idents.len() - i,
    {
        proof {
            assert(names.take(i + 1).drop_last() =~= names.take(i as int));
            assert(names.take(i + 1).last() == idents@[i as int].value@);
            if i == 0 {
                assert(text@ + idents@[i as int].value@ =~= idents@[i as int].value@);
            }
        }
        if i > 0 {
            text.append(".");
        }
        text.append(idents[i].value.as_str());
        i += 1;
    }
    proof {
        assert(names.take(idents@.len() as int) =~= names);
    }
    text
}

/// Writes the expression as it is written in a statement.
pub fn write_expr(expr: &Expr) -> (text: String)
    ensures
        text@ == expr_text(*expr),
    decreases expr,
{
    let ghost whole = *expr;
    match expr {
        Expr::Identifier(ident) => ident.value.clone(),
        Expr::CompoundIdentifier(idents) => write_idents(idents),
        Expr::Value(value) => write_value(value),
        Expr::UnaryOp { op, expr } => {
            let mut text = String::from_str(op.text());
            text.append(" ");
            let operand = write_expr(expr);
            text.append(operand.as_str());
            text
        },
        Expr::BinaryOp { left, op, right } => {
            let mut text = write_expr(left);
            text.append(" ");
            text.append(op.text());
            text.append(" ");
            let right_text = write_expr(right);
            text.append(right_text.as_str());
            text
        },
        Expr::Between { expr, negated, low, high } => {
            let mut text = write_expr(expr);
            if *negated {
                text.append(" NOT BETWEEN ");
            } else {
                text.append(" BETWEEN ");
            }
            let low_text = write_expr(low);
            text.append(low_text.as_str());
            text.append(" AND ");
            let high_text = write_expr(high);
            text.append(high_text.as_str());
            text
        },
        Expr::InList { expr: subject, list, negated } => {
            let mut text = write_expr(subject);
            if *negated {
                text.append(" NOT IN (");
            } else {
                text.append(" IN (");
            }
            let mut items = String::new();
            let mut i: usize = 0;
            while i < list.len()
                invariant
                    i <= list@.len(),
                    items@ == list_text(list@.take(i as int)),
                    whole == *expr,
                    whole matches Expr::InList { list: items, .. } && items == list,
                decreases list.len() - i,
            {
                proof {
                    assert(list@.take(i + 1).drop_last() =~= list@.take(i as int));
                    assert(list@.take(i + 1).last() == list@[i as int]);
                    if i == 0 {
                        assert(items@ + expr_text(list@[0]) =~= expr_text(list@[0]));
                    }
                }
                if i > 0 {
                    items.append(", ");
                }
                proof {
                    let found = list@[i as int];
                    assert(decreases_to!(*list => found));
                    assert(decreases_to!(whole => *list));
                    assert(decreases_to!(whole => found));
                }
                let item = write_expr(&list[i]);
                items.append(item.as_str());
                i += 1;
            }
            proof {
                assert(list@.take(list@.len() as int) =~= list@);
            }
            text.append(items.as_str());
            text.append(")");
            text
        },
        Expr::Cast { expr, data_type: _ } => {
            let mut text = String::from_str("CAST(");
            let inner = write_expr(expr);
            text.append(inner.as_str());
            text.append(")");
            text
        },
        Expr::Other(text) => text.clone(),
    }
}

/// Whether the operator computes a number from two numbers.
pub open spec fn is_numeric(op: BinaryOperator) -> bool {
    op == BinaryOperator::Plus || op == BinaryOperator::Minus || op == BinaryOperator::Multiply
        || op == BinaryOperator::Divide
}

/// The type of what the operator gives for operands of the two types, if
/// the operator takes such operands.
///
/// `||` gives a text wherever a text stands on one side of it, whatever
/// stands on the other, and for two integers of one type. Two integers of
/// one type can be added, subtracted, multiplied, divided and combined bit
/// by bit into an integer of that type; two floating point numbers of one
/// type can be added, subtracted, multiplied and divided. Nothing else is
/// taken: there is no conversion between the families of numbers.
pub open spec fn compatible(op: BinaryOperator, lhs: ScalarType, rhs: ScalarType) -> Option<
    ScalarType,
> {
    if op == BinaryOperator::StringConcat && (lhs.spec_is_string() || rhs.spec_is_string()) {
        Some(ScalarType::String)
    } else if lhs == rhs {
        if lhs.spec_is_integer() {
            if crate::scalar::is_arithmetic(op) {
                Some(lhs)
            } else if op == BinaryOperator::StringConcat {
                Some(ScalarType::String)
            } else {
                None
            }
        } else if lhs.spec_is_float() {
            if is_numeric(op) {
                Some(lhs)
            } else {
                None
            }
        } else {
            None
        }
    } else {
        None
    }
}

/// The columns of each of the tables.
pub open spec fn columns_of(tables: Seq<TableDefinition>) -> Seq<Seq<ColumnDefinition>> {
    tables.map_values(|table: TableDefinition| table.columns@)
}

/// The table and the position in it of the one column that has the name;
/// an error if more than one table has a column of the name.
pub open spec fn found_column(tables: Seq<Seq<ColumnDefinition>>, name: Seq<char>) -> Result<
    Option<(int, int)>,
    (),
>
    decreases tables.len(),
{
    if tables.len() == 0 {
        Ok(None)
    } else {
        match found_column(tables.drop_last(), name) {
            Ok(before) => match column_position(tables.last(), name) {
                Some(position) => if before is Some {
                    Err(())
                } else {
                    Ok(Some((tables.len() - 1, position)))
                },
                None => Ok(before),
            },
            Err(()) => Err(()),
        }
    }
}

pub open spec fn syntax_error(text: Seq<char>) -> ErrorView {
    error_of("42601"@, ErrorKindView::SyntaxError(text))
}

pub open spec fn feature_not_supported(text: Seq<char>) -> ErrorView {
    error_of("0A000"@, ErrorKindView::FeatureNotSupported(text))
}

pub open spec fn undefined_column(name: Seq<char>) -> ErrorView {
    error_of("42703"@, ErrorKindView::ColumnDoesNotExist(seq![name]))
}

pub open spec fn ambiguous_column(name: Seq<char>) -> ErrorView {
    error_of("42702"@, ErrorKindView::AmbiguousColumn(name))
}

/// The error that a literal which is no value is reported as.
pub open spec fn literal_error(error: EvalErrorModel) -> ErrorView {
    match error {
        EvalErrorModel::UnsupportedDatum(kind) => feature_not_supported(
            "Data type not supported: "@ + kind,
        ),
        EvalErrorModel::OutOfRangeNumeric(ty) => error_of(
            "22003"@,
            ErrorKindView::NumericTypeOutOfRange(ty.spec_pg_type()),
        ),
        EvalErrorModel::UnsupportedOperation => feature_not_supported(
            "Use of unsupported expression feature"@,
        ),
    }
}

/// The literal operation for a value, or the error for what is no value.
pub open spec fn literal_result(datum: Result<DatumModel, EvalErrorModel>) -> Result<
    ScalarOpModel,
    ErrorView,
> {
    match datum {
        Ok(datum) => Ok(ScalarOpModel::Literal(datum)),
        Err(error) => Err(literal_error(error)),
    }
}

/// The error for a cast that is not supported.
pub open spec fn cast_error(expr: Expr) -> ErrorView {
    syntax_error("Cast from "@ + expr_text(expr) + " is not currently supported"@)
}

/// What a cast to a boolean makes of the expression.
pub open spec fn cast_to_boolean(expr: Expr) -> Result<ScalarOpModel, ErrorView> {
    match expr {
        Expr::Value(Value::SingleQuotedString(text)) => if text@ == "true"@ {
            Ok(ScalarOpModel::Literal(DatumModel::True))
        } else if text@ == "false"@ {
            Ok(ScalarOpModel::Literal(DatumModel::False))
        } else {
            Err(cast_error(expr))
        },
        Expr::Value(Value::Boolean(value)) => Ok(
            ScalarOpModel::Literal(
                if value {
                    DatumModel::True
                } else {
                    DatumModel::False
                },
            ),
        ),
        _ => Err(cast_error(expr)),
    }
}

/// What the two operations become under the operator: two literals are
/// computed at once, anything else is kept as an operation of the type
/// that the operator gives.
pub open spec fn combined(op: BinaryOperator, lhs: ScalarOpModel, rhs: ScalarOpModel) -> Result<
    ScalarOpModel,
    ErrorView,
> {
    match compatible(op, lhs.scalar_type(), rhs.scalar_type()) {
        Some(ty) => match (lhs, rhs) {
            (ScalarOpModel::Literal(left), ScalarOpModel::Literal(right)) => match binary_outcome(
                op,
                left,
                right,
            ) {
                Ok(datum) => Ok(ScalarOpModel::Literal(datum)),
                Err(error) => Err(error),
            },
            _ => Ok(ScalarOpModel::Binary(op, Box::new(lhs), Box::new(rhs), ty)),
        },
        None => Err(
            undefined(op.spec_text(), lhs.scalar_type().spec_text(), rhs.scalar_type().spec_text()),
        ),
    }
}

/// What a name becomes: the column of the one table that has a column of
/// the name.
pub open spec fn column_of(tables: Seq<Seq<ColumnDefinition>>, name: Seq<char>) -> Result<
    ScalarOpModel,
    ErrorView,
> {
    match found_column(tables, name) {
        Ok(Some((table, position))) => match ScalarType::spec_of_column(
            tables[table][position].spec_sql_type(),
        ) {
            Some(ty) => Ok(ScalarOpModel::Column(position as usize, ty)),
            None => Err(feature_not_supported("Data type not supported"@)),
        },
        Ok(None) => Err(undefined_column(name)),
        Err(()) => Err(ambiguous_column(name)),
    }
}

/// The scalar operation that the expression stands for among the tables.
pub open spec fn resolved(expr: Expr, tables: Seq<Seq<ColumnDefinition>>) -> Result<
    ScalarOpModel,
    ErrorView,
>
    decreases expr,
{
    match expr {
        Expr::Cast { expr: inner, data_type } => if data_type == DataType::Boolean {
            cast_to_boolean(*inner)
        } else {
            Err(cast_error(*inner))
        },
        Expr::UnaryOp { op, expr: operand } => match (op, *operand) {
            (UnaryOperator::Minus, Expr::Value(Value::Number(digits))) => literal_result(
                literal_datum(Value::Number(digits), true),
            ),
            _ => Err(syntax_error(op.spec_text() + expr_text(*operand))),
        },
        Expr::BinaryOp { left, op, right } => match resolved(*left, tables) {
            Ok(lhs) => match resolved(*right, tables) {
                Ok(rhs) => combined(op, lhs, rhs),
                Err(error) => Err(error),
            },
            Err(error) => Err(error),
        },
        Expr::Value(value) => literal_result(literal_datum(value, false)),
        Expr::Identifier(ident) => column_of(tables, ident.value@),
        Expr::CompoundIdentifier(_) => Err(syntax_error(Seq::empty())),
        _ => Err(syntax_error(expr_text(expr))),
    }
}

/// Whether the result is the expected operation, or the one expected
/// error.
pub open spec fn is_resolved(
    got: Result<ScalarOp, QueryError>,
    expected: Result<ScalarOpModel, ErrorView>,
) -> bool {
    match (got, expected) {
        (Ok(op), Ok(model)) => op@ == model,
        (Err(error), Err(view)) => error@ == seq![view],
        _ => false,
    }
}

fn syntax(text: String) -> (error: QueryError)
    ensures
        error@ == seq![syntax_error(text@)],
{
    one_error(QueryErrorBuilder::new().syntax_error(text))
}

fn not_supported(text: String) -> (error: QueryError)
    ensures
        error@ == seq![feature_not_supported(text@)],
{
    one_error(QueryErrorBuilder::new().feature_not_supported(text))
}

/// The error that a literal which is no value is reported as.
fn report(error: EvalError) -> (reported: QueryError)
    ensures
        reported@ == seq![
            literal_error(
                match error {
                    EvalError::UnsupportedDatum(kind) => EvalErrorModel::UnsupportedDatum(kind@),
                    EvalError::OutOfRangeNumeric(ty) => EvalErrorModel::OutOfRangeNumeric(ty),
                    EvalError::UnsupportedOperation => EvalErrorModel::UnsupportedOperation,
                },
            ),
        ],
{
    match error {
        EvalError::UnsupportedDatum(kind) => {
            let mut text = String::from_str("Data type not supported: ");
            text.append(kind.as_str());
            not_supported(text)
        },
        EvalError::OutOfRangeNumeric(ty) => {
            let mut builder = QueryErrorBuilder::new();
            builder.out_of_range(ty.to_pg_types());
            one_error(builder)
        },
        EvalError::UnsupportedOperation => not_supported(
            String::from_str("Use of unsupported expression feature"),
        ),
    }
}

fn literal(value: &Value, negated: bool) -> (op: Result<ScalarOp, QueryError>)
    ensures
        is_resolved(op, literal_result(literal_datum(*value, negated))),
{
    match Datum::from_literal(value, negated) {
        Ok(datum) => Ok(ScalarOp::Literal(datum)),
        Err(error) => Err(report(error)),
    }
}

fn cast_not_supported(expr: &Expr) -> (error: QueryError)
    ensures
        error@ == seq![cast_error(*expr)],
{
    let mut text = String::from_str("Cast from ");
    let written = write_expr(expr);
    text.append(written.as_str());
    text.append(" is not currently supported");
    syntax(text)
}

/// Resolves the expressions of a statement against its tables.
pub struct ExpressionEvaluation {
    pub table_info: Vec<TableDefinition>,
}

impl ExpressionEvaluation {
    pub fn new(table_info: Vec<TableDefinition>) -> (evaluation: ExpressionEvaluation)
        ensures
            evaluation.table_info == table_info,
    {
        ExpressionEvaluation { table_info }
    }

    /// The scalar operation that the expression stands for.
    pub fn eval(&self, expr: &Expr) -> (op: Result<ScalarOp, QueryError>)
        ensures
            is_resolved(op, resolved(*expr, columns_of(self.table_info@))),
    {
        self.inner_eval(expr)
    }

    fn cast(expr: &Expr, data_type: &DataType) -> (op: Result<ScalarOp, QueryError>)
        ensures
            is_resolved(
                op,
                if *data_type == DataType::Boolean {
                    cast_to_boolean(*expr)
                } else {
                    Err(cast_error(*expr))
                },
            ),
    {
        match data_type {
            DataType::Boolean => match expr {
                Expr::Value(Value::SingleQuotedString(text)) => {
                    if crate::text::str_eq(text.as_str(), "true") {
                        Ok(ScalarOp::Literal(Datum::True))
                    } else if crate::text::str_eq(text.as_str(), "false") {
                        Ok(ScalarOp::Literal(Datum::False))
                    } else {
                        Err(cast_not_supported(expr))
                    }
                },
                Expr::Value(Value::Boolean(value)) => Ok(
                    ScalarOp::Literal(Datum::from_bool(*value)),
                ),
                _ => Err(cast_not_supported(expr)),
            },
            _ => Err(cast_not_supported(expr)),
        }
    }

    fn inner_eval(&self, expr: &Expr) -> (op: Result<ScalarOp, QueryError>)
        ensures
            is_resolved(op, resolved(*expr, columns_of(self.table_info@))),
        decreases expr,
    {
        match expr {
            Expr::Cast { expr: inner, data_type } => Self::cast(inner, data_type),
            Expr::UnaryOp { op, expr: operand } => {
                let inner: &Expr = &**operand;
                match inner {
                    Expr::Value(Value::Number(digits)) => {
                        if *op == UnaryOperator::Minus {
                            let number = Value::Number(digits.clone());
                            return literal(&number, true);
                        }
                    },
                    _ => {},
                }
                let mut text = String::from_str(op.text());
                let written = write_expr(operand);
                text.append(written.as_str());
                Err(syntax(text))
            },
            Expr::BinaryOp { left, op, right } => {
                let lhs = self.inner_eval(left)?;
                let rhs = self.inner_eval(right)?;
                match self.compatible_types_for_op(*op, lhs.scalar_type(), rhs.scalar_type()) {
                    Some(ty) => match (lhs, rhs) {
                        (ScalarOp::Literal(left), ScalarOp::Literal(right)) => {
                            match EvalScalarOp::eval_binary_literal_expr(*op, left, right) {
                                Ok(datum) => Ok(ScalarOp::Literal(datum)),
                                Err(error) => Err(error),
                            }
                        },
                        (left, right) => Ok(
                            ScalarOp::Binary(*op, Box::new(left), Box::new(right), ty),
                        ),
                    },
                    None => {
                        let error = QueryErrorBuilder::new().undefined_function(
                            String::from_str(op.text()),
                            String::from_str(lhs.scalar_type().text()),
                            String::from_str(rhs.scalar_type().text()),
                        );
                        Err(one_error(error))
                    },
                }
            },
            Expr::Value(value) => literal(value, false),
            Expr::Identifier(ident) => match self.find_column_by_name(ident.value.as_str()) {
                Ok(Some((index, column))) => match Self::convert_sql_type(column.sql_type()) {
                    Some(ty) => Ok(ScalarOp::Column(index, ty)),
                    None => Err(not_supported(String::from_str("Data type not supported"))),
                },
                Ok(None) => Err(
                    one_error(QueryErrorBuilder::new().undefined_column(ident.value.clone())),
                ),
                Err(error) => Err(error),
            },
            Expr::CompoundIdentifier(_) => Err(syntax(String::new())),
            _ => Err(syntax(write_expr(expr))),
        }
    }

    /// The operation that puts the value of the assignment into the column
    /// that the assignment names.
    pub fn eval_assignment(&self, assignment: &Assignment) -> (op: Result<ScalarOp, QueryError>)
        ensures
            match op {
                Ok(op) => found_column(columns_of(self.table_info@), assignment.id.value@) matches Ok(
                    Some((_, position)),
                ) && resolved(assignment.value, columns_of(self.table_info@)) matches Ok(value) && op@
                    == (ScalarOpModel::Assignment {
                    destination: position as usize,
                    value: Box::new(value),
                    ty: value.scalar_type(),
                }),
                Err(error) => match found_column(columns_of(self.table_info@), assignment.id.value@) {
                    Ok(Some(_)) => resolved(assignment.value, columns_of(self.table_info@)) matches Err(
                        failure,
                    ) && error@ == seq![failure],
                    Ok(None) => error@ == seq![undefined_column(assignment.id.value@)],
                    Err(()) => error@ == seq![ambiguous_column(assignment.id.value@)],
                },
            },
    {
        let destination = match self.find_column_by_name(assignment.id.value.as_str())? {
            Some((index, _)) => index,
            None => {
                return Err(
                    one_error(QueryErrorBuilder::new().undefined_column(assignment.id.value.clone())),
                );
            },
        };
        let value = self.eval(&assignment.value)?;
        let ty = value.scalar_type();
        Ok(ScalarOp::Assignment { destination, value: Box::new(value), ty })
    }

    /// The one column that has the name, with its position in its table;
    /// an error if more than one table has a column of the name.
    pub fn find_column_by_name(&self, name: &str) -> (found: Result<
        Option<(usize, ColumnDefinition)>,
        QueryError,
    >)
        ensures
            match found {
                Ok(Some((index, column))) => found_column(columns_of(self.table_info@), name@) matches Ok(
                    Some((table, position)),
                ) && position == index && column.spec_name() == name@ && column
                    == columns_of(self.table_info@)[table][position],
                Ok(None) => found_column(columns_of(self.table_info@), name@) == Ok::<Option<(int, int)>, ()>(
                    None,
                ),
                Err(error) => found_column(columns_of(self.table_info@), name@) is Err && error@ == seq![
                    ambiguous_column(name@),
                ],
            },
    {
        let mut found: Option<(usize, ColumnDefinition)> = None;
        let mut i: usize = 0;
        while i < self.table_info.len()
            invariant
                i <= self.table_info@.len(),
                match found {
                    Some((index, column)) => found_column(
                        columns_of(self.table_info@).take(i as int),
                        name@,
                    ) matches Ok(Some((table, position))) && position == index && table < i
                        && column.spec_name() == name@ && column
                        == columns_of(self.table_info@)[table][position],
                    None => found_column(columns_of(self.table_info@).take(i as int), name@) == Ok::<
                        Option<(int, int)>,
                        (),
                    >(None),
                },
            decreases self.table_info.len() - i,
        {
            proof {
                let all = columns_of(self.table_info@);
                assert(all.take(i + 1).drop_last() =~= all.take(i as int));
                assert(all.take(i + 1).last() == self.table_info@[i as int].columns@);
            }
            match self.table_info[i].column_by_name_with_index(name) {
                Some((index, column)) => {
                    if found.is_some() {
                        proof {
                            lemma_ambiguous_stays(columns_of(self.table_info@), i + 1, name@);
                        }
                        return Err(
                            one_error(
                                QueryErrorBuilder::new().ambiguous_column(String::from_str(name)),
                            ),
                        );
                    }
                    found = Some((index, column));
                },
                None => {},
            }
            i += 1;
        }
        proof {
            let all = columns_of(self.table_info@);
            assert(all.take(self.table_info@.len() as int) =~= all);
        }
        Ok(found)
    }

    /// The type of what the operator gives for operands of the two types,
    /// if the operator takes such operands.
    pub fn compatible_types_for_op(
        &self,
        op: BinaryOperator,
        lhs_type: ScalarType,
        rhs_type: ScalarType,
    ) -> (ty: Option<ScalarType>)
        ensures
            ty == compatible(op, lhs_type, rhs_type),
    {
        let concat = match op {
            BinaryOperator::StringConcat => true,
            _ => false,
        };
        if concat && (lhs_type.is_string() || rhs_type.is_string()) {
            Some(ScalarType::String)
        } else if lhs_type == rhs_type {
            if lhs_type.is_integer() {
                match op {
                    BinaryOperator::Plus
                    | BinaryOperator::Minus
                    | BinaryOperator::Multiply
                    | BinaryOperator::Divide
                    | BinaryOperator::Modulus
                    | BinaryOperator::BitwiseAnd
                    | BinaryOperator::BitwiseOr => Some(lhs_type),
                    BinaryOperator::StringConcat => Some(ScalarType::String),
                    _ => None,
                }
            } else if lhs_type.is_float() {
                match op {
                    BinaryOperator::Plus
                    | BinaryOperator::Minus
                    | BinaryOperator::Multiply
                    | BinaryOperator::Divide => Some(lhs_type),
                    _ => None,
                }
            } else {
                None
            }
        } else {
            None
        }
    }

    /// The scalar type of the values of a column, for the column types
    /// that have one.
    pub fn convert_sql_type(sql_type: ColumnType) -> (ty: Option<ScalarType>)
        ensures
            ty == ScalarType::spec_of_column(sql_type),
    {
        match sql_type {
            ColumnType::Bool => Some(ScalarType::Boolean),
            ColumnType::Char(_) | ColumnType::VarChar(_) => Some(ScalarType::String),
            ColumnType::SmallInt => Some(ScalarType::Int16),
            ColumnType::Integer => Some(ScalarType::Int32),
            ColumnType::BigInt => Some(ScalarType::Int64),
            ColumnType::Real => Some(ScalarType::Float32),
            ColumnType::DoublePrecision => Some(ScalarType::Float64),
            _ => None,
        }
    }
}

/// A name that two of the first tables have stays ambiguous among all.
proof fn lemma_ambiguous_stays(tables: Seq<Seq<ColumnDefinition>>, upto: int, name: Seq<char>)
    requires
        0 <= upto <= tables.len(),
        found_column(tables.take(upto), name) is Err,
    ensures
        found_column(tables, name) is Err,
    decreases tables.len() - upto,
{
    if upto < tables.len() {
        assert(tables.take(upto + 1).drop_last() =~= tables.take(upto));
        lemma_ambiguous_stays(tables, upto + 1, name);
    } else {
        assert(tables.take(upto) =~= tables);
    }
}

} // verus!
