use relational_db::binary::Datum;
use relational_db::results::{QueryError, QueryErrorBuilder};
use relational_db::scalar::{signed_decimal, spell, EvalError, EvalScalarOp, ScalarOp, Spelled};
use relational_db::sql_ast::{BinaryOperator, UnaryOperator, Value};
use relational_db::sql_model::ScalarType;
use relational_db::sql_types::SqlType;

fn constant(datum: Datum) -> Result<Datum, QueryError> {
    EvalScalarOp::eval(&[], &ScalarOp::Literal(datum))
}

#[test]
fn small_int() {
    assert_eq!(constant(Datum::from_i16(0)), Ok(Datum::from_i16(0)));
}

#[test]
fn integer() {
    assert_eq!(constant(Datum::from_i32(0)), Ok(Datum::from_i32(0)));
}

#[test]
fn big_int() {
    assert_eq!(constant(Datum::from_i64(0)), Ok(Datum::from_i64(0)));
}

#[test]
fn bool() {
    assert_eq!(constant(Datum::from_bool(true)), Ok(Datum::from_bool(true)));
}

#[test]
fn string() {
    assert_eq!(
        constant(Datum::from_string("str".to_owned())),
        Ok(Datum::from_string("str".to_owned()))
    );
}

fn binary(op: BinaryOperator, left: Datum, right: Datum) -> Result<Datum, QueryError> {
    EvalScalarOp::eval_binary_literal_expr(op, left, right)
}

fn out_of_range(pg_type: SqlType) -> QueryError {
    let mut errors = QueryErrorBuilder::new();
    errors.out_of_range(pg_type);
    errors.build()
}

#[test]
fn integers_of_one_kind_compute_in_their_kind() {
    assert_eq!(binary(BinaryOperator::Plus, Datum::from_i16(2), Datum::from_i16(3)), Ok(Datum::from_i16(5)));
    assert_eq!(binary(BinaryOperator::Minus, Datum::from_i32(2), Datum::from_i32(3)), Ok(Datum::from_i32(-1)));
    assert_eq!(binary(BinaryOperator::Multiply, Datum::from_u64(6), Datum::from_u64(7)), Ok(Datum::from_u64(42)));
    assert_eq!(binary(BinaryOperator::Multiply, Datum::from_i64(-6), Datum::from_i64(7)), Ok(Datum::from_i64(-42)));
}

#[test]
fn integers_of_two_kinds_compute_in_64_bits() {
    assert_eq!(binary(BinaryOperator::Plus, Datum::from_i16(2), Datum::from_i32(3)), Ok(Datum::from_i64(5)));
    assert_eq!(binary(BinaryOperator::Plus, Datum::from_u64(2), Datum::from_i16(-3)), Ok(Datum::from_i64(-1)));
}

#[test]
fn division_rounds_towards_zero() {
    assert_eq!(binary(BinaryOperator::Divide, Datum::from_i16(7), Datum::from_i16(2)), Ok(Datum::from_i16(3)));
    assert_eq!(binary(BinaryOperator::Divide, Datum::from_i16(-7), Datum::from_i16(2)), Ok(Datum::from_i16(-3)));
    assert_eq!(binary(BinaryOperator::Divide, Datum::from_i16(7), Datum::from_i16(-2)), Ok(Datum::from_i16(-3)));
    assert_eq!(binary(BinaryOperator::Divide, Datum::from_i16(-7), Datum::from_i16(-2)), Ok(Datum::from_i16(3)));
    assert_eq!(binary(BinaryOperator::Modulus, Datum::from_i16(7), Datum::from_i16(2)), Ok(Datum::from_i16(1)));
    assert_eq!(binary(BinaryOperator::Modulus, Datum::from_i16(-7), Datum::from_i16(2)), Ok(Datum::from_i16(-1)));
    assert_eq!(binary(BinaryOperator::Modulus, Datum::from_i16(7), Datum::from_i16(-2)), Ok(Datum::from_i16(1)));
    assert_eq!(binary(BinaryOperator::Modulus, Datum::from_i16(-7), Datum::from_i16(-2)), Ok(Datum::from_i16(-1)));
}

#[test]
fn division_by_zero_is_an_error() {
    let expected = QueryErrorBuilder::new().division_by_zero().build();
    assert_eq!(binary(BinaryOperator::Divide, Datum::from_i32(1), Datum::from_i32(0)), Err(expected));
    let expected = QueryErrorBuilder::new().division_by_zero().build();
    assert_eq!(binary(BinaryOperator::Modulus, Datum::from_i32(1), Datum::from_i32(0)), Err(expected));
}

#[test]
fn a_result_beyond_the_kind_is_out_of_range() {
    assert_eq!(
        binary(BinaryOperator::Plus, Datum::from_i16(i16::MAX), Datum::from_i16(1)),
        Err(out_of_range(SqlType::Int2))
    );
    assert_eq!(
        binary(BinaryOperator::Multiply, Datum::from_i32(i32::MAX), Datum::from_i32(2)),
        Err(out_of_range(SqlType::Int4))
    );
    assert_eq!(
        binary(BinaryOperator::Minus, Datum::from_i64(i64::MIN), Datum::from_i64(1)),
        Err(out_of_range(SqlType::Int8))
    );
    assert_eq!(
        binary(BinaryOperator::Minus, Datum::from_u64(0), Datum::from_u64(1)),
        Err(out_of_range(SqlType::Int8))
    );
    assert_eq!(
        binary(BinaryOperator::Multiply, Datum::from_u64(u64::MAX), Datum::from_u64(u64::MAX)),
        Err(out_of_range(SqlType::Int8))
    );
    assert_eq!(
        binary(BinaryOperator::Divide, Datum::from_i16(i16::MIN), Datum::from_i16(-1)),
        Err(out_of_range(SqlType::Int2))
    );
}

#[test]
fn bits_are_combined() {
    assert_eq!(binary(BinaryOperator::BitwiseAnd, Datum::from_i16(12), Datum::from_i16(10)), Ok(Datum::from_i16(8)));
    assert_eq!(binary(BinaryOperator::BitwiseOr, Datum::from_i16(12), Datum::from_i16(10)), Ok(Datum::from_i16(14)));
    assert_eq!(binary(BinaryOperator::BitwiseAnd, Datum::from_i16(-1), Datum::from_i16(10)), Ok(Datum::from_i16(10)));
}

#[test]
fn integers_are_compared() {
    assert_eq!(binary(BinaryOperator::Gt, Datum::from_i16(2), Datum::from_i32(1)), Ok(Datum::from_bool(true)));
    assert_eq!(binary(BinaryOperator::Lt, Datum::from_i16(2), Datum::from_i32(1)), Ok(Datum::from_bool(false)));
    assert_eq!(binary(BinaryOperator::GtEq, Datum::from_i16(2), Datum::from_i16(2)), Ok(Datum::from_bool(true)));
    assert_eq!(binary(BinaryOperator::LtEq, Datum::from_i16(3), Datum::from_i16(2)), Ok(Datum::from_bool(false)));
    assert_eq!(binary(BinaryOperator::Eq, Datum::from_u64(2), Datum::from_i16(2)), Ok(Datum::from_bool(true)));
    assert_eq!(binary(BinaryOperator::NotEq, Datum::from_u64(2), Datum::from_i16(2)), Ok(Datum::from_bool(false)));
}

#[test]
fn texts_are_written_one_after_the_other() {
    assert_eq!(
        binary(BinaryOperator::StringConcat, Datum::from_string("ab".to_owned()), Datum::from_string("cd".to_owned())),
        Ok(Datum::from_string("abcd".to_owned()))
    );
    assert_eq!(
        binary(BinaryOperator::StringConcat, Datum::from_string("ab".to_owned()), Datum::from_i16(-1)),
        Ok(Datum::from_string("ab-1".to_owned()))
    );
    assert_eq!(
        binary(BinaryOperator::StringConcat, Datum::from_bool(true), Datum::from_string("!".to_owned())),
        Ok(Datum::from_string("t!".to_owned()))
    );
}

#[test]
fn operators_that_do_not_fit_the_operands_are_undefined() {
    assert_eq!(
        binary(BinaryOperator::Like, Datum::from_i16(1), Datum::from_i16(2)),
        Err(QueryErrorBuilder::new()
            .undefined_function("LIKE".to_owned(), "NUMBER".to_owned(), "NUMBER".to_owned())
            .build())
    );
    assert_eq!(
        binary(BinaryOperator::Plus, Datum::from_string("a".to_owned()), Datum::from_string("b".to_owned())),
        Err(QueryErrorBuilder::new()
            .undefined_function("+".to_owned(), "STRING".to_owned(), "STRING".to_owned())
            .build())
    );
    assert_eq!(
        binary(BinaryOperator::Plus, Datum::from_bool(true), Datum::from_i16(1)),
        Err(QueryErrorBuilder::new().syntax_error("t + 1".to_owned()).build())
    );
}

#[test]
fn signs_are_kept_or_turned() {
    assert_eq!(EvalScalarOp::eval_unary_literal_expr(UnaryOperator::Plus, Datum::from_i16(5)), Ok(Datum::from_i16(5)));
    assert_eq!(EvalScalarOp::eval_unary_literal_expr(UnaryOperator::Minus, Datum::from_i16(5)), Ok(Datum::from_i16(-5)));
    assert_eq!(
        EvalScalarOp::eval_unary_literal_expr(UnaryOperator::Minus, Datum::from_i16(i16::MIN)),
        Err(out_of_range(SqlType::Int2))
    );
    assert_eq!(
        EvalScalarOp::eval_unary_literal_expr(UnaryOperator::Minus, Datum::from_u64(1)),
        Err(out_of_range(SqlType::Int8))
    );
    assert_eq!(EvalScalarOp::eval_unary_literal_expr(UnaryOperator::Not, Datum::from_bool(true)), Ok(Datum::from_bool(false)));
    assert_eq!(EvalScalarOp::eval_unary_literal_expr(UnaryOperator::Not, Datum::from_bool(false)), Ok(Datum::from_bool(true)));
    assert!(EvalScalarOp::eval_unary_literal_expr(UnaryOperator::Not, Datum::from_i16(1)).is_err());
    assert!(EvalScalarOp::eval_unary_literal_expr(UnaryOperator::Minus, Datum::from_string("a".to_owned())).is_err());
}

#[test]
fn operations_are_evaluated_on_a_row() {
    let row = vec![Datum::from_i16(10), Datum::from_i16(3)];
    let sum = ScalarOp::Binary(
        BinaryOperator::Plus,
        Box::new(ScalarOp::Column(0, ScalarType::Int16)),
        Box::new(ScalarOp::Unary(
            UnaryOperator::Minus,
            Box::new(ScalarOp::Column(1, ScalarType::Int16)),
            ScalarType::Int16,
        )),
        ScalarType::Int16,
    );
    assert!(sum.is_evaluable(2));
    assert!(!sum.is_evaluable(1));
    assert_eq!(EvalScalarOp::eval(&row, &sum), Ok(Datum::from_i16(7)));
}

#[test]
fn an_assignment_puts_its_value_into_the_row() {
    let mut row = vec![Datum::from_i16(10), Datum::from_i16(3)];
    let assignment = ScalarOp::Assignment {
        destination: 1,
        value: Box::new(ScalarOp::Binary(
            BinaryOperator::Multiply,
            Box::new(ScalarOp::Column(0, ScalarType::Int16)),
            Box::new(ScalarOp::Literal(Datum::from_i16(2))),
            ScalarType::Int16,
        )),
        ty: ScalarType::Int16,
    };
    assert_eq!(EvalScalarOp::eval_on_row(&mut row, &assignment), Ok(()));
    assert_eq!(row, vec![Datum::from_i16(10), Datum::from_i16(20)]);
}

#[test]
fn a_failed_assignment_leaves_the_row() {
    let mut row = vec![Datum::from_i16(i16::MAX)];
    let assignment = ScalarOp::Assignment {
        destination: 0,
        value: Box::new(ScalarOp::Binary(
            BinaryOperator::Plus,
            Box::new(ScalarOp::Column(0, ScalarType::Int16)),
            Box::new(ScalarOp::Literal(Datum::from_i16(1))),
            ScalarType::Int16,
        )),
        ty: ScalarType::Int16,
    };
    assert_eq!(EvalScalarOp::eval_on_row(&mut row, &assignment), Err(out_of_range(SqlType::Int2)));
    assert_eq!(row, vec![Datum::from_i16(i16::MAX)]);
}

#[test]
fn number_literals_are_of_32_bits_or_of_64() {
    assert_eq!(Datum::try_from(&Value::Number("0".to_owned())), Ok(Datum::from_i32(0)));
    assert_eq!(Datum::try_from(&Value::Number("2147483647".to_owned())), Ok(Datum::from_i32(i32::MAX)));
    assert_eq!(Datum::try_from(&Value::Number("2147483648".to_owned())), Ok(Datum::from_i64(2147483648)));
    assert_eq!(
        Datum::try_from(&Value::Number("9223372036854775807".to_owned())),
        Ok(Datum::from_i64(i64::MAX))
    );
    assert_eq!(
        Datum::try_from(&Value::Number("9223372036854775808".to_owned())),
        Err(EvalError::OutOfRangeNumeric(ScalarType::Int64))
    );
    assert_eq!(
        Datum::try_from(&Value::Number("99999999999999999999999".to_owned())),
        Err(EvalError::OutOfRangeNumeric(ScalarType::Int64))
    );
}

#[test]
fn negated_literals_reach_the_smallest_numbers() {
    assert_eq!(Datum::from_literal(&Value::Number("1".to_owned()), true), Ok(Datum::from_i32(-1)));
    assert_eq!(Datum::from_literal(&Value::Number("2147483648".to_owned()), true), Ok(Datum::from_i32(i32::MIN)));
    assert_eq!(Datum::from_literal(&Value::Number("2147483649".to_owned()), true), Ok(Datum::from_i64(-2147483649)));
    assert_eq!(
        Datum::from_literal(&Value::Number("9223372036854775808".to_owned()), true),
        Ok(Datum::from_i64(i64::MIN))
    );
    assert_eq!(
        Datum::from_literal(&Value::Number("9223372036854775809".to_owned()), true),
        Err(EvalError::OutOfRangeNumeric(ScalarType::Int64))
    );
    assert_eq!(
        Datum::from_literal(&Value::SingleQuotedString("a".to_owned()), true),
        Err(EvalError::UnsupportedOperation)
    );
    assert_eq!(Datum::from_literal(&Value::Boolean(true), true), Err(EvalError::UnsupportedOperation));
    assert_eq!(Datum::from_literal(&Value::Null, true), Err(EvalError::UnsupportedOperation));
}

#[test]
fn other_literals_become_values_of_their_kind() {
    assert_eq!(
        Datum::try_from(&Value::SingleQuotedString("abc".to_owned())),
        Ok(Datum::from_string("abc".to_owned()))
    );
    assert_eq!(Datum::try_from(&Value::Boolean(true)), Ok(Datum::from_bool(true)));
    assert_eq!(Datum::try_from(&Value::Null), Ok(Datum::from_null()));
    assert_eq!(
        Datum::try_from(&Value::Number("1.5".to_owned())),
        Err(EvalError::UnsupportedDatum("NUMERIC".to_owned()))
    );
    assert_eq!(
        Datum::try_from(&Value::Number("".to_owned())),
        Err(EvalError::UnsupportedDatum("NUMERIC".to_owned()))
    );
}

#[test]
fn digits_are_spelled_out() {
    assert_eq!(signed_decimal(0), "0");
    assert_eq!(signed_decimal(-1), "-1");
    assert_eq!(signed_decimal(1234567890123), "1234567890123");
    assert_eq!(signed_decimal(i64::MIN as i128), "-9223372036854775808");
    assert!(matches!(spell("007"), Spelled::Number(7)));
    assert!(matches!(spell("18446744073709551615"), Spelled::Number(u64::MAX)));
    assert!(matches!(spell("18446744073709551616"), Spelled::TooLarge));
    assert!(matches!(spell("12a"), Spelled::NotDigits));
    assert!(matches!(spell(""), Spelled::NotDigits));
}

#[test]
fn values_are_shown_as_text() {
    assert_eq!(Datum::from_null().text(), "NULL");
    assert_eq!(Datum::from_bool(true).text(), "t");
    assert_eq!(Datum::from_bool(false).text(), "f");
    assert_eq!(Datum::from_i32(-17).text(), "-17");
    assert_eq!(Datum::from_u64(u64::MAX).text(), "18446744073709551615");
    assert_eq!(Datum::from_string("abc".to_owned()).text(), "abc");
}
