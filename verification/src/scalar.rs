//! Scalar operations: the trees that expressions are turned into, and
//! their evaluation on the values of a row.

use vstd::prelude::*;
use vstd::utf8::encode_utf8;
use crate::binary::{Datum, DatumModel};
use crate::results::{error_of, ErrorKindView, ErrorView, QueryError, QueryErrorBuilder};
use crate::sql_ast::{BinaryOperator, UnaryOperator, Value};
use crate::sql_model::ScalarType;
use crate::sql_types::SqlType;
use crate::text::{decimal, spec_decimal};

verus! {

/// `value` in decimal notation, with a minus sign if it is negative.
pub open spec fn spec_signed_decimal(value: int) -> Seq<char> {
    if value < 0 {
        "-"@ + spec_decimal((-value) as nat)
    } else {
        spec_decimal(value as nat)
    }
}

/// Writes `value` in decimal notation.
pub fn signed_decimal(value: i128) -> (text: String)
    requires
        -0x1_0000_0000_0000_0000 < value < 0x1_0000_0000_0000_0000,
    ensures
        text@ == spec_signed_decimal(value as int),
{
    if value < 0 {
        let mut text = String::from_str("-");
        let digits = decimal((-value) as u64);
        text.append(digits.as_str());
        text
    } else {
        decimal(value as u64)
    }
}

impl DatumModel {
    /// The type of the value; a null counts as a boolean that is unknown.
    pub open spec fn scalar_type(self) -> ScalarType {
        match self {
            DatumModel::Null | DatumModel::True | DatumModel::False => ScalarType::Boolean,
            DatumModel::Int16(_) => ScalarType::Int16,
            DatumModel::Int32(_) => ScalarType::Int32,
            DatumModel::Int64(_) | DatumModel::UInt64(_) => ScalarType::Int64,
            DatumModel::String(_) => ScalarType::String,
        }
    }

    /// The value as text.
    pub open spec fn text(self) -> Seq<char> {
        match self {
            DatumModel::Null => "NULL"@,
            DatumModel::True => "t"@,
            DatumModel::False => "f"@,
            DatumModel::String(value) => value,
            _ => spec_signed_decimal(self.number()),
        }
    }
}

impl Datum {
    pub fn scalar_type(&self) -> (scalar_type: ScalarType)
        ensures
            scalar_type == self@.scalar_type(),
    {
        match self {
            Datum::Null | Datum::True | Datum::False => ScalarType::Boolean,
            Datum::Int16(_) => ScalarType::Int16,
            Datum::Int32(_) => ScalarType::Int32,
            Datum::Int64(_) | Datum::UInt64(_) => ScalarType::Int64,
            Datum::String(_) => ScalarType::String,
        }
    }

    /// The number that an integer value holds; zero for other values.
    pub fn number(&self) -> (number: i128)
        ensures
            number == self@.number(),
    {
        match self {
            Datum::Int16(value) => *value as i128,
            Datum::Int32(value) => *value as i128,
            Datum::Int64(value) => *value as i128,
            Datum::UInt64(value) => *value as i128,
            _ => 0,
        }
    }

    /// The value as text.
    pub fn text(&self) -> (text: String)
        ensures
            text@ == self@.text(),
    {
        match self {
            Datum::Null => String::from_str("NULL"),
            Datum::True => String::from_str("t"),
            Datum::False => String::from_str("f"),
            Datum::String(value) => value.clone(),
            _ => signed_decimal(self.number()),
        }
    }

    /// A copy of the value.
    pub fn duplicate(&self) -> (copy: Datum)
        ensures
            copy@ == self@,
    {
        match self {
            Datum::Null => Datum::Null,
            Datum::True => Datum::True,
            Datum::False => Datum::False,
            Datum::Int16(value) => Datum::Int16(*value),
            Datum::Int32(value) => Datum::Int32(*value),
            Datum::Int64(value) => Datum::Int64(*value),
            Datum::UInt64(value) => Datum::UInt64(*value),
            Datum::String(value) => Datum::String(value.clone()),
        }
    }
}

/// Why a literal is no value.
#[derive(Debug, PartialEq)]
pub enum EvalError {
    /// The value is of a kind that has no representation, such as a number
    /// with a fraction; the kind is named.
    UnsupportedDatum(String),
    /// The number is beyond the range of the type.
    OutOfRangeNumeric(ScalarType),
    UnsupportedOperation,
}

/// The number that decimal digits spell, if the bytes are one or more
/// decimal digits.
pub open spec fn digits_value(digits: Seq<u8>) -> Option<nat>
    decreases digits.len(),
{
    if digits.len() == 0 {
        None
    } else if !(48 <= digits.last() <= 57) {
        None
    } else if digits.len() == 1 {
        Some((digits.last() - 48) as nat)
    } else {
        match digits_value(digits.drop_last()) {
            Some(value) => Some(value * 10 + (digits.last() - 48) as nat),
            None => None,
        }
    }
}

/// The number that the text of a literal spells.
pub enum Spelled {
    /// What decimal digits spell, up to the largest number of 64 bits.
    Number(u64),
    /// What more digits than that spell.
    TooLarge,
    /// Not decimal digits only.
    NotDigits,
}

/// What the text of a literal spells.
pub open spec fn spelled(text: Seq<char>) -> Spelled {
    match digits_value(encode_utf8(text)) {
        Some(value) => if value <= u64::MAX {
            Spelled::Number(value as u64)
        } else {
            Spelled::TooLarge
        },
        None => Spelled::NotDigits,
    }
}

/// Digits that spell a number spell no smaller one when more follow.
proof fn lemma_digits_grow(digits: Seq<u8>, upto: int)
    requires
        0 < upto <= digits.len(),
        digits_value(digits) is Some,
    ensures
        digits_value(digits.take(upto)) is Some,
        digits_value(digits.take(upto))->0 <= digits_value(digits)->0,
    decreases digits.len() - upto,
{
    if upto < digits.len() {
        lemma_digits_grow(digits, upto + 1);
        assert(digits.take(upto + 1).drop_last() =~= digits.take(upto));
    } else {
        assert(digits.take(upto) =~= digits);
    }
}

/// Digits of which a part spells no number spell no number.
proof fn lemma_digits_fail(digits: Seq<u8>, upto: int)
    requires
        0 < upto <= digits.len(),
        digits_value(digits.take(upto)) is None,
    ensures
        digits_value(digits) is None,
    decreases digits.len() - upto,
{
    if upto < digits.len() {
        assert(digits.take(upto + 1).drop_last() =~= digits.take(upto));
        lemma_digits_fail(digits, upto + 1);
    } else {
        assert(digits.take(upto) =~= digits);
    }
}

/// Reads the number that the text spells.
pub fn spell(text: &str) -> (number: Spelled)
    ensures
        number == spelled(text@),
{
    let digits = text.as_bytes();
    if digits.len() == 0 {
        return Spelled::NotDigits;
    }
    let mut value: u64 = 0;
    let mut i: usize = 0;
    while i < digits.len()
        invariant
            i <= digits@.len(),
            digits@ == encode_utf8(text@),
            i > 0 ==> digits_value(digits@.take(i as int)) == Some(value as nat),
            i == 0 ==> value == 0,
        decreases digits@.len() - i,
    {
        let digit = digits[i];
        proof {
            assert(digits@.take(i + 1).drop_last() =~= digits@.take(i as int));
            assert(digits@.take(i + 1).last() == digit);
        }
        if digit < 48 || digit > 57 {
            proof {
                lemma_digits_fail(digits@, i + 1);
            }
            return Spelled::NotDigits;
        }
        let digit = (digit - 48) as u64;
        if value > (u64::MAX - digit) / 10 {
            // the digits that follow can only make the number larger, or
            // are no digits
            let mut j: usize = i + 1;
            while j < digits.len()
                invariant
                    i < j <= digits@.len(),
                    digits@ == encode_utf8(text@),
                    digits_value(digits@.take(j as int)) is Some,
                decreases digits@.len() - j,
            {
                proof {
                    assert(digits@.take(j + 1).drop_last() =~= digits@.take(j as int));
                    assert(digits@.take(j + 1).last() == digits@[j as int]);
                }
                if digits[j] < 48 || digits[j] > 57 {
                    proof {
                        lemma_digits_fail(digits@, j + 1);
                    }
                    return Spelled::NotDigits;
                }
                j += 1;
            }
            proof {
                assert(digits@.take(digits@.len() as int) =~= digits@);
                lemma_digits_grow(digits@, i + 1);
            }
            return Spelled::TooLarge;
        }
        value = value * 10 + digit;
        i += 1;
    }
    proof {
        assert(digits@.take(digits@.len() as int) =~= digits@);
    }
    Spelled::Number(value)
}

/// The value that an integer is held as: in 32 bits if it fits, else in 64.
pub open spec fn integer_datum(value: int) -> Result<DatumModel, ScalarType> {
    if i32::MIN <= value <= i32::MAX {
        Ok(DatumModel::Int32(value as i32))
    } else if i64::MIN <= value <= i64::MAX {
        Ok(DatumModel::Int64(value as i64))
    } else {
        Err(ScalarType::Int64)
    }
}

/// Whether the two agree: in the value, or in the kind of failure and what
/// it names.
pub open spec fn same_outcome(
    got: Result<Datum, EvalError>,
    expected: Result<DatumModel, EvalErrorModel>,
) -> bool {
    match (got, expected) {
        (Ok(datum), Ok(model)) => datum@ == model,
        (Err(EvalError::UnsupportedDatum(kind)), Err(EvalErrorModel::UnsupportedDatum(named))) =>
            kind@ == named,
        (Err(EvalError::OutOfRangeNumeric(ty)), Err(EvalErrorModel::OutOfRangeNumeric(expected))) =>
            ty == expected,
        (Err(EvalError::UnsupportedOperation), Err(EvalErrorModel::UnsupportedOperation)) => true,
        _ => false,
    }
}

/// What an `EvalError` holds, as plain values.
pub enum EvalErrorModel {
    UnsupportedDatum(Seq<char>),
    OutOfRangeNumeric(ScalarType),
    UnsupportedOperation,
}

/// The value of a literal; `negated` says whether a minus sign stands in
/// front of it, which only a number can take.
pub open spec fn literal_datum(value: Value, negated: bool) -> Result<DatumModel, EvalErrorModel> {
    match value {
        Value::Number(text) => match spelled(text@) {
            Spelled::Number(number) => match integer_datum(
                if negated {
                    -(number as int)
                } else {
                    number as int
                },
            ) {
                Ok(datum) => Ok(datum),
                Err(ty) => Err(EvalErrorModel::OutOfRangeNumeric(ty)),
            },
            Spelled::TooLarge => Err(EvalErrorModel::OutOfRangeNumeric(ScalarType::Int64)),
            Spelled::NotDigits => Err(EvalErrorModel::UnsupportedDatum("NUMERIC"@)),
        },
        Value::SingleQuotedString(text) => if negated {
            Err(EvalErrorModel::UnsupportedOperation)
        } else {
            Ok(DatumModel::String(text@))
        },
        Value::Boolean(value) => if negated {
            Err(EvalErrorModel::UnsupportedOperation)
        } else if value {
            Ok(DatumModel::True)
        } else {
            Ok(DatumModel::False)
        },
        Value::Null => if negated {
            Err(EvalErrorModel::UnsupportedOperation)
        } else {
            Ok(DatumModel::Null)
        },
    }
}

impl Datum {
    /// The value of a literal.
    pub fn try_from(value: &Value) -> (datum: Result<Datum, EvalError>)
        ensures
            same_outcome(datum, literal_datum(*value, false)),
    {
        Datum::from_literal(value, false)
    }

    /// The value of a literal, with a minus sign in front of it if
    /// `negated`.
    pub fn from_literal(value: &Value, negated: bool) -> (datum: Result<Datum, EvalError>)
        ensures
            same_outcome(datum, literal_datum(*value, negated)),
    {
        match value {
            Value::Number(text) => match spell(text.as_str()) {
                Spelled::Number(number) => {
                    let number: i128 = if negated {
                        -(number as i128)
                    } else {
                        number as i128
                    };
                    if -0x8000_0000 <= number && number <= 0x7fff_ffff {
                        Ok(Datum::Int32(number as i32))
                    } else if -0x8000_0000_0000_0000 <= number && number <= 0x7fff_ffff_ffff_ffff {
                        Ok(Datum::Int64(number as i64))
                    } else {
                        Err(EvalError::OutOfRangeNumeric(ScalarType::Int64))
                    }
                },
                Spelled::TooLarge => Err(EvalError::OutOfRangeNumeric(ScalarType::Int64)),
                Spelled::NotDigits => Err(EvalError::UnsupportedDatum(String::from_str("NUMERIC"))),
            },
            Value::SingleQuotedString(text) => if negated {
                Err(EvalError::UnsupportedOperation)
            } else {
                Ok(Datum::String(text.clone()))
            },
            Value::Boolean(value) => if negated {
                Err(EvalError::UnsupportedOperation)
            } else {
                Ok(Datum::from_bool(*value))
            },
            Value::Null => if negated {
                Err(EvalError::UnsupportedOperation)
            } else {
                Ok(Datum::Null)
            },
        }
    }
}

/// A scalar operation: what an expression is turned into once its names
/// are resolved.
#[derive(Debug, PartialEq)]
pub enum ScalarOp {
    /// The value of the column with the given position in the row.
    Column(usize, ScalarType),
    Literal(Datum),
    Binary(BinaryOperator, Box<ScalarOp>, Box<ScalarOp>, ScalarType),
    Unary(UnaryOperator, Box<ScalarOp>, ScalarType),
    /// Puts the value into the column with the position `destination`.
    Assignment { destination: usize, value: Box<ScalarOp>, ty: ScalarType },
}

/// What a `ScalarOp` holds, as plain values.
pub enum ScalarOpModel {
    Column(usize, ScalarType),
    Literal(DatumModel),
    Binary(BinaryOperator, Box<ScalarOpModel>, Box<ScalarOpModel>, ScalarType),
    Unary(UnaryOperator, Box<ScalarOpModel>, ScalarType),
    Assignment { destination: usize, value: Box<ScalarOpModel>, ty: ScalarType },
}

impl ScalarOp {
    pub open spec fn view(&self) -> ScalarOpModel
        decreases self,
    {
        match self {
            ScalarOp::Column(index, ty) => ScalarOpModel::Column(*index, *ty),
            ScalarOp::Literal(datum) => ScalarOpModel::Literal(datum@),
            ScalarOp::Binary(op, left, right, ty) => ScalarOpModel::Binary(
                *op,
                Box::new(left.view()),
                Box::new(right.view()),
                *ty,
            ),
            ScalarOp::Unary(op, operand, ty) => ScalarOpModel::Unary(
                *op,
                Box::new(operand.view()),
                *ty,
            ),
            ScalarOp::Assignment { destination, value, ty } => ScalarOpModel::Assignment {
                destination: *destination,
                value: Box::new(value.view()),
                ty: *ty,
            },
        }
    }

    /// Whether the operation can be evaluated on a row of `width` values.
    pub fn is_evaluable(&self, width: usize) -> (evaluable: bool)
        ensures
            evaluable == self@.evaluable(width as nat),
        decreases self,
    {
        match self {
            ScalarOp::Column(index, _) => *index < width,
            ScalarOp::Literal(_) => true,
            ScalarOp::Binary(_, left, right, _) => left.is_evaluable(width) && right.is_evaluable(
                width,
            ),
            ScalarOp::Unary(_, operand, _) => operand.is_evaluable(width),
            ScalarOp::Assignment { .. } => false,
        }
    }

    /// The type of the value that the operation gives.
    pub fn scalar_type(&self) -> (ty: ScalarType)
        ensures
            ty == self@.scalar_type(),
    {
        match self {
            ScalarOp::Column(_, ty) => *ty,
            ScalarOp::Literal(datum) => datum.scalar_type(),
            ScalarOp::Binary(_, _, _, ty) => *ty,
            ScalarOp::Unary(_, _, ty) => *ty,
            ScalarOp::Assignment { ty, .. } => *ty,
        }
    }
}

impl ScalarOpModel {
    pub open spec fn scalar_type(self) -> ScalarType {
        match self {
            ScalarOpModel::Column(_, ty) => ty,
            ScalarOpModel::Literal(datum) => datum.scalar_type(),
            ScalarOpModel::Binary(_, _, _, ty) => ty,
            ScalarOpModel::Unary(_, _, ty) => ty,
            ScalarOpModel::Assignment { ty, .. } => ty,
        }
    }

    /// Whether the operation can be evaluated on a row of `width` values:
    /// it refers to columns of the row only, and holds no assignment.
    pub open spec fn evaluable(self, width: nat) -> bool
        decreases self,
    {
        match self {
            ScalarOpModel::Column(index, _) => index < width,
            ScalarOpModel::Literal(_) => true,
            ScalarOpModel::Binary(_, left, right, _) => left.evaluable(width) && right.evaluable(
                width,
            ),
            ScalarOpModel::Unary(_, operand, _) => operand.evaluable(width),
            ScalarOpModel::Assignment { .. } => false,
        }
    }
}

/// The kinds of integer values.
#[derive(Clone, Copy, PartialEq, Eq, Structural)]
pub enum IntegerKind {
    Int16,
    Int32,
    Int64,
    UInt64,
}

impl IntegerKind {
    /// Whether a value of the kind can hold the number.
    pub open spec fn holds(self, value: int) -> bool {
        match self {
            IntegerKind::Int16 => i16::MIN <= value <= i16::MAX,
            IntegerKind::Int32 => i32::MIN <= value <= i32::MAX,
            IntegerKind::Int64 => i64::MIN <= value <= i64::MAX,
            IntegerKind::UInt64 => 0 <= value <= u64::MAX,
        }
    }

    /// The value of the kind that holds the number.
    pub open spec fn datum(self, value: int) -> DatumModel {
        match self {
            IntegerKind::Int16 => DatumModel::Int16(value as i16),
            IntegerKind::Int32 => DatumModel::Int32(value as i32),
            IntegerKind::Int64 => DatumModel::Int64(value as i64),
            IntegerKind::UInt64 => DatumModel::UInt64(value as u64),
        }
    }

    /// The type that the wire protocol reports for values of the kind.
    pub open spec fn pg_type(self) -> SqlType {
        match self {
            IntegerKind::Int16 => SqlType::Int2,
            IntegerKind::Int32 => SqlType::Int4,
            IntegerKind::Int64 | IntegerKind::UInt64 => SqlType::Int8,
        }
    }

    /// The kind of the result of an operation on values of two kinds: the
    /// kind of both if they are of one kind, else 64 bits with a sign.
    pub open spec fn of(left: DatumModel, right: DatumModel) -> IntegerKind {
        match (left, right) {
            (DatumModel::Int16(_), DatumModel::Int16(_)) => IntegerKind::Int16,
            (DatumModel::Int32(_), DatumModel::Int32(_)) => IntegerKind::Int32,
            (DatumModel::UInt64(_), DatumModel::UInt64(_)) => IntegerKind::UInt64,
            _ => IntegerKind::Int64,
        }
    }

    /// The kind of an integer value.
    pub open spec fn of_one(value: DatumModel) -> IntegerKind {
        Self::of(value, value)
    }
}

/// The quotient of `x` by `d`, rounded towards zero.
pub open spec fn quotient(x: int, d: int) -> int
    recommends
        d != 0,
{
    if x >= 0 && d > 0 {
        x / d
    } else if x < 0 && d < 0 {
        (-x) / (-d)
    } else if x < 0 {
        -((-x) / d)
    } else {
        -(x / (-d))
    }
}

/// What is left of `x` when the quotient of `x` by `d` is taken `d` times.
pub open spec fn remainder(x: int, d: int) -> int
    recommends
        d != 0,
{
    if x >= 0 && d > 0 {
        x % d
    } else if x < 0 && d < 0 {
        -((-x) % (-d))
    } else if x < 0 {
        -((-x) % d)
    } else {
        x % (-d)
    }
}

/// Whether the operator computes a number from two numbers.
pub open spec fn is_arithmetic(op: BinaryOperator) -> bool {
    op == BinaryOperator::Plus || op == BinaryOperator::Minus || op == BinaryOperator::Multiply
        || op == BinaryOperator::Divide || op == BinaryOperator::Modulus || op
        == BinaryOperator::BitwiseAnd || op == BinaryOperator::BitwiseOr
}

/// Whether the operator compares two values.
pub open spec fn is_comparison(op: BinaryOperator) -> bool {
    op == BinaryOperator::Gt || op == BinaryOperator::Lt || op == BinaryOperator::GtEq || op
        == BinaryOperator::LtEq || op == BinaryOperator::Eq || op == BinaryOperator::NotEq
}

/// What an arithmetic operator makes of two numbers; nothing where it
/// divides by zero.
pub open spec fn computed(op: BinaryOperator, a: int, b: int) -> Option<int> {
    match op {
        BinaryOperator::Plus => Some(a + b),
        BinaryOperator::Minus => Some(a - b),
        BinaryOperator::Multiply => Some(a * b),
        BinaryOperator::Divide => if b == 0 {
            None
        } else {
            Some(quotient(a, b))
        },
        BinaryOperator::Modulus => if b == 0 {
            None
        } else {
            Some(remainder(a, b))
        },
        BinaryOperator::BitwiseAnd => Some(((a as i128) & (b as i128)) as int),
        _ => Some(((a as i128) | (b as i128)) as int),
    }
}

/// What a comparison makes of two numbers.
pub open spec fn compared(op: BinaryOperator, a: int, b: int) -> bool {
    match op {
        BinaryOperator::Gt => a > b,
        BinaryOperator::Lt => a < b,
        BinaryOperator::GtEq => a >= b,
        BinaryOperator::LtEq => a <= b,
        BinaryOperator::Eq => a == b,
        _ => a != b,
    }
}

/// The error that says that no operator of that name takes operands of
/// those kinds.
pub open spec fn undefined(op: Seq<char>, left: Seq<char>, right: Seq<char>) -> ErrorView {
    error_of("42883"@, ErrorKindView::UndefinedFunction(op, left, right))
}

/// What a binary operator makes of two values.
///
/// Two integers are added, subtracted, multiplied, divided or combined bit
/// by bit into an integer of their kind, or compared into a boolean; a
/// result beyond the range of the kind is an error, and so is a division
/// by zero. With a text on either side the values are written one after
/// the other by `||`. Every other combination is an error.
pub open spec fn binary_outcome(op: BinaryOperator, left: DatumModel, right: DatumModel) -> Result<
    DatumModel,
    ErrorView,
> {
    if left.is_integer() && right.is_integer() {
        if is_arithmetic(op) {
            match computed(op, left.number(), right.number()) {
                Some(value) => if IntegerKind::of(left, right).holds(value) {
                    Ok(IntegerKind::of(left, right).datum(value))
                } else {
                    Err(
                        error_of(
                            "22003"@,
                            ErrorKindView::NumericTypeOutOfRange(
                                IntegerKind::of(left, right).pg_type(),
                            ),
                        ),
                    )
                },
                None => Err(error_of("22012"@, ErrorKindView::DivisionByZero)),
            }
        } else if is_comparison(op) {
            Ok(
                if compared(op, left.number(), right.number()) {
                    DatumModel::True
                } else {
                    DatumModel::False
                },
            )
        } else {
            Err(undefined(op.spec_text(), "NUMBER"@, "NUMBER"@))
        }
    } else if left is String || right is String {
        if op == BinaryOperator::StringConcat {
            Ok(DatumModel::String(left.text() + right.text()))
        } else {
            Err(undefined(op.spec_text(), "STRING"@, "STRING"@))
        }
    } else {
        Err(
            error_of(
                "42601"@,
                ErrorKindView::SyntaxError(
                    left.text() + " "@ + op.spec_text() + " "@ + right.text(),
                ),
            ),
        )
    }
}

/// What a unary operator makes of a value: the sign of an integer is kept
/// or turned, a boolean is turned by `NOT`. Every other combination is an
/// error.
pub open spec fn unary_outcome(op: UnaryOperator, operand: DatumModel) -> Result<
    DatumModel,
    ErrorView,
> {
    if operand.is_integer() && op == UnaryOperator::Plus {
        Ok(operand)
    } else if operand.is_integer() && op == UnaryOperator::Minus {
        if IntegerKind::of_one(operand).holds(-operand.number()) {
            Ok(IntegerKind::of_one(operand).datum(-operand.number()))
        } else {
            Err(
                error_of(
                    "22003"@,
                    ErrorKindView::NumericTypeOutOfRange(IntegerKind::of_one(operand).pg_type()),
                ),
            )
        }
    } else if operand is True && op == UnaryOperator::Not {
        Ok(DatumModel::False)
    } else if operand is False && op == UnaryOperator::Not {
        Ok(DatumModel::True)
    } else {
        Err(undefined(op.spec_text(), ""@, operand.scalar_type().spec_text()))
    }
}

/// The value that the operation gives on the row.
pub open spec fn evaluated(op: ScalarOpModel, row: Seq<DatumModel>) -> Result<DatumModel, ErrorView>
    decreases op,
{
    match op {
        ScalarOpModel::Column(index, _) => Ok(row[index as int]),
        ScalarOpModel::Literal(datum) => Ok(datum),
        ScalarOpModel::Binary(operator, left, right, _) => match evaluated(*left, row) {
            Ok(left) => match evaluated(*right, row) {
                Ok(right) => binary_outcome(operator, left, right),
                Err(error) => Err(error),
            },
            Err(error) => Err(error),
        },
        ScalarOpModel::Unary(operator, operand, _) => match evaluated(*operand, row) {
            Ok(operand) => unary_outcome(operator, operand),
            Err(error) => Err(error),
        },
        ScalarOpModel::Assignment { value, .. } => evaluated(*value, row),
    }
}

/// Whether the result is the expected value, or the one expected error.
pub open spec fn is_outcome(got: Result<Datum, QueryError>, expected: Result<DatumModel, ErrorView>) -> bool {
    match (got, expected) {
        (Ok(datum), Ok(model)) => datum@ == model,
        (Err(error), Err(view)) => error@ == seq![view],
        _ => false,
    }
}

fn kind_of(left: &Datum, right: &Datum) -> (kind: IntegerKind)
    ensures
        kind == IntegerKind::of(left@, right@),
{
    match (left, right) {
        (Datum::Int16(_), Datum::Int16(_)) => IntegerKind::Int16,
        (Datum::Int32(_), Datum::Int32(_)) => IntegerKind::Int32,
        (Datum::UInt64(_), Datum::UInt64(_)) => IntegerKind::UInt64,
        _ => IntegerKind::Int64,
    }
}

/// The value of the kind that holds the number, or the error that the
/// number is beyond the range of the kind.
fn fit(kind: IntegerKind, value: i128) -> (datum: Result<Datum, QueryError>)
    ensures
        is_outcome(
            datum,
            if kind.holds(value as int) {
                Ok(kind.datum(value as int))
            } else {
                Err(error_of("22003"@, ErrorKindView::NumericTypeOutOfRange(kind.pg_type())))
            },
        ),
{
    let held = match kind {
        IntegerKind::Int16 => if -0x8000 <= value && value <= 0x7fff {
            Some(Datum::Int16(value as i16))
        } else {
            None
        },
        IntegerKind::Int32 => if -0x8000_0000 <= value && value <= 0x7fff_ffff {
            Some(Datum::Int32(value as i32))
        } else {
            None
        },
        IntegerKind::Int64 => if -0x8000_0000_0000_0000 <= value && value
            <= 0x7fff_ffff_ffff_ffff {
            Some(Datum::Int64(value as i64))
        } else {
            None
        },
        IntegerKind::UInt64 => if 0 <= value && value <= 0xffff_ffff_ffff_ffff {
            Some(Datum::UInt64(value as u64))
        } else {
            None
        },
    };
    match held {
        Some(datum) => Ok(datum),
        None => {
            let pg_type = match kind {
                IntegerKind::Int16 => SqlType::Int2,
                IntegerKind::Int32 => SqlType::Int4,
                _ => SqlType::Int8,
            };
            let mut builder = QueryErrorBuilder::new();
            builder.out_of_range(pg_type);
            let error = builder.build();
            assert(error@ =~= seq![
                error_of("22003"@, ErrorKindView::NumericTypeOutOfRange(kind.pg_type())),
            ]);
            Err(error)
        },
    }
}

fn undefined_function(op: &str, left: &str, right: &str) -> (error: QueryError)
    ensures
        error@ == seq![undefined(op@, left@, right@)],
{
    let error = QueryErrorBuilder::new().undefined_function(
        String::from_str(op),
        String::from_str(left),
        String::from_str(right),
    ).build();
    assert(error@ =~= seq![undefined(op@, left@, right@)]);
    error
}

/// The number without its sign.
fn magnitude(number: i128) -> (size: u128)
    requires
        -0x1_0000_0000_0000_0000 < number < 0x1_0000_0000_0000_0000,
    ensures
        size == if number < 0 {
            -number
        } else {
            number as int
        },
        size < 0x1_0000_0000_0000_0000,
{
    if number < 0 {
        (-number) as u128
    } else {
        number as u128
    }
}

/// The product of two numbers of 64 bits, if its size fits into 64 bits.
fn multiply(a: i128, b: i128) -> (product: Option<i128>)
    requires
        -0x1_0000_0000_0000_0000 < a < 0x1_0000_0000_0000_0000,
        -0x1_0000_0000_0000_0000 < b < 0x1_0000_0000_0000_0000,
    ensures
        match product {
            Some(product) => product == a * b,
            None => a * b <= -0x1_0000_0000_0000_0000 || a * b >= 0x1_0000_0000_0000_0000,
        },
{
    let x = magnitude(a);
    let y = magnitude(b);
    assert(x * y <= 0xffff_ffff_ffff_fffe_0000_0000_0000_0001) by (nonlinear_arith)
        requires
            x <= 0xffff_ffff_ffff_ffff,
            y <= 0xffff_ffff_ffff_ffff,
    ;
    let size = x * y;
    let negative = (a < 0) != (b < 0);
    assert(a * b == if negative {
        -(x * y)
    } else {
        x * y
    }) by (nonlinear_arith)
        requires
            x == if a < 0 {
                -a
            } else {
                a as int
            },
            y == if b < 0 {
                -b
            } else {
                b as int
            },
            negative == ((a < 0) != (b < 0)),
    ;
    if size >= 0x1_0000_0000_0000_0000 {
        if negative {
            return None;
        }
        return None;
    }
    if negative {
        Some(-(size as i128))
    } else {
        Some(size as i128)
    }
}

/// The quotient and what is left, the quotient rounded towards zero.
fn divide(a: i128, b: i128) -> (parts: (i128, i128))
    requires
        -0x1_0000_0000_0000_0000 < a < 0x1_0000_0000_0000_0000,
        -0x1_0000_0000_0000_0000 < b < 0x1_0000_0000_0000_0000,
        b != 0,
    ensures
        parts.0 == quotient(a as int, b as int),
        parts.1 == remainder(a as int, b as int),
        -0x1_0000_0000_0000_0000 < parts.0 < 0x1_0000_0000_0000_0000,
        -0x1_0000_0000_0000_0000 < parts.1 < 0x1_0000_0000_0000_0000,
{
    let x = magnitude(a);
    let y = magnitude(b);
    let q = x / y;
    let r = x % y;
    assert(q <= x && r < y) by (nonlinear_arith)
        requires
            q == x / y,
            r == x % y,
            y > 0,
    ;
    let quotient = if (a < 0) != (b < 0) {
        -(q as i128)
    } else {
        q as i128
    };
    let remainder = if a < 0 {
        -(r as i128)
    } else {
        r as i128
    };
    (quotient, remainder)
}

pub struct EvalScalarOp;

impl EvalScalarOp {
    /// What the operator makes of two integers.
    fn eval_integers(op: BinaryOperator, left: &Datum, right: &Datum) -> (value: Result<
        Datum,
        QueryError,
    >)
        requires
            left@.is_integer(),
            right@.is_integer(),
        ensures
            is_outcome(value, binary_outcome(op, left@, right@)),
    {
        let a = left.number();
        let b = right.number();
        let kind = kind_of(left, right);
        match op {
            BinaryOperator::Plus => fit(kind, a + b),
            BinaryOperator::Minus => fit(kind, a - b),
            BinaryOperator::Multiply => match multiply(a, b) {
                Some(product) => fit(kind, product),
                None => {
                    assert(!kind.holds(a * b));
                    fit(kind, 0x1_0000_0000_0000_0000)
                },
            },
            BinaryOperator::Divide => {
                if b == 0 {
                    let error = QueryErrorBuilder::new().division_by_zero().build();
                    assert(error@ =~= seq![error_of("22012"@, ErrorKindView::DivisionByZero)]);
                    return Err(error);
                }
                fit(kind, divide(a, b).0)
            },
            BinaryOperator::Modulus => {
                if b == 0 {
                    let error = QueryErrorBuilder::new().division_by_zero().build();
                    assert(error@ =~= seq![error_of("22012"@, ErrorKindView::DivisionByZero)]);
                    return Err(error);
                }
                fit(kind, divide(a, b).1)
            },
            BinaryOperator::BitwiseAnd => fit(kind, a & b),
            BinaryOperator::BitwiseOr => fit(kind, a | b),
            BinaryOperator::Gt => Ok(Datum::from_bool(a > b)),
            BinaryOperator::Lt => Ok(Datum::from_bool(a < b)),
            BinaryOperator::GtEq => Ok(Datum::from_bool(a >= b)),
            BinaryOperator::LtEq => Ok(Datum::from_bool(a <= b)),
            BinaryOperator::Eq => Ok(Datum::from_bool(a == b)),
            BinaryOperator::NotEq => Ok(Datum::from_bool(a != b)),
            _ => Err(undefined_function(op.text(), "NUMBER", "NUMBER")),
        }
    }

    /// The value that the operation gives on the row.
    pub fn eval(row: &[Datum], eval: &ScalarOp) -> (value: Result<Datum, QueryError>)
        requires
            eval@.evaluable(row@.len()),
        ensures
            is_outcome(value, evaluated(eval@, crate::binary::datums(row@))),
        decreases eval,
    {
        match eval {
            ScalarOp::Column(index, _) => Ok(row[*index].duplicate()),
            ScalarOp::Literal(datum) => Ok(datum.duplicate()),
            ScalarOp::Binary(op, lhs, rhs, _) => {
                let left = Self::eval(row, lhs)?;
                let right = Self::eval(row, rhs)?;
                Self::eval_binary_literal_expr(*op, left, right)
            },
            ScalarOp::Unary(op, operand, _) => {
                let operand = Self::eval(row, operand)?;
                Self::eval_unary_literal_expr(*op, operand)
            },
            ScalarOp::Assignment { .. } => {
                assert(false);
                Ok(Datum::Null)
            },
        }
    }

    /// Evaluates the value of an assignment on the row and puts it into
    /// the column that the assignment names. An error leaves the row as it
    /// is.
    pub fn eval_on_row(row: &mut Vec<Datum>, eval: &ScalarOp) -> (done: Result<(), QueryError>)
        requires
            eval@ matches ScalarOpModel::Assignment { destination, value, .. } && destination < old(row)@.len() && value.evaluable(old(row)@.len()),
        ensures
            match evaluated(eval@, crate::binary::datums(old(row)@)) {
                Ok(value) => done is Ok && crate::binary::datums(final(row)@) == crate::binary::datums(
                    old(row)@,
                ).update(eval@->destination as int, value),
                Err(error) => done matches Err(failure) && failure@ == seq![error] && final(row)@
                    == old(row)@,
            },
    {
        match eval {
            ScalarOp::Assignment { destination, value, ty: _ } => {
                let value = Self::eval(row.as_slice(), value)?;
                let ghost before = crate::binary::datums(row@);
                row.set(*destination, value);
                assert(crate::binary::datums(row@) =~= before.update(*destination as int, value@));
                Ok(())
            },
            _ => {
                assert(false);
                Ok(())
            },
        }
    }

    /// What the operator makes of the two values.
    pub fn eval_binary_literal_expr(op: BinaryOperator, left: Datum, right: Datum) -> (value: Result<
        Datum,
        QueryError,
    >)
        ensures
            is_outcome(value, binary_outcome(op, left@, right@)),
    {
        if left.is_integer() && right.is_integer() {
            Self::eval_integers(op, &left, &right)
        } else if left.is_string() || right.is_string() {
            match op {
                BinaryOperator::StringConcat => {
                    let mut value = left.text();
                    let right_text = right.text();
                    value.append(right_text.as_str());
                    Ok(Datum::String(value))
                },
                _ => Err(undefined_function(op.text(), "STRING", "STRING")),
            }
        } else {
            let mut text = left.text();
            text.append(" ");
            text.append(op.text());
            text.append(" ");
            let right_text = right.text();
            text.append(right_text.as_str());
            let error = QueryErrorBuilder::new().syntax_error(text).build();
            assert(error@ =~= seq![
                error_of(
                    "42601"@,
                    ErrorKindView::SyntaxError(
                        left@.text() + " "@ + op.spec_text() + " "@ + right@.text(),
                    ),
                ),
            ]);
            Err(error)
        }
    }

    /// What the operator makes of the value.
    pub fn eval_unary_literal_expr(op: UnaryOperator, operand: Datum) -> (value: Result<
        Datum,
        QueryError,
    >)
        ensures
            is_outcome(value, unary_outcome(op, operand@)),
    {
        match (op, &operand) {
            (UnaryOperator::Not, Datum::True) => Ok(Datum::False),
            (UnaryOperator::Not, Datum::False) => Ok(Datum::True),
            _ => if operand.is_integer() && op == UnaryOperator::Plus {
                Ok(operand)
            } else if operand.is_integer() && op == UnaryOperator::Minus {
                fit(kind_of(&operand, &operand), -operand.number())
            } else {
                Err(undefined_function(op.text(), "", operand.scalar_type().text()))
            },
        }
    }
}

} // verus!
