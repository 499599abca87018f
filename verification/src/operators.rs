//! The operations of the engine, and the operators of a statement that
//! stand for them.

use vstd::prelude::*;
use crate::sql_ast::{BinaryOperator, UnaryOperator};

verus! {

#[derive(Debug, Clone, Copy, PartialEq, Eq, Structural)]
pub enum UnArithmetic {
    Neg,
    Pos,
    SquareRoot,
    CubeRoot,
    Factorial,
    Abs,
}

#[derive(Debug, Clone, Copy, PartialEq, Eq, Structural)]
pub enum UnOperator {
    Arithmetic(UnArithmetic),
    LogicalNot,
    BitwiseNot,
}

#[derive(Debug, Clone, Copy, PartialEq, Eq, Structural)]
pub enum BiArithmetic {
    Add,
    Sub,
    Mul,
    Div,
    Mod,
    Exp,
}

#[derive(Debug, Clone, Copy, PartialEq, Eq, Structural)]
pub enum Comparison {
    NotEq,
    Eq,
    LtEq,
    GtEq,
    Lt,
    Gt,
}

#[derive(Debug, Clone, Copy, PartialEq, Eq, Structural)]
pub enum Bitwise {
    ShiftRight,
    ShiftLeft,
    Xor,
    And,
    Or,
}

#[derive(Debug, Clone, Copy, PartialEq, Eq, Structural)]
pub enum BiLogical {
    Or,
    And,
}

#[derive(Debug, Clone, Copy, PartialEq, Eq, Structural)]
pub enum Matching {
    Like,
    NotLike,
}

#[derive(Debug, Clone, Copy, PartialEq, Eq, Structural)]
pub struct Concat;

#[derive(Debug, Clone, Copy, PartialEq, Eq, Structural)]
pub enum BiOperator {
    Arithmetic(BiArithmetic),
    Comparison(Comparison),
    Bitwise(Bitwise),
    Logical(BiLogical),
    Matching(Matching),
    StringOp(Concat),
}

/// The operation that a unary operator stands for. Both ways of writing
/// the factorial stand for the one operation.
pub open spec fn unary_of(operator: UnaryOperator) -> UnOperator {
    match operator {
        UnaryOperator::Minus => UnOperator::Arithmetic(UnArithmetic::Neg),
        UnaryOperator::Plus => UnOperator::Arithmetic(UnArithmetic::Pos),
        UnaryOperator::Not => UnOperator::LogicalNot,
        UnaryOperator::PGBitwiseNot => UnOperator::BitwiseNot,
        UnaryOperator::PGSquareRoot => UnOperator::Arithmetic(UnArithmetic::SquareRoot),
        UnaryOperator::PGCubeRoot => UnOperator::Arithmetic(UnArithmetic::CubeRoot),
        UnaryOperator::PGPostfixFactorial => UnOperator::Arithmetic(UnArithmetic::Factorial),
        UnaryOperator::PGPrefixFactorial => UnOperator::Arithmetic(UnArithmetic::Factorial),
        UnaryOperator::PGAbs => UnOperator::Arithmetic(UnArithmetic::Abs),
    }
}

/// The operation that a binary operator stands for; the three-way
/// comparison stands for none. `^` is the power, `#` the exclusive or.
pub open spec fn binary_of(operator: BinaryOperator) -> Option<BiOperator> {
    match operator {
        BinaryOperator::Plus => Some(BiOperator::Arithmetic(BiArithmetic::Add)),
        BinaryOperator::Minus => Some(BiOperator::Arithmetic(BiArithmetic::Sub)),
        BinaryOperator::Multiply => Some(BiOperator::Arithmetic(BiArithmetic::Mul)),
        BinaryOperator::Divide => Some(BiOperator::Arithmetic(BiArithmetic::Div)),
        BinaryOperator::Modulus => Some(BiOperator::Arithmetic(BiArithmetic::Mod)),
        BinaryOperator::BitwiseXor => Some(BiOperator::Arithmetic(BiArithmetic::Exp)),
        BinaryOperator::StringConcat => Some(BiOperator::StringOp(Concat)),
        BinaryOperator::Gt => Some(BiOperator::Comparison(Comparison::Gt)),
        BinaryOperator::Lt => Some(BiOperator::Comparison(Comparison::Lt)),
        BinaryOperator::GtEq => Some(BiOperator::Comparison(Comparison::GtEq)),
        BinaryOperator::LtEq => Some(BiOperator::Comparison(Comparison::LtEq)),
        BinaryOperator::Eq => Some(BiOperator::Comparison(Comparison::Eq)),
        BinaryOperator::NotEq => Some(BiOperator::Comparison(Comparison::NotEq)),
        BinaryOperator::And => Some(BiOperator::Logical(BiLogical::And)),
        BinaryOperator::Or => Some(BiOperator::Logical(BiLogical::Or)),
        BinaryOperator::Like => Some(BiOperator::Matching(Matching::Like)),
        BinaryOperator::NotLike => Some(BiOperator::Matching(Matching::NotLike)),
        BinaryOperator::BitwiseOr => Some(BiOperator::Bitwise(Bitwise::Or)),
        BinaryOperator::BitwiseAnd => Some(BiOperator::Bitwise(Bitwise::And)),
        BinaryOperator::PGBitwiseXor => Some(BiOperator::Bitwise(Bitwise::Xor)),
        BinaryOperator::PGBitwiseShiftLeft => Some(BiOperator::Bitwise(Bitwise::ShiftLeft)),
        BinaryOperator::PGBitwiseShiftRight => Some(BiOperator::Bitwise(Bitwise::ShiftRight)),
        BinaryOperator::Spaceship => None,
    }
}

/// No two binary operators stand for the same operation.
pub proof fn lemma_binary_distinct(a: BinaryOperator, b: BinaryOperator)
    requires
        binary_of(a) is Some,
        binary_of(a) == binary_of(b),
    ensures
        a == b,
{
}

pub struct OperationMapper;

impl OperationMapper {
    pub fn unary_operation(unary_op: &UnaryOperator) -> (operation: UnOperator)
        ensures
            operation == unary_of(*unary_op),
    {
        match unary_op {
            UnaryOperator::Minus => UnOperator::Arithmetic(UnArithmetic::Neg),
            UnaryOperator::Plus => UnOperator::Arithmetic(UnArithmetic::Pos),
            UnaryOperator::Not => UnOperator::LogicalNot,
            UnaryOperator::PGBitwiseNot => UnOperator::BitwiseNot,
            UnaryOperator::PGSquareRoot => UnOperator::Arithmetic(UnArithmetic::SquareRoot),
            UnaryOperator::PGCubeRoot => UnOperator::Arithmetic(UnArithmetic::CubeRoot),
            UnaryOperator::PGPostfixFactorial => UnOperator::Arithmetic(UnArithmetic::Factorial),
            UnaryOperator::PGPrefixFactorial => UnOperator::Arithmetic(UnArithmetic::Factorial),
            UnaryOperator::PGAbs => UnOperator::Arithmetic(UnArithmetic::Abs),
        }
    }

    /// The operation of an operator that stands for one.
    pub fn binary_operation(binary_op: &BinaryOperator) -> (operation: BiOperator)
        requires
            *binary_op != BinaryOperator::Spaceship,
        ensures
            binary_of(*binary_op) == Some(operation),
    {
        match binary_op {
            BinaryOperator::Plus => BiOperator::Arithmetic(BiArithmetic::Add),
            BinaryOperator::Minus => BiOperator::Arithmetic(BiArithmetic::Sub),
            BinaryOperator::Multiply => BiOperator::Arithmetic(BiArithmetic::Mul),
            BinaryOperator::Divide => BiOperator::Arithmetic(BiArithmetic::Div),
            BinaryOperator::Modulus => BiOperator::Arithmetic(BiArithmetic::Mod),
            BinaryOperator::BitwiseXor => BiOperator::Arithmetic(BiArithmetic::Exp),
            BinaryOperator::StringConcat => BiOperator::StringOp(Concat),
            BinaryOperator::Gt => BiOperator::Comparison(Comparison::Gt),
            BinaryOperator::Lt => BiOperator::Comparison(Comparison::Lt),
            BinaryOperator::GtEq => BiOperator::Comparison(Comparison::GtEq),
            BinaryOperator::LtEq => BiOperator::Comparison(Comparison::LtEq),
            BinaryOperator::Eq => BiOperator::Comparison(Comparison::Eq),
            BinaryOperator::NotEq => BiOperator::Comparison(Comparison::NotEq),
            BinaryOperator::And => BiOperator::Logical(BiLogical::And),
            BinaryOperator::Or => BiOperator::Logical(BiLogical::Or),
            BinaryOperator::Like => BiOperator::Matching(Matching::Like),
            BinaryOperator::NotLike => BiOperator::Matching(Matching::NotLike),
            BinaryOperator::BitwiseOr => BiOperator::Bitwise(Bitwise::Or),
            BinaryOperator::BitwiseAnd => BiOperator::Bitwise(Bitwise::And),
            BinaryOperator::PGBitwiseXor => BiOperator::Bitwise(Bitwise::Xor),
            BinaryOperator::PGBitwiseShiftLeft => BiOperator::Bitwise(Bitwise::ShiftLeft),
            BinaryOperator::PGBitwiseShiftRight => BiOperator::Bitwise(Bitwise::ShiftRight),
            // the precondition leaves this operator out
            BinaryOperator::Spaceship => BiOperator::StringOp(Concat),
        }
    }
}

} // verus!
