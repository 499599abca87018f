//! The syntax tree of a statement, as far as the engine looks into it.
//! What the engine does not look into is kept as the text it was written
//! as, for diagnostics.

use vstd::prelude::*;

verus! {

/// A name as it was written.
#[derive(Debug, Clone, PartialEq)]
pub struct Ident {
    pub value: String,
}

/// A name of one or more parts, such as `schema.table`.
#[derive(Debug, Clone, PartialEq)]
pub struct ObjectName(pub Vec<Ident>);

/// A literal.
#[derive(Debug, Clone, PartialEq)]
pub enum Value {
    /// A number, as the digits it was written with.
    Number(String),
    SingleQuotedString(String),
    Boolean(bool),
    Null,
}

#[derive(Debug, Clone, Copy, PartialEq, Eq, Structural)]
pub enum UnaryOperator {
    Plus,
    Minus,
    Not,
    PGBitwiseNot,
    PGSquareRoot,
    PGCubeRoot,
    PGPostfixFactorial,
    PGPrefixFactorial,
    PGAbs,
}

#[derive(Debug, Clone, Copy, PartialEq, Eq, Structural)]
pub enum BinaryOperator {
    Plus,
    Minus,
    Multiply,
    Divide,
    Modulus,
    StringConcat,
    Gt,
    Lt,
    GtEq,
    LtEq,
    Spaceship,
    Eq,
    NotEq,
    And,
    Or,
    Like,
    NotLike,
    BitwiseOr,
    BitwiseAnd,
    BitwiseXor,
    PGBitwiseXor,
    PGBitwiseShiftLeft,
    PGBitwiseShiftRight,
}

/// The type that a column is declared with.
#[derive(Debug, Clone, Copy, PartialEq, Eq, Structural)]
pub enum DataType {
    Boolean,
    SmallInt,
    Int,
    BigInt,
    Char(Option<u64>),
    Varchar(Option<u64>),
    Real,
    Double,
    Time,
    Timestamp,
    Date,
    Interval,
    Decimal,
    /// A type that the engine has no column type for.
    Other,
}

#[derive(Debug, PartialEq)]
pub enum Expr {
    Identifier(Ident),
    CompoundIdentifier(Vec<Ident>),
    Value(Value),
    UnaryOp { op: UnaryOperator, expr: Box<Expr> },
    BinaryOp { left: Box<Expr>, op: BinaryOperator, right: Box<Expr> },
    Between { expr: Box<Expr>, negated: bool, low: Box<Expr>, high: Box<Expr> },
    InList { expr: Box<Expr>, list: Vec<Expr>, negated: bool },
    Cast { expr: Box<Expr>, data_type: DataType },
    /// An expression that the engine does not look into, as text.
    Other(String),
}

/// `id = value` in an update.
#[derive(Debug, PartialEq)]
pub struct Assignment {
    pub id: Ident,
    pub value: Expr,
}

/// A column in the definition of a table.
#[derive(Debug, Clone, PartialEq)]
pub struct ColumnDef {
    pub name: Ident,
    pub data_type: DataType,
}

#[derive(Debug, Clone, PartialEq)]
pub enum TableFactor {
    Table { name: ObjectName },
    /// A source of rows that the engine does not look into, as text.
    Other(String),
}

#[derive(Debug, Clone, PartialEq)]
pub struct TableWithJoins {
    pub relation: TableFactor,
}

#[derive(Debug, PartialEq)]
pub struct Select {
    /// The names of the columns that are selected; none for `*`.
    pub projection: Vec<Ident>,
    pub from: Vec<TableWithJoins>,
    pub selection: Option<Expr>,
}

#[derive(Debug, PartialEq)]
pub enum SetExpr {
    Select(Box<Select>),
    Values(Vec<Vec<Expr>>),
    /// A body that the engine does not look into, as text.
    Other(String),
}

#[derive(Debug, PartialEq)]
pub struct Query {
    pub body: SetExpr,
}

/// What a `DROP` statement drops.
#[derive(Debug, Clone, Copy, PartialEq, Eq, Structural)]
pub enum ObjectType {
    Table,
    Schema,
    Other,
}

#[derive(Debug, PartialEq)]
pub enum Statement {
    CreateSchema { schema_name: ObjectName },
    CreateTable { name: ObjectName, columns: Vec<ColumnDef> },
    Drop { object_type: ObjectType, names: Vec<ObjectName>, cascade: bool },
    Insert { table_name: ObjectName, columns: Vec<Ident>, source: Box<Query> },
    Update { table_name: ObjectName, assignments: Vec<Assignment>, selection: Option<Expr> },
    Delete { table_name: ObjectName, selection: Option<Expr> },
    Query(Box<Query>),
    StartTransaction,
    SetVariable,
    /// A statement that the engine does not look into, as text.
    Other(String),
}

impl UnaryOperator {
    pub open spec fn spec_text(self) -> Seq<char> {
        match self {
            UnaryOperator::Plus => "+"@,
            UnaryOperator::Minus => "-"@,
            UnaryOperator::Not => "NOT"@,
            UnaryOperator::PGBitwiseNot => "~"@,
            UnaryOperator::PGSquareRoot => "|/"@,
            UnaryOperator::PGCubeRoot => "||/"@,
            UnaryOperator::PGPostfixFactorial => "!"@,
            UnaryOperator::PGPrefixFactorial => "!!"@,
            UnaryOperator::PGAbs => "@"@,
        }
    }

    /// The operator as it is written.
    pub fn text(self) -> (text: &'static str)
        ensures
            text@ == self.spec_text(),
    {
        match self {
            UnaryOperator::Plus => "+",
            UnaryOperator::Minus => "-",
            UnaryOperator::Not => "NOT",
            UnaryOperator::PGBitwiseNot => "~",
            UnaryOperator::PGSquareRoot => "|/",
            UnaryOperator::PGCubeRoot => "||/",
            UnaryOperator::PGPostfixFactorial => "!",
            UnaryOperator::PGPrefixFactorial => "!!",
            UnaryOperator::PGAbs => "@",
        }
    }
}

impl BinaryOperator {
    pub open spec fn spec_text(self) -> Seq<char> {
        match self {
            BinaryOperator::Plus => "+"@,
            BinaryOperator::Minus => "-"@,
            BinaryOperator::Multiply => "*"@,
            BinaryOperator::Divide => "/"@,
            BinaryOperator::Modulus => "%"@,
            BinaryOperator::StringConcat => "||"@,
            BinaryOperator::Gt => ">"@,
            BinaryOperator::Lt => "<"@,
            BinaryOperator::GtEq => ">="@,
            BinaryOperator::LtEq => "<="@,
            BinaryOperator::Spaceship => "<=>"@,
            BinaryOperator::Eq => "="@,
            BinaryOperator::NotEq => "<>"@,
            BinaryOperator::And => "AND"@,
            BinaryOperator::Or => "OR"@,
            BinaryOperator::Like => "LIKE"@,
            BinaryOperator::NotLike => "NOT LIKE"@,
            BinaryOperator::BitwiseOr => "|"@,
            BinaryOperator::BitwiseAnd => "&"@,
            BinaryOperator::BitwiseXor => "^"@,
            BinaryOperator::PGBitwiseXor => "#"@,
            BinaryOperator::PGBitwiseShiftLeft => "<<"@,
            BinaryOperator::PGBitwiseShiftRight => ">>"@,
        }
    }

    /// The operator as it is written.
    pub fn text(self) -> (text: &'static str)
        ensures
            text@ == self.spec_text(),
    {
        match self {
            BinaryOperator::Plus => "+",
            BinaryOperator::Minus => "-",
            BinaryOperator::Multiply => "*",
            BinaryOperator::Divide => "/",
            BinaryOperator::Modulus => "%",
            BinaryOperator::StringConcat => "||",
            BinaryOperator::Gt => ">",
            BinaryOperator::Lt => "<",
            BinaryOperator::GtEq => ">=",
            BinaryOperator::LtEq => "<=",
            BinaryOperator::Spaceship => "<=>",
            BinaryOperator::Eq => "=",
            BinaryOperator::NotEq => "<>",
            BinaryOperator::And => "AND",
            BinaryOperator::Or => "OR",
            BinaryOperator::Like => "LIKE",
            BinaryOperator::NotLike => "NOT LIKE",
            BinaryOperator::BitwiseOr => "|",
            BinaryOperator::BitwiseAnd => "&",
            BinaryOperator::BitwiseXor => "^",
            BinaryOperator::PGBitwiseXor => "#",
            BinaryOperator::PGBitwiseShiftLeft => "<<",
            BinaryOperator::PGBitwiseShiftRight => ">>",
        }
    }
}

} // verus!
