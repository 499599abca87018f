//! What a statement ends in: an event that reports success, or a list of
//! errors, each with the code and the message that the client is shown.

use vstd::prelude::*;
use crate::protocol::Message;
use crate::sql_types::SqlType;
use crate::text::{decimal, join, spec_decimal, spec_join, texts};

verus! {

/// Result of the execution of one statement.
pub type QueryResult = Result<QueryEvent, QueryError>;

/// Selected data: the columns with their types, then the rows.
pub type Projection = (Vec<(String, SqlType)>, Vec<Vec<String>>);

/// Successful events that can happen in the server backend.
#[derive(Debug, PartialEq)]
pub enum QueryEvent {
    SchemaCreated,
    SchemaDropped,
    TableCreated,
    TableDropped,
    VariableSet,
    TransactionStarted,
    /// Number of records inserted into a table.
    RecordsInserted(usize),
    RecordsSelected(Projection),
    /// Number of records updated in a table.
    RecordsUpdated(usize),
    /// Number of records deleted from a table.
    RecordsDeleted(usize),
    /// The statement is done; the client may send the next one.
    QueryComplete,
}

/// Message severities of the wire protocol.
#[derive(Debug, Clone, Copy, PartialEq, Eq, Structural)]
pub enum Severity {
    Error,
    Fatal,
    Panic,
    Warning,
    Notice,
    Debug,
    Info,
    Log,
}

impl Severity {
    pub open spec fn spec_text(self) -> Seq<char> {
        match self {
            Severity::Error => "ERROR"@,
            Severity::Fatal => "FATAL"@,
            Severity::Panic => "PANIC"@,
            Severity::Warning => "WARNING"@,
            Severity::Notice => "NOTICE"@,
            Severity::Debug => "DEBUG"@,
            Severity::Info => "INFO"@,
            Severity::Log => "LOG"@,
        }
    }

    /// The severity as the protocol spells it.
    pub fn text(self) -> (text: String)
        ensures
            text@ == self.spec_text(),
    {
        match self {
            Severity::Error => String::from_str("ERROR"),
            Severity::Fatal => String::from_str("FATAL"),
            Severity::Panic => String::from_str("PANIC"),
            Severity::Warning => String::from_str("WARNING"),
            Severity::Notice => String::from_str("NOTICE"),
            Severity::Debug => String::from_str("DEBUG"),
            Severity::Info => String::from_str("INFO"),
            Severity::Log => String::from_str("LOG"),
        }
    }
}

#[derive(Debug, PartialEq)]
pub enum QueryErrorKind {
    SchemaAlreadyExists(String),
    TableAlreadyExists(String),
    SchemaDoesNotExist(String),
    TableDoesNotExist(String),
    ColumnDoesNotExist(Vec<String>),
    NotSupportedOperation(String),
    TooManyInsertExpressions,
    NumericTypeOutOfRange(SqlType),
    DataTypeMismatch(SqlType, String),
    StringTypeLengthMismatch(SqlType, u64),
    SyntaxError(String),
    FeatureNotSupported(String),
    /// Operator, then the type names of its left and right operands.
    UndefinedFunction(String, String, String),
    AmbiguousColumn(String),
    DuplicateColumn(String),
    DivisionByZero,
}

/// What a `QueryErrorKind` holds, as plain values.
pub enum ErrorKindView {
    SchemaAlreadyExists(Seq<char>),
    TableAlreadyExists(Seq<char>),
    SchemaDoesNotExist(Seq<char>),
    TableDoesNotExist(Seq<char>),
    ColumnDoesNotExist(Seq<Seq<char>>),
    NotSupportedOperation(Seq<char>),
    TooManyInsertExpressions,
    NumericTypeOutOfRange(SqlType),
    DataTypeMismatch(SqlType, Seq<char>),
    StringTypeLengthMismatch(SqlType, u64),
    SyntaxError(Seq<char>),
    FeatureNotSupported(Seq<char>),
    UndefinedFunction(Seq<char>, Seq<char>, Seq<char>),
    AmbiguousColumn(Seq<char>),
    DuplicateColumn(Seq<char>),
    DivisionByZero,
}

impl ErrorKindView {
    /// The message that the client is shown.
    pub open spec fn message(self) -> Seq<char> {
        match self {
            ErrorKindView::SchemaAlreadyExists(name) => "schema \""@ + name + "\" already exists"@,
            ErrorKindView::TableAlreadyExists(name) => "table \""@ + name + "\" already exists"@,
            ErrorKindView::SchemaDoesNotExist(name) => "schema \""@ + name + "\" does not exist"@,
            ErrorKindView::TableDoesNotExist(name) => "table \""@ + name + "\" does not exist"@,
            ErrorKindView::ColumnDoesNotExist(columns) => if columns.len() > 1 {
                "columns "@ + spec_join(columns, ", "@) + " do not exist"@
            } else {
                "column "@ + spec_join(columns, ", "@) + " does not exist"@
            },
            ErrorKindView::NotSupportedOperation(query) => "Currently, Query '"@ + query
                + "' can't be executed"@,
            ErrorKindView::TooManyInsertExpressions =>
                "INSERT has more epxressions then target columns"@,
            ErrorKindView::NumericTypeOutOfRange(sql_type) => sql_type.spec_name()
                + " out of range"@,
            ErrorKindView::DataTypeMismatch(sql_type, value) => "invalid input syntax for type "@
                + sql_type.spec_name() + ": \""@ + value + "\""@,
            ErrorKindView::StringTypeLengthMismatch(sql_type, len) => "value too long for type "@
                + sql_type.spec_name() + "("@ + spec_decimal(len as nat) + ")"@,
            ErrorKindView::SyntaxError(expression) => "syntax error: "@ + expression,
            ErrorKindView::FeatureNotSupported(query) => "Currently, Query '"@ + query
                + "' can't be executed"@,
            ErrorKindView::UndefinedFunction(operator, left, right) =>
                "operator does not exist: ("@ + left + " "@ + operator + " "@ + right + ")"@,
            ErrorKindView::AmbiguousColumn(name) => "column reference \""@ + name
                + "\" is ambiguous"@,
            ErrorKindView::DuplicateColumn(name) => "column \""@ + name
                + "\" specified more than once"@,
            ErrorKindView::DivisionByZero => "division by zero"@,
        }
    }
}

impl View for QueryErrorKind {
    type V = ErrorKindView;

    open spec fn view(&self) -> ErrorKindView {
        match self {
            QueryErrorKind::SchemaAlreadyExists(name) => ErrorKindView::SchemaAlreadyExists(name@),
            QueryErrorKind::TableAlreadyExists(name) => ErrorKindView::TableAlreadyExists(name@),
            QueryErrorKind::SchemaDoesNotExist(name) => ErrorKindView::SchemaDoesNotExist(name@),
            QueryErrorKind::TableDoesNotExist(name) => ErrorKindView::TableDoesNotExist(name@),
            QueryErrorKind::ColumnDoesNotExist(columns) => ErrorKindView::ColumnDoesNotExist(
                texts(columns@),
            ),
            QueryErrorKind::NotSupportedOperation(query) => ErrorKindView::NotSupportedOperation(
                query@,
            ),
            QueryErrorKind::TooManyInsertExpressions => ErrorKindView::TooManyInsertExpressions,
            QueryErrorKind::NumericTypeOutOfRange(sql_type) => ErrorKindView::NumericTypeOutOfRange(
                *sql_type,
            ),
            QueryErrorKind::DataTypeMismatch(sql_type, value) => ErrorKindView::DataTypeMismatch(
                *sql_type,
                value@,
            ),
            QueryErrorKind::StringTypeLengthMismatch(sql_type, len) =>
                ErrorKindView::StringTypeLengthMismatch(*sql_type, *len),
            QueryErrorKind::SyntaxError(expression) => ErrorKindView::SyntaxError(expression@),
            QueryErrorKind::FeatureNotSupported(query) => ErrorKindView::FeatureNotSupported(
                query@,
            ),
            QueryErrorKind::UndefinedFunction(operator, left, right) =>
                ErrorKindView::UndefinedFunction(operator@, left@, right@),
            QueryErrorKind::AmbiguousColumn(name) => ErrorKindView::AmbiguousColumn(name@),
            QueryErrorKind::DuplicateColumn(name) => ErrorKindView::DuplicateColumn(name@),
            QueryErrorKind::DivisionByZero => ErrorKindView::DivisionByZero,
        }
    }
}

/// `prefix`, `middle` and `suffix` written one after the other.
fn enclose(prefix: &str, middle: &str, suffix: &str) -> (text: String)
    ensures
        text@ == prefix@ + middle@ + suffix@,
{
    let mut text = String::from_str(prefix);
    text.append(middle);
    text.append(suffix);
    text
}

impl QueryErrorKind {
    /// The message that the client is shown.
    pub fn message(&self) -> (text: String)
        ensures
            text@ == self@.message(),
    {
        match self {
            QueryErrorKind::SchemaAlreadyExists(name) => enclose(
                "schema \"",
                name.as_str(),
                "\" already exists",
            ),
            QueryErrorKind::TableAlreadyExists(name) => enclose(
                "table \"",
                name.as_str(),
                "\" already exists",
            ),
            QueryErrorKind::SchemaDoesNotExist(name) => enclose(
                "schema \"",
                name.as_str(),
                "\" does not exist",
            ),
            QueryErrorKind::TableDoesNotExist(name) => enclose(
                "table \"",
                name.as_str(),
                "\" does not exist",
            ),
            QueryErrorKind::ColumnDoesNotExist(columns) => {
                let names = join(columns, ", ");
                if columns.len() > 1 {
                    enclose("columns ", names.as_str(), " do not exist")
                } else {
                    enclose("column ", names.as_str(), " does not exist")
                }
            },
            QueryErrorKind::NotSupportedOperation(query) => enclose(
                "Currently, Query '",
                query.as_str(),
                "' can't be executed",
            ),
            QueryErrorKind::TooManyInsertExpressions => String::from_str(
                "INSERT has more epxressions then target columns",
            ),
            QueryErrorKind::NumericTypeOutOfRange(sql_type) => {
                let mut text = String::from_str(sql_type.name());
                text.append(" out of range");
                text
            },
            QueryErrorKind::DataTypeMismatch(sql_type, value) => {
                let mut text = enclose("invalid input syntax for type ", sql_type.name(), ": \"");
                text.append(value.as_str());
                text.append("\"");
                text
            },
            QueryErrorKind::StringTypeLengthMismatch(sql_type, len) => {
                let mut text = enclose("value too long for type ", sql_type.name(), "(");
                let digits = decimal(*len);
                text.append(digits.as_str());
                text.append(")");
                text
            },
            QueryErrorKind::SyntaxError(expression) => {
                let mut text = String::from_str("syntax error: ");
                text.append(expression.as_str());
                text
            },
            QueryErrorKind::FeatureNotSupported(query) => enclose(
                "Currently, Query '",
                query.as_str(),
                "' can't be executed",
            ),
            QueryErrorKind::UndefinedFunction(operator, left, right) => {
                let mut text = enclose("operator does not exist: (", left.as_str(), " ");
                text.append(operator.as_str());
                text.append(" ");
                text.append(right.as_str());
                text.append(")");
                text
            },
            QueryErrorKind::AmbiguousColumn(name) => enclose(
                "column reference \"",
                name.as_str(),
                "\" is ambiguous",
            ),
            QueryErrorKind::DuplicateColumn(name) => enclose(
                "column \"",
                name.as_str(),
                "\" specified more than once",
            ),
            QueryErrorKind::DivisionByZero => String::from_str("division by zero"),
        }
    }
}

/// One error of a statement.
#[derive(Debug, PartialEq)]
pub struct QueryErrorInner {
    pub severity: Severity,
    pub code: String,
    pub kind: QueryErrorKind,
}

/// What a `QueryErrorInner` holds, as plain values.
pub struct ErrorView {
    pub severity: Severity,
    pub code: Seq<char>,
    pub kind: ErrorKindView,
}

impl View for QueryErrorInner {
    type V = ErrorView;

    open spec fn view(&self) -> ErrorView {
        ErrorView { severity: self.severity, code: self.code@, kind: self.kind@ }
    }
}

/// The errors of `errors`, each as plain values.
pub open spec fn error_views(errors: Seq<QueryErrorInner>) -> Seq<ErrorView> {
    errors.map_values(|error: QueryErrorInner| error@)
}

impl QueryErrorInner {
    pub fn code(&self) -> (code: Option<String>)
        ensures
            code matches Some(text) && text@ == self@.code,
    {
        Some(self.code.clone())
    }

    pub fn severity(&self) -> (severity: Option<String>)
        ensures
            severity matches Some(text) && text@ == self@.severity.spec_text(),
    {
        Some(self.severity.text())
    }

    pub fn message(&self) -> (message: Option<String>)
        ensures
            message matches Some(text) && text@ == self@.kind.message(),
    {
        Some(self.kind.message())
    }
}

/// The errors that occurred during the execution of one statement.
#[derive(Debug, PartialEq)]
pub struct QueryError {
    pub errors: Vec<QueryErrorInner>,
}

impl View for QueryError {
    type V = Seq<ErrorView>;

    open spec fn view(&self) -> Seq<ErrorView> {
        error_views(self.errors@)
    }
}

/// Whether `message` is the error response that reports `error`.
pub open spec fn reports(message: Message, error: ErrorView) -> bool {
    &&& message matches Message::ErrorResponse(Some(severity), Some(code), Some(text))
    &&& severity@ == error.severity.spec_text()
    &&& code@ == error.code
    &&& text@ == error.kind.message()
}

impl QueryError {
    pub fn new(errors: Vec<QueryErrorInner>) -> (error: Self)
        ensures
            error.errors == errors,
    {
        Self { errors }
    }

    /// One error response for each error, in the order of the errors.
    pub fn into_messages(self) -> (messages: Vec<Message>)
        ensures
            messages@.len() == self@.len(),
            forall|i: int| 0 <= i < messages@.len() ==> reports(#[trigger] messages@[i], self@[i]),
    {
        let mut messages: Vec<Message> = Vec::new();
        let mut i: usize = 0;
        while i < self.errors.len()
            invariant
                i <= self.errors.len(),
                messages@.len() == i,
                forall|j: int| 0 <= j < i ==> reports(#[trigger] messages@[j], self@[j]),
            decreases self.errors.len() - i,
        {
            let inner = &self.errors[i];
            let message = Message::ErrorResponse(inner.severity(), inner.code(), inner.message());
            assert(self@[i as int] == inner@);
            messages.push(message);
            i += 1;
        }
        messages
    }
}

/// Collects the errors of a statement, then builds a `QueryError` of them.
#[derive(Debug)]
pub struct QueryErrorBuilder {
    pub errors: Vec<QueryErrorInner>,
}

impl View for QueryErrorBuilder {
    type V = Seq<ErrorView>;

    open spec fn view(&self) -> Seq<ErrorView> {
        error_views(self.errors@)
    }
}

/// An error of severity `Error` with the given code and kind.
pub open spec fn error_of(code: Seq<char>, kind: ErrorKindView) -> ErrorView {
    ErrorView { severity: Severity::Error, code, kind }
}

impl Default for QueryErrorBuilder {
    fn default() -> (builder: Self)
        ensures
            builder@ == Seq::<ErrorView>::empty(),
    {
        let builder = Self { errors: Vec::new() };
        assert(builder@ =~= Seq::<ErrorView>::empty());
        builder
    }
}

impl QueryErrorBuilder {
    /// The error of what `errs` records in a builder without errors.
    pub fn build_with<Errs: FnOnce(&mut Self)>(errs: Errs) -> (error: QueryError)
        requires
            forall|builder: &mut Self|
                builder@ == Seq::<ErrorView>::empty() ==> call_requires(errs, (builder,)),
        ensures
            exists|builder: &mut Self|
                builder@ == Seq::<ErrorView>::empty() && call_ensures(errs, (builder,), ())
                    && error@ == final(builder)@,
    {
        let mut builder = Self::new();
        errs(&mut builder);
        builder.build()
    }

    /// A builder without errors.
    pub fn new() -> (builder: Self)
        ensures
            builder@ == Seq::<ErrorView>::empty(),
    {
        let builder = Self { errors: Vec::new() };
        assert(builder@ =~= Seq::<ErrorView>::empty());
        builder
    }

    /// The errors collected so far, as one `QueryError`.
    pub fn build(self) -> (error: QueryError)
        ensures
            error@ == self@,
    {
        QueryError::new(self.errors)
    }

    fn record(&mut self, code: &str, kind: QueryErrorKind)
        ensures
            final(self)@ == old(self)@.push(error_of(code@, kind@)),
    {
        let inner = QueryErrorInner { severity: Severity::Error, code: String::from_str(code), kind };
        self.errors.push(inner);
        assert(self@ =~= old(self)@.push(error_of(code@, kind@)));
    }

    // The errors that stop the execution of a statement: there is only ever
    // one of them, so they take the builder and hand it back.
    pub fn schema_already_exists(self, schema_name: String) -> (builder: Self)
        ensures
            builder@ == self@.push(
                error_of("42P06"@, ErrorKindView::SchemaAlreadyExists(schema_name@)),
            ),
    {
        let mut builder = self;
        builder.record("42P06", QueryErrorKind::SchemaAlreadyExists(schema_name));
        builder
    }

    pub fn schema_does_not_exist(self, schema_name: String) -> (builder: Self)
        ensures
            builder@ == self@.push(
                error_of("3F000"@, ErrorKindView::SchemaDoesNotExist(schema_name@)),
            ),
    {
        let mut builder = self;
        builder.record("3F000", QueryErrorKind::SchemaDoesNotExist(schema_name));
        builder
    }

    pub fn table_already_exists(self, table_name: String) -> (builder: Self)
        ensures
            builder@ == self@.push(
                error_of("42P07"@, ErrorKindView::TableAlreadyExists(table_name@)),
            ),
    {
        let mut builder = self;
        builder.record("42P07", QueryErrorKind::TableAlreadyExists(table_name));
        builder
    }

    pub fn table_does_not_exist(self, table_name: String) -> (builder: Self)
        ensures
            builder@ == self@.push(
                error_of("42P01"@, ErrorKindView::TableDoesNotExist(table_name@)),
            ),
    {
        let mut builder = self;
        builder.record("42P01", QueryErrorKind::TableDoesNotExist(table_name));
        builder
    }

    pub fn column_does_not_exist(self, non_existing_columns: Vec<String>) -> (builder: Self)
        ensures
            builder@ == self@.push(
                error_of(
                    "42703"@,
                    ErrorKindView::ColumnDoesNotExist(texts(non_existing_columns@)),
                ),
            ),
    {
        let mut builder = self;
        builder.record("42703", QueryErrorKind::ColumnDoesNotExist(non_existing_columns));
        builder
    }

    pub fn not_supported_operation(self, raw_sql_query: String) -> (builder: Self)
        ensures
            builder@ == self@.push(
                error_of("42601"@, ErrorKindView::NotSupportedOperation(raw_sql_query@)),
            ),
    {
        let mut builder = self;
        builder.record("42601", QueryErrorKind::NotSupportedOperation(raw_sql_query));
        builder
    }

    pub fn too_many_insert_expressions(self) -> (builder: Self)
        ensures
            builder@ == self@.push(error_of("42601"@, ErrorKindView::TooManyInsertExpressions)),
    {
        let mut builder = self;
        builder.record("42601", QueryErrorKind::TooManyInsertExpressions);
        builder
    }

    pub fn syntax_error(self, expression: String) -> (builder: Self)
        ensures
            builder@ == self@.push(error_of("42601"@, ErrorKindView::SyntaxError(expression@))),
    {
        let mut builder = self;
        builder.record("42601", QueryErrorKind::SyntaxError(expression));
        builder
    }

    pub fn feature_not_supported(self, raw_sql_query: String) -> (builder: Self)
        ensures
            builder@ == self@.push(
                error_of("0A000"@, ErrorKindView::FeatureNotSupported(raw_sql_query@)),
            ),
    {
        let mut builder = self;
        builder.record("0A000", QueryErrorKind::FeatureNotSupported(raw_sql_query));
        builder
    }

    pub fn undefined_function(self, operator: String, left_type: String, right_type: String) -> (builder: Self)
        ensures
            builder@ == self@.push(
                error_of(
                    "42883"@,
                    ErrorKindView::UndefinedFunction(operator@, left_type@, right_type@),
                ),
            ),
    {
        let mut builder = self;
        builder.record("42883", QueryErrorKind::UndefinedFunction(operator, left_type, right_type));
        builder
    }

    pub fn undefined_column(self, column: String) -> (builder: Self)
        ensures
            builder@ == self@.push(
                error_of("42703"@, ErrorKindView::ColumnDoesNotExist(seq![column@])),
            ),
    {
        let mut builder = self;
        let mut columns: Vec<String> = Vec::new();
        columns.push(column);
        assert(texts(columns@) =~= seq![column@]);
        builder.record("42703", QueryErrorKind::ColumnDoesNotExist(columns));
        builder
    }

    pub fn ambiguous_column(self, column: String) -> (builder: Self)
        ensures
            builder@ == self@.push(error_of("42702"@, ErrorKindView::AmbiguousColumn(column@))),
    {
        let mut builder = self;
        builder.record("42702", QueryErrorKind::AmbiguousColumn(column));
        builder
    }

    pub fn duplicate_column(self, column: String) -> (builder: Self)
        ensures
            builder@ == self@.push(error_of("42701"@, ErrorKindView::DuplicateColumn(column@))),
    {
        let mut builder = self;
        builder.record("42701", QueryErrorKind::DuplicateColumn(column));
        builder
    }

    pub fn division_by_zero(self) -> (builder: Self)
        ensures
            builder@ == self@.push(error_of("22012"@, ErrorKindView::DivisionByZero)),
    {
        let mut builder = self;
        builder.record("22012", QueryErrorKind::DivisionByZero);
        builder
    }

    // The errors of which one statement can give several: they are added to
    // the builder in place.
    pub fn out_of_range(&mut self, pg_type: SqlType)
        ensures
            final(self)@ == old(self)@.push(
                error_of("22003"@, ErrorKindView::NumericTypeOutOfRange(pg_type)),
            ),
    {
        self.record("22003", QueryErrorKind::NumericTypeOutOfRange(pg_type));
    }

    pub fn type_mismatch(&mut self, value: &str, pg_type: SqlType)
        ensures
            final(self)@ == old(self)@.push(
                error_of("2200G"@, ErrorKindView::DataTypeMismatch(pg_type, value@)),
            ),
    {
        self.record("2200G", QueryErrorKind::DataTypeMismatch(pg_type, String::from_str(value)));
    }

    pub fn string_length_mismatch(&mut self, pg_type: SqlType, len: u64)
        ensures
            final(self)@ == old(self)@.push(
                error_of("22026"@, ErrorKindView::StringTypeLengthMismatch(pg_type, len)),
            ),
    {
        self.record("22026", QueryErrorKind::StringTypeLengthMismatch(pg_type, len));
    }
}

/// The error of a builder that holds one error.
pub(crate) fn one_error(builder: QueryErrorBuilder) -> (error: QueryError)
    requires
        builder@.len() == 1,
    ensures
        error@ == seq![builder@[0]],
{
    let error = builder.build();
    assert(error@ =~= seq![builder@[0]]);
    error
}

} // verus!
