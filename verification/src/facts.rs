//! Errors, and what the library has to be told from outside.
//!
//! Floating point arithmetic and tokenizing are no part of this library. Where a
//! computation needs such a result it looks it up among the facts it is given. If the
//! fact is missing, the computation fails with the question; the caller answers it,
//! records the answer, and runs the computation again.

use crate::expr::{Expr, ExprV};
use crate::schema::{FullTextQuery, FullTextV};
use crate::text;
use crate::value;
use crate::value::{DbValue, Decimal, ValueV};
use vstd::prelude::*;
use vstd::string::*;

verus! {

/// The arithmetic operations on two floats.
#[derive(Clone, Copy, Debug, PartialEq, Eq, Structural)]
pub enum FloatOp {
    Add,
    Sub,
    Mul,
    Div,
}

/// A question that is answered from outside. Floats are given by their bits.
#[derive(Debug, PartialEq)]
pub enum Question {
    /// The result of an arithmetic operation.
    FloatArithmetic { op: FloatOp, left: u64, right: u64 },
    /// The float nearest to an integer.
    FloatOfInt(i64),
    /// The integer part of a float, saturated to the range of `i64`; NaN gives zero.
    IntOfFloat(u64),
    /// The nearest integer, halves away from zero.
    FloatRounded(u64),
    /// The shortest text that reads back as the float.
    FloatText(u64),
    /// The float a text stands for, or the parser's message.
    FloatParsed(String),
    /// The decimal nearest to a float, where there is one.
    DecimalOfFloat(u64),
    /// The float for a decimal, where there is one.
    FloatOfDecimal(Decimal),
    /// The tokens of a text under a named tokenizer, where there is such a tokenizer.
    Tokens { tokenizer: String, text: String },
    /// The full-text query a text stands for under a named tokenizer, or the parser's
    /// message.
    FullText { tokenizer: String, query: String },
    /// The tokens that every text matching a LIKE pattern has under a named tokenizer,
    /// where there is such a tokenizer and it can tell.
    LikeTokens { tokenizer: String, pattern: String },
    /// The float nearest to a natural number.
    FloatOfNat(u64),
    /// The integer part of a float, saturated to the range of `u64`; NaN gives zero.
    NatOfFloat(u64),
    /// The shortest text that reads back as the float and is no integer's.
    FloatShown(u64),
}

/// The model of a question.
#[verifier::ext_equal]
pub enum QuestionV {
    FloatArithmetic { op: FloatOp, left: u64, right: u64 },
    FloatOfInt(i64),
    IntOfFloat(u64),
    FloatRounded(u64),
    FloatText(u64),
    FloatParsed(Seq<char>),
    DecimalOfFloat(u64),
    FloatOfDecimal(Decimal),
    Tokens { tokenizer: Seq<char>, text: Seq<char> },
    FullText { tokenizer: Seq<char>, query: Seq<char> },
    LikeTokens { tokenizer: Seq<char>, pattern: Seq<char> },
    FloatOfNat(u64),
    NatOfFloat(u64),
    FloatShown(u64),
}

impl View for Question {
    type V = QuestionV;

    open spec fn view(&self) -> QuestionV {
        match self {
            Question::FloatArithmetic { op, left, right } => QuestionV::FloatArithmetic {
                op: *op,
                left: *left,
                right: *right,
            },
            Question::FloatOfInt(i) => QuestionV::FloatOfInt(*i),
            Question::IntOfFloat(f) => QuestionV::IntOfFloat(*f),
            Question::FloatRounded(f) => QuestionV::FloatRounded(*f),
            Question::FloatText(f) => QuestionV::FloatText(*f),
            Question::FloatParsed(s) => QuestionV::FloatParsed(s@),
            Question::DecimalOfFloat(f) => QuestionV::DecimalOfFloat(*f),
            Question::FloatOfDecimal(d) => QuestionV::FloatOfDecimal(*d),
            Question::Tokens { tokenizer, text } => QuestionV::Tokens { tokenizer: tokenizer@, text: text@ },
            Question::FullText { tokenizer, query } => QuestionV::FullText {
                tokenizer: tokenizer@,
                query: query@,
            },
            Question::LikeTokens { tokenizer, pattern } => QuestionV::LikeTokens {
                tokenizer: tokenizer@,
                pattern: pattern@,
            },
            Question::FloatOfNat(n) => QuestionV::FloatOfNat(*n),
            Question::NatOfFloat(f) => QuestionV::NatOfFloat(*f),
            Question::FloatShown(f) => QuestionV::FloatShown(*f),
        }
    }
}

impl Question {
    /// Whether two questions are the same.
    pub fn same(&self, other: &Question) -> (out: bool)
        ensures
            out == (self@ == other@),
    {
        match (self, other) {
            (
                Question::FloatArithmetic { op: o1, left: l1, right: r1 },
                Question::FloatArithmetic { op: o2, left: l2, right: r2 },
            ) => *o1 == *o2 && *l1 == *l2 && *r1 == *r2,
            (Question::FloatOfInt(a), Question::FloatOfInt(b)) => *a == *b,
            (Question::IntOfFloat(a), Question::IntOfFloat(b)) => *a == *b,
            (Question::FloatRounded(a), Question::FloatRounded(b)) => *a == *b,
            (Question::FloatText(a), Question::FloatText(b)) => *a == *b,
            (Question::FloatParsed(a), Question::FloatParsed(b)) => text::same_text(a.as_str(), b.as_str()),
            (Question::DecimalOfFloat(a), Question::DecimalOfFloat(b)) => *a == *b,
            (Question::FloatOfDecimal(a), Question::FloatOfDecimal(b)) => a.same(b),
            (Question::Tokens { tokenizer: t1, text: x1 }, Question::Tokens { tokenizer: t2, text: x2 }) =>
                text::same_text(t1.as_str(), t2.as_str()) && text::same_text(x1.as_str(), x2.as_str()),
            (
                Question::FullText { tokenizer: t1, query: x1 },
                Question::FullText { tokenizer: t2, query: x2 },
            ) => text::same_text(t1.as_str(), t2.as_str()) && text::same_text(x1.as_str(), x2.as_str()),
            (
                Question::LikeTokens { tokenizer: t1, pattern: x1 },
                Question::LikeTokens { tokenizer: t2, pattern: x2 },
            ) => text::same_text(t1.as_str(), t2.as_str()) && text::same_text(x1.as_str(), x2.as_str()),
            (Question::FloatOfNat(a), Question::FloatOfNat(b)) => *a == *b,
            (Question::NatOfFloat(a), Question::NatOfFloat(b)) => *a == *b,
            (Question::FloatShown(a), Question::FloatShown(b)) => *a == *b,
            _ => false,
        }
    }
}

impl Clone for Question {
    fn clone(&self) -> (out: Self)
        ensures
            out@ == self@,
    {
        match self {
            Question::FloatArithmetic { op, left, right } => Question::FloatArithmetic {
                op: *op,
                left: *left,
                right: *right,
            },
            Question::FloatOfInt(i) => Question::FloatOfInt(*i),
            Question::IntOfFloat(f) => Question::IntOfFloat(*f),
            Question::FloatRounded(f) => Question::FloatRounded(*f),
            Question::FloatText(f) => Question::FloatText(*f),
            Question::FloatParsed(s) => Question::FloatParsed(s.clone()),
            Question::DecimalOfFloat(f) => Question::DecimalOfFloat(*f),
            Question::FloatOfDecimal(d) => Question::FloatOfDecimal(*d),
            Question::Tokens { tokenizer, text } => Question::Tokens {
                tokenizer: tokenizer.clone(),
                text: text.clone(),
            },
            Question::FullText { tokenizer, query } => Question::FullText {
                tokenizer: tokenizer.clone(),
                query: query.clone(),
            },
            Question::LikeTokens { tokenizer, pattern } => Question::LikeTokens {
                tokenizer: tokenizer.clone(),
                pattern: pattern.clone(),
            },
            Question::FloatOfNat(n) => Question::FloatOfNat(*n),
            Question::NatOfFloat(f) => Question::NatOfFloat(*f),
            Question::FloatShown(f) => Question::FloatShown(*f),
        }
    }
}

/// The answer to a question.
#[derive(Debug, PartialEq)]
pub enum Answer {
    Float(u64),
    Int(i64),
    Text(String),
    ParsedFloat(Result<u64, String>),
    Decimal(Option<Decimal>),
    OptionalFloat(Option<u64>),
    Tokens(Option<Vec<String>>),
    FullText(Result<FullTextQuery, String>),
    Count(u64),
}

/// The model of an answer.
#[verifier::ext_equal]
pub enum AnswerV {
    Float(u64),
    Int(i64),
    Text(Seq<char>),
    ParsedFloat(Result<u64, Seq<char>>),
    Decimal(Option<Decimal>),
    OptionalFloat(Option<u64>),
    Tokens(Option<Seq<Seq<char>>>),
    FullText(Result<FullTextV, Seq<char>>),
    Count(u64),
}

impl View for Answer {
    type V = AnswerV;

    open spec fn view(&self) -> AnswerV {
        match self {
            Answer::Float(f) => AnswerV::Float(*f),
            Answer::Int(i) => AnswerV::Int(*i),
            Answer::Text(t) => AnswerV::Text(t@),
            Answer::ParsedFloat(r) => AnswerV::ParsedFloat(
                match r {
                    Ok(f) => Ok(*f),
                    Err(m) => Err(m@),
                },
            ),
            Answer::Decimal(d) => AnswerV::Decimal(*d),
            Answer::OptionalFloat(f) => AnswerV::OptionalFloat(*f),
            Answer::Tokens(t) => AnswerV::Tokens(
                match t {
                    Some(ts) => Some(text::views(ts@)),
                    None => None,
                },
            ),
            Answer::FullText(r) => AnswerV::FullText(
                match r {
                    Ok(q) => Ok(q@),
                    Err(m) => Err(m@),
                },
            ),
            Answer::Count(n) => AnswerV::Count(*n),
        }
    }
}

/// What an error is about.
#[derive(Clone, Copy, Debug, PartialEq, Eq, Structural)]
pub enum ErrorKind {
    /// A question has to be answered first.
    Pending,
    /// A parameter has no value.
    UnboundParameter,
    /// A parameter reached evaluation.
    ParameterAtExecution,
    /// The value bound to a parameter is of a type no key can have.
    KeyParameterType,
    /// No column has the name.
    ColumnNotFound,
    /// More than one column has the name.
    AmbiguousColumn,
    /// A row has no value at the position.
    IndexOutOfBounds,
    /// A value is no truth value.
    NotBoolean,
    /// A value is no text.
    NotString,
    /// Two values cannot be compared.
    TypeMismatch,
    /// A NaN was compared.
    NanComparison,
    /// Two values are not both numbers.
    NotNumeric,
    /// An integer result is out of range.
    IntegerOverflow,
    /// A decimal sum is out of range.
    DecimalAddition,
    /// A decimal difference is out of range.
    DecimalSubtraction,
    /// A decimal product is out of range.
    DecimalMultiplication,
    /// A decimal quotient is out of range.
    DecimalDivision,
    /// A divisor is zero.
    DivisionByZero,
    /// A decimal has no float to compare with.
    DecimalToFloat,
    /// A decimal has no float to calculate with.
    DecimalToFloatArithmetic,
    /// A CASE has more conditions than results or the reverse.
    CaseLength,
    /// A function has the wrong number of arguments.
    ArgumentCount,
    /// SUBSTR starts at no integer.
    SubstrStart,
    /// SUBSTR has no integer length.
    SubstrLength,
    /// SUBSTR has a negative length.
    SubstrNegative,
    /// ABS of no number.
    AbsArgument,
    /// ROUND of no number.
    RoundArgument,
    /// A function is unknown.
    UnknownFunction,
    /// No tokenizer has the name.
    TokenizerNotFound,
    /// A full-text query is malformed.
    FullTextSyntax,
    /// A subquery reached evaluation.
    SubqueryAtExecution,
    /// A text is no integer.
    CastInt,
    /// A text is no float.
    CastFloat,
    /// A text is no decimal.
    CastDecimal,
    /// A text is no date.
    CastDate,
    /// A text is no time of day.
    CastTime,
    /// A text is no timestamp.
    CastTimestamp,
    /// A decimal does not fit an integer.
    DecimalToIntCast,
    /// A decimal has no float.
    DecimalToFloatCast,
    /// A float has no decimal.
    FloatToDecimalCast,
    /// A value has no conversion to the type.
    CannotCast,
    /// A table does not exist.
    TableNotFound,
    /// A locality group names an unknown compression.
    UnknownCompression,
    /// A locality group option has no number for its value.
    InvalidGroupOption,
    /// A locality group option is unknown.
    UnknownGroupOption,
    /// A column type is not supported.
    UnsupportedDataType,
    /// No table has the index.
    IndexNotFound,
    /// Something other than a table or an index is dropped.
    UnsupportedDrop,
    /// CREATE INDEX without a name.
    IndexNameRequired,
    /// An index on something other than a column.
    IndexColumn,
    /// ALTER TABLE without exactly one operation.
    AlterCount,
    /// An ALTER TABLE operation is not supported.
    UnsupportedAlter,
    /// ALTER TABLE adds a primary key column.
    AddedPrimaryKey,
    /// INSERT into something other than a table.
    InsertTable,
    /// A column name of INSERT is qualified.
    InvalidColumnName,
    /// A column name of INSERT is no identifier.
    UnsupportedColumnName,
    /// INSERT without a source.
    InsertSource,
    /// A row of INSERT has the wrong number of values.
    ColumnCount,
    /// INSERT has a value that is no literal.
    NotLiteral,
    /// DELETE without a table.
    DeleteTable,
    /// A source of rows is no table.
    UnsupportedTable,
    /// An assignment to something other than a column.
    AssignmentTarget,
    /// An assignment to several columns at once.
    TupleAssignment,
    /// ANALYZE without a table.
    AnalyzeTable,
    /// EXPLAIN of something other than a query.
    ExplainQuery,
    /// A statement is not supported.
    UnsupportedStatement,
    /// ORDER BY ALL.
    OrderByAll,
    /// A limit is no literal.
    LimitExpression,
    /// A limit is no number.
    LimitValue,
    /// An offset is no literal.
    OffsetExpression,
    /// An offset is no number.
    OffsetValue,
    /// A limit or an offset is no count of rows.
    RowCount,
    /// The body of a query is not supported.
    UnsupportedSet,
    /// A kind of join is not supported.
    UnsupportedJoin,
    /// GROUP BY with modifiers.
    GroupByModifiers,
    /// GROUP BY ALL.
    GroupByAll,
    /// A wildcard in an aggregation.
    GroupedWildcard,
    /// An item of a SELECT list is not supported.
    UnsupportedItem,
    /// SELECT without a table.
    FromRequired,
    /// A numeric literal is malformed.
    InvalidNumber,
    /// A kind of literal is not supported.
    UnsupportedValue,
    /// A binary operator is not supported.
    UnsupportedOperator,
    /// A unary operator is not supported.
    UnsupportedUnary,
    /// An aggregate function where a scalar is expected.
    AggregateInScalar,
    /// A form of function argument is not supported.
    FunctionArgument,
    /// A form of an argument list is not supported.
    FunctionArguments,
    /// A function is not supported.
    UnsupportedFunction,
    /// MATCH of several columns.
    MatchColumns,
    /// MATCH against something other than a text.
    MatchQuery,
    /// An expression is not supported.
    UnsupportedExpr,
    /// A numeric default is malformed.
    DefaultNumber,
    /// A kind of literal is not supported as a default.
    DefaultValue,
    /// A default negates something other than a number.
    DefaultNegative,
    /// An expression is not supported as a default.
    DefaultExpr,
    /// An argument list is not supported for an aggregate function.
    AggregateArguments,
    /// DISTINCT without an argument.
    DistinctColumn,
    /// COUNT of distinct rows.
    DistinctWildcard,
    /// An argument is not supported for an aggregate function.
    AggregateArgument,
    /// The sides of a set operation differ in the number of columns.
    SetColumnCount,
    /// The sides of a set operation differ in a column type.
    SetColumnType,
    /// A statement refers to nodes it does not have.
    Malformed,
    /// A scalar subquery has more or less than one column.
    ScalarColumns,
    /// A scalar subquery has more than one row.
    ScalarRows,
    /// The subquery of IN has more or less than one column.
    MemberColumns,
    /// An index is not in the schema.
    IndexMissing,
    /// An index has no columns.
    IndexEmpty,
    /// The column of an index is not in the schema.
    IndexColumnMissing,
    /// A table has no primary key.
    NoPrimaryKey,
    /// A value is of a type no key can have.
    KeyType,
    /// A join has a condition other than an equality.
    JoinCondition,
    /// A column of INSERT or UPDATE is not in the schema.
    UnknownColumn,
    /// A row with the same primary key is there.
    DuplicateKey,
    /// The query of an INSERT has the wrong number of columns.
    SelectColumnCount,
    /// There is no statement.
    NoStatement,
    /// There is more than one statement to execute.
    ManyStatements,
    /// There is more than one statement to prepare.
    ManyPrepared,
    /// A text is no SQL.
    Syntax,
    /// A record is too long for its frame.
    FrameTooLong,
    /// A run ends before a record does.
    RunTruncated,
    /// A row has fewer values than columns.
    RowLength,
    /// A step was given what it does not wait for.
    UnexpectedEvent,
}

/// An error: what it is about, with the names, the values and the expression it concerns.
#[derive(Debug, PartialEq)]
pub struct SqlError {
    pub kind: ErrorKind,
    pub names: Vec<String>,
    pub values: Vec<DbValue>,
    pub expr: Option<Expr>,
    pub question: Option<Question>,
}

/// The model of an error.
#[verifier::ext_equal]
pub struct ErrorV {
    pub kind: ErrorKind,
    pub names: Seq<Seq<char>>,
    pub values: Seq<ValueV>,
    pub expr: Option<ExprV>,
    pub question: Option<QuestionV>,
}

impl View for SqlError {
    type V = ErrorV;

    open spec fn view(&self) -> ErrorV {
        ErrorV {
            kind: self.kind,
            names: text::views(self.names@),
            values: value::values_view(self.values@),
            expr: match self.expr {
                Some(e) => Some(e@),
                None => None,
            },
            question: match self.question {
                Some(q) => Some(q@),
                None => None,
            },
        }
    }
}

/// An error without details.
pub open spec fn plain_error(kind: ErrorKind) -> ErrorV {
    ErrorV { kind, names: Seq::empty(), values: Seq::empty(), expr: None, question: None }
}

/// An error about a name.
pub open spec fn named_error(kind: ErrorKind, name: Seq<char>) -> ErrorV {
    ErrorV { kind, names: seq![name], values: Seq::empty(), expr: None, question: None }
}

/// An error about several names.
pub open spec fn names_error(kind: ErrorKind, names: Seq<Seq<char>>) -> ErrorV {
    ErrorV { kind, names, values: Seq::empty(), expr: None, question: None }
}

/// An error about a value.
pub open spec fn value_error(kind: ErrorKind, v: ValueV) -> ErrorV {
    ErrorV { kind, names: Seq::empty(), values: seq![v], expr: None, question: None }
}

/// An error about two values.
pub open spec fn values_error(kind: ErrorKind, a: ValueV, b: ValueV) -> ErrorV {
    ErrorV { kind, names: Seq::empty(), values: seq![a, b], expr: None, question: None }
}

/// An error about an expression.
pub open spec fn expr_error(kind: ErrorKind, e: ExprV) -> ErrorV {
    ErrorV { kind, names: Seq::empty(), values: Seq::empty(), expr: Some(e), question: None }
}

/// The error that a question is open.
pub open spec fn pending_error(q: QuestionV) -> ErrorV {
    ErrorV { kind: ErrorKind::Pending, names: Seq::empty(), values: Seq::empty(), expr: None, question: Some(q) }
}

impl SqlError {
    /// An error without details.
    pub fn plain(kind: ErrorKind) -> (out: SqlError)
        ensures
            out@ == plain_error(kind),
    {
        let out = SqlError { kind, names: Vec::new(), values: Vec::new(), expr: None, question: None };
        assert(out@ =~= plain_error(kind));
        out
    }

    /// An error about a name.
    pub fn named(kind: ErrorKind, name: &str) -> (out: SqlError)
        ensures
            out@ == named_error(kind, name@),
    {
        let mut names: Vec<String> = Vec::new();
        names.push(name.to_owned());
        let out = SqlError { kind, names, values: Vec::new(), expr: None, question: None };
        assert(out@ =~= named_error(kind, name@));
        out
    }

    /// An error about several names.
    pub fn about_names(kind: ErrorKind, names: Vec<String>) -> (out: SqlError)
        ensures
            out@ == names_error(kind, text::views(names@)),
    {
        let out = SqlError { kind, names, values: Vec::new(), expr: None, question: None };
        assert(out@ =~= names_error(kind, text::views(names@)));
        out
    }

    /// An error about a value.
    pub fn about(kind: ErrorKind, v: &DbValue) -> (out: SqlError)
        ensures
            out@ == value_error(kind, v@),
    {
        let mut values: Vec<DbValue> = Vec::new();
        values.push(v.clone());
        let out = SqlError { kind, names: Vec::new(), values, expr: None, question: None };
        assert(out@ =~= value_error(kind, v@));
        out
    }

    /// An error about two values.
    pub fn about_two(kind: ErrorKind, a: &DbValue, b: &DbValue) -> (out: SqlError)
        ensures
            out@ == values_error(kind, a@, b@),
    {
        let mut values: Vec<DbValue> = Vec::new();
        values.push(a.clone());
        values.push(b.clone());
        let out = SqlError { kind, names: Vec::new(), values, expr: None, question: None };
        assert(out@ =~= values_error(kind, a@, b@));
        out
    }

    /// An error about an expression.
    pub fn about_expr(kind: ErrorKind, e: Expr) -> (out: SqlError)
        ensures
            out@ == expr_error(kind, e@),
    {
        let out = SqlError { kind, names: Vec::new(), values: Vec::new(), expr: Some(e), question: None };
        assert(out@ =~= expr_error(kind, e@));
        out
    }

    /// The error that a question is open.
    pub fn pending(q: Question) -> (out: SqlError)
        ensures
            out@ == pending_error(q@),
    {
        let out = SqlError {
            kind: ErrorKind::Pending,
            names: Vec::new(),
            values: Vec::new(),
            expr: None,
            question: Some(q),
        };
        assert(out@ =~= pending_error(q@));
        out
    }
}

/// The values of a sequence of outcomes from position `i` on, after those in `acc`; the
/// first error where there is one.
pub open spec fn collected<T>(rs: Seq<Result<T, ErrorV>>, i: int, acc: Seq<T>) -> Result<Seq<T>, ErrorV>
    decreases rs.len() - i,
{
    if i >= rs.len() {
        Ok(acc)
    } else {
        match rs[i] {
            Ok(x) => collected(rs, i + 1, acc.push(x)),
            Err(e) => Err(e),
        }
    }
}

/// Collected values are as many as their outcomes.
pub proof fn collected_len<T>(rs: Seq<Result<T, ErrorV>>, i: int, acc: Seq<T>)
    requires
        0 <= i <= rs.len(),
    ensures
        collected(rs, i, acc) matches Ok(ys) ==> ys.len() == acc.len() + rs.len() - i,
    decreases rs.len() - i,
{
    if i < rs.len() {
        if let Ok(x) = rs[i] {
            collected_len(rs, i + 1, acc.push(x));
        }
    }
}

/// The answers known so far.
#[derive(Debug)]
pub struct Facts {
    entries: Vec<(Question, Answer)>,
}

/// The latest answer to a question, if it has one.
pub open spec fn answer_to(known: Seq<(QuestionV, AnswerV)>, q: QuestionV) -> Option<AnswerV>
    decreases known.len(),
{
    if known.len() == 0 {
        None
    } else if known.last().0 == q {
        Some(known.last().1)
    } else {
        answer_to(known.drop_last(), q)
    }
}

impl View for Facts {
    type V = Seq<(QuestionV, AnswerV)>;

    closed spec fn view(&self) -> Seq<(QuestionV, AnswerV)> {
        self.entries@.map_values(|e: (Question, Answer)| (e.0@, e.1@))
    }
}

/// The answer to a question that asks for a float.
pub open spec fn float_fact(known: Seq<(QuestionV, AnswerV)>, q: QuestionV) -> Result<u64, ErrorV> {
    match answer_to(known, q) {
        Some(AnswerV::Float(f)) => Ok(f),
        _ => Err(pending_error(q)),
    }
}

/// The answer to a question that asks for an integer.
pub open spec fn int_fact(known: Seq<(QuestionV, AnswerV)>, q: QuestionV) -> Result<i64, ErrorV> {
    match answer_to(known, q) {
        Some(AnswerV::Int(i)) => Ok(i),
        _ => Err(pending_error(q)),
    }
}

/// The answer to a question that asks for a text.
pub open spec fn text_fact(known: Seq<(QuestionV, AnswerV)>, q: QuestionV) -> Result<Seq<char>, ErrorV> {
    match answer_to(known, q) {
        Some(AnswerV::Text(t)) => Ok(t),
        _ => Err(pending_error(q)),
    }
}

/// The answer to a question that asks for the float of a text.
pub open spec fn parsed_float_fact(known: Seq<(QuestionV, AnswerV)>, q: QuestionV) -> Result<
    Result<u64, Seq<char>>,
    ErrorV,
> {
    match answer_to(known, q) {
        Some(AnswerV::ParsedFloat(r)) => Ok(r),
        _ => Err(pending_error(q)),
    }
}

/// The answer to a question that asks for a decimal.
pub open spec fn decimal_fact(known: Seq<(QuestionV, AnswerV)>, q: QuestionV) -> Result<Option<Decimal>, ErrorV> {
    match answer_to(known, q) {
        Some(AnswerV::Decimal(d)) => Ok(d),
        _ => Err(pending_error(q)),
    }
}

/// The answer to a question that asks for a float that need not be there.
pub open spec fn optional_float_fact(known: Seq<(QuestionV, AnswerV)>, q: QuestionV) -> Result<Option<u64>, ErrorV> {
    match answer_to(known, q) {
        Some(AnswerV::OptionalFloat(f)) => Ok(f),
        _ => Err(pending_error(q)),
    }
}

/// The answer to a question that asks for tokens.
pub open spec fn tokens_fact(known: Seq<(QuestionV, AnswerV)>, q: QuestionV) -> Result<
    Option<Seq<Seq<char>>>,
    ErrorV,
> {
    match answer_to(known, q) {
        Some(AnswerV::Tokens(t)) => Ok(t),
        _ => Err(pending_error(q)),
    }
}

/// The answer to a question that asks for a full-text query.
pub open spec fn full_text_fact(known: Seq<(QuestionV, AnswerV)>, q: QuestionV) -> Result<
    Result<FullTextV, Seq<char>>,
    ErrorV,
> {
    match answer_to(known, q) {
        Some(AnswerV::FullText(r)) => Ok(r),
        _ => Err(pending_error(q)),
    }
}

/// The answer to a question that asks for a number of rows.
pub open spec fn count_fact(known: Seq<(QuestionV, AnswerV)>, q: QuestionV) -> Result<u64, ErrorV> {
    match answer_to(known, q) {
        Some(AnswerV::Count(n)) => Ok(n),
        _ => Err(pending_error(q)),
    }
}

/// Recording an answer makes it the answer to its question and leaves the answers to
/// all other questions as they are.
pub proof fn recorded_answer(known: Seq<(QuestionV, AnswerV)>, q: QuestionV, a: AnswerV, other: QuestionV)
    ensures
        answer_to(known.push((q, a)), q) == Some(a),
        other != q ==> answer_to(known.push((q, a)), other) == answer_to(known, other),
{
    assert(known.push((q, a)).drop_last() =~= known);
}

impl Facts {
    /// No facts.
    pub fn new() -> (out: Facts)
        ensures
            out@ == Seq::<(QuestionV, AnswerV)>::empty(),
    {
        let out = Facts { entries: Vec::new() };
        assert(out@ =~= Seq::<(QuestionV, AnswerV)>::empty());
        out
    }

    /// Adds the answer to a question.
    pub fn record(&mut self, question: Question, answer: Answer)
        ensures
            final(self)@ == old(self)@.push((question@, answer@)),
    {
        self.entries.push((question, answer));
        assert(final(self)@ =~= old(self)@.push((question@, answer@)));
    }

    /// The latest answer to a question.
    pub fn find(&self, question: &Question) -> (out: Option<&Answer>)
        ensures
            match out {
                Some(a) => answer_to(self@, question@) == Some(a@),
                None => answer_to(self@, question@) is None,
            },
    {
        let mut i: usize = self.entries.len();
        assert(self@.take(i as int) =~= self@);
        while i > 0
            invariant
                i <= self.entries@.len(),
                answer_to(self@, question@) == answer_to(self@.take(i as int), question@),
            decreases i,
        {
            i = i - 1;
            assert(self@.take(i + 1).drop_last() =~= self@.take(i as int));
            if self.entries[i].0.same(question) {
                return Some(&self.entries[i].1);
            }
        }
        None
    }

    /// The float that answers a question.
    pub fn float(&self, q: Question) -> (out: Result<u64, SqlError>)
        ensures
            match out {
                Ok(f) => float_fact(self@, q@) == Ok::<u64, ErrorV>(f),
                Err(e) => float_fact(self@, q@) == Err::<u64, ErrorV>(e@),
            },
    {
        match self.find(&q) {
            Some(Answer::Float(f)) => Ok(*f),
            _ => Err(SqlError::pending(q)),
        }
    }

    /// The integer that answers a question.
    pub fn integer(&self, q: Question) -> (out: Result<i64, SqlError>)
        ensures
            match out {
                Ok(f) => int_fact(self@, q@) == Ok::<i64, ErrorV>(f),
                Err(e) => int_fact(self@, q@) == Err::<i64, ErrorV>(e@),
            },
    {
        match self.find(&q) {
            Some(Answer::Int(i)) => Ok(*i),
            _ => Err(SqlError::pending(q)),
        }
    }

    /// The text that answers a question.
    pub fn text(&self, q: Question) -> (out: Result<String, SqlError>)
        ensures
            match out {
                Ok(t) => text_fact(self@, q@) == Ok::<Seq<char>, ErrorV>(t@),
                Err(e) => text_fact(self@, q@) == Err::<Seq<char>, ErrorV>(e@),
            },
    {
        match self.find(&q) {
            Some(Answer::Text(t)) => Ok(t.clone()),
            _ => Err(SqlError::pending(q)),
        }
    }

    /// The float of a text that answers a question.
    pub fn parsed_float(&self, q: Question) -> (out: Result<Result<u64, String>, SqlError>)
        ensures
            match out {
                Ok(Ok(f)) => parsed_float_fact(self@, q@) == Ok::<Result<u64, Seq<char>>, ErrorV>(Ok(f)),
                Ok(Err(m)) => parsed_float_fact(self@, q@) == Ok::<Result<u64, Seq<char>>, ErrorV>(Err(m@)),
                Err(e) => parsed_float_fact(self@, q@) == Err::<Result<u64, Seq<char>>, ErrorV>(e@),
            },
    {
        match self.find(&q) {
            Some(Answer::ParsedFloat(Ok(f))) => Ok(Ok(*f)),
            Some(Answer::ParsedFloat(Err(m))) => Ok(Err(m.clone())),
            _ => Err(SqlError::pending(q)),
        }
    }

    /// The decimal that answers a question.
    pub fn decimal(&self, q: Question) -> (out: Result<Option<Decimal>, SqlError>)
        ensures
            match out {
                Ok(d) => decimal_fact(self@, q@) == Ok::<Option<Decimal>, ErrorV>(d),
                Err(e) => decimal_fact(self@, q@) == Err::<Option<Decimal>, ErrorV>(e@),
            },
    {
        match self.find(&q) {
            Some(Answer::Decimal(d)) => Ok(*d),
            _ => Err(SqlError::pending(q)),
        }
    }

    /// The float, where there is one, that answers a question.
    pub fn optional_float(&self, q: Question) -> (out: Result<Option<u64>, SqlError>)
        ensures
            match out {
                Ok(f) => optional_float_fact(self@, q@) == Ok::<Option<u64>, ErrorV>(f),
                Err(e) => optional_float_fact(self@, q@) == Err::<Option<u64>, ErrorV>(e@),
            },
    {
        match self.find(&q) {
            Some(Answer::OptionalFloat(f)) => Ok(*f),
            _ => Err(SqlError::pending(q)),
        }
    }

    /// The tokens that answer a question.
    pub fn tokens(&self, q: Question) -> (out: Result<Option<Vec<String>>, SqlError>)
        ensures
            match out {
                Ok(Some(t)) => tokens_fact(self@, q@) == Ok::<Option<Seq<Seq<char>>>, ErrorV>(
                    Some(text::views(t@)),
                ),
                Ok(None) => tokens_fact(self@, q@) == Ok::<Option<Seq<Seq<char>>>, ErrorV>(None),
                Err(e) => tokens_fact(self@, q@) == Err::<Option<Seq<Seq<char>>>, ErrorV>(e@),
            },
    {
        match self.find(&q) {
            Some(Answer::Tokens(Some(t))) => Ok(Some(text::copy_strings(t))),
            Some(Answer::Tokens(None)) => Ok(None),
            _ => Err(SqlError::pending(q)),
        }
    }

    /// The full-text query that answers a question.
    pub fn full_text(&self, q: Question) -> (out: Result<Result<FullTextQuery, String>, SqlError>)
        ensures
            match out {
                Ok(Ok(f)) => full_text_fact(self@, q@) == Ok::<Result<FullTextV, Seq<char>>, ErrorV>(Ok(f@)),
                Ok(Err(m)) => full_text_fact(self@, q@) == Ok::<Result<FullTextV, Seq<char>>, ErrorV>(Err(m@)),
                Err(e) => full_text_fact(self@, q@) == Err::<Result<FullTextV, Seq<char>>, ErrorV>(e@),
            },
    {
        match self.find(&q) {
            Some(Answer::FullText(Ok(f))) => Ok(Ok(f.clone())),
            Some(Answer::FullText(Err(m))) => Ok(Err(m.clone())),
            _ => Err(SqlError::pending(q)),
        }
    }

    /// The number of rows that answers a question.
    pub fn count(&self, q: Question) -> (out: Result<u64, SqlError>)
        ensures
            match out {
                Ok(n) => count_fact(self@, q@) == Ok::<u64, ErrorV>(n),
                Err(e) => count_fact(self@, q@) == Err::<u64, ErrorV>(e@),
            },
    {
        match self.find(&q) {
            Some(Answer::Count(n)) => Ok(*n),
            _ => Err(SqlError::pending(q)),
        }
    }
}

/// A question has the answer that was given to it last; an answer to another question changes
/// nothing, and without an answer the question is what is asked for.
pub proof fn the_latest_answer_counts(
    known: Seq<(QuestionV, AnswerV)>,
    q: QuestionV,
    a: AnswerV,
    other: QuestionV,
)
    ensures
        answer_to(known.push((q, a)), q) == Some(a),
        other != q ==> answer_to(known.push((q, a)), other) == answer_to(known, other),
        answer_to(known, q) is None ==> float_fact(known, q) == Err::<u64, ErrorV>(pending_error(q)),
        pending_error(q).question == Some(q),
{
    assert(known.push((q, a)).drop_last() =~= known);
}

} // verus!
