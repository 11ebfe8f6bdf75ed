//! The texts of errors.

use crate::explain;
use crate::explain::{Part, PartV};
use crate::facts::{ErrorKind, ErrorV, Facts, SqlError};
use crate::statement;
use crate::text;
use crate::value;
use crate::value::{DbValue, ValueV};
use vstd::prelude::*;
use vstd::string::*;

verus! {

/// A name that an error is about; empty where it has fewer.
pub open spec fn name_at(e: ErrorV, i: int) -> Seq<char> {
    if i < e.names.len() {
        e.names[i]
    } else {
        ""@
    }
}

/// The names that an error is about but for the first.
pub open spec fn names_after(e: ErrorV) -> Seq<Seq<char>> {
    if e.names.len() == 0 {
        e.names
    } else {
        e.names.skip(1)
    }
}

/// The parts of a text with a value of an error after them, as it is shown in a plan.
pub open spec fn shown_at(acc: Seq<PartV>, e: ErrorV, i: int) -> Seq<PartV> {
    if i < e.values.len() {
        explain::shown_value(acc, e.values[i])
    } else {
        acc
    }
}

/// The parts of a text with the expression of an error after them, as it is shown in a plan.
pub open spec fn shown_of(acc: Seq<PartV>, e: ErrorV) -> Seq<PartV> {
    match e.expr {
        Some(x) => explain::shown_expr(acc, x),
        None => acc,
    }
}

/// The parts of a text with a value of an error after them: a number is written alone.
pub open spec fn plain_at(acc: Seq<PartV>, e: ErrorV, i: int) -> Seq<PartV> {
    if i < e.values.len() {
        match e.values[i] {
            ValueV::Int(n) => explain::said(acc, text::int_text(n as int)),
            ValueV::Float(f) => acc.push(PartV::FloatText(f)),
            ValueV::Decimal(d) => explain::said(acc, value::decimal_text(d.parts())),
            v => explain::shown_value(acc, v),
        }
    } else {
        acc
    }
}

/// The text for a function with the wrong number of arguments.
pub open spec fn argument_count_message(e: ErrorV) -> Seq<PartV> {
    let name = name_at(e, 0);
    let start = explain::said(Seq::empty(), name);
    if name == "SUBSTR"@ {
        explain::said(explain::said(start, " expects 2 or 3 arguments, got "@), name_at(e, 1))
    } else if name == "COALESCE"@ || name == "CONCAT"@ {
        explain::said(start, " expects at least 1 argument"@)
    } else {
        explain::said(explain::said(start, " expects exactly 1 argument, got "@), name_at(e, 1))
    }
}

/// The text for a number of rows that is none, or that is too large.
pub open spec fn row_count_message(s: Seq<char>) -> Seq<char> {
    match text::nat_value(s) {
        Some(n) if n <= u64::MAX => "number too large to fit in target type"@,
        _ => text::nat_parse_error(s),
    }
}

impl SqlError {
    /// A name that the error is about; empty where it has fewer.
    fn name(&self, i: usize) -> (out: &str)
        ensures
            out@ == name_at(self@, i as int),
    {
        if i < self.names.len() {
            assert(self@.names[i as int] == self.names@[i as int]@);
            self.names[i].as_str()
        } else {
            ""
        }
    }
}

/// Writes the expression that an error is about, as it is shown in a plan.
fn show_of(out: &mut Vec<Part>, e: &SqlError)
    ensures
        explain::parts_view(final(out)@) == shown_of(explain::parts_view(old(out)@), e@),
{
    match &e.expr {
        Some(x) => explain::show_expr(out, x),
        None => {},
    }
}

/// Writes a value that an error is about, as it is shown in a plan.
fn show_at(out: &mut Vec<Part>, e: &SqlError, i: usize)
    ensures
        explain::parts_view(final(out)@) == shown_at(explain::parts_view(old(out)@), e@, i as int),
{
    if i < e.values.len() {
        assert(e@.values[i as int] == e.values@[i as int]@);
        explain::show_value(out, &e.values[i]);
    }
}

/// Writes a value that an error is about: a number alone.
fn write_plain_at(out: &mut Vec<Part>, e: &SqlError, i: usize)
    ensures
        explain::parts_view(final(out)@) == plain_at(explain::parts_view(old(out)@), e@, i as int),
{
    if i < e.values.len() {
        assert(e@.values[i as int] == e.values@[i as int]@);
        match &e.values[i] {
            DbValue::Int(n) => explain::say(out, text::int_to_text(*n).as_str()),
            DbValue::Float(f) => explain::add_part(out, Part::FloatText(*f)),
            DbValue::Decimal(d) => explain::say(out, d.to_text().as_str()),
            v => explain::show_value(out, v),
        }
    }
}

/// Writes the names that an error is about but for the first.
fn show_names_after(out: &mut Vec<Part>, e: &SqlError)
    ensures
        explain::parts_view(final(out)@) == explain::shown_names(explain::parts_view(old(out)@), names_after(e@), 0),
{
    let mut rest: Vec<String> = Vec::new();
    let mut i: usize = 1;
    while i < e.names.len()
        invariant
            1 <= i,
            i <= e.names@.len() || (e.names@.len() == 0 && i == 1),
            rest@.len() == i - 1,
            forall|j: int| 0 <= j < rest@.len() ==> (#[trigger] rest@[j])@ == e.names@[j + 1]@,
        decreases e.names.len() - i,
    {
        rest.push(e.names[i].clone());
        i = i + 1;
    }
    proof {
        let a = text::views(rest@);
        let b = names_after(e@);
        assert(a.len() == b.len());
        assert forall|j: int| 0 <= j < a.len() implies a[j] == b[j] by {
            assert(rest@[j]@ == e.names@[j + 1]@);
            assert(e@.names[j + 1] == e.names@[j + 1]@);
        }
        assert(a =~= b);
    }
    explain::show_names(out, &rest);
}

/// The texts of some of the errors.
pub open spec fn message_in_first_part(e: ErrorV) -> Option<Seq<PartV>> {
    match e.kind {
        ErrorKind::Pending => Some(explain::said(Seq::empty(), "A question has to be answered first"@)),
        ErrorKind::UnboundParameter => Some(explain::said(explain::said(Seq::empty(), "Unbound parameter: "@), name_at(e, 0))),
        ErrorKind::ParameterAtExecution => Some(explain::said(explain::said(explain::said(Seq::empty(), "Unbound parameter '"@), name_at(e, 0)), "' reached execution; parameters must be bound before the query runs"@)),
        ErrorKind::KeyParameterType => Some(explain::said(explain::said(Seq::empty(), "Unsupported key parameter type for "@), name_at(e, 0))),
        ErrorKind::ColumnNotFound => Some(explain::said(explain::said(explain::said(Seq::empty(), "Column not found in schema: '"@), name_at(e, 0)), "'"@)),
        ErrorKind::AmbiguousColumn => Some(explain::said(explain::shown_names(explain::said(explain::said(explain::said(Seq::empty(), "Ambiguous column reference '"@), name_at(e, 0)), "': matches ["@), names_after(e), 0), "]"@)),
        ErrorKind::IndexOutOfBounds => Some(explain::said(explain::said(explain::said(Seq::empty(), "Index "@), name_at(e, 0)), " out of bounds for row values"@)),
        ErrorKind::NotBoolean => Some(shown_at(explain::said(Seq::empty(), "Cannot convert value to boolean: "@), e, 0)),
        ErrorKind::NotString => Some(shown_at(explain::said(Seq::empty(), "Expected string value, got: "@), e, 0)),
        ErrorKind::TypeMismatch => Some(shown_at(explain::said(shown_at(explain::said(Seq::empty(), "Type mismatch: cannot compare "@), e, 0), " and "@), e, 1)),
        ErrorKind::NanComparison => Some(explain::said(Seq::empty(), "NaN float comparison"@)),
        ErrorKind::NotNumeric => Some(shown_at(explain::said(shown_at(explain::said(Seq::empty(), "Cannot perform arithmetic on non-numeric types: "@), e, 0), " and "@), e, 1)),
        ErrorKind::IntegerOverflow => Some(explain::said(Seq::empty(), "Integer overflow"@)),
        ErrorKind::DecimalAddition => Some(explain::said(Seq::empty(), "Decimal addition overflow"@)),
        ErrorKind::DecimalSubtraction => Some(explain::said(Seq::empty(), "Decimal subtraction overflow"@)),
        ErrorKind::DecimalMultiplication => Some(explain::said(Seq::empty(), "Decimal multiplication overflow"@)),
        ErrorKind::DecimalDivision => Some(explain::said(Seq::empty(), "Decimal division overflow"@)),
        ErrorKind::DivisionByZero => Some(explain::said(Seq::empty(), "Division by zero"@)),
        ErrorKind::DecimalToFloat => Some(explain::said(Seq::empty(), "Decimal to float conversion failed"@)),
        ErrorKind::DecimalToFloatArithmetic => Some(explain::said(Seq::empty(), "Decimal to float conversion failed for arithmetic operation"@)),
        _ => None,
    }
}

/// The texts of some of the errors.
pub open spec fn message_in_second_part(e: ErrorV) -> Option<Seq<PartV>> {
    match e.kind {
        ErrorKind::CaseLength => Some(explain::said(Seq::empty(), "CASE expression conditions and results length mismatch"@)),
        ErrorKind::ArgumentCount => Some(argument_count_message(e)),
        ErrorKind::SubstrStart => Some(shown_at(explain::said(Seq::empty(), "SUBSTR start index must be integer, got "@), e, 0)),
        ErrorKind::SubstrLength => Some(shown_at(explain::said(Seq::empty(), "SUBSTR length must be integer, got "@), e, 0)),
        ErrorKind::SubstrNegative => Some(plain_at(explain::said(Seq::empty(), "SUBSTR length must be non-negative, got "@), e, 0)),
        ErrorKind::AbsArgument => Some(shown_at(explain::said(Seq::empty(), "ABS expects numeric argument, got "@), e, 0)),
        ErrorKind::RoundArgument => Some(shown_at(explain::said(Seq::empty(), "ROUND expects numeric argument, got "@), e, 0)),
        ErrorKind::UnknownFunction => Some(explain::said(explain::said(Seq::empty(), "Unsupported scalar function: "@), name_at(e, 0))),
        ErrorKind::TokenizerNotFound => Some(explain::said(explain::said(explain::said(Seq::empty(), "Tokenizer '"@), name_at(e, 0)), "' not found"@)),
        ErrorKind::FullTextSyntax => Some(explain::said(Seq::empty(), name_at(e, 0))),
        ErrorKind::SubqueryAtExecution => Some(explain::said(Seq::empty(), "subquery reached execution; subqueries must be folded before the query runs"@)),
        ErrorKind::CastInt => Some(explain::said(explain::said(Seq::empty(), "Failed to cast string to INT: "@), name_at(e, 0))),
        ErrorKind::CastFloat => Some(explain::said(explain::said(Seq::empty(), "Failed to cast string to FLOAT: "@), name_at(e, 0))),
        ErrorKind::CastDecimal => Some(explain::said(explain::said(Seq::empty(), "Failed to cast string to DECIMAL: "@), name_at(e, 0))),
        ErrorKind::CastDate => Some(explain::said(explain::said(explain::said(explain::said(Seq::empty(), "Failed to parse date '"@), name_at(e, 0)), "': "@), name_at(e, 1))),
        ErrorKind::CastTime => Some(explain::said(explain::said(explain::said(explain::said(Seq::empty(), "Failed to parse time '"@), name_at(e, 0)), "': "@), name_at(e, 1))),
        ErrorKind::CastTimestamp => Some(explain::said(explain::said(explain::said(Seq::empty(), "Failed to parse timestamp '"@), name_at(e, 0)), "'"@)),
        ErrorKind::DecimalToIntCast => Some(plain_at(explain::said(Seq::empty(), "Decimal conversion to i64 failed for "@), e, 0)),
        ErrorKind::DecimalToFloatCast => Some(plain_at(explain::said(Seq::empty(), "Decimal conversion to f64 failed for "@), e, 0)),
        ErrorKind::FloatToDecimalCast => Some(plain_at(explain::said(Seq::empty(), "Float conversion to Decimal failed for "@), e, 0)),
        _ => None,
    }
}

/// The texts of some of the errors.
pub open spec fn message_in_third_part(e: ErrorV) -> Option<Seq<PartV>> {
    match e.kind {
        ErrorKind::CannotCast => Some(explain::said(explain::said(shown_at(explain::said(Seq::empty(), "Cannot cast "@), e, 0), " to "@), name_at(e, 0))),
        ErrorKind::TableNotFound => Some(explain::said(explain::said(explain::said(Seq::empty(), "Table '"@), name_at(e, 0)), "' not found"@)),
        ErrorKind::UnknownCompression => Some(explain::said(explain::said(Seq::empty(), "Unknown compression type: "@), name_at(e, 0))),
        ErrorKind::InvalidGroupOption => Some(explain::said(explain::said(explain::said(explain::said(Seq::empty(), "Invalid "@), name_at(e, 0)), ": "@), name_at(e, 1))),
        ErrorKind::UnknownGroupOption => Some(explain::said(explain::said(Seq::empty(), "Unknown locality group option: "@), name_at(e, 0))),
        ErrorKind::UnsupportedDataType => Some(explain::said(explain::said(Seq::empty(), "Unsupported SQL data type: "@), name_at(e, 0))),
        ErrorKind::IndexNotFound => Some(explain::said(explain::said(explain::said(Seq::empty(), "Index '"@), name_at(e, 0)), "' not found in database"@)),
        ErrorKind::UnsupportedDrop => Some(explain::said(Seq::empty(), "Only DROP TABLE and DROP INDEX statements are supported"@)),
        ErrorKind::IndexNameRequired => Some(explain::said(Seq::empty(), "CREATE INDEX requires an index name"@)),
        ErrorKind::IndexColumn => Some(explain::said(Seq::empty(), "Only simple column identifiers are supported in CREATE INDEX"@)),
        ErrorKind::AlterCount => Some(explain::said(Seq::empty(), "ALTER TABLE supports exactly one operation per statement"@)),
        ErrorKind::UnsupportedAlter => Some(explain::said(explain::said(explain::said(Seq::empty(), "Unsupported ALTER TABLE operation: "@), name_at(e, 0)), " (only ADD COLUMN and RENAME COLUMN are supported)"@)),
        ErrorKind::AddedPrimaryKey => Some(explain::said(Seq::empty(), "ALTER TABLE ADD COLUMN cannot add a PRIMARY KEY column"@)),
        ErrorKind::InsertTable => Some(explain::said(explain::said(Seq::empty(), "Unsupported table object in INSERT: "@), name_at(e, 0))),
        ErrorKind::InvalidColumnName => Some(explain::said(explain::said(Seq::empty(), "Invalid column name: "@), name_at(e, 0))),
        ErrorKind::UnsupportedColumnName => Some(explain::said(explain::said(Seq::empty(), "Unsupported column name: "@), name_at(e, 0))),
        ErrorKind::InsertSource => Some(explain::said(Seq::empty(), "INSERT statement requires a query source"@)),
        ErrorKind::ColumnCount => Some(explain::said(explain::said(explain::said(explain::said(explain::said(Seq::empty(), "Column count mismatch: table has "@), name_at(e, 0)), " columns but "@), name_at(e, 1)), " values were provided"@)),
        ErrorKind::NotLiteral => Some(shown_of(explain::said(Seq::empty(), "INSERT expects literal values, got expression "@), e)),
        ErrorKind::DeleteTable => Some(explain::said(Seq::empty(), "DELETE statement requires a table name"@)),
        _ => None,
    }
}

/// The texts of some of the errors.
pub open spec fn message_in_fourth_part(e: ErrorV) -> Option<Seq<PartV>> {
    match e.kind {
        ErrorKind::UnsupportedTable => Some(explain::said(explain::said(explain::said(explain::said(Seq::empty(), "Unsupported table factor in "@), name_at(e, 0)), ": "@), name_at(e, 1))),
        ErrorKind::AssignmentTarget => Some(explain::said(explain::said(Seq::empty(), "Unsupported assignment target: "@), name_at(e, 0))),
        ErrorKind::TupleAssignment => Some(explain::said(Seq::empty(), "Tuple assignments are not supported"@)),
        ErrorKind::AnalyzeTable => Some(explain::said(Seq::empty(), "ANALYZE statement requires a table name"@)),
        ErrorKind::ExplainQuery => Some(explain::said(Seq::empty(), "Can only EXPLAIN SELECT queries"@)),
        ErrorKind::UnsupportedStatement => Some(explain::said(explain::said(Seq::empty(), "Unsupported SQL statement: "@), name_at(e, 0))),
        ErrorKind::OrderByAll => Some(explain::said(Seq::empty(), "ORDER BY ALL is not supported"@)),
        ErrorKind::LimitExpression => Some(explain::said(Seq::empty(), "Unsupported limit expression"@)),
        ErrorKind::LimitValue => Some(explain::said(Seq::empty(), "Unsupported limit expression value"@)),
        ErrorKind::OffsetExpression => Some(explain::said(Seq::empty(), "Unsupported offset expression"@)),
        ErrorKind::OffsetValue => Some(explain::said(Seq::empty(), "Unsupported offset expression value"@)),
        ErrorKind::RowCount => Some(explain::said(Seq::empty(), row_count_message(name_at(e, 0)))),
        ErrorKind::UnsupportedSet => Some(explain::said(explain::said(Seq::empty(), "Unsupported set expression: "@), name_at(e, 0))),
        ErrorKind::UnsupportedJoin => Some(explain::said(explain::said(Seq::empty(), "Unsupported JOIN operator: "@), name_at(e, 0))),
        ErrorKind::GroupByModifiers => Some(explain::said(Seq::empty(), "GROUP BY modifiers are not supported"@)),
        ErrorKind::GroupByAll => Some(explain::said(Seq::empty(), "GROUP BY ALL is not supported"@)),
        ErrorKind::GroupedWildcard => Some(explain::said(Seq::empty(), "Wildcards not allowed in GROUP BY / Aggregations"@)),
        ErrorKind::UnsupportedItem => Some(explain::said(explain::said(Seq::empty(), "Unsupported select item: "@), name_at(e, 0))),
        ErrorKind::FromRequired => Some(explain::said(Seq::empty(), "SELECT requires a FROM table source"@)),
        ErrorKind::InvalidNumber => Some(explain::said(explain::said(Seq::empty(), "Invalid numeric literal: "@), name_at(e, 0))),
        _ => None,
    }
}

/// The texts of some of the errors.
pub open spec fn message_in_fifth_part(e: ErrorV) -> Option<Seq<PartV>> {
    match e.kind {
        ErrorKind::UnsupportedValue => Some(explain::said(explain::said(Seq::empty(), "Unsupported SQL value type: "@), name_at(e, 0))),
        ErrorKind::UnsupportedOperator => Some(explain::said(explain::said(Seq::empty(), "Unsupported operator: "@), name_at(e, 0))),
        ErrorKind::UnsupportedUnary => Some(explain::said(explain::said(Seq::empty(), "Unsupported unary operator: "@), name_at(e, 0))),
        ErrorKind::AggregateInScalar => Some(explain::said(explain::said(explain::said(Seq::empty(), "Aggregate function "@), name_at(e, 0)), " cannot be used in scalar expression context"@)),
        ErrorKind::FunctionArgument => Some(explain::said(Seq::empty(), "Unsupported function argument type"@)),
        ErrorKind::FunctionArguments => Some(explain::said(explain::said(Seq::empty(), "Unsupported function argument format: "@), name_at(e, 0))),
        ErrorKind::UnsupportedFunction => Some(explain::said(explain::said(Seq::empty(), "Unsupported or unrecognized function: "@), name_at(e, 0))),
        ErrorKind::MatchColumns => Some(explain::said(Seq::empty(), "MATCH against multiple columns is not supported in Phase 2"@)),
        ErrorKind::MatchQuery => Some(explain::said(Seq::empty(), "MATCH expects a string literal token"@)),
        ErrorKind::UnsupportedExpr => Some(explain::said(explain::said(Seq::empty(), "Unsupported expression: "@), name_at(e, 0))),
        ErrorKind::DefaultNumber => Some(explain::said(explain::said(Seq::empty(), "Invalid numeric literal for default: "@), name_at(e, 0))),
        ErrorKind::DefaultValue => Some(explain::said(Seq::empty(), "Unsupported value type for default"@)),
        ErrorKind::DefaultNegative => Some(explain::said(Seq::empty(), "Invalid negative default value"@)),
        ErrorKind::DefaultExpr => Some(explain::said(Seq::empty(), "Unsupported expression type for default"@)),
        ErrorKind::AggregateArguments => Some(explain::said(explain::said(Seq::empty(), "Unsupported aggregate arguments: "@), name_at(e, 0))),
        ErrorKind::DistinctColumn => Some(explain::said(explain::said(Seq::empty(), name_at(e, 0)), " with DISTINCT requires a column argument"@)),
        ErrorKind::DistinctWildcard => Some(explain::said(Seq::empty(), "COUNT(DISTINCT *) is not supported"@)),
        ErrorKind::AggregateArgument => Some(explain::said(Seq::empty(), "Unsupported function argument"@)),
        ErrorKind::SetColumnCount => Some(explain::said(explain::said(explain::said(explain::said(explain::said(Seq::empty(), "Set operation queries must have the same number of columns (left: "@), name_at(e, 0)), ", right: "@), name_at(e, 1)), ")"@)),
        ErrorKind::SetColumnType => Some(explain::said(explain::said(explain::said(explain::said(explain::said(explain::said(Seq::empty(), "Column "@), name_at(e, 0)), " type mismatch: left is "@), name_at(e, 1)), ", right is "@), name_at(e, 2))),
        _ => None,
    }
}

/// The texts of some of the errors.
pub open spec fn message_in_sixth_part(e: ErrorV) -> Option<Seq<PartV>> {
    match e.kind {
        ErrorKind::Malformed => Some(explain::said(Seq::empty(), "A statement or a plan refers to parts that it does not have"@)),
        ErrorKind::ScalarColumns => Some(explain::said(Seq::empty(), "scalar subquery must return exactly one column"@)),
        ErrorKind::ScalarRows => Some(explain::said(Seq::empty(), "scalar subquery returned more than one row"@)),
        ErrorKind::MemberColumns => Some(explain::said(Seq::empty(), "IN subquery must return exactly one column"@)),
        ErrorKind::IndexMissing => Some(explain::said(explain::said(explain::said(Seq::empty(), "Index '"@), name_at(e, 0)), "' not found in schema during compilation"@)),
        ErrorKind::IndexEmpty => Some(explain::said(explain::said(explain::said(Seq::empty(), "Index '"@), name_at(e, 0)), "' defines no columns"@)),
        ErrorKind::IndexColumnMissing => Some(explain::said(explain::said(explain::said(Seq::empty(), "Indexed column '"@), name_at(e, 0)), "' not found in schema"@)),
        ErrorKind::NoPrimaryKey => Some(explain::said(Seq::empty(), "Table has no primary key"@)),
        ErrorKind::KeyType => Some(shown_at(explain::said(Seq::empty(), "Unsupported primary key value: "@), e, 0)),
        ErrorKind::JoinCondition => Some(shown_of(explain::said(Seq::empty(), "Only equality join conditions supported, got "@), e)),
        ErrorKind::UnknownColumn => Some(explain::said(explain::said(explain::said(Seq::empty(), "Column '"@), name_at(e, 0)), "' not found in schema"@)),
        ErrorKind::DuplicateKey => Some(explain::said(Seq::empty(), "Duplicate primary key"@)),
        ErrorKind::SelectColumnCount => Some(explain::said(explain::said(explain::said(explain::said(Seq::empty(), "INSERT INTO ... SELECT col count mismatch: target columns: "@), name_at(e, 0)), ", SELECT columns: "@), name_at(e, 1))),
        ErrorKind::NoStatement => Some(explain::said(Seq::empty(), "No SQL statements found"@)),
        ErrorKind::ManyStatements => Some(
            explain::said(
                Seq::empty(),
                "Multiple SQL statements in a single execute() call are not allowed. Use DuctTapeDbClient::run_in_transaction() or the Transaction RPC to execute multiple statements within a single transaction."@,
            ),
        ),
        ErrorKind::ManyPrepared => Some(
            explain::said(Seq::empty(), "Multiple SQL statements in a single prepare() call are not allowed."@),
        ),
        ErrorKind::Syntax => Some(explain::said(Seq::empty(), name_at(e, 0))),
        ErrorKind::FrameTooLong => Some(explain::said(Seq::empty(), "Spill record exceeds the 4 GiB frame limit"@)),
        ErrorKind::RunTruncated => Some(explain::said(Seq::empty(), "Failed to read run: it ends before its records do"@)),
        ErrorKind::RowLength => Some(explain::said(Seq::empty(), "A row has fewer values than columns"@)),
        ErrorKind::UnexpectedEvent => Some(
            explain::said(Seq::empty(), "A step was given what it does not wait for"@),
        ),
        _ => None,
    }
}

/// The text of an error, in parts.
pub open spec fn message_parts(e: ErrorV) -> Seq<PartV> {
    match message_in_first_part(e) {
        Some(p) => p,
        None => match message_in_second_part(e) {
            Some(p) => p,
            None => match message_in_third_part(e) {
                Some(p) => p,
                None => match message_in_fourth_part(e) {
                    Some(p) => p,
                    None => match message_in_fifth_part(e) {
                        Some(p) => p,
                        None => match message_in_sixth_part(e) {
                            Some(p) => p,
                            None => Seq::empty(),
                        },
                    },
                },
            },
        },
    }
}

impl SqlError {
    /// Writes the texts of some of the errors.
    fn write_first_part(&self) -> (out: Option<Vec<Part>>)
        ensures
            match out {
                Some(p) => message_in_first_part(self@) == Some(explain::parts_view(p@)),
                None => message_in_first_part(self@) is None,
            },
    {
        let mut out: Vec<Part> = Vec::new();
        assert(explain::parts_view(out@) =~= Seq::empty());
        match self.kind {
            ErrorKind::Pending => explain::say(&mut out, "A question has to be answered first"),
            ErrorKind::UnboundParameter => {
                explain::say(&mut out, "Unbound parameter: ");
                explain::say(&mut out, self.name(0));
            },
            ErrorKind::ParameterAtExecution => {
                explain::say(&mut out, "Unbound parameter '");
                explain::say(&mut out, self.name(0));
                explain::say(&mut out, "' reached execution; parameters must be bound before the query runs");
            },
            ErrorKind::KeyParameterType => {
                explain::say(&mut out, "Unsupported key parameter type for ");
                explain::say(&mut out, self.name(0));
            },
            ErrorKind::ColumnNotFound => {
                explain::say(&mut out, "Column not found in schema: '");
                explain::say(&mut out, self.name(0));
                explain::say(&mut out, "'");
            },
            ErrorKind::AmbiguousColumn => {
                explain::say(&mut out, "Ambiguous column reference '");
                explain::say(&mut out, self.name(0));
                explain::say(&mut out, "': matches [");
                show_names_after(&mut out, self);
                explain::say(&mut out, "]");
            },
            ErrorKind::IndexOutOfBounds => {
                explain::say(&mut out, "Index ");
                explain::say(&mut out, self.name(0));
                explain::say(&mut out, " out of bounds for row values");
            },
            ErrorKind::NotBoolean => {
                explain::say(&mut out, "Cannot convert value to boolean: ");
                show_at(&mut out, self, 0);
            },
            ErrorKind::NotString => {
                explain::say(&mut out, "Expected string value, got: ");
                show_at(&mut out, self, 0);
            },
            ErrorKind::TypeMismatch => {
                explain::say(&mut out, "Type mismatch: cannot compare ");
                show_at(&mut out, self, 0);
                explain::say(&mut out, " and ");
                show_at(&mut out, self, 1);
            },
            ErrorKind::NanComparison => explain::say(&mut out, "NaN float comparison"),
            ErrorKind::NotNumeric => {
                explain::say(&mut out, "Cannot perform arithmetic on non-numeric types: ");
                show_at(&mut out, self, 0);
                explain::say(&mut out, " and ");
                show_at(&mut out, self, 1);
            },
            ErrorKind::IntegerOverflow => explain::say(&mut out, "Integer overflow"),
            ErrorKind::DecimalAddition => explain::say(&mut out, "Decimal addition overflow"),
            ErrorKind::DecimalSubtraction => explain::say(&mut out, "Decimal subtraction overflow"),
            ErrorKind::DecimalMultiplication => explain::say(&mut out, "Decimal multiplication overflow"),
            ErrorKind::DecimalDivision => explain::say(&mut out, "Decimal division overflow"),
            ErrorKind::DivisionByZero => explain::say(&mut out, "Division by zero"),
            ErrorKind::DecimalToFloat => explain::say(&mut out, "Decimal to float conversion failed"),
            ErrorKind::DecimalToFloatArithmetic => explain::say(&mut out, "Decimal to float conversion failed for arithmetic operation"),
            _ => {
                return None;
            },
        }
        Some(out)
    }

    /// Writes the texts of some of the errors.
    fn write_second_part(&self) -> (out: Option<Vec<Part>>)
        ensures
            match out {
                Some(p) => message_in_second_part(self@) == Some(explain::parts_view(p@)),
                None => message_in_second_part(self@) is None,
            },
    {
        let mut out: Vec<Part> = Vec::new();
        assert(explain::parts_view(out@) =~= Seq::empty());
        match self.kind {
            ErrorKind::CaseLength => explain::say(&mut out, "CASE expression conditions and results length mismatch"),
            ErrorKind::ArgumentCount => self.write_argument_count(&mut out),
            ErrorKind::SubstrStart => {
                explain::say(&mut out, "SUBSTR start index must be integer, got ");
                show_at(&mut out, self, 0);
            },
            ErrorKind::SubstrLength => {
                explain::say(&mut out, "SUBSTR length must be integer, got ");
                show_at(&mut out, self, 0);
            },
            ErrorKind::SubstrNegative => {
                explain::say(&mut out, "SUBSTR length must be non-negative, got ");
                write_plain_at(&mut out, self, 0);
            },
            ErrorKind::AbsArgument => {
                explain::say(&mut out, "ABS expects numeric argument, got ");
                show_at(&mut out, self, 0);
            },
            ErrorKind::RoundArgument => {
                explain::say(&mut out, "ROUND expects numeric argument, got ");
                show_at(&mut out, self, 0);
            },
            ErrorKind::UnknownFunction => {
                explain::say(&mut out, "Unsupported scalar function: ");
                explain::say(&mut out, self.name(0));
            },
            ErrorKind::TokenizerNotFound => {
                explain::say(&mut out, "Tokenizer '");
                explain::say(&mut out, self.name(0));
                explain::say(&mut out, "' not found");
            },
            ErrorKind::FullTextSyntax => explain::say(&mut out, self.name(0)),
            ErrorKind::SubqueryAtExecution => explain::say(&mut out, "subquery reached execution; subqueries must be folded before the query runs"),
            ErrorKind::CastInt => {
                explain::say(&mut out, "Failed to cast string to INT: ");
                explain::say(&mut out, self.name(0));
            },
            ErrorKind::CastFloat => {
                explain::say(&mut out, "Failed to cast string to FLOAT: ");
                explain::say(&mut out, self.name(0));
            },
            ErrorKind::CastDecimal => {
                explain::say(&mut out, "Failed to cast string to DECIMAL: ");
                explain::say(&mut out, self.name(0));
            },
            ErrorKind::CastDate => {
                explain::say(&mut out, "Failed to parse date '");
                explain::say(&mut out, self.name(0));
                explain::say(&mut out, "': ");
                explain::say(&mut out, self.name(1));
            },
            ErrorKind::CastTime => {
                explain::say(&mut out, "Failed to parse time '");
                explain::say(&mut out, self.name(0));
                explain::say(&mut out, "': ");
                explain::say(&mut out, self.name(1));
            },
            ErrorKind::CastTimestamp => {
                explain::say(&mut out, "Failed to parse timestamp '");
                explain::say(&mut out, self.name(0));
                explain::say(&mut out, "'");
            },
            ErrorKind::DecimalToIntCast => {
                explain::say(&mut out, "Decimal conversion to i64 failed for ");
                write_plain_at(&mut out, self, 0);
            },
            ErrorKind::DecimalToFloatCast => {
                explain::say(&mut out, "Decimal conversion to f64 failed for ");
                write_plain_at(&mut out, self, 0);
            },
            ErrorKind::FloatToDecimalCast => {
                explain::say(&mut out, "Float conversion to Decimal failed for ");
                write_plain_at(&mut out, self, 0);
            },
            _ => {
                return None;
            },
        }
        Some(out)
    }

    /// Writes the texts of some of the errors.
    fn write_third_part(&self) -> (out: Option<Vec<Part>>)
        ensures
            match out {
                Some(p) => message_in_third_part(self@) == Some(explain::parts_view(p@)),
                None => message_in_third_part(self@) is None,
            },
    {
        let mut out: Vec<Part> = Vec::new();
        assert(explain::parts_view(out@) =~= Seq::empty());
        match self.kind {
            ErrorKind::CannotCast => {
                explain::say(&mut out, "Cannot cast ");
                show_at(&mut out, self, 0);
                explain::say(&mut out, " to ");
                explain::say(&mut out, self.name(0));
            },
            ErrorKind::TableNotFound => {
                explain::say(&mut out, "Table '");
                explain::say(&mut out, self.name(0));
                explain::say(&mut out, "' not found");
            },
            ErrorKind::UnknownCompression => {
                explain::say(&mut out, "Unknown compression type: ");
                explain::say(&mut out, self.name(0));
            },
            ErrorKind::InvalidGroupOption => {
                explain::say(&mut out, "Invalid ");
                explain::say(&mut out, self.name(0));
                explain::say(&mut out, ": ");
                explain::say(&mut out, self.name(1));
            },
            ErrorKind::UnknownGroupOption => {
                explain::say(&mut out, "Unknown locality group option: ");
                explain::say(&mut out, self.name(0));
            },
            ErrorKind::UnsupportedDataType => {
                explain::say(&mut out, "Unsupported SQL data type: ");
                explain::say(&mut out, self.name(0));
            },
            ErrorKind::IndexNotFound => {
                explain::say(&mut out, "Index '");
                explain::say(&mut out, self.name(0));
                explain::say(&mut out, "' not found in database");
            },
            ErrorKind::UnsupportedDrop => explain::say(&mut out, "Only DROP TABLE and DROP INDEX statements are supported"),
            ErrorKind::IndexNameRequired => explain::say(&mut out, "CREATE INDEX requires an index name"),
            ErrorKind::IndexColumn => explain::say(&mut out, "Only simple column identifiers are supported in CREATE INDEX"),
            ErrorKind::AlterCount => explain::say(&mut out, "ALTER TABLE supports exactly one operation per statement"),
            ErrorKind::UnsupportedAlter => {
                explain::say(&mut out, "Unsupported ALTER TABLE operation: ");
                explain::say(&mut out, self.name(0));
                explain::say(&mut out, " (only ADD COLUMN and RENAME COLUMN are supported)");
            },
            ErrorKind::AddedPrimaryKey => explain::say(&mut out, "ALTER TABLE ADD COLUMN cannot add a PRIMARY KEY column"),
            ErrorKind::InsertTable => {
                explain::say(&mut out, "Unsupported table object in INSERT: ");
                explain::say(&mut out, self.name(0));
            },
            ErrorKind::InvalidColumnName => {
                explain::say(&mut out, "Invalid column name: ");
                explain::say(&mut out, self.name(0));
            },
            ErrorKind::UnsupportedColumnName => {
                explain::say(&mut out, "Unsupported column name: ");
                explain::say(&mut out, self.name(0));
            },
            ErrorKind::InsertSource => explain::say(&mut out, "INSERT statement requires a query source"),
            ErrorKind::ColumnCount => {
                explain::say(&mut out, "Column count mismatch: table has ");
                explain::say(&mut out, self.name(0));
                explain::say(&mut out, " columns but ");
                explain::say(&mut out, self.name(1));
                explain::say(&mut out, " values were provided");
            },
            ErrorKind::NotLiteral => {
                explain::say(&mut out, "INSERT expects literal values, got expression ");
                show_of(&mut out, self);
            },
            ErrorKind::DeleteTable => explain::say(&mut out, "DELETE statement requires a table name"),
            _ => {
                return None;
            },
        }
        Some(out)
    }

    /// Writes the texts of some of the errors.
    fn write_fourth_part(&self) -> (out: Option<Vec<Part>>)
        ensures
            match out {
                Some(p) => message_in_fourth_part(self@) == Some(explain::parts_view(p@)),
                None => message_in_fourth_part(self@) is None,
            },
    {
        let mut out: Vec<Part> = Vec::new();
        assert(explain::parts_view(out@) =~= Seq::empty());
        match self.kind {
            ErrorKind::UnsupportedTable => {
                explain::say(&mut out, "Unsupported table factor in ");
                explain::say(&mut out, self.name(0));
                explain::say(&mut out, ": ");
                explain::say(&mut out, self.name(1));
            },
            ErrorKind::AssignmentTarget => {
                explain::say(&mut out, "Unsupported assignment target: ");
                explain::say(&mut out, self.name(0));
            },
            ErrorKind::TupleAssignment => explain::say(&mut out, "Tuple assignments are not supported"),
            ErrorKind::AnalyzeTable => explain::say(&mut out, "ANALYZE statement requires a table name"),
            ErrorKind::ExplainQuery => explain::say(&mut out, "Can only EXPLAIN SELECT queries"),
            ErrorKind::UnsupportedStatement => {
                explain::say(&mut out, "Unsupported SQL statement: ");
                explain::say(&mut out, self.name(0));
            },
            ErrorKind::OrderByAll => explain::say(&mut out, "ORDER BY ALL is not supported"),
            ErrorKind::LimitExpression => explain::say(&mut out, "Unsupported limit expression"),
            ErrorKind::LimitValue => explain::say(&mut out, "Unsupported limit expression value"),
            ErrorKind::OffsetExpression => explain::say(&mut out, "Unsupported offset expression"),
            ErrorKind::OffsetValue => explain::say(&mut out, "Unsupported offset expression value"),
            ErrorKind::RowCount => match text::parse_nat(self.name(0)) {
                Ok(_) => explain::say(&mut out, "number too large to fit in target type"),
                Err(m) => explain::say(&mut out, m.as_str()),
            },
            ErrorKind::UnsupportedSet => {
                explain::say(&mut out, "Unsupported set expression: ");
                explain::say(&mut out, self.name(0));
            },
            ErrorKind::UnsupportedJoin => {
                explain::say(&mut out, "Unsupported JOIN operator: ");
                explain::say(&mut out, self.name(0));
            },
            ErrorKind::GroupByModifiers => explain::say(&mut out, "GROUP BY modifiers are not supported"),
            ErrorKind::GroupByAll => explain::say(&mut out, "GROUP BY ALL is not supported"),
            ErrorKind::GroupedWildcard => explain::say(&mut out, "Wildcards not allowed in GROUP BY / Aggregations"),
            ErrorKind::UnsupportedItem => {
                explain::say(&mut out, "Unsupported select item: ");
                explain::say(&mut out, self.name(0));
            },
            ErrorKind::FromRequired => explain::say(&mut out, "SELECT requires a FROM table source"),
            ErrorKind::InvalidNumber => {
                explain::say(&mut out, "Invalid numeric literal: ");
                explain::say(&mut out, self.name(0));
            },
            _ => {
                return None;
            },
        }
        Some(out)
    }

    /// Writes the texts of some of the errors.
    fn write_fifth_part(&self) -> (out: Option<Vec<Part>>)
        ensures
            match out {
                Some(p) => message_in_fifth_part(self@) == Some(explain::parts_view(p@)),
                None => message_in_fifth_part(self@) is None,
            },
    {
        let mut out: Vec<Part> = Vec::new();
        assert(explain::parts_view(out@) =~= Seq::empty());
        match self.kind {
            ErrorKind::UnsupportedValue => {
                explain::say(&mut out, "Unsupported SQL value type: ");
                explain::say(&mut out, self.name(0));
            },
            ErrorKind::UnsupportedOperator => {
                explain::say(&mut out, "Unsupported operator: ");
                explain::say(&mut out, self.name(0));
            },
            ErrorKind::UnsupportedUnary => {
                explain::say(&mut out, "Unsupported unary operator: ");
                explain::say(&mut out, self.name(0));
            },
            ErrorKind::AggregateInScalar => {
                explain::say(&mut out, "Aggregate function ");
                explain::say(&mut out, self.name(0));
                explain::say(&mut out, " cannot be used in scalar expression context");
            },
            ErrorKind::FunctionArgument => explain::say(&mut out, "Unsupported function argument type"),
            ErrorKind::FunctionArguments => {
                explain::say(&mut out, "Unsupported function argument format: ");
                explain::say(&mut out, self.name(0));
            },
            ErrorKind::UnsupportedFunction => {
                explain::say(&mut out, "Unsupported or unrecognized function: ");
                explain::say(&mut out, self.name(0));
            },
            ErrorKind::MatchColumns => explain::say(&mut out, "MATCH against multiple columns is not supported in Phase 2"),
            ErrorKind::MatchQuery => explain::say(&mut out, "MATCH expects a string literal token"),
            ErrorKind::UnsupportedExpr => {
                explain::say(&mut out, "Unsupported expression: ");
                explain::say(&mut out, self.name(0));
            },
            ErrorKind::DefaultNumber => {
                explain::say(&mut out, "Invalid numeric literal for default: ");
                explain::say(&mut out, self.name(0));
            },
            ErrorKind::DefaultValue => explain::say(&mut out, "Unsupported value type for default"),
            ErrorKind::DefaultNegative => explain::say(&mut out, "Invalid negative default value"),
            ErrorKind::DefaultExpr => explain::say(&mut out, "Unsupported expression type for default"),
            ErrorKind::AggregateArguments => {
                explain::say(&mut out, "Unsupported aggregate arguments: ");
                explain::say(&mut out, self.name(0));
            },
            ErrorKind::DistinctColumn => {
                explain::say(&mut out, self.name(0));
                explain::say(&mut out, " with DISTINCT requires a column argument");
            },
            ErrorKind::DistinctWildcard => explain::say(&mut out, "COUNT(DISTINCT *) is not supported"),
            ErrorKind::AggregateArgument => explain::say(&mut out, "Unsupported function argument"),
            ErrorKind::SetColumnCount => {
                explain::say(&mut out, "Set operation queries must have the same number of columns (left: ");
                explain::say(&mut out, self.name(0));
                explain::say(&mut out, ", right: ");
                explain::say(&mut out, self.name(1));
                explain::say(&mut out, ")");
            },
            ErrorKind::SetColumnType => {
                explain::say(&mut out, "Column ");
                explain::say(&mut out, self.name(0));
                explain::say(&mut out, " type mismatch: left is ");
                explain::say(&mut out, self.name(1));
                explain::say(&mut out, ", right is ");
                explain::say(&mut out, self.name(2));
            },
            _ => {
                return None;
            },
        }
        Some(out)
    }

    /// Writes the texts of some of the errors.
    fn write_sixth_part(&self) -> (out: Option<Vec<Part>>)
        ensures
            match out {
                Some(p) => message_in_sixth_part(self@) == Some(explain::parts_view(p@)),
                None => message_in_sixth_part(self@) is None,
            },
    {
        let mut out: Vec<Part> = Vec::new();
        assert(explain::parts_view(out@) =~= Seq::empty());
        match self.kind {
            ErrorKind::Malformed => explain::say(&mut out, "A statement or a plan refers to parts that it does not have"),
            ErrorKind::ScalarColumns => explain::say(&mut out, "scalar subquery must return exactly one column"),
            ErrorKind::ScalarRows => explain::say(&mut out, "scalar subquery returned more than one row"),
            ErrorKind::MemberColumns => explain::say(&mut out, "IN subquery must return exactly one column"),
            ErrorKind::IndexMissing => {
                explain::say(&mut out, "Index '");
                explain::say(&mut out, self.name(0));
                explain::say(&mut out, "' not found in schema during compilation");
            },
            ErrorKind::IndexEmpty => {
                explain::say(&mut out, "Index '");
                explain::say(&mut out, self.name(0));
                explain::say(&mut out, "' defines no columns");
            },
            ErrorKind::IndexColumnMissing => {
                explain::say(&mut out, "Indexed column '");
                explain::say(&mut out, self.name(0));
                explain::say(&mut out, "' not found in schema");
            },
            ErrorKind::NoPrimaryKey => explain::say(&mut out, "Table has no primary key"),
            ErrorKind::KeyType => {
                explain::say(&mut out, "Unsupported primary key value: ");
                show_at(&mut out, self, 0);
            },
            ErrorKind::JoinCondition => {
                explain::say(&mut out, "Only equality join conditions supported, got ");
                show_of(&mut out, self);
            },
            ErrorKind::UnknownColumn => {
                explain::say(&mut out, "Column '");
                explain::say(&mut out, self.name(0));
                explain::say(&mut out, "' not found in schema");
            },
            ErrorKind::DuplicateKey => explain::say(&mut out, "Duplicate primary key"),
            ErrorKind::SelectColumnCount => {
                explain::say(&mut out, "INSERT INTO ... SELECT col count mismatch: target columns: ");
                explain::say(&mut out, self.name(0));
                explain::say(&mut out, ", SELECT columns: ");
                explain::say(&mut out, self.name(1));
            },
            ErrorKind::NoStatement => explain::say(&mut out, "No SQL statements found"),
            ErrorKind::ManyStatements => explain::say(
                &mut out,
                "Multiple SQL statements in a single execute() call are not allowed. Use DuctTapeDbClient::run_in_transaction() or the Transaction RPC to execute multiple statements within a single transaction.",
            ),
            ErrorKind::ManyPrepared => explain::say(
                &mut out,
                "Multiple SQL statements in a single prepare() call are not allowed.",
            ),
            ErrorKind::Syntax => explain::say(&mut out, self.name(0)),
            ErrorKind::FrameTooLong => explain::say(&mut out, "Spill record exceeds the 4 GiB frame limit"),
            ErrorKind::RunTruncated => explain::say(&mut out, "Failed to read run: it ends before its records do"),
            ErrorKind::RowLength => explain::say(&mut out, "A row has fewer values than columns"),
            ErrorKind::UnexpectedEvent => explain::say(&mut out, "A step was given what it does not wait for"),
            _ => {
                return None;
            },
        }
        Some(out)
    }

    /// Writes the text for a function with the wrong number of arguments.
    fn write_argument_count(&self, out: &mut Vec<Part>)
        requires
            explain::parts_view(old(out)@) == Seq::<PartV>::empty(),
        ensures
            explain::parts_view(final(out)@) == argument_count_message(self@),
    {
        let name = self.name(0);
        explain::say(out, name);
        if text::same_text(name, "SUBSTR") {
            explain::say(out, " expects 2 or 3 arguments, got ");
            explain::say(out, self.name(1));
        } else if text::same_text(name, "COALESCE") || text::same_text(name, "CONCAT") {
            explain::say(out, " expects at least 1 argument");
        } else {
            explain::say(out, " expects exactly 1 argument, got ");
            explain::say(out, self.name(1));
        }
    }

    /// The text of the error. A float in it is looked up.
    pub fn message(&self, facts: &Facts) -> (out: Result<String, SqlError>)
        ensures
            statement::text_result(out) == explain::rendered(message_parts(self@), facts@),
    {
        let parts: Vec<Part> = match self.write_first_part() {
            Some(p) => p,
            None => match self.write_second_part() {
                Some(p) => p,
                None => match self.write_third_part() {
                    Some(p) => p,
                    None => match self.write_fourth_part() {
                        Some(p) => p,
                        None => match self.write_fifth_part() {
                            Some(p) => p,
                            None => match self.write_sixth_part() {
                                Some(p) => p,
                                None => Vec::new(),
                            },
                        },
                    },
                },
            },
        };
        assert(message_parts(self@) =~= explain::parts_view(parts@));
        explain::render(&parts, facts)
    }
}

} // verus!
