//! Planning of scalar expressions.

use crate::syntax;
use crate::syntax::{
    FunctionArgument, FunctionArgumentV, FunctionArguments, FunctionArgumentsV, SqlBinaryOperator,
    SqlBinaryOperatorV, SqlNode, SqlNodeV, SqlUnaryOperator, SqlUnaryOperatorV, SqlValue, SqlValueV,
};
use crate::expr;
use crate::expr::{Expr, ExprV, Operator};
use crate::facts;
use crate::facts::{AnswerV, ErrorKind, ErrorV, Facts, Question, QuestionV, SqlError};
use crate::parameters;
use crate::text;
use crate::value;
use crate::value::{DbValue, ValueV};
use vstd::prelude::*;
use vstd::string::*;

verus! {

/// The expression of an identifier: a text in double quotes, `@name` a parameter, anything
/// else a column.
pub open spec fn planned_identifier(name: Seq<char>, quote: Option<char>) -> ExprV {
    if quote == Some('"') {
        ExprV::Literal(ValueV::String(name))
    } else if parameters::begins_with(name, '@') {
        ExprV::Parameter(name.skip(1))
    } else {
        ExprV::Column(name, None)
    }
}

/// The value of a numeric literal: an integer where it is one in the range of `i64`, or else
/// a float.
pub open spec fn number_value(s: Seq<char>, malformed: ErrorKind, known: Seq<(QuestionV, AnswerV)>) -> Result<
    ValueV,
    ErrorV,
> {
    match text::int_value(s) {
        Some(i) if i64::MIN <= i <= i64::MAX => Ok(ValueV::Int(i as i64)),
        _ => match facts::parsed_float_fact(known, QuestionV::FloatParsed(s)) {
            Ok(Ok(f)) => Ok(ValueV::Float(f)),
            Ok(Err(_)) => Err(facts::named_error(malformed, s)),
            Err(e) => Err(e),
        },
    }
}

/// The expression of a literal. A placeholder is a parameter, without a leading colon.
pub open spec fn planned_value(v: SqlValueV, known: Seq<(QuestionV, AnswerV)>) -> Result<ExprV, ErrorV> {
    match v {
        SqlValueV::Number(s) => match number_value(s, ErrorKind::InvalidNumber, known) {
            Ok(x) => Ok(ExprV::Literal(x)),
            Err(e) => Err(e),
        },
        SqlValueV::SingleQuotedString(s) => Ok(ExprV::Literal(ValueV::String(s))),
        SqlValueV::Boolean(b) => Ok(ExprV::Literal(ValueV::Bool(b))),
        SqlValueV::Null => Ok(ExprV::Literal(ValueV::Null)),
        SqlValueV::Placeholder(p) => Ok(
            ExprV::Parameter(
                if parameters::begins_with(p, ':') {
                    p.skip(1)
                } else {
                    p
                },
            ),
        ),
        SqlValueV::HexStringLiteral(s) => Err(facts::named_error(ErrorKind::UnsupportedValue, s)),
        SqlValueV::Other(s) => Err(facts::named_error(ErrorKind::UnsupportedValue, s)),
    }
}

/// The operator of a binary operation.
pub open spec fn binary_operator(op: SqlBinaryOperatorV) -> Result<Operator, ErrorV> {
    match op {
        SqlBinaryOperatorV::Eq => Ok(Operator::Eq),
        SqlBinaryOperatorV::Gt => Ok(Operator::Gt),
        SqlBinaryOperatorV::Lt => Ok(Operator::Lt),
        SqlBinaryOperatorV::GtEq => Ok(Operator::GtEq),
        SqlBinaryOperatorV::LtEq => Ok(Operator::LtEq),
        SqlBinaryOperatorV::NotEq => Ok(Operator::NotEq),
        SqlBinaryOperatorV::And => Ok(Operator::And),
        SqlBinaryOperatorV::Or => Ok(Operator::Or),
        SqlBinaryOperatorV::Plus => Ok(Operator::Add),
        SqlBinaryOperatorV::Minus => Ok(Operator::Sub),
        SqlBinaryOperatorV::Multiply => Ok(Operator::Mul),
        SqlBinaryOperatorV::Divide => Ok(Operator::Div),
        SqlBinaryOperatorV::Other(s) => Err(facts::named_error(ErrorKind::UnsupportedOperator, s)),
    }
}

/// A binary operation on two outcomes.
pub open spec fn operation(l: Result<ExprV, ErrorV>, op: Operator, r: Result<ExprV, ErrorV>) -> Result<ExprV, ErrorV> {
    match l {
        Err(e) => Err(e),
        Ok(a) => match r {
            Err(e) => Err(e),
            Ok(b) => Ok(ExprV::BinaryOp { left: Box::new(a), op, right: Box::new(b) }),
        },
    }
}

/// The negation of an outcome, where it is asked for.
pub open spec fn negated_if(negated: bool, r: Result<ExprV, ErrorV>) -> Result<ExprV, ErrorV> {
    match r {
        Err(e) => Err(e),
        Ok(x) => Ok(
            if negated {
                ExprV::Not(Box::new(x))
            } else {
                x
            },
        ),
    }
}

/// The outcome of a unary operation. The minus of a number is a number, of anything else a
/// difference from zero.
pub open spec fn unary_operation(op: SqlUnaryOperatorV, r: Result<ExprV, ErrorV>) -> Result<ExprV, ErrorV> {
    match r {
        Err(e) => Err(e),
        Ok(x) => match op {
            SqlUnaryOperatorV::Minus => match x {
                ExprV::Literal(ValueV::Int(i)) => if i == i64::MIN {
                    Err(facts::plain_error(ErrorKind::IntegerOverflow))
                } else {
                    Ok(ExprV::Literal(ValueV::Int((-i) as i64)))
                },
                ExprV::Literal(ValueV::Float(f)) => Ok(ExprV::Literal(ValueV::Float(value::float_negated(f)))),
                _ => Ok(
                    ExprV::BinaryOp {
                        left: Box::new(ExprV::Literal(ValueV::Int(0))),
                        op: Operator::Sub,
                        right: Box::new(x),
                    },
                ),
            },
            SqlUnaryOperatorV::Plus => Ok(x),
            SqlUnaryOperatorV::Not => Ok(ExprV::Not(Box::new(x))),
            SqlUnaryOperatorV::Other(s) => Err(facts::named_error(ErrorKind::UnsupportedUnary, s)),
        },
    }
}

/// A test for null of an outcome.
pub open spec fn null_test(r: Result<ExprV, ErrorV>) -> Result<ExprV, ErrorV> {
    match r {
        Err(e) => Err(e),
        Ok(x) => Ok(ExprV::IsNull(Box::new(x))),
    }
}

/// A range test: at least the lower and at most the upper bound.
pub open spec fn range_test(x: Result<ExprV, ErrorV>, low: Result<ExprV, ErrorV>, high: Result<ExprV, ErrorV>) -> Result<
    ExprV,
    ErrorV,
> {
    match x {
        Err(e) => Err(e),
        Ok(a) => match low {
            Err(e) => Err(e),
            Ok(b) => match high {
                Err(e) => Err(e),
                Ok(c) => operation(
                    operation(Ok(a), Operator::GtEq, Ok(b)),
                    Operator::And,
                    operation(Ok(a), Operator::LtEq, Ok(c)),
                ),
            },
        },
    }
}

/// A membership test of an outcome in a list of outcomes.
pub open spec fn membership(x: Result<ExprV, ErrorV>, list: Seq<Result<ExprV, ErrorV>>) -> Result<ExprV, ErrorV> {
    match x {
        Err(e) => Err(e),
        Ok(a) => match facts::collected(list, 0, Seq::empty()) {
            Err(e) => Err(e),
            Ok(xs) => Ok(ExprV::InList { expr: Box::new(a), list: xs }),
        },
    }
}

/// Two outcomes as one.
pub open spec fn paired(a: Result<ExprV, ErrorV>, b: Result<ExprV, ErrorV>) -> Result<(ExprV, ExprV), ErrorV> {
    match a {
        Err(e) => Err(e),
        Ok(x) => match b {
            Err(e) => Err(e),
            Ok(y) => Ok((x, y)),
        },
    }
}

/// A CASE of its outcomes.
pub open spec fn case_of(
    operand: Result<Option<Box<ExprV>>, ErrorV>,
    clauses: Seq<Result<(ExprV, ExprV), ErrorV>>,
    otherwise: Result<Option<Box<ExprV>>, ErrorV>,
) -> Result<ExprV, ErrorV> {
    match operand {
        Err(e) => Err(e),
        Ok(operand) => match facts::collected(clauses, 0, Seq::empty()) {
            Err(e) => Err(e),
            Ok(pairs) => match otherwise {
                Err(e) => Err(e),
                Ok(else_result) => Ok(
                    ExprV::Case {
                        operand,
                        conditions: pairs.map_values(|p: (ExprV, ExprV)| p.0),
                        results: pairs.map_values(|p: (ExprV, ExprV)| p.1),
                        else_result,
                    },
                ),
            },
        },
    }
}

/// A call of a function on a list of outcomes.
pub open spec fn call_of(name: Seq<char>, args: Seq<Result<ExprV, ErrorV>>) -> Result<ExprV, ErrorV> {
    match facts::collected(args, 0, Seq::empty()) {
        Err(e) => Err(e),
        Ok(xs) => Ok(ExprV::Function { name, args: xs }),
    }
}

/// A full-text match of a single column against a text.
pub open spec fn planned_match(columns: Seq<Seq<char>>, v: SqlValueV) -> Result<ExprV, ErrorV> {
    if columns.len() != 1 {
        Err(facts::plain_error(ErrorKind::MatchColumns))
    } else {
        match v {
            SqlValueV::SingleQuotedString(s) => Ok(
                ExprV::Match { column: columns[0], index: None, query_str: s },
            ),
            _ => Err(facts::plain_error(ErrorKind::MatchQuery)),
        }
    }
}

/// Whether an upper case name is that of an aggregate function.
pub open spec fn is_aggregate(name: Seq<char>) -> bool {
    name == "COUNT"@ || name == "SUM"@ || name == "MIN"@ || name == "MAX"@ || name == "AVG"@
}

/// Whether an upper case name is that of a scalar function.
pub open spec fn is_scalar(name: Seq<char>) -> bool {
    name == "SUBSTR"@ || name == "SUBSTRING"@ || name == "LENGTH"@ || name == "COALESCE"@ || name == "UPPER"@
        || name == "LOWER"@ || name == "CONCAT"@ || name == "ABS"@ || name == "ROUND"@
}

/// The operands of SUBSTRING, in order.
pub open spec fn substring_operands(x: usize, from: Option<usize>, count: Option<usize>) -> Seq<usize> {
    let first = seq![x];
    let second = match from {
        Some(i) => first.push(i),
        None => first,
    };
    match count {
        Some(i) => second.push(i),
        None => second,
    }
}

/// The outcome of planning the node at a position.
pub open spec fn planned(nodes: Seq<SqlNodeV>, at: int, known: Seq<(QuestionV, AnswerV)>) -> Result<ExprV, ErrorV>
    decreases at, 2int,
{
    if at < 0 || at >= nodes.len() {
        Err(facts::plain_error(ErrorKind::Malformed))
    } else {
        match nodes[at] {
            SqlNodeV::Identifier { value, quote } => Ok(planned_identifier(value, quote)),
            SqlNodeV::CompoundIdentifier(parts) => Ok(ExprV::Column(text::joined(parts, '.'), None)),
            SqlNodeV::Value(v) => planned_value(v, known),
            SqlNodeV::Like { negated, expr, pattern } => negated_if(
                negated,
                operation(
                    operand(nodes, expr as int, at, known),
                    Operator::Like,
                    operand(nodes, pattern as int, at, known),
                ),
            ),
            SqlNodeV::BinaryOp { left, op, right } => match binary_operator(op) {
                Err(e) => Err(e),
                Ok(o) => operation(
                    operand(nodes, left as int, at, known),
                    o,
                    operand(nodes, right as int, at, known),
                ),
            },
            SqlNodeV::Nested(inner) => operand(nodes, inner as int, at, known),
            SqlNodeV::UnaryOp { op, expr } => unary_operation(op, operand(nodes, expr as int, at, known)),
            SqlNodeV::IsNull(inner) => null_test(operand(nodes, inner as int, at, known)),
            SqlNodeV::IsNotNull(inner) => negated_if(true, null_test(operand(nodes, inner as int, at, known))),
            SqlNodeV::Between { expr, negated, low, high } => negated_if(
                negated,
                range_test(
                    operand(nodes, expr as int, at, known),
                    operand(nodes, low as int, at, known),
                    operand(nodes, high as int, at, known),
                ),
            ),
            SqlNodeV::InList { expr, list, negated } => negated_if(
                negated,
                membership(operand(nodes, expr as int, at, known), operands(nodes, list, at, known)),
            ),
            SqlNodeV::Case { operand, conditions, results, else_result } => if conditions.len() != results.len() {
                Err(facts::plain_error(ErrorKind::Malformed))
            } else {
                case_of(
                    maybe_operand(nodes, operand, at, known),
                    clauses(nodes, conditions, results, at, known),
                    maybe_operand(nodes, else_result, at, known),
                )
            },
            SqlNodeV::Substring { expr, from, count } => call_of(
                "SUBSTRING"@,
                operands(nodes, substring_operands(expr, from, count), at, known),
            ),
            SqlNodeV::Function { name, args, .. } => if is_aggregate(text::uppercased(name)) {
                Err(facts::named_error(ErrorKind::AggregateInScalar, name))
            } else if is_scalar(text::uppercased(name)) {
                match args {
                    FunctionArgumentsV::List { args, .. } => call_of(name, arguments(nodes, args, at, known)),
                    _ => Err(facts::named_error(ErrorKind::FunctionArguments, name)),
                }
            } else {
                Err(facts::named_error(ErrorKind::UnsupportedFunction, name))
            },
            SqlNodeV::MatchAgainst { columns, value } => planned_match(columns, value),
            SqlNodeV::Other { text, .. } => Err(facts::named_error(ErrorKind::UnsupportedExpr, text)),
        }
    }
}

/// The outcome of planning an operand of the node at a position. An operand stands before
/// the node it belongs to.
pub open spec fn operand(nodes: Seq<SqlNodeV>, i: int, at: int, known: Seq<(QuestionV, AnswerV)>) -> Result<
    ExprV,
    ErrorV,
>
    decreases at, 0int,
{
    if 0 <= i < at {
        planned(nodes, i, known)
    } else {
        Err(facts::plain_error(ErrorKind::Malformed))
    }
}

/// The outcomes of planning some operands of the node at a position.
pub open spec fn operands(nodes: Seq<SqlNodeV>, ids: Seq<usize>, at: int, known: Seq<(QuestionV, AnswerV)>) -> Seq<
    Result<ExprV, ErrorV>,
>
    decreases at, 1int,
{
    Seq::new(ids.len(), |i: int| operand(nodes, ids[i] as int, at, known))
}

/// The outcome of planning an optional operand of the node at a position.
pub open spec fn maybe_operand(
    nodes: Seq<SqlNodeV>,
    id: Option<usize>,
    at: int,
    known: Seq<(QuestionV, AnswerV)>,
) -> Result<Option<Box<ExprV>>, ErrorV>
    decreases at, 1int,
{
    match id {
        None => Ok(None),
        Some(i) => match operand(nodes, i as int, at, known) {
            Ok(x) => Ok(Some(Box::new(x))),
            Err(e) => Err(e),
        },
    }
}

/// The outcomes of planning the clauses of a CASE.
pub open spec fn clauses(
    nodes: Seq<SqlNodeV>,
    conditions: Seq<usize>,
    results: Seq<usize>,
    at: int,
    known: Seq<(QuestionV, AnswerV)>,
) -> Seq<Result<(ExprV, ExprV), ErrorV>>
    decreases at, 1int,
{
    Seq::new(
        conditions.len(),
        |i: int| paired(operand(nodes, conditions[i] as int, at, known), operand(nodes, results[i] as int, at, known)),
    )
}

/// The outcomes of planning the arguments of a call.
pub open spec fn arguments(
    nodes: Seq<SqlNodeV>,
    args: Seq<FunctionArgumentV>,
    at: int,
    known: Seq<(QuestionV, AnswerV)>,
) -> Seq<Result<ExprV, ErrorV>>
    decreases at, 1int,
{
    Seq::new(
        args.len(),
        |i: int|
            match args[i] {
                FunctionArgumentV::Unnamed(id) => operand(nodes, id as int, at, known),
                _ => Err(facts::plain_error(ErrorKind::FunctionArgument)),
            },
    )
}

/// Plans an identifier.
fn plan_identifier(name: &String, quote: Option<char>) -> (out: Expr)
    ensures
        out@ == planned_identifier(name@, quote),
{
    let quoted = match quote {
        Some(c) => c == '"',
        None => false,
    };
    if quoted {
        Expr::Literal(DbValue::String(name.clone()))
    } else {
        match parameters::strip_first(name.as_str(), '@') {
            Some(rest) => Expr::Parameter(rest),
            None => Expr::Column(name.clone(), None),
        }
    }
}

/// The value of a numeric literal.
pub fn number(s: &String, malformed: ErrorKind, facts: &Facts) -> (out: Result<DbValue, SqlError>)
    ensures
        match out {
            Ok(v) => number_value(s@, malformed, facts@) == Ok::<ValueV, ErrorV>(v@),
            Err(e) => number_value(s@, malformed, facts@) == Err::<ValueV, ErrorV>(e@),
        },
{
    match text::parse_int(s.as_str()) {
        Ok(i) => Ok(DbValue::Int(i)),
        Err(_) => {
            let parsed = facts.parsed_float(Question::FloatParsed(s.clone()))?;
            match parsed {
                Ok(f) => Ok(DbValue::Float(f)),
                Err(_) => Err(SqlError::named(malformed, s.as_str())),
            }
        },
    }
}

/// Plans a literal.
fn plan_value(v: &SqlValue, facts: &Facts) -> (out: Result<Expr, SqlError>)
    ensures
        expr::expr_result(out) == planned_value(v@, facts@),
{
    match v {
        SqlValue::Number(s) => {
            let x = number(s, ErrorKind::InvalidNumber, facts)?;
            Ok(Expr::Literal(x))
        },
        SqlValue::SingleQuotedString(s) => Ok(Expr::Literal(DbValue::String(s.clone()))),
        SqlValue::Boolean(b) => Ok(Expr::Literal(DbValue::Bool(*b))),
        SqlValue::Null => Ok(Expr::Literal(DbValue::Null)),
        SqlValue::Placeholder(p) => match parameters::strip_first(p.as_str(), ':') {
            Some(rest) => Ok(Expr::Parameter(rest)),
            None => Ok(Expr::Parameter(p.clone())),
        },
        SqlValue::HexStringLiteral(s) => Err(SqlError::named(ErrorKind::UnsupportedValue, s.as_str())),
        SqlValue::Other(s) => Err(SqlError::named(ErrorKind::UnsupportedValue, s.as_str())),
    }
}

/// The operator of a binary operation.
fn plan_operator(op: &SqlBinaryOperator) -> (out: Result<Operator, SqlError>)
    ensures
        match out {
            Ok(o) => binary_operator(op@) == Ok::<Operator, ErrorV>(o),
            Err(e) => binary_operator(op@) == Err::<Operator, ErrorV>(e@),
        },
{
    match op {
        SqlBinaryOperator::Eq => Ok(Operator::Eq),
        SqlBinaryOperator::Gt => Ok(Operator::Gt),
        SqlBinaryOperator::Lt => Ok(Operator::Lt),
        SqlBinaryOperator::GtEq => Ok(Operator::GtEq),
        SqlBinaryOperator::LtEq => Ok(Operator::LtEq),
        SqlBinaryOperator::NotEq => Ok(Operator::NotEq),
        SqlBinaryOperator::And => Ok(Operator::And),
        SqlBinaryOperator::Or => Ok(Operator::Or),
        SqlBinaryOperator::Plus => Ok(Operator::Add),
        SqlBinaryOperator::Minus => Ok(Operator::Sub),
        SqlBinaryOperator::Multiply => Ok(Operator::Mul),
        SqlBinaryOperator::Divide => Ok(Operator::Div),
        SqlBinaryOperator::Other(s) => Err(SqlError::named(ErrorKind::UnsupportedOperator, s.as_str())),
    }
}

/// The minus of a literal.
fn negate_literal(v: DbValue) -> (out: Result<Expr, SqlError>)
    ensures
        expr::expr_result(out) == unary_operation(SqlUnaryOperatorV::Minus, Ok(ExprV::Literal(v@))),
{
    match v {
        DbValue::Int(i) => if i == i64::MIN {
            Err(SqlError::plain(ErrorKind::IntegerOverflow))
        } else {
            Ok(Expr::Literal(DbValue::Int(-i)))
        },
        DbValue::Float(f) => Ok(Expr::Literal(DbValue::Float(value::negate_float(f)))),
        other => Ok(binary(Expr::Literal(DbValue::Int(0)), Operator::Sub, Expr::Literal(other))),
    }
}

/// Applies a unary operator.
fn apply_unary(op: &SqlUnaryOperator, x: Expr) -> (out: Result<Expr, SqlError>)
    ensures
        expr::expr_result(out) == unary_operation(op@, Ok(x@)),
{
    match op {
        SqlUnaryOperator::Minus => match x {
            Expr::Literal(v) => negate_literal(v),
            other => Ok(binary(Expr::Literal(DbValue::Int(0)), Operator::Sub, other)),
        },
        SqlUnaryOperator::Plus => Ok(x),
        SqlUnaryOperator::Not => Ok(Expr::Not(Box::new(x))),
        SqlUnaryOperator::Other(s) => Err(SqlError::named(ErrorKind::UnsupportedUnary, s.as_str())),
    }
}

/// A negation, where it is asked for.
fn negate_if(negated: bool, x: Expr) -> (out: Expr)
    ensures
        Ok::<ExprV, ErrorV>(out@) == negated_if(negated, Ok(x@)),
{
    if negated {
        Expr::Not(Box::new(x))
    } else {
        x
    }
}

/// A binary operation.
fn binary(l: Expr, op: Operator, r: Expr) -> (out: Expr)
    ensures
        Ok::<ExprV, ErrorV>(out@) == operation(Ok(l@), op, Ok(r@)),
{
    Expr::BinaryOp { left: Box::new(l), op, right: Box::new(r) }
}

/// Whether an upper case name is that of an aggregate function.
pub fn names_aggregate(name: &str) -> (out: bool)
    ensures
        out == is_aggregate(name@),
{
    text::same_text(name, "COUNT") || text::same_text(name, "SUM") || text::same_text(name, "MIN")
        || text::same_text(name, "MAX") || text::same_text(name, "AVG")
}

/// Whether an upper case name is that of a scalar function.
fn names_scalar(name: &str) -> (out: bool)
    ensures
        out == is_scalar(name@),
{
    text::same_text(name, "SUBSTR") || text::same_text(name, "SUBSTRING") || text::same_text(name, "LENGTH")
        || text::same_text(name, "COALESCE") || text::same_text(name, "UPPER") || text::same_text(name, "LOWER")
        || text::same_text(name, "CONCAT") || text::same_text(name, "ABS") || text::same_text(name, "ROUND")
}

/// Plans a full-text match.
fn plan_match(columns: &Vec<String>, v: &SqlValue) -> (out: Result<Expr, SqlError>)
    ensures
        expr::expr_result(out) == planned_match(text::views(columns@), v@),
{
    if columns.len() != 1 {
        return Err(SqlError::plain(ErrorKind::MatchColumns));
    }
    match v {
        SqlValue::SingleQuotedString(s) => Ok(
            Expr::Match { column: columns[0].clone(), index: None, query_str: s.clone() },
        ),
        _ => Err(SqlError::plain(ErrorKind::MatchQuery)),
    }
}

/// Plans an operand of the node at a position.
fn plan_operand(nodes: &Vec<SqlNode>, i: usize, at: usize, facts: &Facts) -> (out: Result<Expr, SqlError>)
    ensures
        expr::expr_result(out) == operand(syntax::sql_nodes_view(nodes@), i as int, at as int, facts@),
    decreases at, 0int,
{
    if i < at {
        plan_expr(nodes, i, facts)
    } else {
        Err(SqlError::plain(ErrorKind::Malformed))
    }
}

/// Plans some operands of the node at a position.
fn plan_operands(nodes: &Vec<SqlNode>, ids: &Vec<usize>, at: usize, facts: &Facts) -> (out: Result<Vec<Expr>, SqlError>)
    ensures
        expr::exprs_result(out) == facts::collected(
            operands(syntax::sql_nodes_view(nodes@), ids@, at as int, facts@),
            0,
            Seq::empty(),
        ),
    decreases at, 1int,
{
    let mut out: Vec<Expr> = Vec::new();
    let ghost rs = operands(syntax::sql_nodes_view(nodes@), ids@, at as int, facts@);
    assert(expr::exprs_view(out@) =~= Seq::empty());
    for i in 0..ids.len()
        invariant
            rs == operands(syntax::sql_nodes_view(nodes@), ids@, at as int, facts@),
            rs.len() == ids@.len(),
            facts::collected(rs, 0, Seq::empty()) == facts::collected(rs, i as int, expr::exprs_view(out@)),
    {
        let ghost before = expr::exprs_view(out@);
        assert(rs[i as int] == operand(syntax::sql_nodes_view(nodes@), ids@[i as int] as int, at as int, facts@));
        let x = plan_operand(nodes, ids[i], at, facts)?;
        out.push(x);
        assert(expr::exprs_view(out@) =~= before.push(x@));
    }
    Ok(out)
}

/// Plans the arguments of the call at a position.
fn plan_arguments(nodes: &Vec<SqlNode>, args: &Vec<FunctionArgument>, at: usize, facts: &Facts) -> (out: Result<
    Vec<Expr>,
    SqlError,
>)
    ensures
        expr::exprs_result(out) == facts::collected(
            arguments(syntax::sql_nodes_view(nodes@), syntax::function_arguments_view(args@), at as int, facts@),
            0,
            Seq::empty(),
        ),
    decreases at, 1int,
{
    let mut out: Vec<Expr> = Vec::new();
    let ghost rs = arguments(syntax::sql_nodes_view(nodes@), syntax::function_arguments_view(args@), at as int, facts@);
    assert(expr::exprs_view(out@) =~= Seq::empty());
    for i in 0..args.len()
        invariant
            rs == arguments(syntax::sql_nodes_view(nodes@), syntax::function_arguments_view(args@), at as int, facts@),
            rs.len() == args@.len(),
            facts::collected(rs, 0, Seq::empty()) == facts::collected(rs, i as int, expr::exprs_view(out@)),
    {
        let ghost before = expr::exprs_view(out@);
        assert(syntax::function_arguments_view(args@)[i as int] == args@[i as int]@);
        match &args[i] {
            FunctionArgument::Unnamed(id) => {
                assert(rs[i as int] == operand(syntax::sql_nodes_view(nodes@), *id as int, at as int, facts@));
                let x = plan_operand(nodes, *id, at, facts)?;
                out.push(x);
                assert(expr::exprs_view(out@) =~= before.push(x@));
            },
            _ => {
                return Err(SqlError::plain(ErrorKind::FunctionArgument));
            },
        }
    }
    Ok(out)
}

/// Plans an optional operand of the node at a position.
fn plan_maybe_operand(nodes: &Vec<SqlNode>, id: Option<usize>, at: usize, facts: &Facts) -> (out: Result<
    Option<Box<Expr>>,
    SqlError,
>)
    ensures
        expr::opt_expr_result(out) == maybe_operand(syntax::sql_nodes_view(nodes@), id, at as int, facts@),
    decreases at, 1int,
{
    match id {
        None => Ok(None),
        Some(i) => {
            let x = plan_operand(nodes, i, at, facts)?;
            Ok(Some(Box::new(x)))
        },
    }
}

/// The pairs of two lists of expressions.
spec fn zipped(a: Seq<Expr>, b: Seq<Expr>) -> Seq<(ExprV, ExprV)> {
    Seq::new(a.len(), |i: int| (a[i]@, b[i]@))
}

/// Plans the CASE at a position.
fn plan_case(
    nodes: &Vec<SqlNode>,
    case_operand: Option<usize>,
    conditions: &Vec<usize>,
    results: &Vec<usize>,
    else_result: Option<usize>,
    at: usize,
    facts: &Facts,
) -> (out: Result<Expr, SqlError>)
    requires
        conditions@.len() == results@.len(),
    ensures
        expr::expr_result(out) == case_of(
            maybe_operand(syntax::sql_nodes_view(nodes@), case_operand, at as int, facts@),
            clauses(syntax::sql_nodes_view(nodes@), conditions@, results@, at as int, facts@),
            maybe_operand(syntax::sql_nodes_view(nodes@), else_result, at as int, facts@),
        ),
    decreases at, 2int,
{
    let operand_expr = plan_maybe_operand(nodes, case_operand, at, facts)?;
    let mut conds: Vec<Expr> = Vec::new();
    let mut outs: Vec<Expr> = Vec::new();
    let ghost rs = clauses(syntax::sql_nodes_view(nodes@), conditions@, results@, at as int, facts@);
    assert(zipped(conds@, outs@) =~= Seq::empty());
    for i in 0..conditions.len()
        invariant
            conditions@.len() == results@.len(),
            rs == clauses(syntax::sql_nodes_view(nodes@), conditions@, results@, at as int, facts@),
            rs.len() == conditions@.len(),
            conds@.len() == i,
            outs@.len() == i,
            facts::collected(rs, 0, Seq::empty()) == facts::collected(rs, i as int, zipped(conds@, outs@)),
            expr::opt_expr_result(Ok(operand_expr)) == maybe_operand(
                syntax::sql_nodes_view(nodes@),
                case_operand,
                at as int,
                facts@,
            ),
    {
        let ghost before = zipped(conds@, outs@);
        assert(rs[i as int] == paired(
            operand(syntax::sql_nodes_view(nodes@), conditions@[i as int] as int, at as int, facts@),
            operand(syntax::sql_nodes_view(nodes@), results@[i as int] as int, at as int, facts@),
        ));
        let c = plan_operand(nodes, conditions[i], at, facts)?;
        let r = plan_operand(nodes, results[i], at, facts)?;
        conds.push(c);
        outs.push(r);
        assert(zipped(conds@, outs@) =~= before.push((c@, r@)));
    }
    let otherwise = plan_maybe_operand(nodes, else_result, at, facts)?;
    proof {
        let pairs = zipped(conds@, outs@);
        assert(pairs.map_values(|p: (ExprV, ExprV)| p.0) =~= expr::exprs_view(conds@));
        assert(pairs.map_values(|p: (ExprV, ExprV)| p.1) =~= expr::exprs_view(outs@));
    }
    Ok(Expr::Case { operand: operand_expr, conditions: conds, results: outs, else_result: otherwise })
}

/// Plans the call at a position.
fn plan_call(nodes: &Vec<SqlNode>, name: &String, args: &FunctionArguments, at: usize, facts: &Facts) -> (out: Result<
    Expr,
    SqlError,
>)
    requires
        at < nodes@.len(),
        nodes@[at as int]@ matches SqlNodeV::Function { name: n, args: a, .. } && n == name@ && a == args@,
    ensures
        expr::expr_result(out) == planned(syntax::sql_nodes_view(nodes@), at as int, facts@),
    decreases at, 2int,
{
    assert(syntax::sql_nodes_view(nodes@)[at as int] == nodes@[at as int]@);
    let upper = text::to_uppercase(name.as_str());
    if names_aggregate(upper.as_str()) {
        return Err(SqlError::named(ErrorKind::AggregateInScalar, name.as_str()));
    }
    if !names_scalar(upper.as_str()) {
        return Err(SqlError::named(ErrorKind::UnsupportedFunction, name.as_str()));
    }
    match args {
        FunctionArguments::List { args, .. } => {
            let xs = plan_arguments(nodes, args, at, facts)?;
            Ok(Expr::Function { name: name.clone(), args: xs })
        },
        _ => Err(SqlError::named(ErrorKind::FunctionArguments, name.as_str())),
    }
}

/// Plans the node at a position.
pub fn plan_expr(nodes: &Vec<SqlNode>, at: usize, facts: &Facts) -> (out: Result<Expr, SqlError>)
    ensures
        expr::expr_result(out) == planned(syntax::sql_nodes_view(nodes@), at as int, facts@),
    decreases at, 3int,
{
    if at >= nodes.len() {
        return Err(SqlError::plain(ErrorKind::Malformed));
    }
    assert(syntax::sql_nodes_view(nodes@)[at as int] == nodes@[at as int]@);
    match &nodes[at] {
        SqlNode::Identifier { value, quote } => Ok(plan_identifier(value, *quote)),
        SqlNode::CompoundIdentifier(parts) => Ok(Expr::Column(text::join(parts, '.'), None)),
        SqlNode::Value(v) => plan_value(v, facts),
        SqlNode::Like { negated, expr, pattern } => {
            let l = plan_operand(nodes, *expr, at, facts)?;
            let r = plan_operand(nodes, *pattern, at, facts)?;
            Ok(negate_if(*negated, binary(l, Operator::Like, r)))
        },
        SqlNode::BinaryOp { left, op, right } => {
            let o = plan_operator(op)?;
            let l = plan_operand(nodes, *left, at, facts)?;
            let r = plan_operand(nodes, *right, at, facts)?;
            Ok(binary(l, o, r))
        },
        SqlNode::Nested(inner) => plan_operand(nodes, *inner, at, facts),
        SqlNode::UnaryOp { op, expr } => {
            let x = plan_operand(nodes, *expr, at, facts)?;
            apply_unary(op, x)
        },
        SqlNode::IsNull(inner) => {
            let x = plan_operand(nodes, *inner, at, facts)?;
            Ok(Expr::IsNull(Box::new(x)))
        },
        SqlNode::IsNotNull(inner) => {
            let x = plan_operand(nodes, *inner, at, facts)?;
            Ok(negate_if(true, Expr::IsNull(Box::new(x))))
        },
        SqlNode::Between { expr, negated, low, high } => {
            let x = plan_operand(nodes, *expr, at, facts)?;
            let l = plan_operand(nodes, *low, at, facts)?;
            let h = plan_operand(nodes, *high, at, facts)?;
            let lower = binary(x.copy(), Operator::GtEq, l);
            let upper = binary(x, Operator::LtEq, h);
            Ok(negate_if(*negated, binary(lower, Operator::And, upper)))
        },
        SqlNode::InList { expr, list, negated } => {
            let x = plan_operand(nodes, *expr, at, facts)?;
            let xs = plan_operands(nodes, list, at, facts)?;
            Ok(negate_if(*negated, Expr::InList { expr: Box::new(x), list: xs }))
        },
        SqlNode::Case { operand, conditions, results, else_result } => if conditions.len() != results.len() {
            Err(SqlError::plain(ErrorKind::Malformed))
        } else {
            plan_case(nodes, *operand, conditions, results, *else_result, at, facts)
        },
        SqlNode::Substring { expr, from, count } => {
            let mut ids: Vec<usize> = Vec::new();
            ids.push(*expr);
            match from {
                Some(i) => ids.push(*i),
                None => {},
            }
            match count {
                Some(i) => ids.push(*i),
                None => {},
            }
            assert(ids@ =~= substring_operands(*expr, *from, *count));
            let xs = plan_operands(nodes, &ids, at, facts)?;
            Ok(Expr::Function { name: "SUBSTRING".to_owned(), args: xs })
        },
        SqlNode::Function { name, args, .. } => plan_call(nodes, name, args, at, facts),
        SqlNode::MatchAgainst { columns, value } => plan_match(columns, value),
        SqlNode::Other { text, .. } => Err(SqlError::named(ErrorKind::UnsupportedExpr, text.as_str())),
    }
}

} // verus!
