//! The trees of the parser of the `sqlparser` crate, taken apart level by level.
//!
//! What a tree holds at a level is a function of the tree alone, and has a name here.

use crate::schema;
use crate::syntax::{
    DropKind, InsertTable, InsertTableV, JoinKind, NamePart, NamePartV, OptionToken, OptionTokenV, SetOperator,
    SqlBinaryOperator, SqlBinaryOperatorV, SqlDataType, SqlDataTypeV, SqlUnaryOperator, SqlUnaryOperatorV, SqlValue,
    SqlValueV,
};
use crate::tokens;
use sqlparser::ast::{
    Assignment as TreeAssignment, ColumnDef as TreeColumnDef, DataType as TreeDataType, Expr as TreeExpr, Join
    as TreeJoin, JoinConstraint as TreeJoinConstraint, ObjectName as TreeObjectName, Query as TreeQuery,
    Select as TreeSelect, SelectItem as TreeSelectItem, Statement as TreeStatement, TableConstraint as
    TreeTableConstraint, TableFactor as TreeTableFactor, TableWithJoins as TreeTableWithJoins,
};
use vstd::prelude::*;
use vstd::string::*;

verus! {

// ---------------------------------------------------------------- the parser's types

/// An expression of the parser.
#[verifier::external_type_specification]
#[verifier::external_body]
pub struct ParserExpr(TreeExpr);

/// An identifier of the parser.
#[verifier::external_type_specification]
#[verifier::external_body]
pub struct ParserIdent(sqlparser::ast::Ident);

/// A literal of the parser.
#[verifier::external_type_specification]
#[verifier::external_body]
pub struct ParserValue(sqlparser::ast::Value);

/// A binary operator of the parser.
#[verifier::external_type_specification]
#[verifier::external_body]
pub struct ParserBinaryOperator(sqlparser::ast::BinaryOperator);

/// A unary operator of the parser.
#[verifier::external_type_specification]
#[verifier::external_body]
pub struct ParserUnaryOperator(sqlparser::ast::UnaryOperator);

/// A clause of a CASE of the parser.
#[verifier::external_type_specification]
#[verifier::external_body]
pub struct ParserCaseWhen(sqlparser::ast::CaseWhen);

/// A call of the parser.
#[verifier::external_type_specification]
#[verifier::external_body]
pub struct ParserFunction(sqlparser::ast::Function);

/// An argument of a call of the parser.
#[verifier::external_type_specification]
#[verifier::external_body]
pub struct ParserFunctionArg(sqlparser::ast::FunctionArg);

/// A name of the parser.
#[verifier::external_type_specification]
#[verifier::external_body]
pub struct ParserObjectName(TreeObjectName);

/// A part of a name of the parser.
#[verifier::external_type_specification]
#[verifier::external_body]
pub struct ParserNamePart(sqlparser::ast::ObjectNamePart);

/// A query of the parser.
#[verifier::external_type_specification]
#[verifier::external_body]
pub struct ParserQuery(TreeQuery);

/// The body of a query of the parser.
#[verifier::external_type_specification]
#[verifier::external_body]
pub struct ParserSetExpr(sqlparser::ast::SetExpr);

/// A SELECT of the parser.
#[verifier::external_type_specification]
#[verifier::external_body]
pub struct ParserSelect(TreeSelect);

/// An item of a SELECT list of the parser.
#[verifier::external_type_specification]
#[verifier::external_body]
pub struct ParserSelectItem(TreeSelectItem);

/// A table with joins of the parser.
#[verifier::external_type_specification]
#[verifier::external_body]
pub struct ParserTableWithJoins(TreeTableWithJoins);

/// A source of rows of the parser.
#[verifier::external_type_specification]
#[verifier::external_body]
pub struct ParserTableFactor(TreeTableFactor);

/// A joined table of the parser.
#[verifier::external_type_specification]
#[verifier::external_body]
pub struct ParserJoin(TreeJoin);

/// The kind of a join of the parser.
#[verifier::external_type_specification]
#[verifier::external_body]
pub struct ParserJoinOperator(sqlparser::ast::JoinOperator);

/// The condition of a join of the parser.
#[verifier::external_type_specification]
#[verifier::external_body]
pub struct ParserJoinConstraint(TreeJoinConstraint);

/// A sort key of the parser.
#[verifier::external_type_specification]
#[verifier::external_body]
pub struct ParserOrderByExpr(sqlparser::ast::OrderByExpr);

/// A list in parentheses of the parser.
#[verifier::external_type_specification]
#[verifier::external_body]
#[verifier::reject_recursive_types(T)]
pub struct ParserParens<T>(sqlparser::ast::Parens<T>);

/// A statement of the parser.
#[verifier::external_type_specification]
#[verifier::external_body]
pub struct ParserStatement(TreeStatement);

/// A CREATE TABLE of the parser.
#[verifier::external_type_specification]
#[verifier::external_body]
pub struct ParserCreateTable(sqlparser::ast::CreateTable);

/// A column definition of the parser.
#[verifier::external_type_specification]
#[verifier::external_body]
pub struct ParserColumnDef(TreeColumnDef);

/// A column option of the parser.
#[verifier::external_type_specification]
#[verifier::external_body]
pub struct ParserColumnOptionDef(sqlparser::ast::ColumnOptionDef);

/// A column type of the parser.
#[verifier::external_type_specification]
#[verifier::external_body]
pub struct ParserDataType(TreeDataType);

/// A token of the parser.
#[verifier::external_type_specification]
#[verifier::external_body]
pub struct ParserToken(sqlparser::tokenizer::Token);

/// A table constraint of the parser.
#[verifier::external_type_specification]
#[verifier::external_body]
pub struct ParserTableConstraint(TreeTableConstraint);

/// A table option of the parser.
#[verifier::external_type_specification]
#[verifier::external_body]
pub struct ParserSqlOption(sqlparser::ast::SqlOption);

/// A CREATE INDEX of the parser.
#[verifier::external_type_specification]
#[verifier::external_body]
pub struct ParserCreateIndex(sqlparser::ast::CreateIndex);

/// A column of an index of the parser.
#[verifier::external_type_specification]
#[verifier::external_body]
pub struct ParserIndexColumn(sqlparser::ast::IndexColumn);

/// An operation of an ALTER TABLE of the parser.
#[verifier::external_type_specification]
#[verifier::external_body]
pub struct ParserAlterOperation(sqlparser::ast::AlterTableOperation);

/// An INSERT of the parser.
#[verifier::external_type_specification]
#[verifier::external_body]
pub struct ParserInsert(sqlparser::ast::Insert);

/// A DELETE of the parser.
#[verifier::external_type_specification]
#[verifier::external_body]
pub struct ParserDelete(sqlparser::ast::Delete);

/// An UPDATE of the parser.
#[verifier::external_type_specification]
#[verifier::external_body]
pub struct ParserUpdate(sqlparser::ast::Update);

/// An assignment of the parser.
#[verifier::external_type_specification]
#[verifier::external_body]
pub struct ParserAssignment(TreeAssignment);

/// The kind of a dropped object of the parser.
#[verifier::external_type_specification]
#[verifier::external_body]
pub struct ParserObjectType(sqlparser::ast::ObjectType);

// ---------------------------------------------------------------- what is borrowed

/// What is borrowed, where there is something.
pub open spec fn held<T>(o: Option<&T>) -> Option<T> {
    match o {
        Some(x) => Some(*x),
        None => None,
    }
}

/// The model of an optional expression, taken apart.
pub open spec fn shape_of(o: Option<ExprShape>) -> Option<ExprShapeV> {
    match o {
        Some(x) => Some(x@),
        None => None,
    }
}

/// The model of an optional body, taken apart.
pub open spec fn set_shape_of(o: Option<SetShape>) -> Option<SetShapeV> {
    match o {
        Some(x) => Some(x@),
        None => None,
    }
}

/// The model of an optional operator.
pub open spec fn operator_of(o: Option<SqlBinaryOperator>) -> Option<SqlBinaryOperatorV> {
    match o {
        Some(x) => Some(x@),
        None => None,
    }
}

/// The model of an optional type.
pub open spec fn type_held(o: Option<SqlDataType>) -> Option<SqlDataTypeV> {
    match o {
        Some(x) => Some(x@),
        None => None,
    }
}

/// Borrowed expressions and a number, where there are some.
pub open spec fn groups_held(o: Option<(&Vec<sqlparser::ast::Expr>, usize)>) -> Option<
    (Seq<sqlparser::ast::Expr>, usize),
> {
    match o {
        Some(x) => Some((x.0@, x.1)),
        None => None,
    }
}

/// A kind of join and its borrowed condition, where there are some.
pub open spec fn planned_held(o: Option<(JoinKind, &sqlparser::ast::JoinConstraint)>) -> Option<
    (JoinKind, sqlparser::ast::JoinConstraint),
> {
    match o {
        Some(x) => Some((x.0, *x.1)),
        None => None,
    }
}

/// A borrowed key and its value, where there are some.
pub open spec fn pair_held(o: Option<(&sqlparser::ast::Ident, &sqlparser::ast::Expr)>) -> Option<
    (sqlparser::ast::Ident, sqlparser::ast::Expr),
> {
    match o {
        Some(x) => Some((*x.0, *x.1)),
        None => None,
    }
}

/// Borrowed options, where there are some.
pub open spec fn options_held(o: Option<&Vec<sqlparser::ast::SqlOption>>) -> Option<Seq<sqlparser::ast::SqlOption>> {
    match o {
        Some(x) => Some(x@),
        None => None,
    }
}

/// Borrowed columns, where there are some.
pub open spec fn columns_held(o: Option<&Vec<sqlparser::ast::IndexColumn>>) -> Option<
    Seq<sqlparser::ast::IndexColumn>,
> {
    match o {
        Some(x) => Some(x@),
        None => None,
    }
}

// ---------------------------------------------------------------- one level of the tree

/// An expression, taken apart.
pub enum ExprShape<'a> {
    Identifier(&'a sqlparser::ast::Ident),
    Compound(&'a Vec<sqlparser::ast::Ident>),
    Value(&'a sqlparser::ast::Value),
    Like(bool, &'a sqlparser::ast::Expr, &'a sqlparser::ast::Expr),
    Binary(&'a sqlparser::ast::Expr, &'a sqlparser::ast::BinaryOperator, &'a sqlparser::ast::Expr),
    Nested(&'a sqlparser::ast::Expr),
    Unary(&'a sqlparser::ast::UnaryOperator, &'a sqlparser::ast::Expr),
    IsNull(&'a sqlparser::ast::Expr),
    IsNotNull(&'a sqlparser::ast::Expr),
    Between(&'a sqlparser::ast::Expr, bool, &'a sqlparser::ast::Expr, &'a sqlparser::ast::Expr),
    InList(&'a sqlparser::ast::Expr, &'a Vec<sqlparser::ast::Expr>, bool),
    Case(Option<&'a sqlparser::ast::Expr>, &'a Vec<sqlparser::ast::CaseWhen>, Option<&'a sqlparser::ast::Expr>),
    Substring(&'a sqlparser::ast::Expr, Option<&'a sqlparser::ast::Expr>, Option<&'a sqlparser::ast::Expr>),
    Call(&'a sqlparser::ast::Function),
    MatchAgainst(&'a Vec<sqlparser::ast::ObjectName>, &'a sqlparser::ast::Value),
    Subquery(&'a sqlparser::ast::Query),
    InSubquery(&'a sqlparser::ast::Expr, &'a sqlparser::ast::Query),
}

/// The model of `ExprShape`.
#[allow(inconsistent_fields)]
pub enum ExprShapeV {
    Identifier(sqlparser::ast::Ident),
    Compound(Seq<sqlparser::ast::Ident>),
    Value(sqlparser::ast::Value),
    Like(bool, sqlparser::ast::Expr, sqlparser::ast::Expr),
    Binary(sqlparser::ast::Expr, sqlparser::ast::BinaryOperator, sqlparser::ast::Expr),
    Nested(sqlparser::ast::Expr),
    Unary(sqlparser::ast::UnaryOperator, sqlparser::ast::Expr),
    IsNull(sqlparser::ast::Expr),
    IsNotNull(sqlparser::ast::Expr),
    Between(sqlparser::ast::Expr, bool, sqlparser::ast::Expr, sqlparser::ast::Expr),
    InList(sqlparser::ast::Expr, Seq<sqlparser::ast::Expr>, bool),
    Case(Option<sqlparser::ast::Expr>, Seq<sqlparser::ast::CaseWhen>, Option<sqlparser::ast::Expr>),
    Substring(sqlparser::ast::Expr, Option<sqlparser::ast::Expr>, Option<sqlparser::ast::Expr>),
    Call(sqlparser::ast::Function),
    MatchAgainst(Seq<sqlparser::ast::ObjectName>, sqlparser::ast::Value),
    Subquery(sqlparser::ast::Query),
    InSubquery(sqlparser::ast::Expr, sqlparser::ast::Query),
}

impl<'a> ExprShape<'a> {
    /// The model.
    pub open spec fn view(&self) -> ExprShapeV {
        match self {
            ExprShape::Identifier(a) => ExprShapeV::Identifier(**a),
            ExprShape::Compound(a) => ExprShapeV::Compound(a@),
            ExprShape::Value(a) => ExprShapeV::Value(**a),
            ExprShape::Like(a, b, c) => ExprShapeV::Like(*a, **b, **c),
            ExprShape::Binary(a, b, c) => ExprShapeV::Binary(**a, **b, **c),
            ExprShape::Nested(a) => ExprShapeV::Nested(**a),
            ExprShape::Unary(a, b) => ExprShapeV::Unary(**a, **b),
            ExprShape::IsNull(a) => ExprShapeV::IsNull(**a),
            ExprShape::IsNotNull(a) => ExprShapeV::IsNotNull(**a),
            ExprShape::Between(a, b, c, d) => ExprShapeV::Between(**a, *b, **c, **d),
            ExprShape::InList(a, b, c) => ExprShapeV::InList(**a, b@, *c),
            ExprShape::Case(a, b, c) => ExprShapeV::Case(held(*a), b@, held(*c)),
            ExprShape::Substring(a, b, c) => ExprShapeV::Substring(**a, held(*b), held(*c)),
            ExprShape::Call(a) => ExprShapeV::Call(**a),
            ExprShape::MatchAgainst(a, b) => ExprShapeV::MatchAgainst(a@, **b),
            ExprShape::Subquery(a) => ExprShapeV::Subquery(**a),
            ExprShape::InSubquery(a, b) => ExprShapeV::InSubquery(**a, **b),
        }
    }
}

/// What `open_simple` gives: it depends on its argument alone.
pub uninterp spec fn simple_parts(e: sqlparser::ast::Expr) -> Option<ExprShapeV>;

/// The parts of a `sqlparser::ast::Expr` that is a name, a literal, an operator or a call; none
/// of any other.
#[verifier::external_body]
pub(crate) fn open_simple<'a>(e: &'a sqlparser::ast::Expr) -> (out: Option<ExprShape<'a>>)
    ensures
        shape_of(out) == simple_parts(*e),
{
    match e {
        TreeExpr::Identifier(i) => Some(ExprShape::Identifier(i)),
        TreeExpr::CompoundIdentifier(parts) => Some(ExprShape::Compound(parts)),
        TreeExpr::Value(v) => Some(ExprShape::Value(&v.value)),
        TreeExpr::BinaryOp { left, op, right } => Some(ExprShape::Binary(left, op, right)),
        TreeExpr::Nested(x) => Some(ExprShape::Nested(x)),
        TreeExpr::UnaryOp { op, expr } => Some(ExprShape::Unary(op, expr)),
        TreeExpr::IsNull(x) => Some(ExprShape::IsNull(x)),
        TreeExpr::IsNotNull(x) => Some(ExprShape::IsNotNull(x)),
        TreeExpr::Function(f) => Some(ExprShape::Call(f)),
        _ => None,
    }
}

/// What `open_test` gives: it depends on its argument alone.
pub uninterp spec fn test_parts(e: sqlparser::ast::Expr) -> Option<ExprShapeV>;

/// The parts of a `sqlparser::ast::Expr` that is a LIKE, BETWEEN, IN, CASE, SUBSTRING or
/// MATCH; none of any other.
#[verifier::external_body]
pub(crate) fn open_test<'a>(e: &'a sqlparser::ast::Expr) -> (out: Option<ExprShape<'a>>)
    ensures
        shape_of(out) == test_parts(*e),
{
    match e {
        TreeExpr::Like { negated, expr, pattern, .. } => Some(ExprShape::Like(*negated, expr, pattern)),
        TreeExpr::Between { expr, negated, low, high } =>
            Some(ExprShape::Between(expr, *negated, low, high)),
        TreeExpr::InList { expr, list, negated } => Some(ExprShape::InList(expr, list, *negated)),
        TreeExpr::Case { operand, conditions, else_result, .. } =>
            Some(ExprShape::Case(operand.as_deref(), conditions, else_result.as_deref())),
        TreeExpr::Substring { expr, substring_from, substring_for, .. } =>
            Some(ExprShape::Substring(expr, substring_from.as_deref(), substring_for.as_deref())),
        TreeExpr::MatchAgainst { columns, match_value, .. } =>
            Some(ExprShape::MatchAgainst(columns, &match_value.value)),
        _ => None,
    }
}

/// What `open_subquery` gives: it depends on its argument alone.
pub uninterp spec fn subquery_parts(e: sqlparser::ast::Expr) -> Option<ExprShapeV>;

/// The parts of a `sqlparser::ast::Expr` that holds a query; none of any other.
#[verifier::external_body]
pub(crate) fn open_subquery<'a>(e: &'a sqlparser::ast::Expr) -> (out: Option<ExprShape<'a>>)
    ensures
        shape_of(out) == subquery_parts(*e),
{
    match e {
        TreeExpr::Subquery(q) => Some(ExprShape::Subquery(q)),
        TreeExpr::Exists { subquery, .. } => Some(ExprShape::Subquery(subquery)),
        TreeExpr::InSubquery { expr, subquery, .. } => Some(ExprShape::InSubquery(expr, subquery)),
        _ => None,
    }
}

/// What `nested_in` gives: it depends on its argument alone.
pub uninterp spec fn nested_expressions(e: sqlparser::ast::Expr) -> Seq<sqlparser::ast::Expr>;

/// Calls `sqlparser::ast::visit_expressions` on a `sqlparser::ast::Expr`. It gives all expressions
/// in it, at any depth, itself first.
#[verifier::external_body]
pub(crate) fn nested_in(e: &sqlparser::ast::Expr) -> (out: Vec<sqlparser::ast::Expr>)
    ensures
        out@ == nested_expressions(*e),
{
    let mut out = Vec::new();
    let _ = sqlparser::ast::visit_expressions(e, |x| {
        out.push(x.clone());
        std::ops::ControlFlow::<()>::Continue(())
    });
    out
}

/// What `describe_expr` gives: it depends on its argument alone.
pub uninterp spec fn expr_debug(e: sqlparser::ast::Expr) -> Seq<char>;

/// The `Debug` text of a `sqlparser::ast::Expr`.
#[verifier::external_body]
pub(crate) fn describe_expr(e: &sqlparser::ast::Expr) -> (out: String)
    ensures
        out@ == expr_debug(*e),
{
    format!("{:?}", e)
}

/// What `write_expr` gives: it depends on its argument alone.
pub uninterp spec fn expr_display(e: sqlparser::ast::Expr) -> Seq<char>;

/// The `Display` text of a `sqlparser::ast::Expr`.
#[verifier::external_body]
pub(crate) fn write_expr(e: &sqlparser::ast::Expr) -> (out: String)
    ensures
        out@ == expr_display(*e),
{
    e.to_string()
}

/// What `ident_text` gives: it depends on its argument alone.
pub uninterp spec fn ident_value(i: sqlparser::ast::Ident) -> Seq<char>;

/// The text of a `sqlparser::ast::Ident`, without quotes.
#[verifier::external_body]
pub(crate) fn ident_text(i: &sqlparser::ast::Ident) -> (out: String)
    ensures
        out@ == ident_value(*i),
{
    i.value.clone()
}

/// What `ident_quote` gives: it depends on its argument alone.
pub uninterp spec fn ident_quote_style(i: sqlparser::ast::Ident) -> Option<char>;

/// The quote round a `sqlparser::ast::Ident`.
#[verifier::external_body]
pub(crate) fn ident_quote(i: &sqlparser::ast::Ident) -> (out: Option<char>)
    ensures
        out == ident_quote_style(*i),
{
    i.quote_style
}

/// What `open_value` gives: it depends on its argument alone.
pub uninterp spec fn value_parts(v: sqlparser::ast::Value) -> SqlValueV;

/// The literal of a `sqlparser::ast::Value`; a kind without a place of its own by its `Debug`
/// text.
#[verifier::external_body]
pub(crate) fn open_value(v: &sqlparser::ast::Value) -> (out: SqlValue)
    ensures
        out@ == value_parts(*v),
{
    match v {
        sqlparser::ast::Value::Number(s, _) => SqlValue::Number(s.clone()),
        sqlparser::ast::Value::SingleQuotedString(s) => SqlValue::SingleQuotedString(s.clone()),
        sqlparser::ast::Value::Boolean(b) => SqlValue::Boolean(*b),
        sqlparser::ast::Value::Null => SqlValue::Null,
        sqlparser::ast::Value::Placeholder(s) => SqlValue::Placeholder(s.clone()),
        sqlparser::ast::Value::HexStringLiteral(s) => SqlValue::HexStringLiteral(s.clone()),
        other => SqlValue::Other(format!("{:?}", other)),
    }
}

/// What `open_comparison` gives: it depends on its argument alone.
pub uninterp spec fn comparison_of(op: sqlparser::ast::BinaryOperator) -> Option<SqlBinaryOperatorV>;

/// The comparison or connective of a `sqlparser::ast::BinaryOperator`; none of any other.
#[verifier::external_body]
pub(crate) fn open_comparison(op: &sqlparser::ast::BinaryOperator) -> (out: Option<SqlBinaryOperator>)
    ensures
        operator_of(out) == comparison_of(*op),
{
    match op {
        sqlparser::ast::BinaryOperator::Eq => Some(SqlBinaryOperator::Eq),
        sqlparser::ast::BinaryOperator::Gt => Some(SqlBinaryOperator::Gt),
        sqlparser::ast::BinaryOperator::Lt => Some(SqlBinaryOperator::Lt),
        sqlparser::ast::BinaryOperator::GtEq => Some(SqlBinaryOperator::GtEq),
        sqlparser::ast::BinaryOperator::LtEq => Some(SqlBinaryOperator::LtEq),
        sqlparser::ast::BinaryOperator::NotEq => Some(SqlBinaryOperator::NotEq),
        sqlparser::ast::BinaryOperator::And => Some(SqlBinaryOperator::And),
        sqlparser::ast::BinaryOperator::Or => Some(SqlBinaryOperator::Or),
        _ => None,
    }
}

/// What `open_arithmetic` gives: it depends on its argument alone.
pub uninterp spec fn arithmetic_of(op: sqlparser::ast::BinaryOperator) -> SqlBinaryOperatorV;

/// The arithmetic operator of a `sqlparser::ast::BinaryOperator`; any other by its `Debug`
/// text.
#[verifier::external_body]
pub(crate) fn open_arithmetic(op: &sqlparser::ast::BinaryOperator) -> (out: SqlBinaryOperator)
    ensures
        out@ == arithmetic_of(*op),
{
    match op {
        sqlparser::ast::BinaryOperator::Plus => SqlBinaryOperator::Plus,
        sqlparser::ast::BinaryOperator::Minus => SqlBinaryOperator::Minus,
        sqlparser::ast::BinaryOperator::Multiply => SqlBinaryOperator::Multiply,
        sqlparser::ast::BinaryOperator::Divide => SqlBinaryOperator::Divide,
        other => SqlBinaryOperator::Other(format!("{:?}", other)),
    }
}

/// What `open_unary` gives: it depends on its argument alone.
pub uninterp spec fn unary_of(op: sqlparser::ast::UnaryOperator) -> SqlUnaryOperatorV;

/// The operator of a `sqlparser::ast::UnaryOperator`; one without a place of its own by its
/// `Debug` text.
#[verifier::external_body]
pub(crate) fn open_unary(op: &sqlparser::ast::UnaryOperator) -> (out: SqlUnaryOperator)
    ensures
        out@ == unary_of(*op),
{
    match op {
        sqlparser::ast::UnaryOperator::Minus => SqlUnaryOperator::Minus,
        sqlparser::ast::UnaryOperator::Plus => SqlUnaryOperator::Plus,
        sqlparser::ast::UnaryOperator::Not => SqlUnaryOperator::Not,
        other => SqlUnaryOperator::Other(format!("{:?}", other)),
    }
}

/// What `open_when` gives: it depends on its argument alone.
pub uninterp spec fn when_parts(w: sqlparser::ast::CaseWhen) -> (sqlparser::ast::Expr, sqlparser::ast::Expr);

/// The fields of a `sqlparser::ast::CaseWhen`.
#[verifier::external_body]
pub(crate) fn open_when<'a>(w: &'a sqlparser::ast::CaseWhen) -> (out: (&'a sqlparser::ast::Expr, &'a sqlparser::ast::Expr))
    ensures
        (*out.0, *out.1) == when_parts(*w),
{
    (&w.condition, &w.result)
}

/// The arguments of a call, taken apart.
pub enum ArgumentsShape<'a> {
    Absent,
    List(&'a Vec<sqlparser::ast::FunctionArg>, bool),
    Other(String),
}

/// The model of `ArgumentsShape`.
#[allow(inconsistent_fields)]
pub enum ArgumentsShapeV {
    Absent,
    List(Seq<sqlparser::ast::FunctionArg>, bool),
    Other(Seq<char>),
}

impl<'a> ArgumentsShape<'a> {
    /// The model.
    pub open spec fn view(&self) -> ArgumentsShapeV {
        match self {
            ArgumentsShape::Absent => ArgumentsShapeV::Absent,
            ArgumentsShape::List(a, b) => ArgumentsShapeV::List(a@, *b),
            ArgumentsShape::Other(a) => ArgumentsShapeV::Other(a@),
        }
    }
}

/// What `write_function` gives: it depends on its argument alone.
pub uninterp spec fn function_texts(f: sqlparser::ast::Function) -> (Seq<char>, Seq<char>);

/// The name of a `sqlparser::ast::Function`, and its `Display` text.
#[verifier::external_body]
pub(crate) fn write_function(f: &sqlparser::ast::Function) -> (out: (String, String))
    ensures
        (out.0@, out.1@) == function_texts(*f),
{
    (f.name.to_string(), f.to_string())
}

/// What `open_function` gives: it depends on its argument alone.
pub uninterp spec fn function_arguments(f: sqlparser::ast::Function) -> ArgumentsShapeV;

/// The arguments of a `sqlparser::ast::Function`. The flag of a list says whether its duplicate
/// treatment is `DISTINCT`.
#[verifier::external_body]
pub(crate) fn open_function<'a>(f: &'a sqlparser::ast::Function) -> (out: ArgumentsShape<'a>)
    ensures
        out@ == function_arguments(*f),
{
    match &f.args {
        sqlparser::ast::FunctionArguments::None => ArgumentsShape::Absent,
        sqlparser::ast::FunctionArguments::List(l) => ArgumentsShape::List(
            &l.args,
            matches!(l.duplicate_treatment, Some(sqlparser::ast::DuplicateTreatment::Distinct)),
        ),
        other => ArgumentsShape::Other(format!("{:?}", other)),
    }
}

/// An argument of a call, taken apart.
pub enum ArgumentShape<'a> {
    Unnamed(&'a sqlparser::ast::Expr),
    Named(&'a sqlparser::ast::Expr),
    Wildcard,
    Other(String),
}

/// The model of `ArgumentShape`.
#[allow(inconsistent_fields)]
pub enum ArgumentShapeV {
    Unnamed(sqlparser::ast::Expr),
    Named(sqlparser::ast::Expr),
    Wildcard,
    Other(Seq<char>),
}

impl<'a> ArgumentShape<'a> {
    /// The model.
    pub open spec fn view(&self) -> ArgumentShapeV {
        match self {
            ArgumentShape::Unnamed(a) => ArgumentShapeV::Unnamed(**a),
            ArgumentShape::Named(a) => ArgumentShapeV::Named(**a),
            ArgumentShape::Wildcard => ArgumentShapeV::Wildcard,
            ArgumentShape::Other(a) => ArgumentShapeV::Other(a@),
        }
    }
}

/// What `nested_in_parameters` gives: it depends on its argument alone.
pub uninterp spec fn parameter_expressions(f: sqlparser::ast::Function) -> Seq<sqlparser::ast::Expr>;

/// Calls `sqlparser::ast::visit_expressions` on the parameters of a `sqlparser::ast::Function`. It gives
/// all expressions there, at any depth, outer ones first.
#[verifier::external_body]
fn nested_in_parameters(f: &sqlparser::ast::Function) -> (out: Vec<sqlparser::ast::Expr>)
    ensures
        out@ == parameter_expressions(*f),
{
    let mut out = Vec::new();
    let _ = sqlparser::ast::visit_expressions(&f.parameters, |x| {
        out.push(x.clone());
        std::ops::ControlFlow::<()>::Continue(())
    });
    out
}

/// What `nested_in_clauses` gives: it depends on its argument alone.
pub uninterp spec fn clause_expressions(f: sqlparser::ast::Function) -> Seq<sqlparser::ast::Expr>;

/// Calls `sqlparser::ast::visit_expressions` on the clauses after the list of arguments of a
/// `sqlparser::ast::Function`, and on the arguments themselves where they are no list. It gives all
/// expressions there, at any depth, outer ones first.
#[verifier::external_body]
fn nested_in_clauses(f: &sqlparser::ast::Function) -> (out: Vec<sqlparser::ast::Expr>)
    ensures
        out@ == clause_expressions(*f),
{
    let mut out = Vec::new();
    let keep = |x: &sqlparser::ast::Expr| -> std::ops::ControlFlow<()> {
        out.push(x.clone());
        std::ops::ControlFlow::Continue(())
    };
    let _ = match &f.args {
        sqlparser::ast::FunctionArguments::List(l) => sqlparser::ast::visit_expressions(&l.clauses, keep),
        other => sqlparser::ast::visit_expressions(other, keep),
    };
    out
}

/// What `nested_in_filter` gives: it depends on its argument alone.
pub uninterp spec fn filter_expressions(f: sqlparser::ast::Function) -> Seq<sqlparser::ast::Expr>;

/// Calls `sqlparser::ast::visit_expressions` on the FILTER of a `sqlparser::ast::Function`. It gives
/// all expressions there, at any depth, outer ones first.
#[verifier::external_body]
fn nested_in_filter(f: &sqlparser::ast::Function) -> (out: Vec<sqlparser::ast::Expr>)
    ensures
        out@ == filter_expressions(*f),
{
    let mut out = Vec::new();
    let _ = sqlparser::ast::visit_expressions(&f.filter, |x| {
        out.push(x.clone());
        std::ops::ControlFlow::<()>::Continue(())
    });
    out
}

/// What `nested_in_window` gives: it depends on its argument alone.
pub uninterp spec fn window_expressions(f: sqlparser::ast::Function) -> Seq<sqlparser::ast::Expr>;

/// Calls `sqlparser::ast::visit_expressions` on the OVER of a `sqlparser::ast::Function`. It gives
/// all expressions there, at any depth, outer ones first.
#[verifier::external_body]
fn nested_in_window(f: &sqlparser::ast::Function) -> (out: Vec<sqlparser::ast::Expr>)
    ensures
        out@ == window_expressions(*f),
{
    let mut out = Vec::new();
    let _ = sqlparser::ast::visit_expressions(&f.over, |x| {
        out.push(x.clone());
        std::ops::ControlFlow::<()>::Continue(())
    });
    out
}

/// What `nested_in_group` gives: it depends on its argument alone.
pub uninterp spec fn group_expressions(f: sqlparser::ast::Function) -> Seq<sqlparser::ast::Expr>;

/// Calls `sqlparser::ast::visit_expressions` on the WITHIN GROUP of a `sqlparser::ast::Function`. It gives
/// all expressions there, at any depth, outer ones first.
#[verifier::external_body]
fn nested_in_group(f: &sqlparser::ast::Function) -> (out: Vec<sqlparser::ast::Expr>)
    ensures
        out@ == group_expressions(*f),
{
    let mut out = Vec::new();
    let _ = sqlparser::ast::visit_expressions(&f.within_group, |x| {
        out.push(x.clone());
        std::ops::ControlFlow::<()>::Continue(())
    });
    out
}

/// The expressions that a call holds besides the list of its arguments, at any depth, outer ones
/// first.
pub open spec fn call_expressions(f: sqlparser::ast::Function) -> Seq<sqlparser::ast::Expr> {
    parameter_expressions(f) + clause_expressions(f) + filter_expressions(f) + window_expressions(f)
        + group_expressions(f)
}

/// The expressions that a call holds besides the list of its arguments.
pub(crate) fn nested_in_call(f: &sqlparser::ast::Function) -> (out: Vec<sqlparser::ast::Expr>)
    ensures
        out@ == call_expressions(*f),
{
    let mut out = nested_in_parameters(f);
    let mut clauses = nested_in_clauses(f);
    let mut filter = nested_in_filter(f);
    let mut window = nested_in_window(f);
    let mut group = nested_in_group(f);
    out.append(&mut clauses);
    out.append(&mut filter);
    out.append(&mut window);
    out.append(&mut group);
    out
}

/// What `nested_in_argument` gives: it depends on its argument alone.
pub uninterp spec fn argument_expressions(a: sqlparser::ast::FunctionArg) -> Seq<sqlparser::ast::Expr>;

/// Calls `sqlparser::ast::visit_expressions` on a `sqlparser::ast::FunctionArg`. It gives all
/// expressions in it, at any depth, outer ones first.
#[verifier::external_body]
pub(crate) fn nested_in_argument(a: &sqlparser::ast::FunctionArg) -> (out: Vec<sqlparser::ast::Expr>)
    ensures
        out@ == argument_expressions(*a),
{
    let mut out = Vec::new();
    let _ = sqlparser::ast::visit_expressions(a, |x| {
        out.push(x.clone());
        std::ops::ControlFlow::<()>::Continue(())
    });
    out
}

/// What `open_argument` gives: it depends on its argument alone.
pub uninterp spec fn argument_parts(a: sqlparser::ast::FunctionArg) -> ArgumentShapeV;

/// The expression of a `sqlparser::ast::FunctionArg`; a form without a place of its own by its
/// `Debug` text.
#[verifier::external_body]
pub(crate) fn open_argument<'a>(a: &'a sqlparser::ast::FunctionArg) -> (out: ArgumentShape<'a>)
    ensures
        out@ == argument_parts(*a),
{
    match a {
        sqlparser::ast::FunctionArg::Unnamed(sqlparser::ast::FunctionArgExpr::Expr(e)) => ArgumentShape::Unnamed(e),
        sqlparser::ast::FunctionArg::Unnamed(sqlparser::ast::FunctionArgExpr::Wildcard) => ArgumentShape::Wildcard,
        sqlparser::ast::FunctionArg::Named { arg: sqlparser::ast::FunctionArgExpr::Expr(e), .. } =>
            ArgumentShape::Named(e),
        other => ArgumentShape::Other(format!("{:?}", other)),
    }
}

/// What `write_name` gives: it depends on its argument alone.
pub uninterp spec fn name_display(n: sqlparser::ast::ObjectName) -> Seq<char>;

/// The `Display` text of a `sqlparser::ast::ObjectName`.
#[verifier::external_body]
pub(crate) fn write_name(n: &sqlparser::ast::ObjectName) -> (out: String)
    ensures
        out@ == name_display(*n),
{
    n.to_string()
}

/// What `open_name` gives: it depends on its argument alone.
pub uninterp spec fn name_parts(n: sqlparser::ast::ObjectName) -> Seq<sqlparser::ast::ObjectNamePart>;

/// The parts of a `sqlparser::ast::ObjectName`.
#[verifier::external_body]
pub(crate) fn open_name<'a>(n: &'a sqlparser::ast::ObjectName) -> (out: &'a Vec<sqlparser::ast::ObjectNamePart>)
    ensures
        out@ == name_parts(*n),
{
    &n.0
}

/// What `open_name_part` gives: it depends on its argument alone.
pub uninterp spec fn name_part(p: sqlparser::ast::ObjectNamePart) -> NamePartV;

/// The identifier of a `sqlparser::ast::ObjectNamePart`.
#[verifier::external_body]
pub(crate) fn open_name_part(p: &sqlparser::ast::ObjectNamePart) -> (out: NamePart)
    ensures
        out@ == name_part(*p),
{
    match p {
        sqlparser::ast::ObjectNamePart::Identifier(i) => NamePart::Ident(i.value.clone()),
        sqlparser::ast::ObjectNamePart::Function(_) => NamePart::Other,
    }
}

/// What `query_body` gives: it depends on its argument alone.
pub uninterp spec fn body_of(q: sqlparser::ast::Query) -> sqlparser::ast::SetExpr;

/// The body of a `sqlparser::ast::Query`.
#[verifier::external_body]
pub(crate) fn query_body<'a>(q: &'a sqlparser::ast::Query) -> (out: &'a sqlparser::ast::SetExpr)
    ensures
        *out == body_of(*q),
{
    &q.body
}

/// The order of a query, taken apart.
pub enum OrderShape<'a> {
    Absent,
    Expressions(&'a Vec<sqlparser::ast::OrderByExpr>),
    All,
}

/// The model of `OrderShape`.
#[allow(inconsistent_fields)]
pub enum OrderShapeV {
    Absent,
    Expressions(Seq<sqlparser::ast::OrderByExpr>),
    All,
}

impl<'a> OrderShape<'a> {
    /// The model.
    pub open spec fn view(&self) -> OrderShapeV {
        match self {
            OrderShape::Absent => OrderShapeV::Absent,
            OrderShape::Expressions(a) => OrderShapeV::Expressions(a@),
            OrderShape::All => OrderShapeV::All,
        }
    }
}

/// What `query_order` gives: it depends on its argument alone.
pub uninterp spec fn order_of(q: sqlparser::ast::Query) -> OrderShapeV;

/// The ORDER BY clause of a `sqlparser::ast::Query`.
#[verifier::external_body]
pub(crate) fn query_order<'a>(q: &'a sqlparser::ast::Query) -> (out: OrderShape<'a>)
    ensures
        out@ == order_of(*q),
{
    match &q.order_by {
        None => OrderShape::Absent,
        Some(o) => match &o.kind {
            sqlparser::ast::OrderByKind::Expressions(es) => OrderShape::Expressions(es),
            sqlparser::ast::OrderByKind::All(_) => OrderShape::All,
        },
    }
}

/// What `open_order_item` gives: it depends on its argument alone.
pub uninterp spec fn order_item_parts(o: sqlparser::ast::OrderByExpr) -> (sqlparser::ast::Expr, Option<bool>);

/// The expression and the direction of a `sqlparser::ast::OrderByExpr`.
#[verifier::external_body]
pub(crate) fn open_order_item<'a>(o: &'a sqlparser::ast::OrderByExpr) -> (out: (&'a sqlparser::ast::Expr, Option<bool>))
    ensures
        (*out.0, out.1) == order_item_parts(*o),
{
    (&o.expr, o.options.asc)
}

/// A LIMIT clause, taken apart.
pub enum LimitShape<'a> {
    Absent,
    LimitOffset(
        Option<&'a sqlparser::ast::Expr>,
        Option<&'a sqlparser::ast::Expr>,
        &'a Vec<sqlparser::ast::Expr>,
    ),
    OffsetLimit(&'a sqlparser::ast::Expr, &'a sqlparser::ast::Expr),
}

/// The model of `LimitShape`.
#[allow(inconsistent_fields)]
pub enum LimitShapeV {
    Absent,
    LimitOffset(Option<sqlparser::ast::Expr>, Option<sqlparser::ast::Expr>, Seq<sqlparser::ast::Expr>),
    OffsetLimit(sqlparser::ast::Expr, sqlparser::ast::Expr),
}

impl<'a> LimitShape<'a> {
    /// The model.
    pub open spec fn view(&self) -> LimitShapeV {
        match self {
            LimitShape::Absent => LimitShapeV::Absent,
            LimitShape::LimitOffset(a, b, c) => LimitShapeV::LimitOffset(held(*a), held(*b), c@),
            LimitShape::OffsetLimit(a, b) => LimitShapeV::OffsetLimit(**a, **b),
        }
    }
}

/// What `query_limit` gives: it depends on its argument alone.
pub uninterp spec fn limit_of(q: sqlparser::ast::Query) -> LimitShapeV;

/// The LIMIT clause of a `sqlparser::ast::Query`.
#[verifier::external_body]
pub(crate) fn query_limit<'a>(q: &'a sqlparser::ast::Query) -> (out: LimitShape<'a>)
    ensures
        out@ == limit_of(*q),
{
    match &q.limit_clause {
        None => LimitShape::Absent,
        Some(sqlparser::ast::LimitClause::LimitOffset { limit, offset, limit_by }) =>
            LimitShape::LimitOffset(limit.as_ref(), offset.as_ref().map(|o| &o.value), limit_by),
        Some(sqlparser::ast::LimitClause::OffsetCommaLimit { offset, limit }) =>
            LimitShape::OffsetLimit(offset, limit),
    }
}

/// The body of a query, taken apart.
pub enum SetShape<'a> {
    Select(&'a sqlparser::ast::Select),
    Query(&'a sqlparser::ast::Query),
    Operation(SetOperator, bool, &'a sqlparser::ast::SetExpr, &'a sqlparser::ast::SetExpr),
    Values(&'a Vec<sqlparser::ast::Parens<Vec<sqlparser::ast::Expr>>>),
    Other(String),
}

/// The model of `SetShape`.
#[allow(inconsistent_fields)]
pub enum SetShapeV {
    Select(sqlparser::ast::Select),
    Query(sqlparser::ast::Query),
    Operation(SetOperator, bool, sqlparser::ast::SetExpr, sqlparser::ast::SetExpr),
    Values(Seq<sqlparser::ast::Parens<Vec<sqlparser::ast::Expr>>>),
    Other(Seq<char>),
}

impl<'a> SetShape<'a> {
    /// The model.
    pub open spec fn view(&self) -> SetShapeV {
        match self {
            SetShape::Select(a) => SetShapeV::Select(**a),
            SetShape::Query(a) => SetShapeV::Query(**a),
            SetShape::Operation(a, b, c, d) => SetShapeV::Operation(*a, *b, **c, **d),
            SetShape::Values(a) => SetShapeV::Values(a@),
            SetShape::Other(a) => SetShapeV::Other(a@),
        }
    }
}

/// What `open_set` gives: it depends on its argument alone.
pub uninterp spec fn set_parts(s: sqlparser::ast::SetExpr) -> SetShapeV;

/// The parts of a `sqlparser::ast::SetExpr` that is no combination of two; any other body than
/// a SELECT, a query or VALUES by its `Debug` text.
#[verifier::external_body]
pub(crate) fn open_set<'a>(s: &'a sqlparser::ast::SetExpr) -> (out: SetShape<'a>)
    ensures
        out@ == set_parts(*s),
{
    match s {
        sqlparser::ast::SetExpr::Select(x) => SetShape::Select(x),
        sqlparser::ast::SetExpr::Query(x) => SetShape::Query(x),
        sqlparser::ast::SetExpr::Values(x) => SetShape::Values(&x.rows),
        other => SetShape::Other(format!("{:?}", other)),
    }
}

/// What `open_operation` gives: it depends on its argument alone.
pub uninterp spec fn operation_parts(s: sqlparser::ast::SetExpr) -> Option<SetShapeV>;

/// The parts of a `sqlparser::ast::SetExpr` that combines two; none of any other. The flag says
/// whether the quantifier is `ALL`.
#[verifier::external_body]
pub(crate) fn open_operation<'a>(s: &'a sqlparser::ast::SetExpr) -> (out: Option<SetShape<'a>>)
    ensures
        set_shape_of(out) == operation_parts(*s),
{
    match s {
        sqlparser::ast::SetExpr::SetOperation { op, set_quantifier, left, right } => {
            let all = matches!(set_quantifier, sqlparser::ast::SetQuantifier::All);
            Some(match op {
                sqlparser::ast::SetOperator::Union => SetShape::Operation(SetOperator::Union, all, left, right),
                sqlparser::ast::SetOperator::Except => SetShape::Operation(SetOperator::Except, all, left, right),
                sqlparser::ast::SetOperator::Intersect => SetShape::Operation(SetOperator::Intersect, all, left, right),
                sqlparser::ast::SetOperator::Minus => SetShape::Operation(SetOperator::Minus, all, left, right),
            })
        },
        _ => None,
    }
}

/// What `open_row` gives: it depends on its argument alone.
pub uninterp spec fn row_of(r: sqlparser::ast::Parens<Vec<sqlparser::ast::Expr>>) -> Seq<sqlparser::ast::Expr>;

/// The content of a `sqlparser::ast::Parens`.
#[verifier::external_body]
pub(crate) fn open_row<'a>(r: &'a sqlparser::ast::Parens<Vec<sqlparser::ast::Expr>>) -> (out: &'a Vec<sqlparser::ast::Expr>)
    ensures
        out@ == row_of(*r),
{
    &r.content
}

/// What `select_lists` gives: it depends on its argument alone.
pub uninterp spec fn lists_of(s: sqlparser::ast::Select) -> (Seq<sqlparser::ast::SelectItem>, Seq<sqlparser::ast::TableWithJoins>);

/// The lists of a `sqlparser::ast::Select`.
#[verifier::external_body]
pub(crate) fn select_lists<'a>(s: &'a sqlparser::ast::Select) -> (out: (
    &'a Vec<sqlparser::ast::SelectItem>,
    &'a Vec<sqlparser::ast::TableWithJoins>,
))
    ensures
        (out.0@, out.1@) == lists_of(*s),
{
    (&s.projection, &s.from)
}

/// What `select_distinct` gives: it depends on its argument alone.
pub uninterp spec fn is_distinct(s: sqlparser::ast::Select) -> bool;

/// Whether a `sqlparser::ast::Select` has a DISTINCT clause.
#[verifier::external_body]
pub(crate) fn select_distinct(s: &sqlparser::ast::Select) -> (out: bool)
    ensures
        out == is_distinct(*s),
{
    s.distinct.is_some()
}

/// What `select_filters` gives: it depends on its argument alone.
pub uninterp spec fn filters_of(s: sqlparser::ast::Select) -> (Option<sqlparser::ast::Expr>, Option<sqlparser::ast::Expr>, Option<sqlparser::ast::Expr>);

/// The WHERE, HAVING and QUALIFY clauses of a `sqlparser::ast::Select`.
#[verifier::external_body]
pub(crate) fn select_filters<'a>(s: &'a sqlparser::ast::Select) -> (out: (
    Option<&'a sqlparser::ast::Expr>,
    Option<&'a sqlparser::ast::Expr>,
    Option<&'a sqlparser::ast::Expr>,
))
    ensures
        (held(out.0), held(out.1), held(out.2)) == filters_of(*s),
{
    (s.selection.as_ref(), s.having.as_ref(), s.qualify.as_ref())
}

/// What `select_groups` gives: it depends on its argument alone.
pub uninterp spec fn groups_of(s: sqlparser::ast::Select) -> Option<(Seq<sqlparser::ast::Expr>, usize)>;

/// The expressions of the GROUP BY clause of a `sqlparser::ast::Select` and how many modifiers
/// it has; none for GROUP BY ALL.
#[verifier::external_body]
pub(crate) fn select_groups<'a>(s: &'a sqlparser::ast::Select) -> (out: Option<(&'a Vec<sqlparser::ast::Expr>, usize)>)
    ensures
        groups_held(out) == groups_of(*s),
{
    match &s.group_by {
        sqlparser::ast::GroupByExpr::Expressions(es, modifiers) => Some((es, modifiers.len())),
        sqlparser::ast::GroupByExpr::All(_) => None,
    }
}

/// An item of a SELECT list, taken apart.
pub enum ItemShape<'a> {
    Unnamed(&'a sqlparser::ast::Expr),
    Aliased(&'a sqlparser::ast::Expr, &'a sqlparser::ast::Ident),
    Wildcard,
    Other(String),
}

/// The model of `ItemShape`.
#[allow(inconsistent_fields)]
pub enum ItemShapeV {
    Unnamed(sqlparser::ast::Expr),
    Aliased(sqlparser::ast::Expr, sqlparser::ast::Ident),
    Wildcard,
    Other(Seq<char>),
}

impl<'a> ItemShape<'a> {
    /// The model.
    pub open spec fn view(&self) -> ItemShapeV {
        match self {
            ItemShape::Unnamed(a) => ItemShapeV::Unnamed(**a),
            ItemShape::Aliased(a, b) => ItemShapeV::Aliased(**a, **b),
            ItemShape::Wildcard => ItemShapeV::Wildcard,
            ItemShape::Other(a) => ItemShapeV::Other(a@),
        }
    }
}

/// What `open_item` gives: it depends on its argument alone.
pub uninterp spec fn item_parts(s: sqlparser::ast::SelectItem) -> ItemShapeV;

/// The parts of a `sqlparser::ast::SelectItem`; a form without a place of its own by its
/// `Debug` text.
#[verifier::external_body]
pub(crate) fn open_item<'a>(s: &'a sqlparser::ast::SelectItem) -> (out: ItemShape<'a>)
    ensures
        out@ == item_parts(*s),
{
    match s {
        TreeSelectItem::UnnamedExpr(e) => ItemShape::Unnamed(e),
        TreeSelectItem::ExprWithAlias { expr, alias } => ItemShape::Aliased(expr, alias),
        TreeSelectItem::Wildcard(_) => ItemShape::Wildcard,
        other => ItemShape::Other(format!("{:?}", other)),
    }
}

/// A source of rows, taken apart.
pub enum FactorShape<'a> {
    Table(&'a sqlparser::ast::ObjectName, Option<&'a sqlparser::ast::Ident>),
    Derived(&'a sqlparser::ast::Query),
    TableFunction(&'a sqlparser::ast::Expr),
    Other,
}

/// The model of `FactorShape`.
#[allow(inconsistent_fields)]
pub enum FactorShapeV {
    Table(sqlparser::ast::ObjectName, Option<sqlparser::ast::Ident>),
    Derived(sqlparser::ast::Query),
    TableFunction(sqlparser::ast::Expr),
    Other,
}

impl<'a> FactorShape<'a> {
    /// The model.
    pub open spec fn view(&self) -> FactorShapeV {
        match self {
            FactorShape::Table(a, b) => FactorShapeV::Table(**a, held(*b)),
            FactorShape::Derived(a) => FactorShapeV::Derived(**a),
            FactorShape::TableFunction(a) => FactorShapeV::TableFunction(**a),
            FactorShape::Other => FactorShapeV::Other,
        }
    }
}

/// What `open_factor` gives: it depends on its argument alone.
pub uninterp spec fn factor_parts(t: sqlparser::ast::TableFactor) -> FactorShapeV;

/// The parts of a `sqlparser::ast::TableFactor`.
#[verifier::external_body]
pub(crate) fn open_factor<'a>(t: &'a sqlparser::ast::TableFactor) -> (out: FactorShape<'a>)
    ensures
        out@ == factor_parts(*t),
{
    match t {
        TreeTableFactor::Table { name, alias, .. } =>
            FactorShape::Table(name, alias.as_ref().map(|a| &a.name)),
        TreeTableFactor::Derived { subquery, .. } => FactorShape::Derived(subquery),
        TreeTableFactor::TableFunction { expr, .. } => FactorShape::TableFunction(expr),
        _ => FactorShape::Other,
    }
}

/// What `describe_factor` gives: it depends on its argument alone.
pub uninterp spec fn factor_debug(t: sqlparser::ast::TableFactor) -> Seq<char>;

/// The `Debug` text of a `sqlparser::ast::TableFactor`.
#[verifier::external_body]
pub(crate) fn describe_factor(t: &sqlparser::ast::TableFactor) -> (out: String)
    ensures
        out@ == factor_debug(*t),
{
    format!("{:?}", t)
}

/// What `open_table` gives: it depends on its argument alone.
pub uninterp spec fn table_parts(t: sqlparser::ast::TableWithJoins) -> (sqlparser::ast::TableFactor, Seq<sqlparser::ast::Join>);

/// The source and the joins of a `sqlparser::ast::TableWithJoins`.
#[verifier::external_body]
pub(crate) fn open_table<'a>(t: &'a sqlparser::ast::TableWithJoins) -> (out: (
    &'a sqlparser::ast::TableFactor,
    &'a Vec<sqlparser::ast::Join>,
))
    ensures
        (*out.0, out.1@) == table_parts(*t),
{
    (&t.relation, &t.joins)
}

/// What `open_join` gives: it depends on its argument alone.
pub uninterp spec fn join_parts(j: sqlparser::ast::Join) -> (sqlparser::ast::TableFactor, sqlparser::ast::JoinOperator);

/// The source and the kind of a `sqlparser::ast::Join`.
#[verifier::external_body]
pub(crate) fn open_join<'a>(j: &'a sqlparser::ast::Join) -> (out: (
    &'a sqlparser::ast::TableFactor,
    &'a sqlparser::ast::JoinOperator,
))
    ensures
        (*out.0, *out.1) == join_parts(*j),
{
    (&j.relation, &j.join_operator)
}

/// What `describe_join` gives: it depends on its argument alone.
pub uninterp spec fn join_debug(j: sqlparser::ast::JoinOperator) -> Seq<char>;

/// The `Debug` text of a `sqlparser::ast::JoinOperator`.
#[verifier::external_body]
pub(crate) fn describe_join(j: &sqlparser::ast::JoinOperator) -> (out: String)
    ensures
        out@ == join_debug(*j),
{
    format!("{:?}", j)
}

/// What `open_planned_join` gives: it depends on its argument alone.
pub uninterp spec fn planned_join(j: sqlparser::ast::JoinOperator) -> Option<(JoinKind, sqlparser::ast::JoinConstraint)>;

/// The kind and the condition of a `sqlparser::ast::JoinOperator` that can be planned; none of
/// any other.
#[verifier::external_body]
pub(crate) fn open_planned_join<'a>(j: &'a sqlparser::ast::JoinOperator) -> (out: Option<
    (JoinKind, &'a sqlparser::ast::JoinConstraint),
>)
    ensures
        planned_held(out) == planned_join(*j),
{
    match j {
        sqlparser::ast::JoinOperator::Inner(c) => Some((JoinKind::Inner, c)),
        sqlparser::ast::JoinOperator::Join(c) => Some((JoinKind::Join, c)),
        sqlparser::ast::JoinOperator::Left(c) => Some((JoinKind::Left, c)),
        sqlparser::ast::JoinOperator::LeftOuter(c) => Some((JoinKind::LeftOuter, c)),
        sqlparser::ast::JoinOperator::CrossJoin(c) => Some((JoinKind::CrossJoin, c)),
        _ => None,
    }
}

/// What `open_other_join` gives: it depends on its argument alone.
pub uninterp spec fn other_join(j: sqlparser::ast::JoinOperator) -> Option<sqlparser::ast::JoinConstraint>;

/// The condition of a `sqlparser::ast::JoinOperator` that keeps the right rows, all rows, or
/// the rows of one side; none of any other.
#[verifier::external_body]
pub(crate) fn open_other_join<'a>(j: &'a sqlparser::ast::JoinOperator) -> (out: Option<&'a sqlparser::ast::JoinConstraint>)
    ensures
        held(out) == other_join(*j),
{
    match j {
        sqlparser::ast::JoinOperator::Right(c) => Some(c),
        sqlparser::ast::JoinOperator::RightOuter(c) => Some(c),
        sqlparser::ast::JoinOperator::FullOuter(c) => Some(c),
        sqlparser::ast::JoinOperator::Semi(c) => Some(c),
        sqlparser::ast::JoinOperator::LeftSemi(c) => Some(c),
        sqlparser::ast::JoinOperator::RightSemi(c) => Some(c),
        _ => None,
    }
}

/// The condition of a join, taken apart.
pub enum ConstraintShape<'a> {
    On(&'a sqlparser::ast::Expr),
    Absent,
    Other,
}

/// The model of `ConstraintShape`.
#[allow(inconsistent_fields)]
pub enum ConstraintShapeV {
    On(sqlparser::ast::Expr),
    Absent,
    Other,
}

impl<'a> ConstraintShape<'a> {
    /// The model.
    pub open spec fn view(&self) -> ConstraintShapeV {
        match self {
            ConstraintShape::On(a) => ConstraintShapeV::On(**a),
            ConstraintShape::Absent => ConstraintShapeV::Absent,
            ConstraintShape::Other => ConstraintShapeV::Other,
        }
    }
}

/// What `open_constraint` gives: it depends on its argument alone.
pub uninterp spec fn constraint_parts(c: sqlparser::ast::JoinConstraint) -> ConstraintShapeV;

/// The parts of a `sqlparser::ast::JoinConstraint`.
#[verifier::external_body]
pub(crate) fn open_constraint<'a>(c: &'a sqlparser::ast::JoinConstraint) -> (out: ConstraintShape<'a>)
    ensures
        out@ == constraint_parts(*c),
{
    match c {
        TreeJoinConstraint::On(e) => ConstraintShape::On(e),
        TreeJoinConstraint::None => ConstraintShape::Absent,
        _ => ConstraintShape::Other,
    }
}

/// A statement, taken apart.
pub enum StatementShape<'a> {
    CreateTable(&'a sqlparser::ast::CreateTable),
    Drop(&'a sqlparser::ast::ObjectType, &'a Vec<sqlparser::ast::ObjectName>),
    CreateIndex(&'a sqlparser::ast::CreateIndex),
    AlterTable(&'a sqlparser::ast::ObjectName, &'a Vec<sqlparser::ast::AlterTableOperation>),
    Insert(&'a sqlparser::ast::Insert),
    Delete(&'a sqlparser::ast::Delete),
    Update(&'a sqlparser::ast::Update),
    Query(&'a sqlparser::ast::Query),
    Analyze(Option<&'a sqlparser::ast::ObjectName>),
    Other(String),
}

/// The model of `StatementShape`.
#[allow(inconsistent_fields)]
pub enum StatementShapeV {
    CreateTable(sqlparser::ast::CreateTable),
    Drop(sqlparser::ast::ObjectType, Seq<sqlparser::ast::ObjectName>),
    CreateIndex(sqlparser::ast::CreateIndex),
    AlterTable(sqlparser::ast::ObjectName, Seq<sqlparser::ast::AlterTableOperation>),
    Insert(sqlparser::ast::Insert),
    Delete(sqlparser::ast::Delete),
    Update(sqlparser::ast::Update),
    Query(sqlparser::ast::Query),
    Analyze(Option<sqlparser::ast::ObjectName>),
    Other(Seq<char>),
}

impl<'a> StatementShape<'a> {
    /// The model.
    pub open spec fn view(&self) -> StatementShapeV {
        match self {
            StatementShape::CreateTable(a) => StatementShapeV::CreateTable(**a),
            StatementShape::Drop(a, b) => StatementShapeV::Drop(**a, b@),
            StatementShape::CreateIndex(a) => StatementShapeV::CreateIndex(**a),
            StatementShape::AlterTable(a, b) => StatementShapeV::AlterTable(**a, b@),
            StatementShape::Insert(a) => StatementShapeV::Insert(**a),
            StatementShape::Delete(a) => StatementShapeV::Delete(**a),
            StatementShape::Update(a) => StatementShapeV::Update(**a),
            StatementShape::Query(a) => StatementShapeV::Query(**a),
            StatementShape::Analyze(a) => StatementShapeV::Analyze(held(*a)),
            StatementShape::Other(a) => StatementShapeV::Other(a@),
        }
    }
}

/// What `explained` gives: it depends on its argument alone.
pub uninterp spec fn explained_statement(s: sqlparser::ast::Statement) -> Option<sqlparser::ast::Statement>;

/// The statement that a `sqlparser::ast::Statement` explains; none of any other.
#[verifier::external_body]
pub(crate) fn explained<'a>(s: &'a sqlparser::ast::Statement) -> (out: Option<&'a sqlparser::ast::Statement>)
    ensures
        held(out) == explained_statement(*s),
{
    match s {
        TreeStatement::Explain { statement, .. } => Some(statement),
        _ => None,
    }
}

/// What `open_statement` gives: it depends on its argument alone.
pub uninterp spec fn statement_parts(s: sqlparser::ast::Statement) -> StatementShapeV;

/// The parts of a `sqlparser::ast::Statement`; a form without a place of its own by its `Debug`
/// text.
#[verifier::external_body]
pub(crate) fn open_statement<'a>(s: &'a sqlparser::ast::Statement) -> (out: StatementShape<'a>)
    ensures
        out@ == statement_parts(*s),
{
    match s {
        TreeStatement::CreateTable(x) => StatementShape::CreateTable(x),
        TreeStatement::Drop { object_type, names, .. } => StatementShape::Drop(object_type, names),
        TreeStatement::CreateIndex(x) => StatementShape::CreateIndex(x),
        TreeStatement::AlterTable(x) => StatementShape::AlterTable(&x.name, &x.operations),
        TreeStatement::Insert(x) => StatementShape::Insert(x),
        TreeStatement::Delete(x) => StatementShape::Delete(x),
        TreeStatement::Update(x) => StatementShape::Update(x),
        TreeStatement::Query(x) => StatementShape::Query(x),
        TreeStatement::Analyze(x) => StatementShape::Analyze(x.table_name.as_ref()),
        other => StatementShape::Other(format!("{:?}", other)),
    }
}

/// What `open_create_table` gives: it depends on its argument alone.
pub uninterp spec fn create_table_parts(t: sqlparser::ast::CreateTable) -> (sqlparser::ast::ObjectName, Seq<sqlparser::ast::ColumnDef>, Seq<sqlparser::ast::TableConstraint>);

/// The name of a `sqlparser::ast::CreateTable` and its lists.
#[verifier::external_body]
pub(crate) fn open_create_table<'a>(t: &'a sqlparser::ast::CreateTable) -> (out: (
    &'a sqlparser::ast::ObjectName,
    &'a Vec<sqlparser::ast::ColumnDef>,
    &'a Vec<sqlparser::ast::TableConstraint>,
))
    ensures
        (*out.0, out.1@, out.2@) == create_table_parts(*t),
{
    (&t.name, &t.columns, &t.constraints)
}

/// What `open_table_options` gives: it depends on its argument alone.
pub uninterp spec fn table_options_of(t: sqlparser::ast::CreateTable) -> Option<Seq<sqlparser::ast::SqlOption>>;

/// The options of a `sqlparser::ast::CreateTable`, whichever keyword they stand after.
#[verifier::external_body]
pub(crate) fn open_table_options<'a>(t: &'a sqlparser::ast::CreateTable) -> (out: Option<&'a Vec<sqlparser::ast::SqlOption>>)
    ensures
        options_held(out) == table_options_of(*t),
{
    match &t.table_options {
        sqlparser::ast::CreateTableOptions::With(x) => Some(x),
        sqlparser::ast::CreateTableOptions::Options(x) => Some(x),
        sqlparser::ast::CreateTableOptions::Plain(x) => Some(x),
        sqlparser::ast::CreateTableOptions::TableProperties(x) => Some(x),
        sqlparser::ast::CreateTableOptions::None => None,
    }
}

/// What `open_option` gives: it depends on its argument alone.
pub uninterp spec fn option_parts(o: sqlparser::ast::SqlOption) -> Option<(sqlparser::ast::Ident, sqlparser::ast::Expr)>;

/// The key and the value of a `sqlparser::ast::SqlOption`; none of any other form.
#[verifier::external_body]
pub(crate) fn open_option<'a>(o: &'a sqlparser::ast::SqlOption) -> (out: Option<
    (&'a sqlparser::ast::Ident, &'a sqlparser::ast::Expr),
>)
    ensures
        pair_held(out) == option_parts(*o),
{
    match o {
        sqlparser::ast::SqlOption::KeyValue { key, value } => Some((key, value)),
        _ => None,
    }
}

/// What `open_column` gives: it depends on its argument alone.
pub uninterp spec fn column_parts(c: sqlparser::ast::ColumnDef) -> (sqlparser::ast::Ident, sqlparser::ast::DataType, Seq<sqlparser::ast::ColumnOptionDef>);

/// The fields of a `sqlparser::ast::ColumnDef`.
#[verifier::external_body]
pub(crate) fn open_column<'a>(c: &'a sqlparser::ast::ColumnDef) -> (out: (
    &'a sqlparser::ast::Ident,
    &'a sqlparser::ast::DataType,
    &'a Vec<sqlparser::ast::ColumnOptionDef>,
))
    ensures
        (*out.0, *out.1, out.2@) == column_parts(*c),
{
    (&c.name, &c.data_type, &c.options)
}

/// What `open_number_type` gives: it depends on its argument alone.
pub uninterp spec fn number_type(t: sqlparser::ast::DataType) -> Option<SqlDataTypeV>;

/// The number or flag type of a `sqlparser::ast::DataType`; none of any other.
#[verifier::external_body]
pub(crate) fn open_number_type(t: &sqlparser::ast::DataType) -> (out: Option<SqlDataType>)
    ensures
        type_held(out) == number_type(*t),
{
    match t {
        TreeDataType::Integer(_) => Some(SqlDataType::Integer),
        TreeDataType::Int(_) => Some(SqlDataType::Int),
        TreeDataType::BigInt(_) => Some(SqlDataType::BigInt),
        TreeDataType::Float(_) => Some(SqlDataType::Float),
        TreeDataType::Double(_) => Some(SqlDataType::Double),
        TreeDataType::Real => Some(SqlDataType::Real),
        TreeDataType::Boolean => Some(SqlDataType::Boolean),
        TreeDataType::Bool => Some(SqlDataType::Bool),
        _ => None,
    }
}

/// What `open_text_type` gives: it depends on its argument alone.
pub uninterp spec fn text_type(t: sqlparser::ast::DataType) -> SqlDataTypeV;

/// The text or byte type of a `sqlparser::ast::DataType`, or its name where it is a custom one;
/// any other by its `Debug` text.
#[verifier::external_body]
pub(crate) fn open_text_type(t: &sqlparser::ast::DataType) -> (out: SqlDataType)
    ensures
        out@ == text_type(*t),
{
    match t {
        TreeDataType::Text => SqlDataType::Text,
        TreeDataType::Varchar(_) => SqlDataType::Varchar,
        TreeDataType::Char(_) => SqlDataType::Char,
        TreeDataType::String(_) => SqlDataType::Str,
        TreeDataType::Bytea => SqlDataType::Bytea,
        TreeDataType::Blob(_) => SqlDataType::Blob,
        TreeDataType::Custom(name, _) => SqlDataType::Custom(name.to_string()),
        other => SqlDataType::Other(format!("{:?}", other)),
    }
}

/// A column option, taken apart.
pub enum OptionShape<'a> {
    PrimaryKey,
    NotNull,
    Default(&'a sqlparser::ast::Expr),
    DialectSpecific(&'a Vec<sqlparser::tokenizer::Token>),
    Other,
}

/// The model of `OptionShape`.
#[allow(inconsistent_fields)]
pub enum OptionShapeV {
    PrimaryKey,
    NotNull,
    Default(sqlparser::ast::Expr),
    DialectSpecific(Seq<sqlparser::tokenizer::Token>),
    Other,
}

impl<'a> OptionShape<'a> {
    /// The model.
    pub open spec fn view(&self) -> OptionShapeV {
        match self {
            OptionShape::PrimaryKey => OptionShapeV::PrimaryKey,
            OptionShape::NotNull => OptionShapeV::NotNull,
            OptionShape::Default(a) => OptionShapeV::Default(**a),
            OptionShape::DialectSpecific(a) => OptionShapeV::DialectSpecific(a@),
            OptionShape::Other => OptionShapeV::Other,
        }
    }
}

/// What `open_column_option` gives: it depends on its argument alone.
pub uninterp spec fn column_option_parts(o: sqlparser::ast::ColumnOptionDef) -> OptionShapeV;

/// The parts of the option of a `sqlparser::ast::ColumnOptionDef`.
#[verifier::external_body]
pub(crate) fn open_column_option<'a>(o: &'a sqlparser::ast::ColumnOptionDef) -> (out: OptionShape<'a>)
    ensures
        out@ == column_option_parts(*o),
{
    match &o.option {
        sqlparser::ast::ColumnOption::PrimaryKey(_) => OptionShape::PrimaryKey,
        sqlparser::ast::ColumnOption::NotNull => OptionShape::NotNull,
        sqlparser::ast::ColumnOption::Default(e) => OptionShape::Default(e),
        sqlparser::ast::ColumnOption::DialectSpecific(tokens) => OptionShape::DialectSpecific(tokens),
        _ => OptionShape::Other,
    }
}

/// What `open_token` gives: it depends on its argument alone.
pub uninterp spec fn token_text(t: sqlparser::tokenizer::Token) -> OptionTokenV;

/// The text of a `sqlparser::tokenizer::Token` that is a word.
#[verifier::external_body]
pub(crate) fn open_token(t: &sqlparser::tokenizer::Token) -> (out: OptionToken)
    ensures
        out@ == token_text(*t),
{
    match t {
        sqlparser::tokenizer::Token::Word(w) => OptionToken::Word(w.value.clone()),
        _ => OptionToken::Other,
    }
}

/// What `open_table_constraint` gives: it depends on its argument alone.
pub uninterp spec fn primary_key_of(c: sqlparser::ast::TableConstraint) -> Option<Seq<sqlparser::ast::IndexColumn>>;

/// The columns of a `sqlparser::ast::TableConstraint` that is a primary key; none of any other.
#[verifier::external_body]
pub(crate) fn open_table_constraint<'a>(c: &'a sqlparser::ast::TableConstraint) -> (out: Option<
    &'a Vec<sqlparser::ast::IndexColumn>,
>)
    ensures
        columns_held(out) == primary_key_of(*c),
{
    match c {
        TreeTableConstraint::PrimaryKey(p) => Some(&p.columns),
        _ => None,
    }
}

/// What `open_index_column` gives: it depends on its argument alone.
pub uninterp spec fn index_column_expr(c: sqlparser::ast::IndexColumn) -> sqlparser::ast::Expr;

/// The expression of a `sqlparser::ast::IndexColumn`.
#[verifier::external_body]
pub(crate) fn open_index_column<'a>(c: &'a sqlparser::ast::IndexColumn) -> (out: &'a sqlparser::ast::Expr)
    ensures
        *out == index_column_expr(*c),
{
    &c.column.expr
}

/// What `open_drop_kind` gives: it depends on its argument alone.
pub uninterp spec fn drop_kind(t: sqlparser::ast::ObjectType) -> DropKind;

/// The kind of a dropped object of a `sqlparser::ast::ObjectType`.
#[verifier::external_body]
pub(crate) fn open_drop_kind(t: &sqlparser::ast::ObjectType) -> (out: DropKind)
    ensures
        out == drop_kind(*t),
{
    match t {
        sqlparser::ast::ObjectType::Table => DropKind::Table,
        sqlparser::ast::ObjectType::Index => DropKind::Index,
        _ => DropKind::Other,
    }
}

/// What `open_create_index` gives: it depends on its argument alone.
pub uninterp spec fn create_index_parts(c: sqlparser::ast::CreateIndex) -> (Option<sqlparser::ast::ObjectName>, sqlparser::ast::ObjectName, Seq<sqlparser::ast::IndexColumn>);

/// The names of a `sqlparser::ast::CreateIndex` and its columns.
#[verifier::external_body]
pub(crate) fn open_create_index<'a>(c: &'a sqlparser::ast::CreateIndex) -> (out: (
    Option<&'a sqlparser::ast::ObjectName>,
    &'a sqlparser::ast::ObjectName,
    &'a Vec<sqlparser::ast::IndexColumn>,
))
    ensures
        (held(out.0), *out.1, out.2@) == create_index_parts(*c),
{
    (c.name.as_ref(), &c.table_name, &c.columns)
}

/// What `open_index_method` gives: it depends on its argument alone.
pub uninterp spec fn index_method(c: sqlparser::ast::CreateIndex) -> Option<Seq<char>>;

/// The method of a `sqlparser::ast::CreateIndex`: the name of a custom one without quotes, the
/// `Display` text of any other.
#[verifier::external_body]
pub(crate) fn open_index_method(c: &sqlparser::ast::CreateIndex) -> (out: Option<String>)
    ensures
        schema::opt_text(out) == index_method(*c),
{
    match &c.using {
        None => None,
        Some(sqlparser::ast::IndexType::Custom(i)) => Some(i.value.clone()),
        Some(other) => Some(other.to_string()),
    }
}

/// An operation of an ALTER TABLE, taken apart.
pub enum OperationShape<'a> {
    AddColumn(&'a sqlparser::ast::ColumnDef),
    RenameColumn(&'a sqlparser::ast::Ident, &'a sqlparser::ast::Ident),
    Other(String),
}

/// The model of `OperationShape`.
#[allow(inconsistent_fields)]
pub enum OperationShapeV {
    AddColumn(sqlparser::ast::ColumnDef),
    RenameColumn(sqlparser::ast::Ident, sqlparser::ast::Ident),
    Other(Seq<char>),
}

impl<'a> OperationShape<'a> {
    /// The model.
    pub open spec fn view(&self) -> OperationShapeV {
        match self {
            OperationShape::AddColumn(a) => OperationShapeV::AddColumn(**a),
            OperationShape::RenameColumn(a, b) => OperationShapeV::RenameColumn(**a, **b),
            OperationShape::Other(a) => OperationShapeV::Other(a@),
        }
    }
}

/// What `open_alteration` gives: it depends on its argument alone.
pub uninterp spec fn alteration_parts(o: sqlparser::ast::AlterTableOperation) -> OperationShapeV;

/// The parts of a `sqlparser::ast::AlterTableOperation`; a form without a place of its own by
/// its `Debug` text.
#[verifier::external_body]
pub(crate) fn open_alteration<'a>(o: &'a sqlparser::ast::AlterTableOperation) -> (out: OperationShape<'a>)
    ensures
        out@ == alteration_parts(*o),
{
    match o {
        sqlparser::ast::AlterTableOperation::AddColumn { column_def, .. } => OperationShape::AddColumn(column_def),
        sqlparser::ast::AlterTableOperation::RenameColumn { old_column_name, new_column_name } =>
            OperationShape::RenameColumn(old_column_name, new_column_name),
        other => OperationShape::Other(format!("{:?}", other)),
    }
}

/// What `insert_table` gives: it depends on its argument alone.
pub uninterp spec fn insert_target(i: sqlparser::ast::Insert) -> InsertTableV;

/// The target of a `sqlparser::ast::Insert`: the `Display` text of a name, the `Debug` text of
/// any other.
#[verifier::external_body]
pub(crate) fn insert_table(i: &sqlparser::ast::Insert) -> (out: InsertTable)
    ensures
        out@ == insert_target(*i),
{
    match &i.table {
        sqlparser::ast::TableObject::TableName(n) => InsertTable::Name(n.to_string()),
        other => InsertTable::Other(format!("{:?}", other)),
    }
}

/// What `open_insert` gives: it depends on its argument alone.
pub uninterp spec fn insert_parts(i: sqlparser::ast::Insert) -> (Seq<sqlparser::ast::ObjectName>, Option<sqlparser::ast::Query>);

/// The columns and the source of a `sqlparser::ast::Insert`.
#[verifier::external_body]
pub(crate) fn open_insert<'a>(i: &'a sqlparser::ast::Insert) -> (out: (
    &'a Vec<sqlparser::ast::ObjectName>,
    Option<&'a sqlparser::ast::Query>,
))
    ensures
        (out.0@, held(out.1)) == insert_parts(*i),
{
    (&i.columns, i.source.as_deref())
}

/// What `open_delete` gives: it depends on its argument alone.
pub uninterp spec fn delete_parts(d: sqlparser::ast::Delete) -> (Seq<sqlparser::ast::TableWithJoins>, Option<sqlparser::ast::Expr>);

/// The tables and the filter of a `sqlparser::ast::Delete`.
#[verifier::external_body]
pub(crate) fn open_delete<'a>(d: &'a sqlparser::ast::Delete) -> (out: (
    &'a Vec<sqlparser::ast::TableWithJoins>,
    Option<&'a sqlparser::ast::Expr>,
))
    ensures
        (out.0@, held(out.1)) == delete_parts(*d),
{
    let tables = match &d.from {
        sqlparser::ast::FromTable::WithFromKeyword(t) => t,
        sqlparser::ast::FromTable::WithoutKeyword(t) => t,
    };
    (tables, d.selection.as_ref())
}

/// What `open_update` gives: it depends on its argument alone.
pub uninterp spec fn update_parts(u: sqlparser::ast::Update) -> (sqlparser::ast::TableFactor, Seq<sqlparser::ast::Assignment>, Option<sqlparser::ast::Expr>);

/// The table, the assignments and the filter of a `sqlparser::ast::Update`.
#[verifier::external_body]
pub(crate) fn open_update<'a>(u: &'a sqlparser::ast::Update) -> (out: (
    &'a sqlparser::ast::TableFactor,
    &'a Vec<sqlparser::ast::Assignment>,
    Option<&'a sqlparser::ast::Expr>,
))
    ensures
        (*out.0, out.1@, held(out.2)) == update_parts(*u),
{
    (&u.table.relation, &u.assignments, u.selection.as_ref())
}

/// What `open_assignment` gives: it depends on its argument alone.
pub uninterp spec fn assignment_parts(a: sqlparser::ast::Assignment) -> (Option<sqlparser::ast::ObjectName>, sqlparser::ast::Expr);

/// The target and the value of a `sqlparser::ast::Assignment`; the target is none where it is
/// a tuple.
#[verifier::external_body]
pub(crate) fn open_assignment<'a>(a: &'a sqlparser::ast::Assignment) -> (out: (
    Option<&'a sqlparser::ast::ObjectName>,
    &'a sqlparser::ast::Expr,
))
    ensures
        (held(out.0), *out.1) == assignment_parts(*a),
{
    match &a.target {
        sqlparser::ast::AssignmentTarget::ColumnName(n) => (Some(n), &a.value),
        sqlparser::ast::AssignmentTarget::Tuple(_) => (None, &a.value),
    }
}

// ---------------------------------------------------------------- trees of a text

/// The trees of the tokens of a text, or the words of the parser about what is wrong with it.
pub uninterp spec fn parsed_trees(tokens: Seq<sqlparser::tokenizer::TokenWithSpan>) -> Result<
    Seq<sqlparser::ast::Statement>,
    Seq<char>,
>;

/// Calls `sqlparser::parser::Parser::parse_statements` with the `GenericDialect`. The trees, and
/// the `Display` text of the error, depend on the tokens alone. A FLUSH of relay logs of a channel
/// without a name is left out, because the parser panics on it.
#[verifier::external_body]
pub(crate) fn parse_trees(tokens: Vec<sqlparser::tokenizer::TokenWithSpan>) -> (out: Result<
    Vec<sqlparser::ast::Statement>,
    String,
>)
    requires
        !tokens::breaks_off(tokens::lexemes(tokens@)),
    ensures
        match out {
            Ok(v) => parsed_trees(tokens@) == Ok::<Seq<sqlparser::ast::Statement>, Seq<char>>(v@),
            Err(e) => parsed_trees(tokens@) == Err::<Seq<sqlparser::ast::Statement>, Seq<char>>(e@),
        },
{
    sqlparser::parser::Parser::new(&sqlparser::dialect::GenericDialect {  })
        .with_tokens_with_locations(tokens)
        .parse_statements()
        .map_err(|e| e.to_string())
}

} // verus!
