//! Aggregate functions in SELECT lists and HAVING clauses.
//!
//! An aggregation computes the aggregate functions first. What refers to them afterwards
//! refers to columns, named by the text of the call.

use crate::syntax;
use crate::syntax::{
    FunctionArgument, FunctionArgumentV, FunctionArguments, FunctionArgumentsV, SelectItem, SelectItemV, SqlNode,
    SqlNodeV,
};
use crate::expr;
use crate::expr::{Expr, ExprV};
use crate::facts;
use crate::facts::{AnswerV, ErrorKind, ErrorV, Facts, QuestionV, SqlError};
use crate::logical;
use crate::logical::{AggregateExpr, AggregateV};
use crate::scalar;
use crate::text;
use crate::value;
use crate::value::{DbValue, Order, ValueV};
use vstd::prelude::*;
use vstd::string::*;

verus! {

// ---------------------------------------------------------------- equality

/// Whether two values are equal: floats and decimals by value, anything else as it is.
pub open spec fn same_value(a: ValueV, b: ValueV) -> bool {
    match (a, b) {
        (ValueV::Float(x), ValueV::Float(y)) => value::float_order(x, y) == Some(Order::Equal),
        (ValueV::Decimal(x), ValueV::Decimal(y)) => value::decimal_order(x, y) == Order::Equal,
        _ => a == b,
    }
}

/// Whether two expressions are equal. An expression with a subquery equals none.
pub open spec fn same_expr(a: ExprV, b: ExprV) -> bool
    decreases a,
{
    match (a, b) {
        (ExprV::Column(x, i), ExprV::Column(y, j)) => x == y && i == j,
        (ExprV::Literal(x), ExprV::Literal(y)) => same_value(x, y),
        (ExprV::Parameter(x), ExprV::Parameter(y)) => x == y,
        (ExprV::BinaryOp { left: l1, op: o1, right: r1 }, ExprV::BinaryOp { left: l2, op: o2, right: r2 }) => o1
            == o2 && same_expr(*l1, *l2) && same_expr(*r1, *r2),
        (
            ExprV::Case { operand: o1, conditions: c1, results: r1, else_result: e1 },
            ExprV::Case { operand: o2, conditions: c2, results: r2, else_result: e2 },
        ) => same_maybe(o1, o2) && same_list(c1, c2) && same_list(r1, r2) && same_maybe(e1, e2),
        (ExprV::Function { name: n1, args: a1 }, ExprV::Function { name: n2, args: a2 }) => n1 == n2 && same_list(
            a1,
            a2,
        ),
        (ExprV::Not(x), ExprV::Not(y)) => same_expr(*x, *y),
        (ExprV::IsNull(x), ExprV::IsNull(y)) => same_expr(*x, *y),
        (ExprV::InList { expr: x, list: l1 }, ExprV::InList { expr: y, list: l2 }) => same_expr(*x, *y) && same_list(
            l1,
            l2,
        ),
        (
            ExprV::Match { column: c1, index: i1, query_str: q1 },
            ExprV::Match { column: c2, index: i2, query_str: q2 },
        ) => c1 == c2 && i1 == i2 && q1 == q2,
        (ExprV::Cast { expr: x, target_type: t1 }, ExprV::Cast { expr: y, target_type: t2 }) => t1 == t2 && same_expr(
            *x,
            *y,
        ),
        _ => false,
    }
}

/// Whether two optional expressions are equal.
pub open spec fn same_maybe(a: Option<Box<ExprV>>, b: Option<Box<ExprV>>) -> bool
    decreases a,
{
    match (a, b) {
        (Some(x), Some(y)) => same_expr(*x, *y),
        (None, None) => true,
        _ => false,
    }
}

/// Whether two lists of expressions are equal.
pub open spec fn same_list(a: Seq<ExprV>, b: Seq<ExprV>) -> bool
    decreases a,
{
    if a.len() == 0 {
        b.len() == 0
    } else {
        b.len() == a.len() && same_list(a.drop_last(), b.drop_last()) && same_expr(a.last(), b.last())
    }
}

/// Whether two aggregate functions are equal.
pub open spec fn same_aggregate(a: AggregateV, b: AggregateV) -> bool {
    match (a, b) {
        (AggregateV::Count { expr: x, distinct: d }, AggregateV::Count { expr: y, distinct: c }) => d == c
            && same_expr(x, y),
        (AggregateV::Sum { expr: x, distinct: d }, AggregateV::Sum { expr: y, distinct: c }) => d == c && same_expr(
            x,
            y,
        ),
        (AggregateV::Min { expr: x, distinct: d }, AggregateV::Min { expr: y, distinct: c }) => d == c && same_expr(
            x,
            y,
        ),
        (AggregateV::Max { expr: x, distinct: d }, AggregateV::Max { expr: y, distinct: c }) => d == c && same_expr(
            x,
            y,
        ),
        (AggregateV::Avg { expr: x, distinct: d }, AggregateV::Avg { expr: y, distinct: c }) => d == c && same_expr(
            x,
            y,
        ),
        _ => false,
    }
}

/// Whether two values are equal.
fn equal_values(a: &DbValue, b: &DbValue) -> (out: bool)
    ensures
        out == same_value(a@, b@),
{
    match (a, b) {
        (DbValue::Int(x), DbValue::Int(y)) => *x == *y,
        (DbValue::Float(x), DbValue::Float(y)) => match value::compare_floats(*x, *y) {
            Some(Order::Equal) => true,
            _ => false,
        },
        (DbValue::Bool(x), DbValue::Bool(y)) => *x == *y,
        (DbValue::String(x), DbValue::String(y)) => text::same_text(x.as_str(), y.as_str()),
        (DbValue::Bytes(x), DbValue::Bytes(y)) => equal_bytes(x, y),
        (DbValue::Null, DbValue::Null) => true,
        (DbValue::Decimal(x), DbValue::Decimal(y)) => match x.compare(y) {
            Order::Equal => true,
            _ => false,
        },
        (DbValue::Date(x), DbValue::Date(y)) => *x == *y,
        (DbValue::Time(x), DbValue::Time(y)) => *x == *y,
        (DbValue::Timestamp(x), DbValue::Timestamp(y)) => x.date == y.date && x.time == y.time,
        _ => false,
    }
}

/// Whether two byte strings are equal.
fn equal_bytes(a: &Vec<u8>, b: &Vec<u8>) -> (out: bool)
    ensures
        out == (a@ == b@),
{
    if a.len() != b.len() {
        return false;
    }
    for i in 0..a.len()
        invariant
            a@.len() == b@.len(),
            forall|j: int| 0 <= j < i ==> a@[j] == b@[j],
    {
        if a[i] != b[i] {
            return false;
        }
    }
    assert(a@ =~= b@);
    true
}

/// Whether two optional positions are equal.
fn equal_positions(a: &Option<usize>, b: &Option<usize>) -> (out: bool)
    ensures
        out == (*a == *b),
{
    match (a, b) {
        (Some(x), Some(y)) => *x == *y,
        (None, None) => true,
        _ => false,
    }
}

/// Whether two expressions are equal.
pub fn equal_exprs(a: &Expr, b: &Expr) -> (out: bool)
    ensures
        out == same_expr(a@, b@),
    decreases a, 0int,
{
    match (a, b) {
        (Expr::Column(x, i), Expr::Column(y, j)) => text::same_text(x.as_str(), y.as_str()) && equal_positions(i, j),
        (Expr::Literal(x), Expr::Literal(y)) => equal_values(x, y),
        (Expr::Parameter(x), Expr::Parameter(y)) => text::same_text(x.as_str(), y.as_str()),
        (Expr::BinaryOp { left: l1, op: o1, right: r1 }, Expr::BinaryOp { left: l2, op: o2, right: r2 }) => *o1
            == *o2 && equal_exprs(l1, l2) && equal_exprs(r1, r2),
        (
            Expr::Case { operand: o1, conditions: c1, results: r1, else_result: e1 },
            Expr::Case { operand: o2, conditions: c2, results: r2, else_result: e2 },
        ) => equal_maybe(o1, o2) && equal_expr_lists(c1, c2) && equal_expr_lists(r1, r2) && equal_maybe(e1, e2),
        (Expr::Function { name: n1, args: a1 }, Expr::Function { name: n2, args: a2 }) => text::same_text(
            n1.as_str(),
            n2.as_str(),
        ) && equal_expr_lists(a1, a2),
        (Expr::Not(x), Expr::Not(y)) => equal_exprs(x, y),
        (Expr::IsNull(x), Expr::IsNull(y)) => equal_exprs(x, y),
        (Expr::InList { expr: x, list: l1 }, Expr::InList { expr: y, list: l2 }) => equal_exprs(x, y) && equal_expr_lists(
            l1,
            l2,
        ),
        (
            Expr::Match { column: c1, index: i1, query_str: q1 },
            Expr::Match { column: c2, index: i2, query_str: q2 },
        ) => text::same_text(c1.as_str(), c2.as_str()) && equal_positions(i1, i2) && text::same_text(
            q1.as_str(),
            q2.as_str(),
        ),
        (Expr::Cast { expr: x, target_type: t1 }, Expr::Cast { expr: y, target_type: t2 }) => *t1 == *t2
            && equal_exprs(x, y),
        _ => false,
    }
}

/// Whether two optional expressions are equal.
fn equal_maybe(a: &Option<Box<Expr>>, b: &Option<Box<Expr>>) -> (out: bool)
    ensures
        out == same_maybe(expr::opt_expr_view(*a), expr::opt_expr_view(*b)),
    decreases a, 0int,
{
    match (a, b) {
        (Some(x), Some(y)) => equal_exprs(x, y),
        (None, None) => true,
        _ => false,
    }
}

/// Whether two lists of expressions are equal up to a position.
fn equal_lists(a: &Vec<Expr>, b: &Vec<Expr>, n: usize) -> (out: bool)
    requires
        n <= a@.len(),
        n <= b@.len(),
    ensures
        out == same_list(expr::exprs_view(a@).take(n as int), expr::exprs_view(b@).take(n as int)),
    decreases a, n,
{
    let ghost x = expr::exprs_view(a@);
    let ghost y = expr::exprs_view(b@);
    if n == 0 {
        return true;
    }
    proof {
        assert(x.take(n as int).drop_last() =~= x.take(n - 1));
        assert(y.take(n as int).drop_last() =~= y.take(n - 1));
        assert(x.take(n as int).last() == a@[n - 1]@);
        assert(y.take(n as int).last() == b@[n - 1]@);
        assert(decreases_to!(a => a@));
        assert(decreases_to!(a@ => a@[n - 1]));
    }
    equal_lists(a, b, n - 1) && equal_exprs(&a[n - 1], &b[n - 1])
}

/// Whether two lists of expressions are equal.
fn equal_expr_lists(a: &Vec<Expr>, b: &Vec<Expr>) -> (out: bool)
    ensures
        out == same_list(expr::exprs_view(a@), expr::exprs_view(b@)),
    decreases a, a@.len() + 1,
{
    let ghost x = expr::exprs_view(a@);
    let ghost y = expr::exprs_view(b@);
    assert(x.len() == a@.len() && y.len() == b@.len());
    assert(x.take(x.len() as int) =~= x);
    assert(y.take(y.len() as int) =~= y);
    a.len() == b.len() && equal_lists(a, b, a.len())
}

/// Whether two aggregate functions are equal.
fn equal_aggregates(a: &AggregateExpr, b: &AggregateExpr) -> (out: bool)
    ensures
        out == same_aggregate(a@, b@),
{
    match (a, b) {
        (AggregateExpr::Count { expr: x, distinct: d }, AggregateExpr::Count { expr: y, distinct: c }) => *d == *c
            && equal_exprs(x, y),
        (AggregateExpr::Sum { expr: x, distinct: d }, AggregateExpr::Sum { expr: y, distinct: c }) => *d == *c
            && equal_exprs(x, y),
        (AggregateExpr::Min { expr: x, distinct: d }, AggregateExpr::Min { expr: y, distinct: c }) => *d == *c
            && equal_exprs(x, y),
        (AggregateExpr::Max { expr: x, distinct: d }, AggregateExpr::Max { expr: y, distinct: c }) => *d == *c
            && equal_exprs(x, y),
        (AggregateExpr::Avg { expr: x, distinct: d }, AggregateExpr::Avg { expr: y, distinct: c }) => *d == *c
            && equal_exprs(x, y),
        _ => false,
    }
}

/// Whether an aggregate function equals one of a list.
pub open spec fn has_equal(aggrs: Seq<AggregateV>, a: AggregateV) -> bool {
    exists|i: int| 0 <= i < aggrs.len() && same_aggregate(#[trigger] aggrs[i], a)
}

/// Whether an aggregate function equals one of a list.
fn contains_equal(aggrs: &Vec<AggregateExpr>, a: &AggregateExpr) -> (out: bool)
    ensures
        out == has_equal(logical::aggrs_view(aggrs@), a@),
{
    let ghost view = logical::aggrs_view(aggrs@);
    for i in 0..aggrs.len()
        invariant
            view == logical::aggrs_view(aggrs@),
            view.len() == aggrs@.len(),
            forall|j: int| 0 <= j < i ==> !same_aggregate(#[trigger] view[j], a@),
    {
        assert(view[i as int] == aggrs@[i as int]@);
        if equal_aggregates(&aggrs[i], a) {
            return true;
        }
    }
    false
}

// ---------------------------------------------------------------- detection

/// Whether the node at a position calls an aggregate function, itself or below binary
/// operators and parentheses.
pub open spec fn calls_aggregate(nodes: Seq<SqlNodeV>, at: int) -> bool
    decreases at,
{
    0 <= at < nodes.len() && match nodes[at] {
        SqlNodeV::Function { name, .. } => scalar::is_aggregate(text::uppercased(name)),
        SqlNodeV::BinaryOp { left, right, .. } => (left < at && calls_aggregate(nodes, left as int)) || (right < at
            && calls_aggregate(nodes, right as int)),
        SqlNodeV::Nested(inner) => inner < at && calls_aggregate(nodes, inner as int),
        _ => false,
    }
}

/// Whether the node at a position calls an aggregate function.
pub fn has_aggregate_function(nodes: &Vec<SqlNode>, at: usize) -> (out: bool)
    ensures
        out == calls_aggregate(syntax::sql_nodes_view(nodes@), at as int),
    decreases at,
{
    if at >= nodes.len() {
        return false;
    }
    assert(syntax::sql_nodes_view(nodes@)[at as int] == nodes@[at as int]@);
    match &nodes[at] {
        SqlNode::Function { name, .. } => {
            let upper = text::to_uppercase(name.as_str());
            scalar::names_aggregate(upper.as_str())
        },
        SqlNode::BinaryOp { left, right, .. } => (*left < at && has_aggregate_function(nodes, *left)) || (*right < at
            && has_aggregate_function(nodes, *right)),
        SqlNode::Nested(inner) => *inner < at && has_aggregate_function(nodes, *inner),
        _ => false,
    }
}

/// Whether an item of a SELECT list calls an aggregate function.
pub open spec fn item_calls_aggregate(nodes: Seq<SqlNodeV>, item: SelectItemV) -> bool {
    match item {
        SelectItemV::Unnamed { expr, .. } => calls_aggregate(nodes, expr as int),
        SelectItemV::Aliased { expr, .. } => calls_aggregate(nodes, expr as int),
        _ => false,
    }
}

/// Whether a SELECT list calls an aggregate function.
pub open spec fn items_call_aggregate(nodes: Seq<SqlNodeV>, items: Seq<SelectItemV>) -> bool {
    exists|i: int| 0 <= i < items.len() && item_calls_aggregate(nodes, #[trigger] items[i])
}

/// Whether a SELECT list calls an aggregate function.
pub fn select_items_have_aggrs(nodes: &Vec<SqlNode>, items: &Vec<SelectItem>) -> (out: bool)
    ensures
        out == items_call_aggregate(syntax::sql_nodes_view(nodes@), syntax::select_items_view(items@)),
{
    let ghost view = syntax::select_items_view(items@);
    for i in 0..items.len()
        invariant
            view == syntax::select_items_view(items@),
            forall|j: int|
                0 <= j < i ==> !item_calls_aggregate(syntax::sql_nodes_view(nodes@), #[trigger] view[j]),
    {
        assert(view[i as int] == items@[i as int]@);
        let found = match &items[i] {
            SelectItem::Unnamed { expr, .. } => has_aggregate_function(nodes, *expr),
            SelectItem::Aliased { expr, .. } => has_aggregate_function(nodes, *expr),
            _ => false,
        };
        if found {
            return true;
        }
    }
    false
}

// ---------------------------------------------------------------- extraction

/// The nodes of a statement, with the aggregate functions found so far and the names of the
/// columns of the aggregation.
#[derive(Debug)]
pub struct Rewriting {
    pub nodes: Vec<SqlNode>,
    pub aggrs: Vec<AggregateExpr>,
    pub names: Vec<String>,
}

/// The model of a rewriting.
pub struct RewritingV {
    pub nodes: Seq<SqlNodeV>,
    pub aggrs: Seq<AggregateV>,
    pub names: Seq<Seq<char>>,
}

impl Rewriting {
    /// The model.
    pub open spec fn view(&self) -> RewritingV {
        RewritingV {
            nodes: syntax::sql_nodes_view(self.nodes@),
            aggrs: logical::aggrs_view(self.aggrs@),
            names: text::views(self.names@),
        }
    }
}

/// The argument of an aggregate function, and whether equal inputs count once. Without an
/// argument, and for the wildcard, every row counts.
pub open spec fn aggregate_argument(
    nodes: Seq<SqlNodeV>,
    args: FunctionArgumentsV,
    name: Seq<char>,
    at: int,
    known: Seq<(QuestionV, AnswerV)>,
) -> Result<(ExprV, bool), ErrorV> {
    match args {
        FunctionArgumentsV::List { args, distinct } => if args.len() == 0 {
            if distinct {
                Err(facts::named_error(ErrorKind::DistinctColumn, name))
            } else {
                Ok((ExprV::Literal(ValueV::Int(1)), false))
            }
        } else {
            match args[0] {
                FunctionArgumentV::Unnamed(i) => match scalar::operand(nodes, i as int, at, known) {
                    Ok(x) => Ok((x, distinct)),
                    Err(e) => Err(e),
                },
                FunctionArgumentV::Wildcard => if distinct {
                    Err(facts::plain_error(ErrorKind::DistinctWildcard))
                } else {
                    Ok((ExprV::Literal(ValueV::Int(1)), false))
                },
                _ => Err(facts::plain_error(ErrorKind::AggregateArgument)),
            }
        },
        FunctionArgumentsV::Absent => Ok((ExprV::Literal(ValueV::Int(1)), false)),
        FunctionArgumentsV::Other(s) => Err(facts::named_error(ErrorKind::AggregateArguments, s)),
    }
}

/// The aggregate function of an upper case name.
pub open spec fn aggregate_named(name: Seq<char>, expr: ExprV, distinct: bool) -> AggregateV {
    if name == "COUNT"@ {
        AggregateV::Count { expr, distinct }
    } else if name == "SUM"@ {
        AggregateV::Sum { expr, distinct }
    } else if name == "MIN"@ {
        AggregateV::Min { expr, distinct }
    } else if name == "MAX"@ {
        AggregateV::Max { expr, distinct }
    } else {
        AggregateV::Avg { expr, distinct }
    }
}

/// A rewriting after an aggregate function was found at a position: the node becomes a column
/// named by the text of the call, and the function is added unless an equal one is there.
pub open spec fn extracted(st: RewritingV, at: int, a: AggregateV, call: Seq<char>) -> RewritingV {
    let nodes = st.nodes.update(at, SqlNodeV::Identifier { value: call, quote: None });
    if has_equal(st.aggrs, a) {
        RewritingV { nodes, aggrs: st.aggrs, names: st.names }
    } else {
        RewritingV { nodes, aggrs: st.aggrs.push(a), names: st.names.push(call) }
    }
}

/// The outcome of extracting the aggregate functions of the node at a position.
pub open spec fn rewritten(st: RewritingV, at: int, known: Seq<(QuestionV, AnswerV)>) -> Result<RewritingV, ErrorV>
    decreases at, 2int, 0int,
{
    if at < 0 || at >= st.nodes.len() {
        Err(facts::plain_error(ErrorKind::Malformed))
    } else {
        match st.nodes[at] {
            SqlNodeV::Function { name, text, args } => if scalar::is_aggregate(text::uppercased(name)) {
                match aggregate_argument(st.nodes, args, text::uppercased(name), at, known) {
                    Err(e) => Err(e),
                    Ok(x) => Ok(extracted(st, at, aggregate_named(text::uppercased(name), x.0, x.1), text)),
                }
            } else {
                match args {
                    FunctionArgumentsV::List { args, .. } => rewritten_arguments(st, args, 0, at, known),
                    _ => Ok(st),
                }
            },
            SqlNodeV::BinaryOp { left, right, .. } => match rewritten_operand(st, left as int, at, known) {
                Err(e) => Err(e),
                Ok(next) => rewritten_operand(next, right as int, at, known),
            },
            SqlNodeV::Nested(inner) => rewritten_operand(st, inner as int, at, known),
            SqlNodeV::UnaryOp { expr, .. } => rewritten_operand(st, expr as int, at, known),
            SqlNodeV::Case { conditions, results, else_result, .. } => if conditions.len() != results.len() {
                Err(facts::plain_error(ErrorKind::Malformed))
            } else {
                match rewritten_clauses(st, conditions, results, 0, at, known) {
                    Err(e) => Err(e),
                    Ok(next) => match else_result {
                        Some(i) => rewritten_operand(next, i as int, at, known),
                        None => Ok(next),
                    },
                }
            },
            _ => Ok(st),
        }
    }
}

/// The outcome of extracting the aggregate functions of an operand of the node at a position.
pub open spec fn rewritten_operand(st: RewritingV, i: int, at: int, known: Seq<(QuestionV, AnswerV)>) -> Result<
    RewritingV,
    ErrorV,
>
    decreases at, 0int, 0int,
{
    if 0 <= i < at {
        rewritten(st, i, known)
    } else {
        Err(facts::plain_error(ErrorKind::Malformed))
    }
}

/// The outcome of extracting the aggregate functions of the arguments from `j` on.
pub open spec fn rewritten_arguments(
    st: RewritingV,
    args: Seq<FunctionArgumentV>,
    j: int,
    at: int,
    known: Seq<(QuestionV, AnswerV)>,
) -> Result<RewritingV, ErrorV>
    decreases at, 1int, args.len() - j,
{
    if j >= args.len() {
        Ok(st)
    } else {
        match args[j] {
            FunctionArgumentV::Unnamed(i) => match rewritten_operand(st, i as int, at, known) {
                Err(e) => Err(e),
                Ok(next) => rewritten_arguments(next, args, j + 1, at, known),
            },
            _ => rewritten_arguments(st, args, j + 1, at, known),
        }
    }
}

/// The outcome of extracting the aggregate functions of the clauses of a CASE from `j` on.
pub open spec fn rewritten_clauses(
    st: RewritingV,
    conditions: Seq<usize>,
    results: Seq<usize>,
    j: int,
    at: int,
    known: Seq<(QuestionV, AnswerV)>,
) -> Result<RewritingV, ErrorV>
    decreases at, 1int, conditions.len() - j,
{
    if j >= conditions.len() {
        Ok(st)
    } else {
        match rewritten_operand(st, conditions[j] as int, at, known) {
            Err(e) => Err(e),
            Ok(next) => match rewritten_operand(next, results[j] as int, at, known) {
                Err(e) => Err(e),
                Ok(last) => rewritten_clauses(last, conditions, results, j + 1, at, known),
            },
        }
    }
}

/// The model of an outcome of a rewriting that changes a state in place.
pub open spec fn rewriting_result(r: Result<(), SqlError>, st: RewritingV) -> Result<RewritingV, ErrorV> {
    match r {
        Ok(_) => Ok(st),
        Err(e) => Err(e@),
    }
}

/// The argument of an aggregate function.
fn plan_aggregate_argument(nodes: &Vec<SqlNode>, args: &FunctionArguments, name: &str, at: usize, facts: &Facts) -> (out:
    Result<(Expr, bool), SqlError>)
    ensures
        match out {
            Ok(x) => aggregate_argument(syntax::sql_nodes_view(nodes@), args@, name@, at as int, facts@) == Ok::<
                (ExprV, bool),
                ErrorV,
            >((x.0@, x.1)),
            Err(e) => aggregate_argument(syntax::sql_nodes_view(nodes@), args@, name@, at as int, facts@) == Err::<
                (ExprV, bool),
                ErrorV,
            >(e@),
        },
{
    match args {
        FunctionArguments::List { args, distinct } => if args.len() == 0 {
            if *distinct {
                Err(SqlError::named(ErrorKind::DistinctColumn, name))
            } else {
                Ok((Expr::Literal(DbValue::Int(1)), false))
            }
        } else {
            assert(syntax::function_arguments_view(args@)[0] == args@[0]@);
            match &args[0] {
                FunctionArgument::Unnamed(i) => {
                    if *i < at {
                        let x = scalar::plan_expr(nodes, *i, facts)?;
                        Ok((x, *distinct))
                    } else {
                        Err(SqlError::plain(ErrorKind::Malformed))
                    }
                },
                FunctionArgument::Wildcard => if *distinct {
                    Err(SqlError::plain(ErrorKind::DistinctWildcard))
                } else {
                    Ok((Expr::Literal(DbValue::Int(1)), false))
                },
                _ => Err(SqlError::plain(ErrorKind::AggregateArgument)),
            }
        },
        FunctionArguments::Absent => Ok((Expr::Literal(DbValue::Int(1)), false)),
        FunctionArguments::Other(s) => Err(SqlError::named(ErrorKind::AggregateArguments, s.as_str())),
    }
}

/// The aggregate function of an upper case name.
fn name_aggregate(name: &str, expr: Expr, distinct: bool) -> (out: AggregateExpr)
    ensures
        out@ == aggregate_named(name@, expr@, distinct),
{
    if text::same_text(name, "COUNT") {
        AggregateExpr::Count { expr, distinct }
    } else if text::same_text(name, "SUM") {
        AggregateExpr::Sum { expr, distinct }
    } else if text::same_text(name, "MIN") {
        AggregateExpr::Min { expr, distinct }
    } else if text::same_text(name, "MAX") {
        AggregateExpr::Max { expr, distinct }
    } else {
        AggregateExpr::Avg { expr, distinct }
    }
}

/// Replaces the call at a position by a column, and adds its function unless an equal one is
/// there.
fn extract(st: &mut Rewriting, at: usize, a: AggregateExpr, call: &String)
    requires
        at < old(st).nodes@.len(),
    ensures
        final(st)@ == extracted(old(st)@, at as int, a@, call@),
{
    let ghost before = st@;
    let node = SqlNode::Identifier { value: call.clone(), quote: None };
    let ghost node_view = node@;
    st.nodes.set(at, node);
    assert(syntax::sql_nodes_view(st.nodes@) =~= before.nodes.update(at as int, node_view));
    if !contains_equal(&st.aggrs, &a) {
        let ghost added = a@;
        st.aggrs.push(a);
        assert(logical::aggrs_view(st.aggrs@) =~= before.aggrs.push(added));
        st.names.push(call.clone());
        assert(text::views(st.names@) =~= before.names.push(call@));
    }
}

/// Extracts the aggregate functions of an operand of the node at a position.
fn rewrite_operand(st: &mut Rewriting, i: usize, at: usize, facts: &Facts) -> (out: Result<(), SqlError>)
    ensures
        rewriting_result(out, final(st)@) == rewritten_operand(old(st)@, i as int, at as int, facts@),
    decreases at, 0int, 0int,
{
    if i < at {
        rewrite_having_expr(st, i, facts)
    } else {
        Err(SqlError::plain(ErrorKind::Malformed))
    }
}

/// Extracts the aggregate functions of the arguments from `j` on.
fn rewrite_arguments(st: &mut Rewriting, args: &Vec<FunctionArgument>, j: usize, at: usize, facts: &Facts) -> (out:
    Result<(), SqlError>)
    requires
        j <= args@.len(),
    ensures
        rewriting_result(out, final(st)@) == rewritten_arguments(
            old(st)@,
            syntax::function_arguments_view(args@),
            j as int,
            at as int,
            facts@,
        ),
    decreases at, 1int, args@.len() - j,
{
    if j == args.len() {
        return Ok(());
    }
    assert(syntax::function_arguments_view(args@)[j as int] == args@[j as int]@);
    match &args[j] {
        FunctionArgument::Unnamed(i) => match rewrite_operand(st, *i, at, facts) {
            Ok(_) => rewrite_arguments(st, args, j + 1, at, facts),
            Err(e) => Err(e),
        },
        _ => rewrite_arguments(st, args, j + 1, at, facts),
    }
}

/// Extracts the aggregate functions of the clauses of a CASE from `j` on.
fn rewrite_clauses(
    st: &mut Rewriting,
    conditions: &Vec<usize>,
    results: &Vec<usize>,
    j: usize,
    at: usize,
    facts: &Facts,
) -> (out: Result<(), SqlError>)
    requires
        conditions@.len() == results@.len(),
        j <= conditions@.len(),
    ensures
        rewriting_result(out, final(st)@) == rewritten_clauses(
            old(st)@,
            conditions@,
            results@,
            j as int,
            at as int,
            facts@,
        ),
    decreases at, 1int, conditions@.len() - j,
{
    if j == conditions.len() {
        return Ok(());
    }
    match rewrite_operand(st, conditions[j], at, facts) {
        Ok(_) => match rewrite_operand(st, results[j], at, facts) {
            Ok(_) => rewrite_clauses(st, conditions, results, j + 1, at, facts),
            Err(e) => Err(e),
        },
        Err(e) => Err(e),
    }
}

/// Extracts the aggregate functions of the node at a position: each call becomes a column
/// named by its text. On an error the state may have changed.
pub fn rewrite_having_expr(st: &mut Rewriting, at: usize, facts: &Facts) -> (out: Result<(), SqlError>)
    ensures
        rewriting_result(out, final(st)@) == rewritten(old(st)@, at as int, facts@),
    decreases at, 2int, 0int,
{
    if at >= st.nodes.len() {
        return Err(SqlError::plain(ErrorKind::Malformed));
    }
    assert(st@.nodes[at as int] == st.nodes@[at as int]@);
    let node = st.nodes[at].copy();
    match &node {
        SqlNode::Function { name, text, args } => {
            let upper = text::to_uppercase(name.as_str());
            if scalar::names_aggregate(upper.as_str()) {
                let x = plan_aggregate_argument(&st.nodes, args, upper.as_str(), at, facts)?;
                let a = name_aggregate(upper.as_str(), x.0, x.1);
                extract(st, at, a, text);
                Ok(())
            } else {
                match args {
                    FunctionArguments::List { args, .. } => rewrite_arguments(st, args, 0, at, facts),
                    _ => Ok(()),
                }
            }
        },
        SqlNode::BinaryOp { left, right, .. } => {
            rewrite_operand(st, *left, at, facts)?;
            rewrite_operand(st, *right, at, facts)
        },
        SqlNode::Nested(inner) => rewrite_operand(st, *inner, at, facts),
        SqlNode::UnaryOp { expr, .. } => rewrite_operand(st, *expr, at, facts),
        SqlNode::Case { conditions, results, else_result, .. } => if conditions.len() != results.len() {
            Err(SqlError::plain(ErrorKind::Malformed))
        } else {
            rewrite_clauses(st, conditions, results, 0, at, facts)?;
            match else_result {
                Some(i) => rewrite_operand(st, *i, at, facts),
                None => Ok(()),
            }
        },
        _ => Ok(()),
    }
}

/// Whether two rewritings have as many nodes, and as many names over the aggregate functions.
pub open spec fn keeps_counts(a: RewritingV, b: RewritingV) -> bool {
    b.nodes.len() == a.nodes.len() && b.names.len() - b.aggrs.len() == a.names.len() - a.aggrs.len()
}

/// Extracting aggregate functions adds one name for each function it adds.
pub proof fn rewriting_names_functions(st: RewritingV, at: int, known: Seq<(QuestionV, AnswerV)>)
    ensures
        rewritten(st, at, known) matches Ok(next) ==> keeps_counts(st, next),
    decreases at, 2int, 0int,
{
    if 0 <= at < st.nodes.len() {
        match st.nodes[at] {
            SqlNodeV::Function { args, .. } => match args {
                FunctionArgumentsV::List { args, .. } => rewriting_arguments_names(st, args, 0, at, known),
                _ => {},
            },
            SqlNodeV::BinaryOp { left, right, .. } => {
                rewriting_operand_names(st, left as int, at, known);
                if let Ok(next) = rewritten_operand(st, left as int, at, known) {
                    rewriting_operand_names(next, right as int, at, known);
                }
            },
            SqlNodeV::Nested(inner) => rewriting_operand_names(st, inner as int, at, known),
            SqlNodeV::UnaryOp { expr, .. } => rewriting_operand_names(st, expr as int, at, known),
            SqlNodeV::Case { conditions, results, else_result, .. } => {
                rewriting_clauses_names(st, conditions, results, 0, at, known);
                if let Ok(next) = rewritten_clauses(st, conditions, results, 0, at, known) {
                    if let Some(i) = else_result {
                        rewriting_operand_names(next, i as int, at, known);
                    }
                }
            },
            _ => {},
        }
    }
}

/// The same for an operand.
proof fn rewriting_operand_names(st: RewritingV, i: int, at: int, known: Seq<(QuestionV, AnswerV)>)
    ensures
        rewritten_operand(st, i, at, known) matches Ok(next) ==> keeps_counts(st, next),
    decreases at, 0int, 0int,
{
    if 0 <= i < at {
        rewriting_names_functions(st, i, known);
    }
}

/// The same for arguments.
proof fn rewriting_arguments_names(
    st: RewritingV,
    args: Seq<FunctionArgumentV>,
    j: int,
    at: int,
    known: Seq<(QuestionV, AnswerV)>,
)
    ensures
        rewritten_arguments(st, args, j, at, known) matches Ok(next) ==> keeps_counts(st, next),
    decreases at, 1int, args.len() - j,
{
    if j < args.len() {
        match args[j] {
            FunctionArgumentV::Unnamed(i) => {
                rewriting_operand_names(st, i as int, at, known);
                if let Ok(next) = rewritten_operand(st, i as int, at, known) {
                    rewriting_arguments_names(next, args, j + 1, at, known);
                }
            },
            _ => rewriting_arguments_names(st, args, j + 1, at, known),
        }
    }
}

/// The same for the clauses of a CASE.
proof fn rewriting_clauses_names(
    st: RewritingV,
    conditions: Seq<usize>,
    results: Seq<usize>,
    j: int,
    at: int,
    known: Seq<(QuestionV, AnswerV)>,
)
    ensures
        rewritten_clauses(st, conditions, results, j, at, known) matches Ok(next) ==> keeps_counts(st, next),
    decreases at, 1int, conditions.len() - j,
{
    if j < conditions.len() {
        rewriting_operand_names(st, conditions[j] as int, at, known);
        if let Ok(next) = rewritten_operand(st, conditions[j] as int, at, known) {
            rewriting_operand_names(next, results[j] as int, at, known);
            if let Ok(last) = rewritten_operand(next, results[j] as int, at, known) {
                rewriting_clauses_names(last, conditions, results, j + 1, at, known);
            }
        }
    }
}

} // verus!
