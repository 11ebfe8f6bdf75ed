//! Folding of subqueries into constants.
//!
//! A subquery that does not depend on the rows around it has one result. Folding replaces
//! it by that result. The results are given in the order in which folding needs them; where
//! the next one is missing, folding stops with the plan that has to be run for it.

use crate::expr;
use crate::expr::{Expr, ExprV};
use crate::facts;
use crate::facts::{ErrorKind, ErrorV, SqlError};
use crate::logical;
use crate::logical::{AggregateExpr, AggregateV, LogicalPlan, PlanV};
use crate::schema::Row;
use crate::text;
use crate::value::{DbValue, ValueV};
use vstd::prelude::*;
use vstd::string::*;

verus! {

/// The result of a subquery: the number of its columns, and its rows.
#[derive(Debug)]
pub struct SubqueryResult {
    pub columns: usize,
    pub rows: Vec<Row>,
}

/// The model of the result of a subquery.
pub struct SubqueryResultV {
    pub columns: nat,
    pub rows: Seq<Seq<ValueV>>,
}

/// The models of rows.
pub open spec fn rows_model(s: Seq<Row>) -> Seq<Seq<ValueV>> {
    s.map_values(|r: Row| r@)
}

impl View for SubqueryResult {
    type V = SubqueryResultV;

    open spec fn view(&self) -> SubqueryResultV {
        SubqueryResultV { columns: self.columns as nat, rows: rows_model(self.rows@) }
    }
}

/// A copy of rows.
pub fn copy_rows(s: &Vec<Row>) -> (out: Vec<Row>)
    ensures
        rows_model(out@) == rows_model(s@),
{
    let mut out: Vec<Row> = Vec::new();
    for i in 0..s.len()
        invariant
            out@.len() == i,
            forall|j: int| 0 <= j < i ==> (#[trigger] out@[j])@ == s@[j]@,
    {
        out.push(s[i].copy());
    }
    assert(rows_model(out@) =~= rows_model(s@));
    out
}

impl SubqueryResult {
    /// A copy.
    pub fn copy(&self) -> (out: SubqueryResult)
        ensures
            out@ == self@,
    {
        SubqueryResult { columns: self.columns, rows: copy_rows(&self.rows) }
    }
}

/// The models of the results of subqueries.
pub open spec fn results_view(s: Seq<SubqueryResult>) -> Seq<SubqueryResultV> {
    s.map_values(|r: SubqueryResult| r@)
}

/// Why folding stopped: a plan has to be run, or an error.
#[derive(Debug)]
pub enum FoldStop {
    Run(LogicalPlan),
    Failed(SqlError),
}

/// The model of why folding stopped.
pub enum FoldStopV {
    Run(PlanV),
    Failed(ErrorV),
}

impl FoldStop {
    /// The model.
    pub open spec fn view(&self) -> FoldStopV {
        match self {
            FoldStop::Run(p) => FoldStopV::Run(p@),
            FoldStop::Failed(e) => FoldStopV::Failed(e@),
        }
    }
}

/// The value of a row in its first column; null where it has none.
pub open spec fn first_value(row: Seq<ValueV>) -> ValueV {
    if row.len() > 0 {
        row[0]
    } else {
        ValueV::Null
    }
}

/// The value of a scalar subquery: that of its row, or null where there is none.
pub open spec fn scalar_value(r: SubqueryResultV) -> Result<ValueV, FoldStopV> {
    if r.columns != 1 {
        Err(FoldStopV::Failed(facts::plain_error(ErrorKind::ScalarColumns)))
    } else if r.rows.len() == 0 {
        Ok(ValueV::Null)
    } else if r.rows.len() == 1 {
        Ok(first_value(r.rows[0]))
    } else {
        Err(FoldStopV::Failed(facts::plain_error(ErrorKind::ScalarRows)))
    }
}

/// The literals that an IN tests against.
pub open spec fn member_literals(r: SubqueryResultV) -> Result<Seq<ExprV>, FoldStopV> {
    if r.columns != 1 {
        Err(FoldStopV::Failed(facts::plain_error(ErrorKind::MemberColumns)))
    } else {
        Ok(r.rows.map_values(|row: Seq<ValueV>| ExprV::Literal(first_value(row))))
    }
}

/// The next result, after the plan for it was folded.
pub open spec fn taken(plan: PlanV, results: Seq<SubqueryResultV>, k: int) -> Result<SubqueryResultV, FoldStopV> {
    if 0 <= k < results.len() {
        Ok(results[k])
    } else {
        Err(FoldStopV::Run(plan))
    }
}

/// A membership test, negated where that is asked for.
pub open spec fn member_test(x: ExprV, list: Seq<ExprV>, negated: bool) -> ExprV {
    let test = ExprV::InList { expr: Box::new(x), list };
    if negated {
        ExprV::Not(Box::new(test))
    } else {
        test
    }
}

/// An expression with its subqueries folded, and the number of results used by then. The
/// first `k` results are those of earlier subqueries.
pub open spec fn folded_expr(e: ExprV, results: Seq<SubqueryResultV>, k: int) -> Result<(ExprV, int), FoldStopV>
    decreases e, 0int,
{
    match e {
        ExprV::Column(_, _) => Ok((e, k)),
        ExprV::Literal(_) => Ok((e, k)),
        ExprV::Parameter(_) => Ok((e, k)),
        ExprV::Match { .. } => Ok((e, k)),
        ExprV::BinaryOp { left, op, right } => match folded_expr(*left, results, k) {
            Err(s) => Err(s),
            Ok(l) => match folded_expr(*right, results, l.1) {
                Err(s) => Err(s),
                Ok(r) => Ok((ExprV::BinaryOp { left: Box::new(l.0), op, right: Box::new(r.0) }, r.1)),
            },
        },
        ExprV::Not(inner) => match folded_expr(*inner, results, k) {
            Err(s) => Err(s),
            Ok(x) => Ok((ExprV::Not(Box::new(x.0)), x.1)),
        },
        ExprV::IsNull(inner) => match folded_expr(*inner, results, k) {
            Err(s) => Err(s),
            Ok(x) => Ok((ExprV::IsNull(Box::new(x.0)), x.1)),
        },
        ExprV::Cast { expr, target_type } => match folded_expr(*expr, results, k) {
            Err(s) => Err(s),
            Ok(x) => Ok((ExprV::Cast { expr: Box::new(x.0), target_type }, x.1)),
        },
        ExprV::Case { operand, conditions, results: outs, else_result } => match folded_maybe(operand, results, k) {
            Err(s) => Err(s),
            Ok(o) => match folded_list(conditions, 0, Seq::empty(), results, o.1) {
                Err(s) => Err(s),
                Ok(c) => match folded_list(outs, 0, Seq::empty(), results, c.1) {
                    Err(s) => Err(s),
                    Ok(r) => match folded_maybe(else_result, results, r.1) {
                        Err(s) => Err(s),
                        Ok(x) => Ok(
                            (
                                ExprV::Case { operand: o.0, conditions: c.0, results: r.0, else_result: x.0 },
                                x.1,
                            ),
                        ),
                    },
                },
            },
        },
        ExprV::Function { name, args } => match folded_list(args, 0, Seq::empty(), results, k) {
            Err(s) => Err(s),
            Ok(a) => Ok((ExprV::Function { name, args: a.0 }, a.1)),
        },
        ExprV::InList { expr, list } => match folded_expr(*expr, results, k) {
            Err(s) => Err(s),
            Ok(x) => match folded_list(list, 0, Seq::empty(), results, x.1) {
                Err(s) => Err(s),
                Ok(l) => Ok((ExprV::InList { expr: Box::new(x.0), list: l.0 }, l.1)),
            },
        },
        ExprV::ScalarSubquery(subquery) => match folded_plan(*subquery, results, k) {
            Err(s) => Err(s),
            Ok(p) => match taken(p.0, results, p.1) {
                Err(s) => Err(s),
                Ok(r) => match scalar_value(r) {
                    Err(s) => Err(s),
                    Ok(v) => Ok((ExprV::Literal(v), p.1 + 1)),
                },
            },
        },
        ExprV::InSubquery { expr, subquery, negated } => match folded_expr(*expr, results, k) {
            Err(s) => Err(s),
            Ok(x) => match folded_plan(*subquery, results, x.1) {
                Err(s) => Err(s),
                Ok(p) => match taken(p.0, results, p.1) {
                    Err(s) => Err(s),
                    Ok(r) => match member_literals(r) {
                        Err(s) => Err(s),
                        Ok(list) => Ok((member_test(x.0, list, negated), p.1 + 1)),
                    },
                },
            },
        },
        ExprV::Exists { subquery, negated } => match folded_plan(*subquery, results, k) {
            Err(s) => Err(s),
            Ok(p) => match taken(p.0, results, p.1) {
                Err(s) => Err(s),
                Ok(r) => Ok((ExprV::Literal(ValueV::Bool((r.rows.len() > 0) != negated)), p.1 + 1)),
            },
        },
    }
}

/// An optional expression with its subqueries folded.
pub open spec fn folded_maybe(o: Option<Box<ExprV>>, results: Seq<SubqueryResultV>, k: int) -> Result<
    (Option<Box<ExprV>>, int),
    FoldStopV,
>
    decreases o, 0int,
{
    match o {
        None => Ok((None, k)),
        Some(e) => match folded_expr(*e, results, k) {
            Err(s) => Err(s),
            Ok(x) => Ok((Some(Box::new(x.0)), x.1)),
        },
    }
}

/// The expressions from position `i` on with their subqueries folded, after those in `acc`.
pub open spec fn folded_list(
    es: Seq<ExprV>,
    i: int,
    acc: Seq<ExprV>,
    results: Seq<SubqueryResultV>,
    k: int,
) -> Result<(Seq<ExprV>, int), FoldStopV>
    decreases es, es.len() - i,
{
    if i < 0 || i >= es.len() {
        Ok((acc, k))
    } else {
        match folded_expr(es[i], results, k) {
            Err(s) => Err(s),
            Ok(x) => folded_list(es, i + 1, acc.push(x.0), results, x.1),
        }
    }
}

/// The aggregate functions from position `i` on with their subqueries folded, after those in
/// `acc`.
pub open spec fn folded_aggrs(
    s: Seq<AggregateV>,
    i: int,
    acc: Seq<AggregateV>,
    results: Seq<SubqueryResultV>,
    k: int,
) -> Result<(Seq<AggregateV>, int), FoldStopV>
    decreases s, s.len() - i,
{
    if i < 0 || i >= s.len() {
        Ok((acc, k))
    } else {
        match folded_aggr(s[i], results, k) {
            Err(s) => Err(s),
            Ok(x) => folded_aggrs(s, i + 1, acc.push(x.0), results, x.1),
        }
    }
}

/// An aggregate function with its subqueries folded.
pub open spec fn folded_aggr(a: AggregateV, results: Seq<SubqueryResultV>, k: int) -> Result<
    (AggregateV, int),
    FoldStopV,
>
    decreases a, 0int,
{
    match folded_expr(
        match a {
            AggregateV::Count { expr, .. } => expr,
            AggregateV::Sum { expr, .. } => expr,
            AggregateV::Min { expr, .. } => expr,
            AggregateV::Max { expr, .. } => expr,
            AggregateV::Avg { expr, .. } => expr,
        },
        results,
        k,
    ) {
        Err(s) => Err(s),
        Ok(x) => Ok((logical::with_arg(a, x.0), x.1)),
    }
}

/// The sort keys from position `i` on with their subqueries folded, after those in `acc`.
pub open spec fn folded_keys(
    s: Seq<(ExprV, bool)>,
    i: int,
    acc: Seq<(ExprV, bool)>,
    results: Seq<SubqueryResultV>,
    k: int,
) -> Result<(Seq<(ExprV, bool)>, int), FoldStopV>
    decreases s, s.len() - i,
{
    if i < 0 || i >= s.len() {
        Ok((acc, k))
    } else {
        match folded_expr(s[i].0, results, k) {
            Err(s) => Err(s),
            Ok(x) => folded_keys(s, i + 1, acc.push((x.0, s[i].1)), results, x.1),
        }
    }
}

/// A plan with the subqueries of its expressions folded, and the number of results used by
/// then.
pub open spec fn folded_plan(p: PlanV, results: Seq<SubqueryResultV>, k: int) -> Result<(PlanV, int), FoldStopV>
    decreases p, 0int,
{
    match p {
        PlanV::Scan { .. } => Ok((p, k)),
        PlanV::IndexScan { .. } => Ok((p, k)),
        PlanV::FullTextScan { .. } => Ok((p, k)),
        PlanV::Filter { source, predicate } => match folded_plan(*source, results, k) {
            Err(s) => Err(s),
            Ok(q) => match folded_expr(predicate, results, q.1) {
                Err(s) => Err(s),
                Ok(x) => Ok((PlanV::Filter { source: Box::new(q.0), predicate: x.0 }, x.1)),
            },
        },
        PlanV::Projection { source, expressions, field_names, schema } => match folded_plan(*source, results, k) {
            Err(s) => Err(s),
            Ok(q) => match folded_list(expressions, 0, Seq::empty(), results, q.1) {
                Err(s) => Err(s),
                Ok(x) => Ok(
                    (
                        PlanV::Projection { source: Box::new(q.0), expressions: x.0, field_names, schema },
                        x.1,
                    ),
                ),
            },
        },
        PlanV::Join { left, right, condition, join_type, schema } => match folded_plan(*left, results, k) {
            Err(s) => Err(s),
            Ok(l) => match folded_plan(*right, results, l.1) {
                Err(s) => Err(s),
                Ok(r) => match folded_expr(condition, results, r.1) {
                    Err(s) => Err(s),
                    Ok(x) => Ok(
                        (
                            PlanV::Join {
                                left: Box::new(l.0),
                                right: Box::new(r.0),
                                condition: x.0,
                                join_type,
                                schema,
                            },
                            x.1,
                        ),
                    ),
                },
            },
        },
        PlanV::Aggregate { source, group_by, aggrs, field_names, schema } => match folded_plan(*source, results, k) {
            Err(s) => Err(s),
            Ok(q) => match folded_list(group_by, 0, Seq::empty(), results, q.1) {
                Err(s) => Err(s),
                Ok(g) => match folded_aggrs(aggrs, 0, Seq::empty(), results, g.1) {
                    Err(s) => Err(s),
                    Ok(a) => Ok(
                        (
                            PlanV::Aggregate {
                                source: Box::new(q.0),
                                group_by: g.0,
                                aggrs: a.0,
                                field_names,
                                schema,
                            },
                            a.1,
                        ),
                    ),
                },
            },
        },
        PlanV::Sort { source, keys } => match folded_plan(*source, results, k) {
            Err(s) => Err(s),
            Ok(q) => match folded_keys(keys, 0, Seq::empty(), results, q.1) {
                Err(s) => Err(s),
                Ok(x) => Ok((PlanV::Sort { source: Box::new(q.0), keys: x.0 }, x.1)),
            },
        },
        PlanV::Limit { source, limit, offset } => match folded_plan(*source, results, k) {
            Err(s) => Err(s),
            Ok(q) => Ok((PlanV::Limit { source: Box::new(q.0), limit, offset }, q.1)),
        },
        PlanV::Distinct { source } => match folded_plan(*source, results, k) {
            Err(s) => Err(s),
            Ok(q) => Ok((PlanV::Distinct { source: Box::new(q.0) }, q.1)),
        },
        PlanV::SetOp { left, right, op, all } => match folded_plan(*left, results, k) {
            Err(s) => Err(s),
            Ok(l) => match folded_plan(*right, results, l.1) {
                Err(s) => Err(s),
                Ok(r) => Ok((PlanV::SetOp { left: Box::new(l.0), right: Box::new(r.0), op, all }, r.1)),
            },
        },
    }
}

/// The model of an outcome of folding an expression.
pub open spec fn expr_outcome(r: Result<(Expr, usize), FoldStop>) -> Result<(ExprV, int), FoldStopV> {
    match r {
        Ok(x) => Ok((x.0@, x.1 as int)),
        Err(s) => Err(s@),
    }
}

/// The model of an outcome of folding an optional expression.
pub open spec fn maybe_outcome(r: Result<(Option<Box<Expr>>, usize), FoldStop>) -> Result<
    (Option<Box<ExprV>>, int),
    FoldStopV,
> {
    match r {
        Ok(x) => Ok((expr::opt_expr_view(x.0), x.1 as int)),
        Err(s) => Err(s@),
    }
}

/// The model of an outcome of folding expressions.
pub open spec fn list_outcome(r: Result<(Vec<Expr>, usize), FoldStop>) -> Result<(Seq<ExprV>, int), FoldStopV> {
    match r {
        Ok(x) => Ok((expr::exprs_view(x.0@), x.1 as int)),
        Err(s) => Err(s@),
    }
}

/// The model of an outcome of folding aggregate functions.
pub open spec fn aggrs_outcome(r: Result<(Vec<AggregateExpr>, usize), FoldStop>) -> Result<
    (Seq<AggregateV>, int),
    FoldStopV,
> {
    match r {
        Ok(x) => Ok((logical::aggrs_view(x.0@), x.1 as int)),
        Err(s) => Err(s@),
    }
}

/// The model of an outcome of folding sort keys.
pub open spec fn keys_outcome(r: Result<(Vec<(Expr, bool)>, usize), FoldStop>) -> Result<
    (Seq<(ExprV, bool)>, int),
    FoldStopV,
> {
    match r {
        Ok(x) => Ok((logical::sort_keys_view(x.0@), x.1 as int)),
        Err(s) => Err(s@),
    }
}

/// The model of an outcome of folding a plan.
pub open spec fn plan_outcome(r: Result<(LogicalPlan, usize), FoldStop>) -> Result<(PlanV, int), FoldStopV> {
    match r {
        Ok(x) => Ok((x.0@, x.1 as int)),
        Err(s) => Err(s@),
    }
}

/// The value of a row in its first column.
fn first_of(row: &Row) -> (out: DbValue)
    ensures
        out@ == first_value(row@),
{
    match row.get_by_index(0) {
        Some(v) => v.clone(),
        None => DbValue::Null,
    }
}

/// The value of a scalar subquery.
fn read_scalar(r: &SubqueryResult) -> (out: Result<DbValue, FoldStop>)
    ensures
        match out {
            Ok(v) => scalar_value(r@) == Ok::<ValueV, FoldStopV>(v@),
            Err(s) => scalar_value(r@) == Err::<ValueV, FoldStopV>(s@),
        },
{
    if r.columns != 1 {
        return Err(FoldStop::Failed(SqlError::plain(ErrorKind::ScalarColumns)));
    }
    if r.rows.len() == 0 {
        return Ok(DbValue::Null);
    }
    if r.rows.len() == 1 {
        assert(r@.rows[0] == r.rows@[0]@);
        return Ok(first_of(&r.rows[0]));
    }
    Err(FoldStop::Failed(SqlError::plain(ErrorKind::ScalarRows)))
}

/// The literals that an IN tests against.
fn read_members(r: &SubqueryResult) -> (out: Result<Vec<Expr>, FoldStop>)
    ensures
        match out {
            Ok(l) => member_literals(r@) == Ok::<Seq<ExprV>, FoldStopV>(expr::exprs_view(l@)),
            Err(s) => member_literals(r@) == Err::<Seq<ExprV>, FoldStopV>(s@),
        },
{
    if r.columns != 1 {
        return Err(FoldStop::Failed(SqlError::plain(ErrorKind::MemberColumns)));
    }
    let mut out: Vec<Expr> = Vec::new();
    for i in 0..r.rows.len()
        invariant
            out@.len() == i,
            forall|j: int|
                0 <= j < i ==> (#[trigger] out@[j])@ == ExprV::Literal(first_value(r.rows@[j]@)),
    {
        out.push(Expr::Literal(first_of(&r.rows[i])));
    }
    assert(expr::exprs_view(out@) =~= r@.rows.map_values(
        |row: Seq<ValueV>| ExprV::Literal(first_value(row)),
    ));
    Ok(out)
}

/// The next result.
fn take<'a>(plan: &LogicalPlan, results: &'a Vec<SubqueryResult>, k: usize) -> (out: Result<
    &'a SubqueryResult,
    FoldStop,
>)
    ensures
        match out {
            Ok(r) => taken(plan@, results_view(results@), k as int) == Ok::<SubqueryResultV, FoldStopV>(r@)
                && k < results@.len() <= usize::MAX,
            Err(s) => taken(plan@, results_view(results@), k as int) == Err::<SubqueryResultV, FoldStopV>(s@),
        },
{
    if k < results.len() {
        Ok(&results[k])
    } else {
        Err(FoldStop::Run(plan.copy()))
    }
}

/// A membership test, negated where that is asked for.
fn test_member(x: Expr, list: Vec<Expr>, negated: bool) -> (out: Expr)
    ensures
        out@ == member_test(x@, expr::exprs_view(list@), negated),
{
    let ghost model = ExprV::InList { expr: Box::new(x@), list: expr::exprs_view(list@) };
    let test = Expr::InList { expr: Box::new(x), list };
    assert(test@ == model);
    if negated {
        Expr::Not(Box::new(test))
    } else {
        test
    }
}

/// Folds a subquery node.
fn fold_subquery_node(e: &Expr, results: &Vec<SubqueryResult>, k: usize) -> (out: Result<(Expr, usize), FoldStop>)
    requires
        e@ is ScalarSubquery || e@ is InSubquery || e@ is Exists,
    ensures
        expr_outcome(out) == folded_expr(e@, results_view(results@), k as int),
    decreases e, 0int,
{
    match e {
        Expr::ScalarSubquery(subquery) => {
            let p = fold_plan(subquery, results, k)?;
            let r = take(&p.0, results, p.1)?;
            let v = read_scalar(r)?;
            Ok((Expr::Literal(v), p.1 + 1))
        },
        Expr::InSubquery { expr, subquery, negated } => {
            let x = fold_expr(expr, results, k)?;
            let p = fold_plan(subquery, results, x.1)?;
            let r = take(&p.0, results, p.1)?;
            let list = read_members(r)?;
            Ok((test_member(x.0, list, *negated), p.1 + 1))
        },
        Expr::Exists { subquery, negated } => {
            let p = fold_plan(subquery, results, k)?;
            let r = take(&p.0, results, p.1)?;
            assert(r@.rows.len() == r.rows@.len());
            Ok((Expr::Literal(DbValue::Bool((r.rows.len() > 0) != *negated)), p.1 + 1))
        },
        _ => Ok((e.copy(), k)),
    }
}

/// Folds the subqueries of an expression; the first `k` results are those of earlier
/// subqueries.
pub fn fold_expr(e: &Expr, results: &Vec<SubqueryResult>, k: usize) -> (out: Result<(Expr, usize), FoldStop>)
    ensures
        expr_outcome(out) == folded_expr(e@, results_view(results@), k as int),
    decreases e, 1int,
{
    match e {
        Expr::Column(_, _) => Ok((e.copy(), k)),
        Expr::Literal(_) => Ok((e.copy(), k)),
        Expr::Parameter(_) => Ok((e.copy(), k)),
        Expr::Match { .. } => Ok((e.copy(), k)),
        Expr::BinaryOp { left, op, right } => {
            let l = fold_expr(left, results, k)?;
            let r = fold_expr(right, results, l.1)?;
            Ok((Expr::BinaryOp { left: Box::new(l.0), op: *op, right: Box::new(r.0) }, r.1))
        },
        Expr::Not(inner) => {
            let x = fold_expr(inner, results, k)?;
            Ok((Expr::Not(Box::new(x.0)), x.1))
        },
        Expr::IsNull(inner) => {
            let x = fold_expr(inner, results, k)?;
            Ok((Expr::IsNull(Box::new(x.0)), x.1))
        },
        Expr::Cast { expr, target_type } => {
            let x = fold_expr(expr, results, k)?;
            Ok((Expr::Cast { expr: Box::new(x.0), target_type: *target_type }, x.1))
        },
        Expr::Case { operand, conditions, results: outs, else_result } => {
            let o = fold_maybe(operand, results, k)?;
            let c = fold_exprs(conditions, results, o.1)?;
            let r = fold_exprs(outs, results, c.1)?;
            let x = fold_maybe(else_result, results, r.1)?;
            Ok((Expr::Case { operand: o.0, conditions: c.0, results: r.0, else_result: x.0 }, x.1))
        },
        Expr::Function { name, args } => {
            let a = fold_exprs(args, results, k)?;
            Ok((Expr::Function { name: name.clone(), args: a.0 }, a.1))
        },
        Expr::InList { expr, list } => {
            let x = fold_expr(expr, results, k)?;
            let l = fold_exprs(list, results, x.1)?;
            Ok((Expr::InList { expr: Box::new(x.0), list: l.0 }, l.1))
        },
        Expr::ScalarSubquery(_) => fold_subquery_node(e, results, k),
        Expr::InSubquery { .. } => fold_subquery_node(e, results, k),
        Expr::Exists { .. } => fold_subquery_node(e, results, k),
    }
}

/// Folds the subqueries of an optional expression.
fn fold_maybe(o: &Option<Box<Expr>>, results: &Vec<SubqueryResult>, k: usize) -> (out: Result<
    (Option<Box<Expr>>, usize),
    FoldStop,
>)
    ensures
        maybe_outcome(out) == folded_maybe(expr::opt_expr_view(*o), results_view(results@), k as int),
    decreases o, 0int,
{
    match o {
        None => Ok((None, k)),
        Some(e) => {
            let x = fold_expr(e, results, k)?;
            Ok((Some(Box::new(x.0)), x.1))
        },
    }
}

/// Folds the subqueries of the expressions from position `i` on, after those in `acc`.
fn fold_list(es: &Vec<Expr>, i: usize, acc: Vec<Expr>, results: &Vec<SubqueryResult>, k: usize) -> (out: Result<
    (Vec<Expr>, usize),
    FoldStop,
>)
    requires
        i <= es@.len(),
    ensures
        list_outcome(out) == folded_list(
            expr::exprs_view(es@),
            i as int,
            expr::exprs_view(acc@),
            results_view(results@),
            k as int,
        ),
    decreases es, es@.len() - i,
{
    assert(expr::exprs_view(es@).len() == es@.len());
    if i == es.len() {
        return Ok((acc, k));
    }
    assert(expr::exprs_view(es@)[i as int] == es@[i as int]@);
    assert(decreases_to!(es => es@));
    assert(decreases_to!(es@ => es@[i as int]));
    match fold_expr(&es[i], results, k) {
        Err(s) => Err(s),
        Ok(x) => {
            let ghost before = expr::exprs_view(acc@);
            let ghost added = x.0@;
            let mut next = acc;
            next.push(x.0);
            assert(expr::exprs_view(next@) =~= before.push(added));
            fold_list(es, i + 1, next, results, x.1)
        },
    }
}

/// Folds the subqueries of some expressions.
fn fold_exprs(es: &Vec<Expr>, results: &Vec<SubqueryResult>, k: usize) -> (out: Result<(Vec<Expr>, usize), FoldStop>)
    ensures
        list_outcome(out) == folded_list(
            expr::exprs_view(es@),
            0,
            Seq::empty(),
            results_view(results@),
            k as int,
        ),
    decreases es, es@.len() + 1,
{
    let acc: Vec<Expr> = Vec::new();
    assert(expr::exprs_view(acc@) =~= Seq::empty());
    fold_list(es, 0, acc, results, k)
}

/// Folds the subqueries of the aggregate functions from position `i` on, after those in
/// `acc`.
fn fold_aggrs(s: &Vec<AggregateExpr>, i: usize, acc: Vec<AggregateExpr>, results: &Vec<SubqueryResult>, k: usize) -> (out:
    Result<(Vec<AggregateExpr>, usize), FoldStop>)
    requires
        i <= s@.len(),
    ensures
        aggrs_outcome(out) == folded_aggrs(
            logical::aggrs_view(s@),
            i as int,
            logical::aggrs_view(acc@),
            results_view(results@),
            k as int,
        ),
    decreases s, s@.len() - i,
{
    assert(logical::aggrs_view(s@).len() == s@.len());
    if i == s.len() {
        return Ok((acc, k));
    }
    assert(logical::aggrs_view(s@)[i as int] == s@[i as int]@);
    assert(decreases_to!(s => s@));
    assert(decreases_to!(s@ => s@[i as int]));
    match fold_aggr(&s[i], results, k) {
        Err(s) => Err(s),
        Ok(x) => {
            let ghost before = logical::aggrs_view(acc@);
            let ghost added = x.0@;
            let mut next = acc;
            next.push(x.0);
            assert(logical::aggrs_view(next@) =~= before.push(added));
            fold_aggrs(s, i + 1, next, results, x.1)
        },
    }
}

/// Folds the subqueries of an aggregate function.
fn fold_aggr(a: &AggregateExpr, results: &Vec<SubqueryResult>, k: usize) -> (out: Result<
    (AggregateExpr, usize),
    FoldStop,
>)
    ensures
        match out {
            Ok(x) => folded_aggr(a@, results_view(results@), k as int) == Ok::<(AggregateV, int), FoldStopV>(
                (x.0@, x.1 as int),
            ),
            Err(s) => folded_aggr(a@, results_view(results@), k as int) == Err::<(AggregateV, int), FoldStopV>(
                s@,
            ),
        },
    decreases a, 0int,
{
    let arg = match a {
        AggregateExpr::Count { expr, .. } => expr,
        AggregateExpr::Sum { expr, .. } => expr,
        AggregateExpr::Min { expr, .. } => expr,
        AggregateExpr::Max { expr, .. } => expr,
        AggregateExpr::Avg { expr, .. } => expr,
    };
    match fold_expr(arg, results, k) {
        Err(s) => Err(s),
        Ok(x) => Ok((a.replace_arg(x.0), x.1)),
    }
}

/// Folds the subqueries of the sort keys from position `i` on, after those in `acc`.
fn fold_keys(s: &Vec<(Expr, bool)>, i: usize, acc: Vec<(Expr, bool)>, results: &Vec<SubqueryResult>, k: usize) -> (out:
    Result<(Vec<(Expr, bool)>, usize), FoldStop>)
    requires
        i <= s@.len(),
    ensures
        keys_outcome(out) == folded_keys(
            logical::sort_keys_view(s@),
            i as int,
            logical::sort_keys_view(acc@),
            results_view(results@),
            k as int,
        ),
    decreases s, s@.len() - i,
{
    assert(logical::sort_keys_view(s@).len() == s@.len());
    if i == s.len() {
        return Ok((acc, k));
    }
    assert(logical::sort_keys_view(s@)[i as int] == (s@[i as int].0@, s@[i as int].1));
    assert(decreases_to!(s => s@));
    assert(decreases_to!(s@ => s@[i as int]));
    assert(decreases_to!(s@[i as int] => s@[i as int].0));
    match fold_expr(&s[i].0, results, k) {
        Err(s) => Err(s),
        Ok(x) => {
            let ghost before = logical::sort_keys_view(acc@);
            let ghost added = (x.0@, s@[i as int].1);
            let mut next = acc;
            next.push((x.0, s[i].1));
            assert(logical::sort_keys_view(next@) =~= before.push(added));
            fold_keys(s, i + 1, next, results, x.1)
        },
    }
}

/// Folds the subqueries of the expressions of a plan.
pub fn fold_plan(p: &LogicalPlan, results: &Vec<SubqueryResult>, k: usize) -> (out: Result<
    (LogicalPlan, usize),
    FoldStop,
>)
    ensures
        plan_outcome(out) == folded_plan(p@, results_view(results@), k as int),
    decreases p, 1int,
{
    match p {
        LogicalPlan::Scan { .. } => Ok((p.copy(), k)),
        LogicalPlan::IndexScan { .. } => Ok((p.copy(), k)),
        LogicalPlan::FullTextScan { .. } => Ok((p.copy(), k)),
        LogicalPlan::Filter { source, predicate } => {
            let q = fold_plan(source, results, k)?;
            let x = fold_expr(predicate, results, q.1)?;
            Ok((LogicalPlan::Filter { source: Box::new(q.0), predicate: x.0 }, x.1))
        },
        LogicalPlan::Projection { source, expressions, field_names, schema } => {
            let q = fold_plan(source, results, k)?;
            let x = fold_exprs(expressions, results, q.1)?;
            Ok(
                (
                    LogicalPlan::Projection {
                        source: Box::new(q.0),
                        expressions: x.0,
                        field_names: text::copy_strings(field_names),
                        schema: schema.clone(),
                    },
                    x.1,
                ),
            )
        },
        LogicalPlan::Join { left, right, condition, join_type, schema } => {
            let l = fold_plan(left, results, k)?;
            let r = fold_plan(right, results, l.1)?;
            let x = fold_expr(condition, results, r.1)?;
            Ok(
                (
                    LogicalPlan::Join {
                        left: Box::new(l.0),
                        right: Box::new(r.0),
                        condition: x.0,
                        join_type: *join_type,
                        schema: schema.clone(),
                    },
                    x.1,
                ),
            )
        },
        LogicalPlan::Aggregate { source, group_by, aggrs, field_names, schema } => {
            let q = fold_plan(source, results, k)?;
            let g = fold_exprs(group_by, results, q.1)?;
            let none: Vec<AggregateExpr> = Vec::new();
            assert(logical::aggrs_view(none@) =~= Seq::empty());
            let a = fold_aggrs(aggrs, 0, none, results, g.1)?;
            Ok(
                (
                    LogicalPlan::Aggregate {
                        source: Box::new(q.0),
                        group_by: g.0,
                        aggrs: a.0,
                        field_names: text::copy_strings(field_names),
                        schema: schema.clone(),
                    },
                    a.1,
                ),
            )
        },
        LogicalPlan::Sort { source, keys } => {
            let q = fold_plan(source, results, k)?;
            let none: Vec<(Expr, bool)> = Vec::new();
            assert(logical::sort_keys_view(none@) =~= Seq::empty());
            let x = fold_keys(keys, 0, none, results, q.1)?;
            Ok((LogicalPlan::Sort { source: Box::new(q.0), keys: x.0 }, x.1))
        },
        LogicalPlan::Limit { source, limit, offset } => {
            let q = fold_plan(source, results, k)?;
            Ok((LogicalPlan::Limit { source: Box::new(q.0), limit: *limit, offset: *offset }, q.1))
        },
        LogicalPlan::Distinct { source } => {
            let q = fold_plan(source, results, k)?;
            Ok((LogicalPlan::Distinct { source: Box::new(q.0) }, q.1))
        },
        LogicalPlan::SetOp { left, right, op, all } => {
            let l = fold_plan(left, results, k)?;
            let r = fold_plan(right, results, l.1)?;
            Ok((LogicalPlan::SetOp { left: Box::new(l.0), right: Box::new(r.0), op: *op, all: *all }, r.1))
        },
    }
}

// ---------------------------------------------------------------- detection

/// Whether an expression has a subquery.
pub open spec fn expr_has_subquery(e: ExprV) -> bool
    decreases e,
{
    match e {
        ExprV::ScalarSubquery(_) => true,
        ExprV::InSubquery { .. } => true,
        ExprV::Exists { .. } => true,
        ExprV::BinaryOp { left, right, .. } => expr_has_subquery(*left) || expr_has_subquery(*right),
        ExprV::Not(inner) => expr_has_subquery(*inner),
        ExprV::IsNull(inner) => expr_has_subquery(*inner),
        ExprV::Case { operand, conditions, results, else_result } => maybe_has_subquery(operand) || list_has_subquery(
            conditions,
        ) || list_has_subquery(results) || maybe_has_subquery(else_result),
        ExprV::Function { args, .. } => list_has_subquery(args),
        ExprV::InList { expr, list } => expr_has_subquery(*expr) || list_has_subquery(list),
        ExprV::Cast { expr, .. } => expr_has_subquery(*expr),
        ExprV::Column(_, _) => false,
        ExprV::Literal(_) => false,
        ExprV::Parameter(_) => false,
        ExprV::Match { .. } => false,
    }
}

/// Whether an optional expression has a subquery.
pub open spec fn maybe_has_subquery(o: Option<Box<ExprV>>) -> bool
    decreases o,
{
    match o {
        Some(e) => expr_has_subquery(*e),
        None => false,
    }
}

/// Whether one of some expressions has a subquery.
pub open spec fn list_has_subquery(es: Seq<ExprV>) -> bool
    decreases es,
{
    exists|i: int| 0 <= i < es.len() && expr_has_subquery(#[trigger] es[i])
}

/// Whether one of some aggregate functions has a subquery.
pub open spec fn aggrs_have_subquery(s: Seq<AggregateV>) -> bool {
    exists|i: int| 0 <= i < s.len() && expr_has_subquery(logical::aggr_arg(#[trigger] s[i]))
}

/// Whether one of some sort keys has a subquery.
pub open spec fn keys_have_subquery(s: Seq<(ExprV, bool)>) -> bool {
    exists|i: int| 0 <= i < s.len() && expr_has_subquery((#[trigger] s[i]).0)
}

/// Whether an expression of a plan has a subquery.
pub open spec fn plan_has_subquery(p: PlanV) -> bool
    decreases p,
{
    match p {
        PlanV::Scan { .. } => false,
        PlanV::IndexScan { .. } => false,
        PlanV::FullTextScan { .. } => false,
        PlanV::Filter { source, predicate } => expr_has_subquery(predicate) || plan_has_subquery(*source),
        PlanV::Projection { source, expressions, .. } => list_has_subquery(expressions) || plan_has_subquery(*source),
        PlanV::Join { left, right, condition, .. } => expr_has_subquery(condition) || plan_has_subquery(*left)
            || plan_has_subquery(*right),
        PlanV::Aggregate { source, group_by, aggrs, .. } => list_has_subquery(group_by) || aggrs_have_subquery(aggrs)
            || plan_has_subquery(*source),
        PlanV::Sort { source, keys } => keys_have_subquery(keys) || plan_has_subquery(*source),
        PlanV::Limit { source, .. } => plan_has_subquery(*source),
        PlanV::Distinct { source } => plan_has_subquery(*source),
        PlanV::SetOp { left, right, .. } => plan_has_subquery(*left) || plan_has_subquery(*right),
    }
}

/// Whether an expression has a subquery.
pub fn expr_contains_subquery(e: &Expr) -> (out: bool)
    ensures
        out == expr_has_subquery(e@),
    decreases e,
{
    match e {
        Expr::ScalarSubquery(_) => true,
        Expr::InSubquery { .. } => true,
        Expr::Exists { .. } => true,
        Expr::BinaryOp { left, right, .. } => expr_contains_subquery(left) || expr_contains_subquery(right),
        Expr::Not(inner) => expr_contains_subquery(inner),
        Expr::IsNull(inner) => expr_contains_subquery(inner),
        Expr::Case { operand, conditions, results, else_result } => maybe_contains(operand) || list_contains(
            conditions,
        ) || list_contains(results) || maybe_contains(else_result),
        Expr::Function { args, .. } => list_contains(args),
        Expr::InList { expr, list } => expr_contains_subquery(expr) || list_contains(list),
        Expr::Cast { expr, .. } => expr_contains_subquery(expr),
        Expr::Column(_, _) => false,
        Expr::Literal(_) => false,
        Expr::Parameter(_) => false,
        Expr::Match { .. } => false,
    }
}

/// Whether an optional expression has a subquery.
fn maybe_contains(o: &Option<Box<Expr>>) -> (out: bool)
    ensures
        out == maybe_has_subquery(expr::opt_expr_view(*o)),
    decreases o,
{
    match o {
        Some(e) => expr_contains_subquery(e),
        None => false,
    }
}

/// Whether one of some expressions has a subquery.
fn list_contains(es: &Vec<Expr>) -> (out: bool)
    ensures
        out == list_has_subquery(expr::exprs_view(es@)),
    decreases es,
{
    let ghost view = expr::exprs_view(es@);
    for i in 0..es.len()
        invariant
            view == expr::exprs_view(es@),
            view.len() == es@.len(),
            forall|j: int| 0 <= j < i ==> !expr_has_subquery(#[trigger] view[j]),
            decreases_to!(es => es@),
    {
        assert(view[i as int] == es@[i as int]@);
        assert(decreases_to!(es@ => es@[i as int]));
        if expr_contains_subquery(&es[i]) {
            assert(expr_has_subquery(view[i as int]));
            return true;
        }
    }
    false
}

/// Whether one of some aggregate functions has a subquery.
fn aggrs_contain(s: &Vec<AggregateExpr>) -> (out: bool)
    ensures
        out == aggrs_have_subquery(logical::aggrs_view(s@)),
{
    let ghost view = logical::aggrs_view(s@);
    for i in 0..s.len()
        invariant
            view == logical::aggrs_view(s@),
            view.len() == s@.len(),
            forall|j: int| 0 <= j < i ==> !expr_has_subquery(logical::aggr_arg(#[trigger] view[j])),
    {
        assert(view[i as int] == s@[i as int]@);
        if expr_contains_subquery(s[i].arg()) {
            assert(expr_has_subquery(logical::aggr_arg(view[i as int])));
            return true;
        }
    }
    false
}

/// Whether one of some sort keys has a subquery.
fn keys_contain(s: &Vec<(Expr, bool)>) -> (out: bool)
    ensures
        out == keys_have_subquery(logical::sort_keys_view(s@)),
{
    let ghost view = logical::sort_keys_view(s@);
    for i in 0..s.len()
        invariant
            view == logical::sort_keys_view(s@),
            view.len() == s@.len(),
            forall|j: int| 0 <= j < i ==> !expr_has_subquery((#[trigger] view[j]).0),
    {
        assert(view[i as int] == (s@[i as int].0@, s@[i as int].1));
        if expr_contains_subquery(&s[i].0) {
            assert(expr_has_subquery(view[i as int].0));
            return true;
        }
    }
    false
}

/// Whether an expression of a plan has a subquery.
pub fn plan_contains_subquery(p: &LogicalPlan) -> (out: bool)
    ensures
        out == plan_has_subquery(p@),
    decreases p,
{
    match p {
        LogicalPlan::Scan { .. } => false,
        LogicalPlan::IndexScan { .. } => false,
        LogicalPlan::FullTextScan { .. } => false,
        LogicalPlan::Filter { source, predicate } => expr_contains_subquery(predicate) || plan_contains_subquery(
            source,
        ),
        LogicalPlan::Projection { source, expressions, .. } => list_contains(expressions) || plan_contains_subquery(
            source,
        ),
        LogicalPlan::Join { left, right, condition, .. } => expr_contains_subquery(condition)
            || plan_contains_subquery(left) || plan_contains_subquery(right),
        LogicalPlan::Aggregate { source, group_by, aggrs, .. } => list_contains(group_by) || aggrs_contain(aggrs)
            || plan_contains_subquery(source),
        LogicalPlan::Sort { source, keys } => keys_contain(keys) || plan_contains_subquery(source),
        LogicalPlan::Limit { source, .. } => plan_contains_subquery(source),
        LogicalPlan::Distinct { source } => plan_contains_subquery(source),
        LogicalPlan::SetOp { left, right, .. } => plan_contains_subquery(left) || plan_contains_subquery(right),
    }
}

// ---------------------------------------------------------------- laws

/// A folded expression has no subquery.
pub proof fn folding_leaves_no_subquery(e: ExprV, results: Seq<SubqueryResultV>, k: int)
    ensures
        folded_expr(e, results, k) matches Ok(x) ==> !expr_has_subquery(x.0),
    decreases e, 0int,
{
    match e {
        ExprV::BinaryOp { left, right, .. } => {
            folding_leaves_no_subquery(*left, results, k);
            if let Ok(l) = folded_expr(*left, results, k) {
                folding_leaves_no_subquery(*right, results, l.1);
            }
        },
        ExprV::Not(inner) => folding_leaves_no_subquery(*inner, results, k),
        ExprV::IsNull(inner) => folding_leaves_no_subquery(*inner, results, k),
        ExprV::Cast { expr, .. } => folding_leaves_no_subquery(*expr, results, k),
        ExprV::Case { operand, conditions, results: outs, else_result } => {
            folded_maybe_clean(operand, results, k);
            if let Ok(o) = folded_maybe(operand, results, k) {
                folded_list_clean(conditions, 0, Seq::empty(), results, o.1);
                if let Ok(c) = folded_list(conditions, 0, Seq::empty(), results, o.1) {
                    folded_list_clean(outs, 0, Seq::empty(), results, c.1);
                    if let Ok(r) = folded_list(outs, 0, Seq::empty(), results, c.1) {
                        folded_maybe_clean(else_result, results, r.1);
                    }
                }
            }
        },
        ExprV::Function { args, .. } => folded_list_clean(args, 0, Seq::empty(), results, k),
        ExprV::InList { expr, list } => {
            folding_leaves_no_subquery(*expr, results, k);
            if let Ok(x) = folded_expr(*expr, results, k) {
                folded_list_clean(list, 0, Seq::empty(), results, x.1);
            }
        },
        ExprV::InSubquery { expr, subquery, negated } => {
            folding_leaves_no_subquery(*expr, results, k);
            if let Ok(x) = folded_expr(*expr, results, k) {
                if let Ok(p) = folded_plan(*subquery, results, x.1) {
                    if let Ok(r) = taken(p.0, results, p.1) {
                        if let Ok(list) = member_literals(r) {
                            assert(!list_has_subquery(list));
                            let test = ExprV::InList { expr: Box::new(x.0), list };
                            assert(!expr_has_subquery(test));
                        }
                    }
                }
            }
        },
        _ => {},
    }
}

/// A folded optional expression has no subquery.
proof fn folded_maybe_clean(o: Option<Box<ExprV>>, results: Seq<SubqueryResultV>, k: int)
    ensures
        folded_maybe(o, results, k) matches Ok(x) ==> !maybe_has_subquery(x.0),
    decreases o, 0int,
{
    if let Some(e) = o {
        folding_leaves_no_subquery(*e, results, k);
    }
}

/// Folded expressions have no subquery.
proof fn folded_list_clean(es: Seq<ExprV>, i: int, acc: Seq<ExprV>, results: Seq<SubqueryResultV>, k: int)
    requires
        i >= 0,
        !list_has_subquery(acc),
        acc.len() == i || i >= es.len(),
    ensures
        folded_list(es, i, acc, results, k) matches Ok(x) ==> !list_has_subquery(x.0) && (acc.len() == i && i
            <= es.len() ==> x.0.len() == es.len()),
    decreases es, es.len() - i,
{
    if i < es.len() {
        folding_leaves_no_subquery(es[i], results, k);
        if let Ok(x) = folded_expr(es[i], results, k) {
            let next = acc.push(x.0);
            assert forall|j: int| 0 <= j < next.len() implies !expr_has_subquery(#[trigger] next[j]) by {
                if j < acc.len() {
                    assert(next[j] == acc[j]);
                }
            }
            folded_list_clean(es, i + 1, next, results, x.1);
        }
    }
}

/// Folded aggregate functions have no subquery, and are as many as before.
proof fn folded_aggrs_clean(s: Seq<AggregateV>, i: int, acc: Seq<AggregateV>, results: Seq<SubqueryResultV>, k: int)
    requires
        0 <= i <= s.len(),
        acc.len() == i,
        !aggrs_have_subquery(acc),
    ensures
        folded_aggrs(s, i, acc, results, k) matches Ok(x) ==> !aggrs_have_subquery(x.0) && x.0.len() == s.len(),
    decreases s.len() - i,
{
    if i < s.len() {
        folding_leaves_no_subquery(logical::aggr_arg(s[i]), results, k);
        if let Ok(x) = folded_aggr(s[i], results, k) {
            let next = acc.push(x.0);
            assert forall|j: int| 0 <= j < next.len() implies !expr_has_subquery(
                logical::aggr_arg(#[trigger] next[j]),
            ) by {
                if j < acc.len() {
                    assert(next[j] == acc[j]);
                }
            }
            folded_aggrs_clean(s, i + 1, next, results, x.1);
        }
    }
}

/// Folded sort keys have no subquery.
proof fn folded_keys_clean(s: Seq<(ExprV, bool)>, i: int, acc: Seq<(ExprV, bool)>, results: Seq<SubqueryResultV>, k: int)
    requires
        0 <= i <= s.len(),
        acc.len() == i,
        !keys_have_subquery(acc),
    ensures
        folded_keys(s, i, acc, results, k) matches Ok(x) ==> !keys_have_subquery(x.0),
    decreases s.len() - i,
{
    if i < s.len() {
        folding_leaves_no_subquery(s[i].0, results, k);
        if let Ok(x) = folded_expr(s[i].0, results, k) {
            let next = acc.push((x.0, s[i].1));
            assert forall|j: int| 0 <= j < next.len() implies !expr_has_subquery((#[trigger] next[j]).0) by {
                if j < acc.len() {
                    assert(next[j] == acc[j]);
                }
            }
            folded_keys_clean(s, i + 1, next, results, x.1);
        }
    }
}

/// A folded plan has no subquery. It keeps the schema, and it is well-formed where the plan
/// was.
pub proof fn folded_plan_is_plain(p: PlanV, results: Seq<SubqueryResultV>, k: int)
    ensures
        folded_plan(p, results, k) matches Ok(q) ==> {
            &&& !plan_has_subquery(q.0)
            &&& logical::plan_schema(q.0) == logical::plan_schema(p)
            &&& logical::well_formed(p) ==> logical::well_formed(q.0)
        },
    decreases p,
{
    match p {
        PlanV::Filter { source, predicate } => {
            folded_plan_is_plain(*source, results, k);
            if let Ok(q) = folded_plan(*source, results, k) {
                folding_leaves_no_subquery(predicate, results, q.1);
            }
        },
        PlanV::Projection { source, expressions, .. } => {
            folded_plan_is_plain(*source, results, k);
            if let Ok(q) = folded_plan(*source, results, k) {
                folded_list_clean(expressions, 0, Seq::empty(), results, q.1);
            }
        },
        PlanV::Join { left, right, condition, .. } => {
            folded_plan_is_plain(*left, results, k);
            if let Ok(l) = folded_plan(*left, results, k) {
                folded_plan_is_plain(*right, results, l.1);
                if let Ok(r) = folded_plan(*right, results, l.1) {
                    folding_leaves_no_subquery(condition, results, r.1);
                }
            }
        },
        PlanV::Aggregate { source, group_by, aggrs, .. } => {
            folded_plan_is_plain(*source, results, k);
            if let Ok(q) = folded_plan(*source, results, k) {
                folded_list_clean(group_by, 0, Seq::empty(), results, q.1);
                if let Ok(g) = folded_list(group_by, 0, Seq::empty(), results, q.1) {
                    folded_aggrs_clean(aggrs, 0, Seq::empty(), results, g.1);
                }
            }
        },
        PlanV::Sort { source, keys } => {
            folded_plan_is_plain(*source, results, k);
            if let Ok(q) = folded_plan(*source, results, k) {
                folded_keys_clean(keys, 0, Seq::empty(), results, q.1);
            }
        },
        PlanV::Limit { source, .. } => folded_plan_is_plain(*source, results, k),
        PlanV::Distinct { source } => folded_plan_is_plain(*source, results, k),
        PlanV::SetOp { left, right, .. } => {
            folded_plan_is_plain(*left, results, k);
            if let Ok(l) = folded_plan(*left, results, k) {
                folded_plan_is_plain(*right, results, l.1);
            }
        },
        _ => {},
    }
}

/// An expression without a subquery is its own folding, and uses no result.
pub proof fn folding_keeps_plain_expressions(e: ExprV, results: Seq<SubqueryResultV>, k: int)
    requires
        !expr_has_subquery(e),
    ensures
        folded_expr(e, results, k) == Ok::<(ExprV, int), FoldStopV>((e, k)),
    decreases e, 0int,
{
    match e {
        ExprV::BinaryOp { left, right, .. } => {
            folding_keeps_plain_expressions(*left, results, k);
            folding_keeps_plain_expressions(*right, results, k);
        },
        ExprV::Not(inner) => folding_keeps_plain_expressions(*inner, results, k),
        ExprV::IsNull(inner) => folding_keeps_plain_expressions(*inner, results, k),
        ExprV::Cast { expr, .. } => folding_keeps_plain_expressions(*expr, results, k),
        ExprV::Case { operand, conditions, results: outs, else_result } => {
            folded_maybe_kept(operand, results, k);
            folded_list_kept(conditions, 0, Seq::empty(), results, k);
            folded_list_kept(outs, 0, Seq::empty(), results, k);
            folded_maybe_kept(else_result, results, k);
        },
        ExprV::Function { args, .. } => folded_list_kept(args, 0, Seq::empty(), results, k),
        ExprV::InList { expr, list } => {
            folding_keeps_plain_expressions(*expr, results, k);
            folded_list_kept(list, 0, Seq::empty(), results, k);
        },
        _ => {},
    }
}

/// An optional expression without a subquery is its own folding.
proof fn folded_maybe_kept(o: Option<Box<ExprV>>, results: Seq<SubqueryResultV>, k: int)
    requires
        !maybe_has_subquery(o),
    ensures
        folded_maybe(o, results, k) == Ok::<(Option<Box<ExprV>>, int), FoldStopV>((o, k)),
    decreases o, 0int,
{
    if let Some(e) = o {
        folding_keeps_plain_expressions(*e, results, k);
    }
}

/// Expressions without a subquery are their own folding.
proof fn folded_list_kept(es: Seq<ExprV>, i: int, acc: Seq<ExprV>, results: Seq<SubqueryResultV>, k: int)
    requires
        0 <= i <= es.len(),
        acc =~= es.take(i),
        !list_has_subquery(es),
    ensures
        folded_list(es, i, acc, results, k) == Ok::<(Seq<ExprV>, int), FoldStopV>((es, k)),
    decreases es, es.len() - i,
{
    if i < es.len() {
        assert(!expr_has_subquery(es[i]));
        folding_keeps_plain_expressions(es[i], results, k);
        assert(es.take(i + 1) =~= acc.push(es[i]));
        folded_list_kept(es, i + 1, acc.push(es[i]), results, k);
    } else {
        assert(es.take(i) =~= es);
    }
}

/// Aggregate functions without a subquery are their own folding.
proof fn folded_aggrs_kept(s: Seq<AggregateV>, i: int, acc: Seq<AggregateV>, results: Seq<SubqueryResultV>, k: int)
    requires
        0 <= i <= s.len(),
        acc =~= s.take(i),
        !aggrs_have_subquery(s),
    ensures
        folded_aggrs(s, i, acc, results, k) == Ok::<(Seq<AggregateV>, int), FoldStopV>((s, k)),
    decreases s.len() - i,
{
    if i < s.len() {
        assert(!expr_has_subquery(logical::aggr_arg(s[i])));
        folding_keeps_plain_expressions(logical::aggr_arg(s[i]), results, k);
        assert(folded_aggr(s[i], results, k) == Ok::<(AggregateV, int), FoldStopV>((s[i], k)));
        assert(s.take(i + 1) =~= acc.push(s[i]));
        folded_aggrs_kept(s, i + 1, acc.push(s[i]), results, k);
    } else {
        assert(s.take(i) =~= s);
    }
}

/// Sort keys without a subquery are their own folding.
proof fn folded_keys_kept(s: Seq<(ExprV, bool)>, i: int, acc: Seq<(ExprV, bool)>, results: Seq<SubqueryResultV>, k: int)
    requires
        0 <= i <= s.len(),
        acc =~= s.take(i),
        !keys_have_subquery(s),
    ensures
        folded_keys(s, i, acc, results, k) == Ok::<(Seq<(ExprV, bool)>, int), FoldStopV>((s, k)),
    decreases s.len() - i,
{
    if i < s.len() {
        assert(!expr_has_subquery(s[i].0));
        folding_keeps_plain_expressions(s[i].0, results, k);
        assert(s.take(i + 1) =~= acc.push(s[i]));
        folded_keys_kept(s, i + 1, acc.push(s[i]), results, k);
    } else {
        assert(s.take(i) =~= s);
    }
}

/// A plan without a subquery is its own folding, and uses no result.
pub proof fn folding_keeps_plain_plans(p: PlanV, results: Seq<SubqueryResultV>, k: int)
    requires
        !plan_has_subquery(p),
    ensures
        folded_plan(p, results, k) == Ok::<(PlanV, int), FoldStopV>((p, k)),
    decreases p,
{
    match p {
        PlanV::Filter { source, predicate } => {
            folding_keeps_plain_plans(*source, results, k);
            folding_keeps_plain_expressions(predicate, results, k);
        },
        PlanV::Projection { source, expressions, .. } => {
            folding_keeps_plain_plans(*source, results, k);
            folded_list_kept(expressions, 0, Seq::empty(), results, k);
        },
        PlanV::Join { left, right, condition, .. } => {
            folding_keeps_plain_plans(*left, results, k);
            folding_keeps_plain_plans(*right, results, k);
            folding_keeps_plain_expressions(condition, results, k);
        },
        PlanV::Aggregate { source, group_by, aggrs, .. } => {
            folding_keeps_plain_plans(*source, results, k);
            folded_list_kept(group_by, 0, Seq::empty(), results, k);
            folded_aggrs_kept(aggrs, 0, Seq::empty(), results, k);
        },
        PlanV::Sort { source, keys } => {
            folding_keeps_plain_plans(*source, results, k);
            folded_keys_kept(keys, 0, Seq::empty(), results, k);
        },
        PlanV::Limit { source, .. } => folding_keeps_plain_plans(*source, results, k),
        PlanV::Distinct { source } => folding_keeps_plain_plans(*source, results, k),
        PlanV::SetOp { left, right, .. } => {
            folding_keeps_plain_plans(*left, results, k);
            folding_keeps_plain_plans(*right, results, k);
        },
        _ => {},
    }
}

/// Folds the subqueries of a plan, given their results so far.
pub fn fold_subqueries(p: &LogicalPlan, results: &Vec<SubqueryResult>) -> (out: Result<LogicalPlan, FoldStop>)
    ensures
        match out {
            Ok(q) => folded_plan(p@, results_view(results@), 0) matches Ok(x) && x.0 == q@ && !plan_has_subquery(q@)
                && (logical::well_formed(p@) ==> logical::well_formed(q@)),
            Err(s) => folded_plan(p@, results_view(results@), 0) == Err::<(PlanV, int), FoldStopV>(s@),
        },
{
    proof {
        folded_plan_is_plain(p@, results_view(results@), 0);
    }
    if !plan_contains_subquery(p) {
        proof {
            folding_keeps_plain_plans(p@, results_view(results@), 0);
        }
        return Ok(p.copy());
    }
    let q = fold_plan(p, results, 0)?;
    Ok(q.0)
}

} // verus!
