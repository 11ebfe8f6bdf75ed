//! What is to be done for a planned statement, step by step. Each step is a plan to be run, a
//! row to be fetched, or a result.

use crate::engine::{ExecutionResult, ExecutionStreamingResult, Snapshot};
use crate::explain;
use crate::expr;
use crate::expr::{ColumnSet, Expr, ExprV};
use crate::facts;
use crate::facts::{AnswerV, ErrorKind, ErrorV, Facts, QuestionV, SqlError};
use crate::logical;
use crate::logical::{LogicalPlan, PlanV};
use crate::modify;
use crate::optimizer;
use crate::params::Params;
use crate::physical;
use crate::physical::{PhysicalPlan, PhysicalV};
use crate::point_get;
use crate::point_get::{PointGetPlan, PointGetV};
use crate::schema;
use crate::schema::{Column, Row, Schema, SchemaV};
use crate::statement;
use crate::subquery;
use crate::subquery::{FoldStop, FoldStopV, SubqueryResult, SubqueryResultV};
use crate::text;
use crate::value::{DataType, DbValue, ValueV};
use vstd::prelude::*;
use vstd::string::*;

verus! {

/// A step of a statement that reads rows.
#[derive(Debug)]
pub enum QueryStep {
    /// The plan of a subquery is to be run.
    Subquery(LogicalPlan),
    /// A row is to be fetched by its primary key.
    Lookup(PointGetPlan),
    /// The rows of a plan are to be read.
    Rows(PhysicalPlan),
}

/// The model of a step.
pub enum QueryStepV {
    Subquery(PlanV),
    Lookup(PointGetV),
    Rows(PhysicalV),
}

impl QueryStep {
    /// The model.
    pub open spec fn view(&self) -> QueryStepV {
        match self {
            QueryStep::Subquery(p) => QueryStepV::Subquery(p@),
            QueryStep::Lookup(g) => QueryStepV::Lookup(g@),
            QueryStep::Rows(p) => QueryStepV::Rows(p@),
        }
    }
}

/// The model of an outcome that is a step.
pub open spec fn step_result(r: Result<QueryStep, SqlError>) -> Result<QueryStepV, ErrorV> {
    match r {
        Ok(s) => Ok(s@),
        Err(e) => Err(e@),
    }
}

/// The rows of a plan that reads only the columns it refers to.
pub open spec fn rows_of_plan(p: PlanV, ps: Map<Seq<char>, ValueV>) -> Result<QueryStepV, ErrorV> {
    match physical::compiled(p, Some(logical::plan_columns(p)), ps) {
        Ok(c) => Ok(QueryStepV::Rows(c)),
        Err(e) => Err(e),
    }
}

/// The next step of a plan, given the results of its subqueries so far: a subquery, or what
/// `then` makes of the plan without subqueries.
pub open spec fn folded_step(
    p: PlanV,
    results: Seq<SubqueryResultV>,
    then_step: spec_fn(PlanV) -> Result<QueryStepV, ErrorV>,
) -> Result<QueryStepV, ErrorV> {
    match subquery::folded_plan(p, results, 0) {
        Err(FoldStopV::Run(q)) => Ok(QueryStepV::Subquery(q)),
        Err(FoldStopV::Failed(e)) => Err(e),
        Ok(x) => then_step(x.0),
    }
}

/// The rows of a query, or the one row where its primary key is given.
pub open spec fn plain_query_step(p: PlanV, ps: Map<Seq<char>, ValueV>) -> Result<QueryStepV, ErrorV> {
    match point_get::lookup(p, ps) {
        Some(g) => Ok(QueryStepV::Lookup(g)),
        None => rows_of_plan(p, ps),
    }
}

/// The next step of a query: its subqueries first; then a lookup where a primary key is given,
/// or else its rows.
pub open spec fn query_step(p: PlanV, results: Seq<SubqueryResultV>, ps: Map<Seq<char>, ValueV>) -> Result<
    QueryStepV,
    ErrorV,
> {
    folded_step(p, results, |q: PlanV| plain_query_step(q, ps))
}

/// The next step of the query of an INSERT: its subqueries first, then its rows.
pub open spec fn source_step(p: PlanV, results: Seq<SubqueryResultV>, ps: Map<Seq<char>, ValueV>) -> Result<
    QueryStepV,
    ErrorV,
> {
    folded_step(p, results, |q: PlanV| rows_of_plan(q, ps))
}

/// Compiles a plan that reads only the columns it refers to.
fn compile_rows(p: &LogicalPlan, ps: &Params) -> (out: Result<QueryStep, SqlError>)
    requires
        logical::well_formed(p@),
    ensures
        step_result(out) == rows_of_plan(p@, ps@),
{
    let mut cols = ColumnSet::new();
    p.collect_columns(&mut cols);
    assert(cols@ =~= logical::plan_columns(p@));
    let none: Option<Vec<String>> = Some(Vec::new());
    assert(text::views(none->0@).to_set() =~= Set::<Seq<char>>::empty());
    let columns = physical::parent_cols_union(&none, &cols);
    assert(physical::name_set(columns) == Some(logical::plan_columns(p@))) by {
        assert(Set::<Seq<char>>::empty().union(cols@) =~= cols@);
    }
    Ok(QueryStep::Rows(physical::compile_physical(p, &columns, ps)?))
}

/// The next step of a query.
pub fn next_query_step(p: &LogicalPlan, results: &Vec<SubqueryResult>, ps: &Params) -> (out: Result<
    QueryStep,
    SqlError,
>)
    requires
        logical::well_formed(p@),
    ensures
        step_result(out) == query_step(p@, subquery::results_view(results@), ps@),
{
    match subquery::fold_subqueries(p, results) {
        Err(FoldStop::Run(q)) => Ok(QueryStep::Subquery(q)),
        Err(FoldStop::Failed(e)) => Err(e),
        Ok(q) => match point_get::match_point_get(&q, ps) {
            Some(g) => Ok(QueryStep::Lookup(g)),
            None => compile_rows(&q, ps),
        },
    }
}

/// The next step of the query of an INSERT.
pub fn next_source_step(p: &LogicalPlan, results: &Vec<SubqueryResult>, ps: &Params) -> (out: Result<
    QueryStep,
    SqlError,
>)
    requires
        logical::well_formed(p@),
    ensures
        step_result(out) == source_step(p@, subquery::results_view(results@), ps@),
{
    match subquery::fold_subqueries(p, results) {
        Err(FoldStop::Run(q)) => Ok(QueryStep::Subquery(q)),
        Err(FoldStop::Failed(e)) => Err(e),
        Ok(q) => compile_rows(&q, ps),
    }
}

/// The plan of a subquery, optimized and compiled with all its columns. A plan without a name
/// for each of its columns is an error.
pub open spec fn subquery_plan(
    p: PlanV,
    db: Snapshot,
    ps: Map<Seq<char>, ValueV>,
    known: Seq<(QuestionV, AnswerV)>,
) -> Result<PhysicalV, ErrorV> {
    if !logical::well_formed(p) {
        Err(facts::plain_error(ErrorKind::Malformed))
    } else {
        match optimizer::optimized(p, db.optimizer, known) {
            Err(e) => Err(e),
            Ok(q) => physical::compiled(q, None, ps),
        }
    }
}

/// Optimizes and compiles the plan of a subquery.
pub fn plan_subquery(p: &LogicalPlan, db: &Snapshot, ps: &Params, facts: &Facts) -> (out: Result<
    PhysicalPlan,
    SqlError,
>)
    ensures
        physical::physical_result(out) == subquery_plan(p@, *db, ps@, facts@),
{
    if !p.is_well_formed() {
        return Err(SqlError::plain(ErrorKind::Malformed));
    }
    let q = db.optimizer.optimize(p, facts)?;
    let all: Option<Vec<String>> = None;
    physical::compile_physical(&q, &all, ps)
}

/// A condition without subqueries, given their results so far, and how many of these it used.
pub open spec fn folded_filter(filter: Option<ExprV>, results: Seq<SubqueryResultV>) -> Result<
    (Option<ExprV>, int),
    FoldStopV,
> {
    match filter {
        None => Ok((None, 0)),
        Some(e) => match subquery::folded_expr(e, results, 0) {
            Err(s) => Err(s),
            Ok(x) => Ok((Some(x.0), x.1)),
        },
    }
}

/// The next step of a DELETE or an UPDATE: the subqueries of its condition first, then the rows
/// that are changed.
pub open spec fn change_step(
    table_name: Seq<char>,
    s: SchemaV,
    filter: Option<ExprV>,
    results: Seq<SubqueryResultV>,
    db: Snapshot,
    ps: Map<Seq<char>, ValueV>,
    known: Seq<(QuestionV, AnswerV)>,
) -> Result<QueryStepV, ErrorV> {
    match folded_filter(filter, results) {
        Err(FoldStopV::Run(q)) => Ok(QueryStepV::Subquery(q)),
        Err(FoldStopV::Failed(e)) => Err(e),
        Ok(f) => match optimizer::optimized(modify::affected_rows(table_name, s, f.0), db.optimizer, known) {
            Err(e) => Err(e),
            Ok(q) => match physical::compiled(q, None, ps) {
                Err(e) => Err(e),
                Ok(c) => Ok(QueryStepV::Rows(c)),
            },
        },
    }
}

/// A condition without subqueries, given their results so far, and how many of these it used.
pub fn fold_filter(filter: &Option<Expr>, results: &Vec<SubqueryResult>) -> (out: Result<
    (Option<Expr>, usize),
    FoldStop,
>)
    ensures
        match out {
            Ok(f) => folded_filter(statement::filter_view(*filter), subquery::results_view(results@)) == Ok::<
                (Option<ExprV>, int),
                FoldStopV,
            >((statement::filter_view(f.0), f.1 as int)),
            Err(s) => folded_filter(statement::filter_view(*filter), subquery::results_view(results@)) == Err::<
                (Option<ExprV>, int),
                FoldStopV,
            >(s@),
        },
{
    match filter {
        None => Ok((None, 0)),
        Some(e) => match subquery::fold_expr(e, results, 0) {
            Err(stop) => Err(stop),
            Ok(x) => Ok((Some(x.0), x.1)),
        },
    }
}

/// Whether a plan is that of the rows a DELETE or an UPDATE changes.
spec fn is_affected(p: PlanV) -> bool {
    match p {
        PlanV::Scan { .. } => true,
        PlanV::Filter { source, .. } => *source is Scan,
        _ => false,
    }
}

/// Optimizes and compiles the plan of the rows that are changed.
fn compile_changed(p: &LogicalPlan, db: &Snapshot, ps: &Params, facts: &Facts) -> (out: Result<QueryStep, SqlError>)
    requires
        is_affected(p@),
    ensures
        step_result(out) == (match optimizer::optimized(p@, db.optimizer, facts@) {
            Err(e) => Err(e),
            Ok(q) => match physical::compiled(q, None, ps@) {
                Err(e) => Err(e),
                Ok(c) => Ok(QueryStepV::Rows(c)),
            },
        }),
{
    proof {
        reveal_with_fuel(logical::well_formed, 2);
    }
    let q = db.optimizer.optimize(p, facts)?;
    let all: Option<Vec<String>> = None;
    Ok(QueryStep::Rows(physical::compile_physical(&q, &all, ps)?))
}

/// The next step of a DELETE or an UPDATE.
pub fn next_change_step(
    table_name: &str,
    s: &Schema,
    filter: &Option<Expr>,
    results: &Vec<SubqueryResult>,
    db: &Snapshot,
    ps: &Params,
    facts: &Facts,
) -> (out: Result<QueryStep, SqlError>)
    ensures
        step_result(out) == change_step(
            table_name@,
            s@,
            statement::filter_view(*filter),
            subquery::results_view(results@),
            *db,
            ps@,
            facts@,
        ),
{
    match fold_filter(filter, results) {
        Err(FoldStop::Run(q)) => Ok(QueryStep::Subquery(q)),
        Err(FoldStop::Failed(e)) => Err(e),
        Ok(f) => {
            let p = modify::plan_affected_rows(table_name, s, f.0);
            compile_changed(&p, db, ps, facts)
        },
    }
}

/// The assignments from `i` on after those in `acc`, with their parameters bound and without
/// subqueries, given the results of these so far; `k` of them are used.
pub open spec fn folded_assignments(
    s: Seq<(Seq<char>, ExprV)>,
    i: int,
    acc: Seq<(Seq<char>, ExprV)>,
    results: Seq<SubqueryResultV>,
    k: int,
    ps: Map<Seq<char>, ValueV>,
) -> Result<Seq<(Seq<char>, ExprV)>, FoldStopV>
    decreases s.len() - i,
{
    if i >= s.len() {
        Ok(acc)
    } else {
        match expr::substituted(s[i].1, ps) {
            Err(e) => Err(FoldStopV::Failed(e)),
            Ok(b) => match subquery::folded_expr(b, results, k) {
                Err(stop) => Err(stop),
                Ok(x) => folded_assignments(s, i + 1, acc.push((s[i].0, x.0)), results, x.1, ps),
            },
        }
    }
}

/// The assignments of an UPDATE with their parameters bound and without subqueries, given the
/// results of these so far; the first `from` results are those of earlier subqueries.
pub fn fold_assignments(s: &Vec<(String, Expr)>, results: &Vec<SubqueryResult>, from: usize, ps: &Params) -> (out: Result<
    Vec<(String, Expr)>,
    FoldStop,
>)
    ensures
        match out {
            Ok(v) => folded_assignments(
                statement::assignments_model(s@),
                0,
                Seq::empty(),
                subquery::results_view(results@),
                from as int,
                ps@,
            ) == Ok::<Seq<(Seq<char>, ExprV)>, FoldStopV>(statement::assignments_model(v@)),
            Err(stop) => folded_assignments(
                statement::assignments_model(s@),
                0,
                Seq::empty(),
                subquery::results_view(results@),
                from as int,
                ps@,
            ) == Err::<Seq<(Seq<char>, ExprV)>, FoldStopV>(stop@),
        },
{
    let ghost all = statement::assignments_model(s@);
    let ghost rs = subquery::results_view(results@);
    let mut out: Vec<(String, Expr)> = Vec::new();
    assert(statement::assignments_model(out@) =~= Seq::empty());
    let mut k: usize = from;
    let mut i: usize = 0;
    while i < s.len()
        invariant
            i <= s@.len(),
            all == statement::assignments_model(s@),
            rs == subquery::results_view(results@),
            folded_assignments(all, 0, Seq::empty(), rs, from as int, ps@) == folded_assignments(
                all,
                i as int,
                statement::assignments_model(out@),
                rs,
                k as int,
                ps@,
            ),
        decreases s.len() - i,
    {
        assert(all[i as int] == (s@[i as int].0@, s@[i as int].1@));
        let mut bound = s[i].1.copy();
        match bound.substitute_params(ps) {
            Err(e) => {
                return Err(FoldStop::Failed(e));
            },
            Ok(_) => {},
        }
        let (folded, used) = match subquery::fold_expr(&bound, results, k) {
            Err(stop) => {
                return Err(stop);
            },
            Ok(x) => x,
        };
        let ghost before = statement::assignments_model(out@);
        let ghost added = (s@[i as int].0@, folded@);
        out.push((s[i].0.clone(), folded));
        assert(statement::assignments_model(out@) =~= before.push(added));
        k = used;
        i = i + 1;
    }
    Ok(out)
}

// ---------------------------------------------------------------- results

/// The result of a lookup: the row that was found, or no row.
pub fn lookup_result(g: &PointGetPlan, row: Option<Row>) -> (out: ExecutionResult)
    ensures
        out matches ExecutionResult::Select { schema, rows } && schema@ == point_get::lookup_schema(g@) && (match row {
            Some(r) => rows@ == seq![r],
            None => rows@.len() == 0,
        }),
{
    let mut rows: Vec<Row> = Vec::new();
    if let Some(r) = row {
        rows.push(r);
        assert(rows@ =~= seq![r]);
    }
    ExecutionResult::Select { schema: g.schema(), rows }
}

/// The result of a query whose rows were read.
pub fn rows_result(p: &PhysicalPlan, rows: Vec<Row>) -> (out: ExecutionResult)
    ensures
        out matches ExecutionResult::Select { schema, rows: all } && schema@ == physical::physical_schema(p@) && all
            == rows,
{
    ExecutionResult::Select { schema: p.schema(), rows }
}

/// The result of a query whose rows are still to be read.
pub fn stream_rows(p: PhysicalPlan) -> (out: ExecutionStreamingResult)
    ensures
        out matches ExecutionStreamingResult::Streaming { schema, operator } && schema@ == physical::physical_schema(p@)
            && operator == p,
{
    let schema = p.schema();
    ExecutionStreamingResult::Streaming { schema, operator: p }
}

// ---------------------------------------------------------------- EXPLAIN

/// What an EXPLAIN shows: the two plans as text, and the step by which the query would start.
#[derive(Debug)]
pub struct ExplainPlan {
    pub logical: String,
    pub optimized: String,
    pub physical: ExplainPhysical,
}

/// The physical part of an EXPLAIN: the text of a lookup, or the plan whose rows would be read.
#[derive(Debug)]
pub enum ExplainPhysical {
    Lookup(String),
    Rows(PhysicalPlan),
}

/// The model of what an EXPLAIN shows.
pub struct ExplainV {
    pub logical: Seq<char>,
    pub optimized: Seq<char>,
    pub physical: ExplainPhysicalV,
}

/// The model of the physical part of an EXPLAIN.
pub enum ExplainPhysicalV {
    Lookup(Seq<char>),
    Rows(PhysicalV),
}

impl ExplainPlan {
    /// The model.
    pub open spec fn view(&self) -> ExplainV {
        ExplainV {
            logical: self.logical@,
            optimized: self.optimized@,
            physical: match self.physical {
                ExplainPhysical::Lookup(t) => ExplainPhysicalV::Lookup(t@),
                ExplainPhysical::Rows(p) => ExplainPhysicalV::Rows(p@),
            },
        }
    }
}

/// The physical part of an EXPLAIN of an optimized plan.
pub open spec fn explained_physical(
    q: PlanV,
    ps: Map<Seq<char>, ValueV>,
    known: Seq<(QuestionV, AnswerV)>,
) -> Result<ExplainPhysicalV, ErrorV> {
    match point_get::lookup(q, ps) {
        Some(g) => match explain::rendered(explain::shown_lookup(g), known) {
            Ok(t) => Ok(ExplainPhysicalV::Lookup(t)),
            Err(e) => Err(e),
        },
        None => match rows_of_plan(q, ps) {
            Ok(QueryStepV::Rows(c)) => Ok(ExplainPhysicalV::Rows(c)),
            Ok(_) => Err(facts::plain_error(ErrorKind::Malformed)),
            Err(e) => Err(e),
        },
    }
}

/// What an EXPLAIN of a plan shows.
pub open spec fn explained(
    p: PlanV,
    db: Snapshot,
    ps: Map<Seq<char>, ValueV>,
    known: Seq<(QuestionV, AnswerV)>,
) -> Result<ExplainV, ErrorV> {
    match optimizer::optimized(p, db.optimizer, known) {
        Err(e) => Err(e),
        Ok(q) => match explain::rendered(explain::shown_plan(Seq::empty(), p, ""@), known) {
            Err(e) => Err(e),
            Ok(logical) => match explain::rendered(explain::shown_plan(Seq::empty(), q, ""@), known) {
                Err(e) => Err(e),
                Ok(optimized) => match explained_physical(q, ps, known) {
                    Err(e) => Err(e),
                    Ok(physical) => Ok(ExplainV { logical, optimized, physical }),
                },
            },
        },
    }
}

/// The physical part of an EXPLAIN of an optimized plan.
fn explain_physical(q: &LogicalPlan, ps: &Params, facts: &Facts) -> (out: Result<ExplainPhysical, SqlError>)
    requires
        logical::well_formed(q@),
    ensures
        match out {
            Ok(ExplainPhysical::Lookup(t)) => explained_physical(q@, ps@, facts@) == Ok::<ExplainPhysicalV, ErrorV>(
                ExplainPhysicalV::Lookup(t@),
            ),
            Ok(ExplainPhysical::Rows(p)) => explained_physical(q@, ps@, facts@) == Ok::<ExplainPhysicalV, ErrorV>(
                ExplainPhysicalV::Rows(p@),
            ),
            Err(e) => explained_physical(q@, ps@, facts@) == Err::<ExplainPhysicalV, ErrorV>(e@),
        },
{
    match point_get::match_point_get(q, ps) {
        Some(g) => Ok(ExplainPhysical::Lookup(explain::format_point_get(&g, facts)?)),
        None => match compile_rows(q, ps)? {
            QueryStep::Rows(c) => Ok(ExplainPhysical::Rows(c)),
            _ => Err(SqlError::plain(ErrorKind::Malformed)),
        },
    }
}

/// What an EXPLAIN of a plan shows.
pub fn explain_plan(p: &LogicalPlan, db: &Snapshot, ps: &Params, facts: &Facts) -> (out: Result<ExplainPlan, SqlError>)
    requires
        logical::well_formed(p@),
    ensures
        match out {
            Ok(x) => explained(p@, *db, ps@, facts@) == Ok::<ExplainV, ErrorV>(x@),
            Err(e) => explained(p@, *db, ps@, facts@) == Err::<ExplainV, ErrorV>(e@),
        },
{
    let q = db.optimizer.optimize(p, facts)?;
    let logical = explain::format_logical_plan(p, facts)?;
    let optimized = explain::format_logical_plan(&q, facts)?;
    let physical = explain_physical(&q, ps, facts)?;
    Ok(ExplainPlan { logical, optimized, physical })
}

/// The schema of an EXPLAIN: one column of text.
pub open spec fn explain_schema() -> SchemaV {
    schema::schema_of(seq![schema::plain_column("Query Plan"@, DataType::String)])
}

/// The result of an EXPLAIN: one row with its text.
pub fn explain_result(logical: &str, optimized: &str, physical: &str) -> (out: ExecutionResult)
    ensures
        out matches ExecutionResult::Select { schema, rows } && schema@ == explain_schema() && rows@.len() == 1
            && rows@[0]@ == seq![ValueV::String(explain::explanation(logical@, optimized@, physical@))],
{
    let mut columns: Vec<Column> = Vec::new();
    columns.push(Column::plain("Query Plan", DataType::String));
    assert(schema::columns_view(columns@) =~= seq![schema::plain_column("Query Plan"@, DataType::String)]);
    let text = explain::explain_text(logical, optimized, physical);
    let mut values: Vec<DbValue> = Vec::new();
    values.push(DbValue::string(text.as_str()));
    let row = Row::new(values);
    assert(row@ =~= seq![ValueV::String(explain::explanation(logical@, optimized@, physical@))]);
    let mut rows: Vec<Row> = Vec::new();
    rows.push(row);
    ExecutionResult::Select { schema: Schema::new(columns), rows }
}

} // verus!
