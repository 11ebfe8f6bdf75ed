//! Why a scan of one key is a lookup: only tables with a key of one column are read by a range of
//! their keys.

use crate::engine;
use crate::engine::Snapshot;
use crate::expr::ExprV;
use crate::facts;
use crate::facts::{AnswerV, ErrorV, QuestionV};
use crate::grouping::RewritingV;
use crate::logical;
use crate::logical::PlanV;
use crate::optimizer;
use crate::optimizer::{Optimizer, PathV, Side};
use crate::planner;
use crate::point_get;
use crate::point_get::PointGetV;
use crate::cost;
use crate::cost::TableStatistics;
use crate::schema;
use crate::schema::SchemaV;
use crate::statement;
use crate::statement::SqlStatementV;
use crate::syntax::{JoinV, OrderItemV, QueryV, SelectV, SetNodeV, SqlNodeV, StatementBodyV, StatementV};
use crate::value::ValueV;
use vstd::prelude::*;

verus! {

/// Whether every scan of a plan that is bounded is of a table whose primary key is one column.
pub open spec fn bounds_single_keys(p: PlanV) -> bool
    decreases p,
{
    match p {
        PlanV::Scan { schema, range, .. } => range is Some ==> schema::primary_key_position(schema) is Some,
        PlanV::Filter { source, .. } => bounds_single_keys(*source),
        PlanV::Projection { source, .. } => bounds_single_keys(*source),
        PlanV::Aggregate { source, .. } => bounds_single_keys(*source),
        PlanV::Sort { source, .. } => bounds_single_keys(*source),
        PlanV::Limit { source, .. } => bounds_single_keys(*source),
        PlanV::Distinct { source } => bounds_single_keys(*source),
        PlanV::Join { left, right, .. } => bounds_single_keys(*left) && bounds_single_keys(*right),
        PlanV::SetOp { left, right, .. } => bounds_single_keys(*left) && bounds_single_keys(*right),
        _ => true,
    }
}

// ---------------------------------------------------------------- optimization

proof fn best_index_bounds(
    table: Seq<char>,
    s: SchemaV,
    e: ExprV,
    t: Option<TableStatistics>,
    cols: Set<Seq<char>>,
    i: int,
    best: PathV,
    known: Seq<(QuestionV, AnswerV)>,
)
    requires
        bounds_single_keys(best.plan),
    ensures
        optimizer::best_index_from(table, s, e, t, cols, i, best, known) matches Ok(p) ==> bounds_single_keys(p.plan),
    decreases s.indexes.len() - i,
{
    if i < s.indexes.len() {
        let other = optimizer::index_path(table, s, s.indexes[i], e, t, cols, known);
        assert(other matches Ok(Some(p)) ==> bounds_single_keys(p.plan));
        if let Ok(b) = optimizer::better(best, other) {
            best_index_bounds(table, s, e, t, cols, i + 1, b, known);
        }
    }
}

/// The cheapest way to read a table bounds its key only where this is one column.
proof fn best_path_bounds(
    table: Seq<char>,
    s: SchemaV,
    e: ExprV,
    t: Option<TableStatistics>,
    cols: Set<Seq<char>>,
    known: Seq<(QuestionV, AnswerV)>,
)
    ensures
        optimizer::best_path(table, s, e, t, cols, known) matches Ok(p) ==> bounds_single_keys(p),
{
    if let Ok(full) = cost::scan_cost(s, t, None, cols, known) {
        let scan = PathV { plan: PlanV::Scan { table_name: table, schema: s, range: None }, cost: full };
        if let Ok(b) = optimizer::better(scan, optimizer::key_path(table, s, e, t, cols, known)) {
            assert(bounds_single_keys(b.plan));
            best_index_bounds(table, s, e, t, cols, 0, b, known);
        }
    }
}

proof fn filtered_bounds(es: Seq<ExprV>, p: PlanV)
    requires
        bounds_single_keys(p),
    ensures
        bounds_single_keys(optimizer::filtered(es, p)),
{
}

proof fn leaf_bounds(
    p: PlanV,
    table: Seq<char>,
    s: SchemaV,
    es: Seq<ExprV>,
    cols: Set<Seq<char>>,
    o: Optimizer,
    known: Seq<(QuestionV, AnswerV)>,
)
    requires
        bounds_single_keys(p),
    ensures
        optimizer::pushed_leaf(p, table, s, es, cols, o, known) matches Ok(q) ==> bounds_single_keys(q),
{
    if es.len() > 0 {
        best_path_bounds(table, s, optimizer::conjunction_of(es), o.stats_of(table), cols, known);
    }
}

proof fn pushing_bounds(
    p: PlanV,
    es: Seq<ExprV>,
    cols: Set<Seq<char>>,
    o: Optimizer,
    known: Seq<(QuestionV, AnswerV)>,
)
    requires
        bounds_single_keys(p),
    ensures
        optimizer::pushed(p, es, cols, o, known) matches Ok(q) ==> bounds_single_keys(q),
    decreases p,
{
    match p {
        PlanV::Filter { source, predicate } => {
            pushing_bounds(*source, es + optimizer::conjuncts(predicate), cols, o, known);
        },
        PlanV::Join { left, right, condition, join_type, .. } => {
            let ls = logical::plan_schema(*left);
            let rs = logical::plan_schema(*right);
            let to_left = optimizer::going_to(es, ls, rs, join_type, Side::Left, 0, Seq::empty());
            let to_right = optimizer::going_to(es, ls, rs, join_type, Side::Right, 0, Seq::empty());
            let above = optimizer::going_to(es, ls, rs, join_type, Side::Above, 0, Seq::empty());
            pushing_bounds(*left, to_left, cols, o, known);
            pushing_bounds(*right, to_right, cols, o, known);
            if let (Ok(l), Ok(r)) = (
                optimizer::pushed(*left, to_left, cols, o, known),
                optimizer::pushed(*right, to_right, cols, o, known),
            ) {
                filtered_bounds(above, logical::join_of(l, r, condition, join_type));
            }
        },
        PlanV::Projection { source, expressions, field_names, .. } => {
            pushing_bounds(*source, Seq::empty(), cols, o, known);
            if let Ok(q) = optimizer::pushed(*source, Seq::empty(), cols, o, known) {
                filtered_bounds(es, logical::projection_of(q, expressions, field_names));
            }
        },
        PlanV::Aggregate { source, group_by, aggrs, field_names, .. } => {
            pushing_bounds(*source, Seq::empty(), cols, o, known);
            if let Ok(q) = optimizer::pushed(*source, Seq::empty(), cols, o, known) {
                filtered_bounds(es, logical::aggregate_of(q, group_by, aggrs, field_names));
            }
        },
        PlanV::Sort { source, .. } => pushing_bounds(*source, es, cols, o, known),
        PlanV::Distinct { source } => pushing_bounds(*source, es, cols, o, known),
        PlanV::Limit { source, limit, offset } => {
            pushing_bounds(*source, Seq::empty(), cols, o, known);
            if let Ok(q) = optimizer::pushed(*source, Seq::empty(), cols, o, known) {
                filtered_bounds(es, PlanV::Limit { source: Box::new(q), limit, offset });
            }
        },
        PlanV::SetOp { left, right, op, all } => {
            pushing_bounds(*left, Seq::empty(), cols, o, known);
            pushing_bounds(*right, Seq::empty(), cols, o, known);
            if let (Ok(l), Ok(r)) = (
                optimizer::pushed(*left, Seq::empty(), cols, o, known),
                optimizer::pushed(*right, Seq::empty(), cols, o, known),
            ) {
                filtered_bounds(es, PlanV::SetOp { left: Box::new(l), right: Box::new(r), op, all });
            }
        },
        PlanV::Scan { table_name, schema, .. } => leaf_bounds(p, table_name, schema, es, cols, o, known),
        PlanV::IndexScan { table_name, schema, .. } => leaf_bounds(p, table_name, schema, es, cols, o, known),
        PlanV::FullTextScan { table_name, schema, .. } => leaf_bounds(p, table_name, schema, es, cols, o, known),
    }
}

proof fn reordering_bounds(p: PlanV, o: Optimizer, known: Seq<(QuestionV, AnswerV)>)
    requires
        bounds_single_keys(p),
    ensures
        optimizer::reordered(p, o, known) matches Ok(q) ==> bounds_single_keys(q),
    decreases p,
{
    match p {
        PlanV::Join { left, right, condition, join_type, .. } => {
            reordering_bounds(*left, o, known);
            reordering_bounds(*right, o, known);
            if let (Ok(l), Ok(r)) = (optimizer::reordered(*left, o, known), optimizer::reordered(*right, o, known)) {
                assert(bounds_single_keys(logical::join_of(l, r, condition, join_type)));
                let exchanged = logical::join_of(r, l, optimizer::swapped(condition), join_type);
                assert(bounds_single_keys(exchanged));
                let cols = logical::plan_schema(logical::join_of(l, r, condition, join_type)).columns;
                assert(bounds_single_keys(
                    logical::projection_of(exchanged, optimizer::column_refs(cols), optimizer::column_names(cols)),
                ));
            }
        },
        PlanV::Filter { source, .. } => reordering_bounds(*source, o, known),
        PlanV::Sort { source, .. } => reordering_bounds(*source, o, known),
        PlanV::Limit { source, .. } => reordering_bounds(*source, o, known),
        PlanV::Distinct { source } => reordering_bounds(*source, o, known),
        PlanV::Projection { source, .. } => reordering_bounds(*source, o, known),
        PlanV::Aggregate { source, .. } => reordering_bounds(*source, o, known),
        PlanV::SetOp { left, right, .. } => {
            reordering_bounds(*left, o, known);
            reordering_bounds(*right, o, known);
        },
        _ => {},
    }
}

proof fn promoting_bounds(p: PlanV, col: Seq<char>)
    requires
        bounds_single_keys(p),
    ensures
        optimizer::promoted(p, col) matches Some(q) ==> bounds_single_keys(q),
    decreases p,
{
    match p {
        PlanV::Filter { source, .. } => promoting_bounds(*source, col),
        PlanV::Limit { source, .. } => promoting_bounds(*source, col),
        PlanV::Distinct { source } => promoting_bounds(*source, col),
        PlanV::Projection { source, expressions, field_names, .. } => {
            if let Some(inner) = optimizer::passed_from(expressions, field_names, col, 0) {
                promoting_bounds(*source, inner);
            }
        },
        _ => {},
    }
}

proof fn unsorting_bounds(p: PlanV)
    requires
        bounds_single_keys(p),
    ensures
        bounds_single_keys(optimizer::unsorted(p)),
    decreases p,
{
    match p {
        PlanV::Sort { source, keys } => {
            unsorting_bounds(*source);
            let q = optimizer::unsorted(*source);
            assert(bounds_single_keys(PlanV::Sort { source: Box::new(q), keys }));
            if keys.len() == 1 {
                if let ExprV::Column(col, _) = keys[0].0 {
                    promoting_bounds(q, col);
                }
            }
        },
        PlanV::Filter { source, .. } => unsorting_bounds(*source),
        PlanV::Projection { source, .. } => unsorting_bounds(*source),
        PlanV::Join { left, right, .. } => {
            unsorting_bounds(*left);
            unsorting_bounds(*right);
        },
        PlanV::Aggregate { source, group_by, .. } => {
            unsorting_bounds(*source);
            if group_by.len() == 1 {
                if let ExprV::Column(col, _) = group_by[0] {
                    promoting_bounds(optimizer::unsorted(*source), col);
                }
            }
        },
        PlanV::Limit { source, .. } => unsorting_bounds(*source),
        PlanV::Distinct { source } => unsorting_bounds(*source),
        PlanV::SetOp { left, right, .. } => {
            unsorting_bounds(*left);
            unsorting_bounds(*right);
        },
        _ => {},
    }
}

/// Optimization bounds the scan of a table only where its primary key is one column.
pub proof fn optimizing_bounds_single_keys(p: PlanV, o: Optimizer, known: Seq<(QuestionV, AnswerV)>)
    requires
        bounds_single_keys(p),
    ensures
        optimizer::optimized(p, o, known) matches Ok(q) ==> bounds_single_keys(q),
{
    let cols = logical::plan_columns(p);
    pushing_bounds(p, Seq::empty(), cols, o, known);
    if let Ok(q) = optimizer::pushed(p, Seq::empty(), cols, o, known) {
        reordering_bounds(q, o, known);
        if let Ok(r) = optimizer::reordered(q, o, known) {
            unsorting_bounds(r);
        }
    }
}

// ---------------------------------------------------------------- planning

proof fn joining_bounds(
    tables: Seq<(Seq<char>, SchemaV)>,
    nodes: Seq<SqlNodeV>,
    plan: PlanV,
    joins: Seq<JoinV>,
    i: int,
    known: Seq<(QuestionV, AnswerV)>,
)
    requires
        bounds_single_keys(plan),
    ensures
        planner::joined(tables, nodes, plan, joins, i, known) matches Ok(q) ==> bounds_single_keys(q),
    decreases joins.len() - i,
{
    if i < joins.len() {
        if let Ok(right) = planner::scan_of(tables, joins[i].relation) {
            if let Ok(c) = planner::join_condition(nodes, joins[i], known) {
                assert(bounds_single_keys(right));
                joining_bounds(tables, nodes, logical::join_of(plan, right, c.0, c.1), joins, i + 1, known);
            }
        }
    }
}

proof fn aggregating_bounds(
    nodes: Seq<SqlNodeV>,
    plan: PlanV,
    select: SelectV,
    ids: Seq<usize>,
    known: Seq<(QuestionV, AnswerV)>,
)
    requires
        bounds_single_keys(plan),
    ensures
        planner::aggregated(nodes, plan, select, ids, known) matches Ok(q) ==> bounds_single_keys(q),
{
    if let Ok(groups) = facts::collected(planner::planned_each(nodes, ids, known), 0, Seq::empty()) {
        let start = RewritingV { nodes, aggrs: Seq::empty(), names: planner::group_names(groups) };
        if let Ok(st) = planner::rewritten_select(start, select, known) {
            let grouped = logical::aggregate_of(plan, groups, st.aggrs, st.names);
            assert(bounds_single_keys(grouped));
            if let Ok(kept) = planner::filtered(st.nodes, grouped, select.having, known) {
                assert(bounds_single_keys(kept));
            }
        }
    }
}

proof fn select_bounds(
    tables: Seq<(Seq<char>, SchemaV)>,
    nodes: Seq<SqlNodeV>,
    select: SelectV,
    order: Seq<OrderItemV>,
    known: Seq<(QuestionV, AnswerV)>,
)
    ensures
        planner::planned_select(tables, nodes, select, order, known) matches Ok(q) ==> bounds_single_keys(q),
{
    reveal(planner::planned_select);
    if let Ok(plan) = planner::source_of(tables, nodes, select, known) {
        if let Ok(first) = planner::scan_of(tables, select.from[0].relation) {
            assert(bounds_single_keys(first));
            joining_bounds(tables, nodes, first, select.from[0].joins, 0, known);
        }
        assert(bounds_single_keys(plan));
        if let Ok(ids) = planner::group_ids(select.group_by) {
            aggregating_bounds(nodes, plan, select, ids, known);
            if let Ok(q) = planner::sorted(nodes, plan, order, known) {
                assert(bounds_single_keys(q));
            }
        }
    }
}

/// A planned query bounds no scan.
pub proof fn planned_query_bounds_single_keys(
    tables: Seq<(Seq<char>, SchemaV)>,
    nodes: Seq<SqlNodeV>,
    sets: Seq<SetNodeV>,
    q: QueryV,
    before: int,
    known: Seq<(QuestionV, AnswerV)>,
)
    ensures
        planner::planned_query(tables, nodes, sets, q, before, known) matches Ok(p) ==> bounds_single_keys(p),
    decreases before, 0int,
{
    if q.body < before && q.body < sets.len() {
        match sets[q.body as int] {
            SetNodeV::Select(select) => {
                reveal(planner::planned_select_query);
                if let Ok(order) = planner::order_items(q.order_by) {
                    select_bounds(tables, nodes, select, order, known);
                    if let Ok(plan) = planner::planned_select(tables, nodes, select, order, known) {
                        assert(bounds_single_keys(PlanV::Distinct { source: Box::new(plan) }));
                    }
                }
            },
            _ => {
                set_bounds(tables, nodes, sets, q.body as int, known);
                if let Ok(plan) = planner::planned_set(tables, nodes, sets, q.body as int, known) {
                    if let Ok(order) = planner::order_items(q.order_by) {
                        if let Ok(kept) = planner::sorted(nodes, plan, order, known) {
                            assert(bounds_single_keys(kept));
                        }
                    }
                }
            },
        }
    }
}

proof fn set_bounds(
    tables: Seq<(Seq<char>, SchemaV)>,
    nodes: Seq<SqlNodeV>,
    sets: Seq<SetNodeV>,
    at: int,
    known: Seq<(QuestionV, AnswerV)>,
)
    ensures
        planner::planned_set(tables, nodes, sets, at, known) matches Ok(p) ==> bounds_single_keys(p),
    decreases at, 1int,
{
    if 0 <= at < sets.len() {
        match sets[at] {
            SetNodeV::Select(select) => select_bounds(tables, nodes, select, Seq::empty(), known),
            SetNodeV::Query(q) => planned_query_bounds_single_keys(tables, nodes, sets, q, at, known),
            SetNodeV::SetOperation { left, right, .. } => {
                if left < at && right < at {
                    set_bounds(tables, nodes, sets, left as int, known);
                    set_bounds(tables, nodes, sets, right as int, known);
                }
            },
            _ => {},
        }
    }
}

/// A planned query statement bounds no scan.
proof fn planned_statement_bounds(tables: Seq<(Seq<char>, SchemaV)>, s: StatementV, known: Seq<(QuestionV, AnswerV)>)
    ensures
        statement::planned_statement(tables, s, known) matches Ok(SqlStatementV::Query(p)) ==> bounds_single_keys(p),
{
    match s.body {
        StatementBodyV::Query(q) => {
            planned_query_bounds_single_keys(tables, s.exprs, s.sets, q, s.sets.len() as int, known);
        },
        _ => {},
    }
}

/// The table of a lookup has a primary key of one column where the plan bounds no other scan.
proof fn lookup_is_by_single_key(p: PlanV, ps: Map<Seq<char>, ValueV>)
    requires
        bounds_single_keys(p),
    ensures
        point_get::lookup(p, ps) matches Some(g) ==> schema::primary_key_position(g.scan_schema) is Some,
{
    reveal_with_fuel(bounds_single_keys, 3);
}

proof fn optimized_statement_bounds(q: SqlStatementV, o: Optimizer, known: Seq<(QuestionV, AnswerV)>)
    requires
        q matches SqlStatementV::Query(p) ==> bounds_single_keys(p),
    ensures
        engine::optimized_statement(q, o, known) matches Ok(SqlStatementV::Query(p)) ==> bounds_single_keys(p),
{
    if let SqlStatementV::Query(p) = q {
        optimizing_bounds_single_keys(p, o, known);
    }
}

/// A lookup fetches a row by its whole primary key: the table of a lookup that a planned and
/// optimized query leads to has a primary key of one column.
pub proof fn lookups_are_by_whole_keys(
    s: StatementV,
    db: Snapshot,
    ps: Map<Seq<char>, ValueV>,
    known: Seq<(QuestionV, AnswerV)>,
    p: PlanV,
    g: PointGetV,
)
    requires
        engine::ready_statement(s, db, known) == Ok::<SqlStatementV, ErrorV>(SqlStatementV::Query(p)),
        point_get::lookup(p, ps) == Some(g),
    ensures
        schema::primary_key_position(g.scan_schema) is Some,
{
    let planned = statement::planned_statement(db.planner.catalog@, s, known);
    planned_statement_bounds(db.planner.catalog@, s, known);
    if let Ok(q) = planned {
        optimized_statement_bounds(q, db.optimizer, known);
    }
    lookup_is_by_single_key(p, ps);
}

} // verus!
