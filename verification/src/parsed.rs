//! What planning says of a statement whose nodes are in order, as those of a parsed one are: it
//! is never that the statement refers to parts it does not have.

use crate::ddl;
use crate::facts;
use crate::facts::{AnswerV, ErrorKind, ErrorV, QuestionV};
use crate::grouping;
use crate::grouping::RewritingV;
use crate::logical;
use crate::logical::PlanV;
use crate::parameters;
use crate::parse;
use crate::planner;
use crate::scalar;
use crate::schema;
use crate::schema::{LocalityGroupOptions, SchemaV};
use crate::statement;
use crate::syntax::{
    ColumnDefV, ColumnOptionV, FunctionArgumentV, FunctionArgumentsV, JoinV, OrderItemV, QueryV, SelectItemV, SelectV,
    SetNodeV, SqlNodeV, StatementBodyV, StatementV, TableOptionV, ValuesRowV,
};
use crate::text;
use crate::value::ValueV;
use vstd::prelude::*;

verus! {

/// Whether an outcome is not that something refers to parts it does not have.
pub open spec fn is_sound<T>(r: Result<T, ErrorV>) -> bool {
    r matches Err(e) ==> e.kind != ErrorKind::Malformed
}

/// Whether the operands of every node stand before it.
pub open spec fn nodes_ordered(nodes: Seq<SqlNodeV>) -> bool {
    forall|i: int| 0 <= i < nodes.len() ==> parse::node_before(#[trigger] nodes[i], i)
}

/// Sound outcomes are collected to a sound one.
proof fn collected_is_sound<T>(rs: Seq<Result<T, ErrorV>>, i: int, acc: Seq<T>)
    requires
        0 <= i,
        forall|j: int| i <= j < rs.len() ==> is_sound(#[trigger] rs[j]),
    ensures
        is_sound(facts::collected(rs, i, acc)),
    decreases rs.len() - i,
{
    if i < rs.len() {
        assert(is_sound(rs[i]));
        if let Ok(x) = rs[i] {
            collected_is_sound(rs, i + 1, acc.push(x));
        }
    }
}

// ---------------------------------------------------------------- expressions

proof fn operand_is_sound(nodes: Seq<SqlNodeV>, i: int, at: int, known: Seq<(QuestionV, AnswerV)>)
    requires
        nodes_ordered(nodes),
        0 <= i < at <= nodes.len(),
    ensures
        is_sound(scalar::operand(nodes, i, at, known)),
    decreases at, 0int,
{
    planned_is_sound(nodes, i, known);
}

proof fn operands_are_sound(nodes: Seq<SqlNodeV>, ids: Seq<usize>, at: int, known: Seq<(QuestionV, AnswerV)>)
    requires
        nodes_ordered(nodes),
        0 <= at <= nodes.len(),
        parse::all_before(ids, at),
    ensures
        is_sound(facts::collected(scalar::operands(nodes, ids, at, known), 0, Seq::empty())),
    decreases at, 1int,
{
    let rs = scalar::operands(nodes, ids, at, known);
    assert forall|j: int| 0 <= j < rs.len() implies is_sound(#[trigger] rs[j]) by {
        assert(ids[j] < at);
        operand_is_sound(nodes, ids[j] as int, at, known);
    }
    collected_is_sound(rs, 0, Seq::empty());
}

proof fn maybe_operand_is_sound(nodes: Seq<SqlNodeV>, id: Option<usize>, at: int, known: Seq<(QuestionV, AnswerV)>)
    requires
        nodes_ordered(nodes),
        0 <= at <= nodes.len(),
        parse::maybe_before(id, at),
    ensures
        is_sound(scalar::maybe_operand(nodes, id, at, known)),
    decreases at, 1int,
{
    if let Some(i) = id {
        operand_is_sound(nodes, i as int, at, known);
    }
}

proof fn clauses_are_sound(
    nodes: Seq<SqlNodeV>,
    conditions: Seq<usize>,
    results: Seq<usize>,
    at: int,
    known: Seq<(QuestionV, AnswerV)>,
)
    requires
        nodes_ordered(nodes),
        0 <= at <= nodes.len(),
        parse::all_before(conditions, at),
        parse::all_before(results, at),
        conditions.len() == results.len(),
    ensures
        is_sound(facts::collected(scalar::clauses(nodes, conditions, results, at, known), 0, Seq::empty())),
    decreases at, 1int,
{
    let rs = scalar::clauses(nodes, conditions, results, at, known);
    assert forall|j: int| 0 <= j < rs.len() implies is_sound(#[trigger] rs[j]) by {
        assert(conditions[j] < at && results[j] < at);
        operand_is_sound(nodes, conditions[j] as int, at, known);
        operand_is_sound(nodes, results[j] as int, at, known);
    }
    collected_is_sound(rs, 0, Seq::empty());
}

proof fn arguments_are_sound(nodes: Seq<SqlNodeV>, args: Seq<FunctionArgumentV>, at: int, known: Seq<(QuestionV, AnswerV)>)
    requires
        nodes_ordered(nodes),
        0 <= at <= nodes.len(),
        forall|i: int| 0 <= i < args.len() ==> parse::argument_before(#[trigger] args[i], at),
    ensures
        is_sound(facts::collected(scalar::arguments(nodes, args, at, known), 0, Seq::empty())),
    decreases at, 1int,
{
    let rs = scalar::arguments(nodes, args, at, known);
    assert forall|j: int| 0 <= j < rs.len() implies is_sound(#[trigger] rs[j]) by {
        assert(parse::argument_before(args[j], at));
        if let FunctionArgumentV::Unnamed(id) = args[j] {
            operand_is_sound(nodes, id as int, at, known);
        }
    }
    collected_is_sound(rs, 0, Seq::empty());
}

/// The node at a position of ordered nodes is planned, or refused for what it is.
proof fn planned_is_sound(nodes: Seq<SqlNodeV>, at: int, known: Seq<(QuestionV, AnswerV)>)
    requires
        nodes_ordered(nodes),
        0 <= at < nodes.len(),
    ensures
        is_sound(scalar::planned(nodes, at, known)),
    decreases at, 2int,
{
    assert(parse::node_before(nodes[at], at));
    match nodes[at] {
        SqlNodeV::Like { expr, pattern, .. } => {
            operand_is_sound(nodes, expr as int, at, known);
            operand_is_sound(nodes, pattern as int, at, known);
        },
        SqlNodeV::BinaryOp { left, right, .. } => {
            operand_is_sound(nodes, left as int, at, known);
            operand_is_sound(nodes, right as int, at, known);
        },
        SqlNodeV::Nested(inner) => operand_is_sound(nodes, inner as int, at, known),
        SqlNodeV::UnaryOp { expr, .. } => operand_is_sound(nodes, expr as int, at, known),
        SqlNodeV::IsNull(inner) => operand_is_sound(nodes, inner as int, at, known),
        SqlNodeV::IsNotNull(inner) => operand_is_sound(nodes, inner as int, at, known),
        SqlNodeV::Between { expr, low, high, .. } => {
            operand_is_sound(nodes, expr as int, at, known);
            operand_is_sound(nodes, low as int, at, known);
            operand_is_sound(nodes, high as int, at, known);
        },
        SqlNodeV::InList { expr, list, .. } => {
            operand_is_sound(nodes, expr as int, at, known);
            operands_are_sound(nodes, list, at, known);
        },
        SqlNodeV::Case { operand, conditions, results, else_result } => {
            maybe_operand_is_sound(nodes, operand, at, known);
            clauses_are_sound(nodes, conditions, results, at, known);
            maybe_operand_is_sound(nodes, else_result, at, known);
        },
        SqlNodeV::Substring { expr, from, count } => {
            let ids = scalar::substring_operands(expr, from, count);
            assert(parse::all_before(ids, at));
            operands_are_sound(nodes, ids, at, known);
        },
        SqlNodeV::Function { args, .. } => {
            if let FunctionArgumentsV::List { args, .. } = args {
                arguments_are_sound(nodes, args, at, known);
            }
        },
        _ => {},
    }
}

proof fn planned_each_is_sound(nodes: Seq<SqlNodeV>, ids: Seq<usize>, known: Seq<(QuestionV, AnswerV)>)
    requires
        nodes_ordered(nodes),
        parse::all_before(ids, nodes.len() as int),
    ensures
        is_sound(facts::collected(planner::planned_each(nodes, ids, known), 0, Seq::empty())),
{
    let rs = planner::planned_each(nodes, ids, known);
    assert forall|j: int| 0 <= j < rs.len() implies is_sound(#[trigger] rs[j]) by {
        assert(ids[j] < nodes.len());
        planned_is_sound(nodes, ids[j] as int, known);
    }
    collected_is_sound(rs, 0, Seq::empty());
}

// ---------------------------------------------------------------- aggregate functions

/// Whether an outcome of extracting aggregate functions is sound, and leaves as many nodes in
/// order.
spec fn rewrites_soundly(st: RewritingV, r: Result<RewritingV, ErrorV>) -> bool {
    &&& is_sound(r)
    &&& (r matches Ok(next) ==> nodes_ordered(next.nodes) && next.nodes.len() == st.nodes.len() && forall|i: int|
        0 <= i < st.nodes.len() ==> same_or_leaf(#[trigger] st.nodes[i], next.nodes[i]))
}

/// Whether a node stayed as it was or became one without operands.
spec fn same_or_leaf(a: SqlNodeV, b: SqlNodeV) -> bool {
    b == a || b is Identifier
}

proof fn rewrites_compose(a: RewritingV, b: RewritingV, r: Result<RewritingV, ErrorV>)
    requires
        rewrites_soundly(a, Ok(b)),
        rewrites_soundly(b, r),
    ensures
        rewrites_soundly(a, r),
{
    if let Ok(c) = r {
        assert forall|i: int| 0 <= i < a.nodes.len() implies same_or_leaf(#[trigger] a.nodes[i], c.nodes[i]) by {
            assert(same_or_leaf(b.nodes[i], c.nodes[i]));
        }
    }
}

proof fn rewritten_operand_is_sound(st: RewritingV, i: int, at: int, known: Seq<(QuestionV, AnswerV)>)
    requires
        nodes_ordered(st.nodes),
        0 <= i < at <= st.nodes.len(),
    ensures
        rewrites_soundly(st, grouping::rewritten_operand(st, i, at, known)),
    decreases at, 0int, 0int,
{
    rewritten_is_sound(st, i, known);
}

proof fn rewritten_arguments_is_sound(
    st: RewritingV,
    args: Seq<FunctionArgumentV>,
    j: int,
    at: int,
    known: Seq<(QuestionV, AnswerV)>,
)
    requires
        nodes_ordered(st.nodes),
        0 <= at <= st.nodes.len(),
        0 <= j,
        forall|i: int| 0 <= i < args.len() ==> parse::argument_before(#[trigger] args[i], at),
    ensures
        rewrites_soundly(st, grouping::rewritten_arguments(st, args, j, at, known)),
    decreases at, 1int, args.len() - j,
{
    if j < args.len() {
        assert(parse::argument_before(args[j], at));
        if let FunctionArgumentV::Unnamed(i) = args[j] {
            rewritten_operand_is_sound(st, i as int, at, known);
            if let Ok(next) = grouping::rewritten_operand(st, i as int, at, known) {
                rewritten_arguments_is_sound(next, args, j + 1, at, known);
                rewrites_compose(st, next, grouping::rewritten_arguments(next, args, j + 1, at, known));
            }
        } else {
            rewritten_arguments_is_sound(st, args, j + 1, at, known);
        }
    }
}

proof fn rewritten_clauses_is_sound(
    st: RewritingV,
    conditions: Seq<usize>,
    results: Seq<usize>,
    j: int,
    at: int,
    known: Seq<(QuestionV, AnswerV)>,
)
    requires
        nodes_ordered(st.nodes),
        0 <= at <= st.nodes.len(),
        0 <= j,
        parse::all_before(conditions, at),
        parse::all_before(results, at),
        conditions.len() == results.len(),
    ensures
        rewrites_soundly(st, grouping::rewritten_clauses(st, conditions, results, j, at, known)),
    decreases at, 1int, conditions.len() - j,
{
    if j < conditions.len() {
        assert(conditions[j] < at && results[j] < at);
        rewritten_operand_is_sound(st, conditions[j] as int, at, known);
        if let Ok(next) = grouping::rewritten_operand(st, conditions[j] as int, at, known) {
            rewritten_operand_is_sound(next, results[j] as int, at, known);
            rewrites_compose(st, next, grouping::rewritten_operand(next, results[j] as int, at, known));
            if let Ok(last) = grouping::rewritten_operand(next, results[j] as int, at, known) {
                rewritten_clauses_is_sound(last, conditions, results, j + 1, at, known);
                rewrites_compose(
                    st,
                    last,
                    grouping::rewritten_clauses(last, conditions, results, j + 1, at, known),
                );
            }
        }
    }
}

proof fn extracted_is_sound(st: RewritingV, at: int, a: logical::AggregateV, call: Seq<char>)
    requires
        nodes_ordered(st.nodes),
        0 <= at < st.nodes.len(),
    ensures
        rewrites_soundly(st, Ok(grouping::extracted(st, at, a, call))),
{
    let next = grouping::extracted(st, at, a, call);
    assert forall|i: int| 0 <= i < next.nodes.len() implies parse::node_before(#[trigger] next.nodes[i], i) by {
        if i != at {
            assert(parse::node_before(st.nodes[i], i));
        }
    }
}

/// The aggregate functions of a node of ordered nodes are extracted, or refused for what they
/// are.
#[verifier::spinoff_prover]
proof fn rewritten_is_sound(st: RewritingV, at: int, known: Seq<(QuestionV, AnswerV)>)
    requires
        nodes_ordered(st.nodes),
        0 <= at < st.nodes.len(),
    ensures
        rewrites_soundly(st, grouping::rewritten(st, at, known)),
    decreases at, 2int, 0int,
{
    assert(parse::node_before(st.nodes[at], at));
    match st.nodes[at] {
        SqlNodeV::Function { name, text, args } => {
            if scalar::is_aggregate(text::uppercased(name)) {
                let upper = text::uppercased(name);
                if let FunctionArgumentsV::List { args: list, .. } = args {
                    if list.len() > 0 {
                        assert(parse::argument_before(list[0], at));
                        if let FunctionArgumentV::Unnamed(i) = list[0] {
                            operand_is_sound(st.nodes, i as int, at, known);
                        }
                    }
                }
                if let Ok(x) = grouping::aggregate_argument(st.nodes, args, upper, at, known) {
                    extracted_is_sound(st, at, grouping::aggregate_named(upper, x.0, x.1), text);
                }
            } else if let FunctionArgumentsV::List { args, .. } = args {
                rewritten_arguments_is_sound(st, args, 0, at, known);
            }
        },
        SqlNodeV::BinaryOp { left, right, .. } => {
            rewritten_operand_is_sound(st, left as int, at, known);
            if let Ok(next) = grouping::rewritten_operand(st, left as int, at, known) {
                rewritten_operand_is_sound(next, right as int, at, known);
                rewrites_compose(st, next, grouping::rewritten_operand(next, right as int, at, known));
            }
        },
        SqlNodeV::Nested(inner) => rewritten_operand_is_sound(st, inner as int, at, known),
        SqlNodeV::UnaryOp { expr, .. } => rewritten_operand_is_sound(st, expr as int, at, known),
        SqlNodeV::Case { conditions, results, else_result, .. } => {
            rewritten_clauses_is_sound(st, conditions, results, 0, at, known);
            if let Ok(next) = grouping::rewritten_clauses(st, conditions, results, 0, at, known) {
                if let Some(i) = else_result {
                    rewritten_operand_is_sound(next, i as int, at, known);
                    rewrites_compose(st, next, grouping::rewritten_operand(next, i as int, at, known));
                }
            }
        },
        _ => {},
    }
}

// ---------------------------------------------------------------- queries

/// Whether the items of a SELECT list refer to nodes that are there.
spec fn items_before(items: Seq<SelectItemV>, k: int) -> bool {
    forall|i: int| 0 <= i < items.len() ==> parse::item_before(#[trigger] items[i], k)
}

/// Whether sort keys refer to nodes that are there.
spec fn order_before(order: Seq<OrderItemV>, k: int) -> bool {
    forall|i: int| 0 <= i < order.len() ==> (#[trigger] order[i]).expr < k
}

proof fn joined_is_sound(
    tables: Seq<(Seq<char>, SchemaV)>,
    nodes: Seq<SqlNodeV>,
    plan: PlanV,
    joins: Seq<JoinV>,
    i: int,
    known: Seq<(QuestionV, AnswerV)>,
)
    requires
        nodes_ordered(nodes),
        0 <= i,
        parse::joins_before(joins, nodes.len() as int),
    ensures
        is_sound(planner::joined(tables, nodes, plan, joins, i, known)),
    decreases joins.len() - i,
{
    if i < joins.len() {
        let j = joins[i];
        table_is_sound(tables, j.relation);
        if let crate::syntax::JoinConstraint::On(e) = j.constraint {
            assert(e < nodes.len());
            planned_is_sound(nodes, e as int, known);
        }
        assert(is_sound(planner::join_condition(nodes, j, known)));
        if let (Ok(right), Ok(c)) = (planner::scan_of(tables, j.relation), planner::join_condition(nodes, j, known)) {
            joined_is_sound(tables, nodes, logical::join_of(plan, right, c.0, c.1), joins, i + 1, known);
        }
    }
}

proof fn table_from_is_sound(tables: Seq<(Seq<char>, SchemaV)>, name: Seq<char>, i: int)
    requires
        0 <= i,
    ensures
        is_sound(planner::table_from(tables, name, i)),
    decreases tables.len() - i,
{
    if i < tables.len() {
        table_from_is_sound(tables, name, i + 1);
    }
}

proof fn table_is_sound(tables: Seq<(Seq<char>, SchemaV)>, factor: crate::syntax::TableFactorV)
    ensures
        is_sound(planner::scan_of(tables, factor)),
{
    if let crate::syntax::TableFactorV::Table { name, .. } = factor {
        table_from_is_sound(tables, name, 0);
    }
}

proof fn filtered_is_sound(nodes: Seq<SqlNodeV>, plan: PlanV, selection: Option<usize>, known: Seq<(QuestionV, AnswerV)>)
    requires
        nodes_ordered(nodes),
        parse::maybe_before(selection, nodes.len() as int),
    ensures
        is_sound(planner::filtered(nodes, plan, selection, known)),
{
    if let Some(i) = selection {
        planned_is_sound(nodes, i as int, known);
    }
}

proof fn sorted_is_sound(nodes: Seq<SqlNodeV>, plan: PlanV, order: Seq<OrderItemV>, known: Seq<(QuestionV, AnswerV)>)
    requires
        nodes_ordered(nodes),
        order_before(order, nodes.len() as int),
    ensures
        is_sound(planner::sorted(nodes, plan, order, known)),
{
    let rs = planner::planned_keys(nodes, order, known);
    assert forall|j: int| 0 <= j < rs.len() implies is_sound(#[trigger] rs[j]) by {
        assert(order[j].expr < nodes.len());
        planned_is_sound(nodes, order[j].expr as int, known);
    }
    collected_is_sound(rs, 0, Seq::empty());
}

proof fn projected_is_sound(
    nodes: Seq<SqlNodeV>,
    items: Seq<SelectItemV>,
    i: int,
    cols: Seq<schema::ColumnV>,
    p: planner::ProjectionV,
    known: Seq<(QuestionV, AnswerV)>,
)
    requires
        nodes_ordered(nodes),
        0 <= i,
        items_before(items, nodes.len() as int),
    ensures
        is_sound(planner::projected(nodes, items, i, cols, p, known)),
    decreases items.len() - i,
{
    if i < items.len() {
        assert(parse::item_before(items[i], nodes.len() as int));
        match items[i] {
            SelectItemV::Unnamed { expr, text } => {
                planned_is_sound(nodes, expr as int, known);
                if let Ok(x) = scalar::planned(nodes, expr as int, known) {
                    projected_is_sound(
                        nodes,
                        items,
                        i + 1,
                        cols,
                        planner::with_item(p, x, planner::item_name(x, text)),
                        known,
                    );
                }
            },
            SelectItemV::Aliased { expr, alias } => {
                planned_is_sound(nodes, expr as int, known);
                if let Ok(x) = scalar::planned(nodes, expr as int, known) {
                    projected_is_sound(nodes, items, i + 1, cols, planner::with_item(p, x, alias), known);
                }
            },
            SelectItemV::Wildcard => projected_is_sound(
                nodes,
                items,
                i + 1,
                cols,
                planner::with_columns(p, cols),
                known,
            ),
            SelectItemV::Other(_) => {},
        }
    }
}

proof fn projection_is_sound(
    nodes: Seq<SqlNodeV>,
    plan: PlanV,
    items: Seq<SelectItemV>,
    known: Seq<(QuestionV, AnswerV)>,
)
    requires
        nodes_ordered(nodes),
        items_before(items, nodes.len() as int),
    ensures
        is_sound(planner::projection_to(nodes, plan, items, known)),
{
    projected_is_sound(
        nodes,
        items,
        0,
        logical::plan_schema(plan).columns,
        planner::ProjectionV { expressions: Seq::empty(), names: Seq::empty() },
        known,
    );
}

proof fn rewritten_items_is_sound(st: RewritingV, items: Seq<SelectItemV>, i: int, known: Seq<(QuestionV, AnswerV)>)
    requires
        nodes_ordered(st.nodes),
        0 <= i,
        items_before(items, st.nodes.len() as int),
    ensures
        rewrites_soundly(st, planner::rewritten_items(st, items, i, known)),
    decreases items.len() - i,
{
    if i < items.len() {
        assert(parse::item_before(items[i], st.nodes.len() as int));
        match items[i] {
            SelectItemV::Unnamed { expr, .. } => rewritten_item_is_sound(st, items, i, expr, known),
            SelectItemV::Aliased { expr, .. } => rewritten_item_is_sound(st, items, i, expr, known),
            _ => {},
        }
    }
}

proof fn rewritten_item_is_sound(
    st: RewritingV,
    items: Seq<SelectItemV>,
    i: int,
    expr: usize,
    known: Seq<(QuestionV, AnswerV)>,
)
    requires
        nodes_ordered(st.nodes),
        0 <= i < items.len(),
        expr < st.nodes.len(),
        items_before(items, st.nodes.len() as int),
    ensures
        match grouping::rewritten(st, expr as int, known) {
            Err(e) => e.kind != ErrorKind::Malformed,
            Ok(next) => rewrites_soundly(st, planner::rewritten_items(next, items, i + 1, known)),
        },
    decreases items.len() - i, 0int,
{
    rewritten_is_sound(st, expr as int, known);
    if let Ok(next) = grouping::rewritten(st, expr as int, known) {
        rewritten_items_is_sound(next, items, i + 1, known);
        rewrites_compose(st, next, planner::rewritten_items(next, items, i + 1, known));
    }
}

proof fn aggregated_is_sound(
    nodes: Seq<SqlNodeV>,
    plan: PlanV,
    select: SelectV,
    ids: Seq<usize>,
    known: Seq<(QuestionV, AnswerV)>,
)
    requires
        nodes_ordered(nodes),
        parse::select_before(select, nodes.len() as int),
        parse::all_before(ids, nodes.len() as int),
    ensures
        is_sound(planner::aggregated(nodes, plan, select, ids, known)),
{
    planned_each_is_sound(nodes, ids, known);
    if let Ok(groups) = facts::collected(planner::planned_each(nodes, ids, known), 0, Seq::empty()) {
        let st = RewritingV { nodes, aggrs: Seq::empty(), names: planner::group_names(groups) };
        rewritten_items_is_sound(st, select.projection, 0, known);
        if let Ok(next) = planner::rewritten_items(st, select.projection, 0, known) {
            if let Some(i) = select.having {
                rewritten_is_sound(next, i as int, known);
                rewrites_compose(st, next, grouping::rewritten(next, i as int, known));
            }
        }
        if let Ok(last) = planner::rewritten_select(st, select, known) {
            let grouped = logical::aggregate_of(plan, groups, last.aggrs, last.names);
            filtered_is_sound(last.nodes, grouped, select.having, known);
            if let Ok(p) = planner::filtered(last.nodes, grouped, select.having, known) {
                projection_is_sound(last.nodes, p, select.projection, known);
            }
        }
    }
}

proof fn select_is_sound(
    tables: Seq<(Seq<char>, SchemaV)>,
    nodes: Seq<SqlNodeV>,
    select: SelectV,
    order: Seq<OrderItemV>,
    known: Seq<(QuestionV, AnswerV)>,
)
    requires
        nodes_ordered(nodes),
        parse::select_before(select, nodes.len() as int),
        order_before(order, nodes.len() as int),
    ensures
        is_sound(planner::planned_select(tables, nodes, select, order, known)),
{
    reveal(planner::planned_select);
    if select.from.len() > 0 {
        table_is_sound(tables, select.from[0].relation);
        assert(parse::joins_before(select.from[0].joins, nodes.len() as int));
        if let Ok(first) = planner::scan_of(tables, select.from[0].relation) {
            joined_is_sound(tables, nodes, first, select.from[0].joins, 0, known);
            if let Ok(p) = planner::joined(tables, nodes, first, select.from[0].joins, 0, known) {
                filtered_is_sound(nodes, p, select.selection, known);
            }
        }
    }
    if let (Ok(plan), Ok(ids)) = (
        planner::source_of(tables, nodes, select, known),
        planner::group_ids(select.group_by),
    ) {
        aggregated_is_sound(nodes, plan, select, ids, known);
        if let Ok(q) = planner::aggregated(nodes, plan, select, ids, known) {
            sorted_is_sound(nodes, q, order, known);
        }
        sorted_is_sound(nodes, plan, order, known);
        if let Ok(q) = planner::sorted(nodes, plan, order, known) {
            projection_is_sound(nodes, q, select.projection, known);
        }
    }
}

proof fn limited_is_sound(nodes: Seq<SqlNodeV>, plan: PlanV, q: QueryV, m: int)
    requires
        parse::query_before(q, nodes.len() as int, m),
    ensures
        is_sound(planner::limited(nodes, plan, q.limit)),
{
}

proof fn types_are_sound(left: Seq<schema::ColumnV>, right: Seq<schema::ColumnV>, i: int)
    requires
        0 <= i,
    ensures
        is_sound(planner::types_agree(left, right, i)),
    decreases left.len() - i,
{
    if i < left.len() && left[i].data_type == right[i].data_type {
        types_are_sound(left, right, i + 1);
    }
}

proof fn query_is_sound(
    tables: Seq<(Seq<char>, SchemaV)>,
    nodes: Seq<SqlNodeV>,
    sets: Seq<SetNodeV>,
    q: QueryV,
    before: int,
    known: Seq<(QuestionV, AnswerV)>,
)
    requires
        nodes_ordered(nodes),
        sets_ordered(nodes, sets),
        0 <= before <= sets.len(),
        parse::query_before(q, nodes.len() as int, before),
    ensures
        is_sound(planner::planned_query(tables, nodes, sets, q, before, known)),
    decreases before, 0int,
{
    assert(parse::set_before(sets[q.body as int], nodes.len() as int, q.body as int));
    if let SetNodeV::Select(select) = sets[q.body as int] {
        reveal(planner::planned_select_query);
        if let Ok(order) = planner::order_items(q.order_by) {
            select_is_sound(tables, nodes, select, order, known);
            if let Ok(plan) = planner::planned_select(tables, nodes, select, order, known) {
                limited_is_sound(nodes, plan, q, before);
                limited_is_sound(nodes, PlanV::Distinct { source: Box::new(plan) }, q, before);
            }
        }
    } else {
        set_is_sound(tables, nodes, sets, q.body as int, known);
        if let Ok(plan) = planner::planned_set(tables, nodes, sets, q.body as int, known) {
            if let Ok(order) = planner::order_items(q.order_by) {
                sorted_is_sound(nodes, plan, order, known);
                if let Ok(p) = planner::sorted(nodes, plan, order, known) {
                    limited_is_sound(nodes, p, q, before);
                }
            }
        }
    }
}

/// Whether every body refers to nodes that are there and to bodies before it.
spec fn sets_ordered(nodes: Seq<SqlNodeV>, sets: Seq<SetNodeV>) -> bool {
    forall|i: int| 0 <= i < sets.len() ==> parse::set_before(#[trigger] sets[i], nodes.len() as int, i)
}

proof fn set_is_sound(
    tables: Seq<(Seq<char>, SchemaV)>,
    nodes: Seq<SqlNodeV>,
    sets: Seq<SetNodeV>,
    at: int,
    known: Seq<(QuestionV, AnswerV)>,
)
    requires
        nodes_ordered(nodes),
        sets_ordered(nodes, sets),
        0 <= at < sets.len(),
    ensures
        is_sound(planner::planned_set(tables, nodes, sets, at, known)),
    decreases at, 1int,
{
    assert(parse::set_before(sets[at], nodes.len() as int, at));
    match sets[at] {
        SetNodeV::Select(select) => select_is_sound(tables, nodes, select, Seq::empty(), known),
        SetNodeV::Query(q) => query_is_sound(tables, nodes, sets, q, at, known),
        SetNodeV::SetOperation { left, right, .. } => {
            set_is_sound(tables, nodes, sets, left as int, known);
            set_is_sound(tables, nodes, sets, right as int, known);
            if let (Ok(l), Ok(r)) = (
                planner::planned_set(tables, nodes, sets, left as int, known),
                planner::planned_set(tables, nodes, sets, right as int, known),
            ) {
                types_are_sound(logical::plan_schema(l).columns, logical::plan_schema(r).columns, 0);
            }
        },
        _ => {},
    }
}

// ---------------------------------------------------------------- tables

proof fn default_is_sound(nodes: Seq<SqlNodeV>, at: int, known: Seq<(QuestionV, AnswerV)>)
    requires
        nodes_ordered(nodes),
        0 <= at < nodes.len(),
    ensures
        is_sound(ddl::default_value(nodes, at, known)),
    decreases at,
{
    assert(parse::node_before(nodes[at], at));
    if let SqlNodeV::UnaryOp { expr, .. } = nodes[at] {
        default_is_sound(nodes, expr as int, known);
    }
}

proof fn defaults_are_sound(
    nodes: Seq<SqlNodeV>,
    c: ColumnDefV,
    i: int,
    found: Option<ValueV>,
    known: Seq<(QuestionV, AnswerV)>,
)
    requires
        nodes_ordered(nodes),
        0 <= i,
        parse::column_before(c, nodes.len() as int),
    ensures
        is_sound(ddl::default_from(nodes, c.options, i, found, known)),
    decreases c.options.len() - i,
{
    if i < c.options.len() {
        if let ColumnOptionV::Default(id) = c.options[i] {
            assert(id < nodes.len());
            default_is_sound(nodes, id as int, known);
            if let Ok(v) = ddl::default_value(nodes, id as int, known) {
                defaults_are_sound(nodes, c, i + 1, Some(v), known);
            }
        } else {
            defaults_are_sound(nodes, c, i + 1, found, known);
        }
    }
}

proof fn options_are_sound(o: LocalityGroupOptions, pairs: Seq<Seq<char>>, i: int)
    requires
        0 <= i,
    ensures
        is_sound(ddl::options_set(o, pairs, i)),
    decreases pairs.len() - i,
{
    if i < pairs.len() {
        let kv = text::pieces(pairs[i], '=');
        if kv.len() == 2 {
            if let Ok(next) = ddl::option_set(o, text::trimmed(kv[0]), text::trimmed(kv[1])) {
                options_are_sound(next, pairs, i + 1);
            }
        } else {
            options_are_sound(o, pairs, i + 1);
        }
    }
}

proof fn group_is_sound(g: ddl::GroupsV, part: Seq<char>)
    ensures
        is_sound(ddl::group_added(g, part)),
{
    let pieces = text::pieces(text::trimmed(part), ':');
    if pieces.len() == 3 {
        let name = text::trimmed(pieces[0]);
        let pairs = text::pieces(pieces[2], ',');
        if let Some(i) = ddl::entry_from(g.options, name, 0) {
            options_are_sound(g.options[i].1, pairs, 0);
        }
        options_are_sound(schema::no_options(), pairs, 0);
    }
}

proof fn groups_are_sound(g: ddl::GroupsV, parts: Seq<Seq<char>>, i: int)
    requires
        0 <= i,
    ensures
        is_sound(ddl::groups_added(g, parts, i)),
    decreases parts.len() - i,
{
    if i < parts.len() {
        group_is_sound(g, parts[i]);
        if let Ok(next) = ddl::group_added(g, parts[i]) {
            groups_are_sound(next, parts, i + 1);
        }
    }
}

proof fn table_options_are_sound(nodes: Seq<SqlNodeV>, g: ddl::GroupsV, options: Seq<TableOptionV>, i: int)
    requires
        0 <= i,
    ensures
        is_sound(ddl::options_added(nodes, g, options, i)),
    decreases options.len() - i,
{
    if i < options.len() {
        match ddl::groups_text(nodes, options[i]) {
            None => table_options_are_sound(nodes, g, options, i + 1),
            Some(s) => {
                groups_are_sound(g, text::pieces(s, ';'), 0);
                if let Ok(next) = ddl::groups_added(g, text::pieces(s, ';'), 0) {
                    table_options_are_sound(nodes, next, options, i + 1);
                }
            },
        }
    }
}

proof fn schema_is_sound(s: StatementV, known: Seq<(QuestionV, AnswerV)>)
    requires
        parse::in_order(s),
        s.body is CreateTable,
    ensures
        s.body matches StatementBodyV::CreateTable { columns, constraints, options, .. } && is_sound(
            ddl::created_schema(s.exprs, columns, constraints, options, known),
        ),
{
    if let StatementBodyV::CreateTable { columns, constraints, options, .. } = s.body {
        let none = ddl::GroupsV { columns: Seq::empty(), options: Seq::empty() };
        table_options_are_sound(s.exprs, none, options, 0);
        if let Ok(g) = ddl::options_added(s.exprs, none, options, 0) {
            let rs = ddl::created_columns(s.exprs, columns, constraints, g, known);
            assert forall|j: int| 0 <= j < rs.len() implies is_sound(#[trigger] rs[j]) by {
                assert(parse::column_before(columns[j], s.exprs.len() as int));
                defaults_are_sound(s.exprs, columns[j], 0, None, known);
            }
            collected_is_sound(rs, 0, Seq::empty());
        }
    }
}

// ---------------------------------------------------------------- statements

proof fn index_table_is_sound(tables: Seq<(Seq<char>, SchemaV)>, name: Seq<char>, i: int)
    requires
        0 <= i,
    ensures
        is_sound(statement::index_table(tables, name, i)),
    decreases tables.len() - i,
{
    if i < tables.len() {
        index_table_is_sound(tables, name, i + 1);
    }
}

proof fn index_is_sound(nodes: Seq<SqlNodeV>, ids: Seq<usize>)
    requires
        parse::all_before(ids, nodes.len() as int),
    ensures
        is_sound(facts::collected(statement::index_columns(nodes, ids), 0, Seq::empty())),
{
    let rs = statement::index_columns(nodes, ids);
    assert forall|j: int| 0 <= j < rs.len() implies is_sound(#[trigger] rs[j]) by {
        assert(ids[j] < nodes.len());
    }
    collected_is_sound(rs, 0, Seq::empty());
}

proof fn rows_are_sound(nodes: Seq<SqlNodeV>, rows: Seq<ValuesRowV>, n: nat, known: Seq<(QuestionV, AnswerV)>)
    requires
        nodes_ordered(nodes),
        forall|i: int| 0 <= i < rows.len() ==> parse::all_before((#[trigger] rows[i]).exprs, nodes.len() as int),
    ensures
        is_sound(facts::collected(statement::inserted_rows(nodes, rows, n, known), 0, Seq::empty())),
{
    let rs = statement::inserted_rows(nodes, rows, n, known);
    assert forall|j: int| 0 <= j < rs.len() implies is_sound(#[trigger] rs[j]) by {
        let row = rows[j];
        assert(parse::all_before(row.exprs, nodes.len() as int));
        let vs = statement::inserted_values(nodes, row.exprs, known);
        assert forall|k: int| 0 <= k < vs.len() implies is_sound(#[trigger] vs[k]) by {
            assert(row.exprs[k] < nodes.len());
            planned_is_sound(nodes, row.exprs[k] as int, known);
        }
        collected_is_sound(vs, 0, Seq::empty());
    }
    collected_is_sound(rs, 0, Seq::empty());
}

proof fn insert_is_sound(tables: Seq<(Seq<char>, SchemaV)>, s: StatementV, known: Seq<(QuestionV, AnswerV)>)
    requires
        parse::in_order(s),
    ensures
        s.body matches StatementBodyV::Insert { table, columns, source } ==> is_sound(
            statement::planned_insert(tables, s.exprs, s.sets, table, columns, source, known),
        ),
{
    if let StatementBodyV::Insert { table, columns, source } = s.body {
        if let crate::syntax::InsertTableV::Name(name) = table {
            table_from_is_sound(tables, name, 0);
            let rs = statement::insert_names(columns);
            collected_is_sound(rs, 0, Seq::empty());
            if let Ok(t) = planner::table_named(tables, name) {
                if let (Ok(names), Some(q)) = (statement::insert_columns(columns, t), source) {
                    assert(parse::set_before(s.sets[q.body as int], s.exprs.len() as int, q.body as int));
                    if let SetNodeV::Values(rows) = s.sets[q.body as int] {
                        rows_are_sound(s.exprs, rows, names.len(), known);
                    } else {
                        query_is_sound(tables, s.exprs, s.sets, q, s.sets.len() as int, known);
                    }
                }
            }
        }
    }
}

proof fn filter_is_sound(nodes: Seq<SqlNodeV>, selection: Option<usize>, known: Seq<(QuestionV, AnswerV)>)
    requires
        nodes_ordered(nodes),
        parse::maybe_before(selection, nodes.len() as int),
    ensures
        is_sound(statement::planned_filter(nodes, selection, known)),
{
    if let Some(i) = selection {
        planned_is_sound(nodes, i as int, known);
    }
}

proof fn identifiers_are_sound(n: crate::syntax::ObjectNameV, i: int, acc: Seq<Seq<char>>)
    requires
        0 <= i,
    ensures
        is_sound(statement::identifiers(n, i, acc)),
    decreases n.parts.len() - i,
{
    if i < n.parts.len() {
        if let crate::syntax::NamePartV::Ident(s) = n.parts[i] {
            identifiers_are_sound(n, i + 1, acc.push(s));
        }
    }
}

proof fn assignments_are_sound(
    nodes: Seq<SqlNodeV>,
    assignments: Seq<crate::syntax::AssignmentV>,
    known: Seq<(QuestionV, AnswerV)>,
)
    requires
        nodes_ordered(nodes),
        forall|i: int| 0 <= i < assignments.len() ==> (#[trigger] assignments[i]).value < nodes.len(),
    ensures
        is_sound(facts::collected(statement::planned_assignments(nodes, assignments, known), 0, Seq::empty())),
{
    let rs = statement::planned_assignments(nodes, assignments, known);
    assert forall|j: int| 0 <= j < rs.len() implies is_sound(#[trigger] rs[j]) by {
        let a = assignments[j];
        assert(a.value < nodes.len());
        planned_is_sound(nodes, a.value as int, known);
        if let crate::syntax::AssignmentTargetV::Column(n) = a.target {
            identifiers_are_sound(n, 0, Seq::empty());
        }
    }
    collected_is_sound(rs, 0, Seq::empty());
}

/// A statement whose nodes are in order is planned, or refused for what it says: planning never
/// finds that it refers to parts it does not have.
pub proof fn planning_finds_all_parts(
    tables: Seq<(Seq<char>, SchemaV)>,
    s: StatementV,
    known: Seq<(QuestionV, AnswerV)>,
)
    requires
        parse::in_order(s),
    ensures
        is_sound(statement::planned_statement(tables, s, known)),
{
    assert(nodes_ordered(s.exprs));
    assert(sets_ordered(s.exprs, s.sets));
    match s.body {
        StatementBodyV::CreateTable { .. } => schema_is_sound(s, known),
        StatementBodyV::Drop { names, .. } => {
            if names.len() > 0 {
                index_table_is_sound(tables, names[0], 0);
            }
        },
        StatementBodyV::CreateIndex { columns, .. } => index_is_sound(s.exprs, columns),
        StatementBodyV::AlterTable { operations, .. } => {
            if operations.len() == 1 {
                if let crate::syntax::AlterOperationV::AddColumn(c) = operations[0] {
                    assert(parse::column_before(c, s.exprs.len() as int));
                    defaults_are_sound(s.exprs, c, 0, None, known);
                }
            }
        },
        StatementBodyV::Insert { .. } => insert_is_sound(tables, s, known),
        StatementBodyV::Delete { selection, .. } => filter_is_sound(s.exprs, selection, known),
        StatementBodyV::Update { assignments, selection, .. } => {
            assignments_are_sound(s.exprs, assignments, known);
            filter_is_sound(s.exprs, selection, known);
        },
        StatementBodyV::Query(q) => query_is_sound(tables, s.exprs, s.sets, q, s.sets.len() as int, known),
        _ => {},
    }
}

/// Binding the parameters of a statement keeps its nodes in order, and does not find that it
/// refers to parts it does not have.
pub proof fn binding_keeps_order(s: StatementV, ps: Map<Seq<char>, ValueV>, known: Seq<(QuestionV, AnswerV)>)
    requires
        parse::in_order(s),
    ensures
        is_sound(parameters::bound_statement(s, ps, known)),
        parameters::bound_statement(s, ps, known) matches Ok(b) ==> parse::in_order(b),
{
    if parameters::has_parameters(s.body) {
        let rs = parameters::bound_nodes(s.exprs, ps, known);
        assert forall|j: int| 0 <= j < rs.len() implies is_sound(#[trigger] rs[j]) by {}
        collected_is_sound(rs, 0, Seq::empty());
        parameters::binding_leaves_no_parameter(s, ps, known);
        if let Ok(b) = parameters::bound_statement(s, ps, known) {
            assert forall|i: int| 0 <= i < b.exprs.len() implies parse::node_before(#[trigger] b.exprs[i], i) by {
                assert(parse::node_before(s.exprs[i], i));
            }
        }
    }
}

} // verus!
