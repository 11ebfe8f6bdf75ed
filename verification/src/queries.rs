//! What the clauses of a query do to rows: the rows of a planned query, clause by clause.

use crate::binding;
use crate::expr::ExprV;
use crate::facts;
use crate::facts::{AnswerV, ErrorV, QuestionV};
use crate::grouping;
use crate::logical;
use crate::logical::{PlanV, SetOpType};
use crate::lowering;
use crate::planner;
use crate::pushdown;
use crate::relation;
use crate::relation::World;
use crate::scalar;
use crate::schema::SchemaV;
use crate::syntax::{GroupByV, JoinConstraint, JoinV, LimitClauseV, OrderItemV, QueryV, SelectItemV, SelectV, SetOperator, SqlNodeV, SqlValueV, TableFactorV};
use crate::text;
use crate::value::ValueV;
use vstd::prelude::*;

verus! {

/// What the node at a position is worth on the rows of a plan.
pub open spec fn node_input(
    nodes: Seq<SqlNodeV>,
    at: int,
    s: SchemaV,
    ps: Map<Seq<char>, ValueV>,
    known: Seq<(QuestionV, AnswerV)>,
    w: World,
) -> spec_fn(Seq<ValueV>) -> Result<ValueV, ErrorV> {
    relation::input(scalar::planned(nodes, at, known)->Ok_0, s, ps, w.known)
}

// ---------------------------------------------------------------- FROM

/// FROM reads all rows of its table, under the names of the table's columns behind its alias, or
/// behind its own name where it has none.
pub proof fn from_reads_the_table(
    tables: Seq<(Seq<char>, SchemaV)>,
    factor: TableFactorV,
    ps: Map<Seq<char>, ValueV>,
    w: World,
)
    ensures
        planner::scan_of(tables, factor) matches Ok(p) ==> match factor {
            TableFactorV::Table { name, alias } => {
                &&& relation::rows(p, ps, w) == (w.table)(name)
                &&& match planner::table_named(tables, name) {
                    Ok(s) => {
                        let cols = logical::plan_schema(p).columns;
                        &&& cols.len() == s.columns.len()
                        &&& forall|i: int|
                            0 <= i < cols.len() ==> (#[trigger] cols[i]).name == (match alias {
                                Some(a) => a,
                                None => name,
                            }) + seq!['.'] + s.columns[i].name
                    },
                    Err(_) => false,
                }
            },
            TableFactorV::Other(_) => false,
        },
{
    if let (Ok(p), TableFactorV::Table { name, alias }) = (planner::scan_of(tables, factor), factor) {
        let schema = logical::plan_schema(p);
        let t = |row: Seq<ValueV>| relation::is_read(None, None, relation::table_key(schema, row));
        everything_passes((w.table)(name), t);
        assert(relation::rows(p, ps, w) == pushdown::passing((w.table)(name), t));
        let s = planner::table_named(tables, name)->Ok_0;
        assert forall|i: int| 0 <= i < schema.columns.len() implies (#[trigger] schema.columns[i]).name == (match alias {
            Some(a) => a,
            None => name,
        }) + seq!['.'] + s.columns[i].name by {
            let q = match alias {
                Some(a) => a,
                None => name,
            };
            assert(q.push('.') =~= q + seq!['.']);
        }
    }
}

proof fn everything_passes(rows: Seq<Seq<ValueV>>, test: spec_fn(Seq<ValueV>) -> bool)
    requires
        forall|x: Seq<ValueV>| #[trigger] test(x),
    ensures
        pushdown::passing(rows, test) == rows,
    decreases rows.len(),
{
    if rows.len() > 0 {
        everything_passes(rows.drop_first(), test);
        assert(test(rows[0]));
        assert(pushdown::passing(rows, test) =~= rows);
    }
}

/// What a join puts together, as it is written: the rows of which its condition is true, or all
/// where it has none.
pub open spec fn written_on(
    nodes: Seq<SqlNodeV>,
    j: JoinV,
    ls: SchemaV,
    rs: SchemaV,
    ps: Map<Seq<char>, ValueV>,
    known: Seq<(QuestionV, AnswerV)>,
    w: World,
) -> spec_fn(Seq<ValueV>, Seq<ValueV>) -> bool {
    |l: Seq<ValueV>, r: Seq<ValueV>|
        l.len() == ls.columns.len() && r.len() == rs.columns.len() && (j.constraint matches JoinConstraint::On(i)
            ==> j.kind is CrossJoin || relation::is_true(
            node_input(nodes, i as int, pushdown::joined(ls, rs), ps, known, w)(l + r),
        ))
}

/// One more join at the end puts the rows of what stands before it together with those of its table
/// by its condition; a LEFT JOIN keeps the rows of the left side that no row of the right side
/// belongs to, with nulls in place of it.
pub proof fn joins_put_rows_together(
    tables: Seq<(Seq<char>, SchemaV)>,
    nodes: Seq<SqlNodeV>,
    first: PlanV,
    joins: Seq<JoinV>,
    j: JoinV,
    known: Seq<(QuestionV, AnswerV)>,
    ps: Map<Seq<char>, ValueV>,
    w: World,
)
    ensures
        planner::joined(tables, nodes, first, joins.push(j), 0, known) matches Ok(q) ==> match (
            planner::joined(tables, nodes, first, joins, 0, known),
            planner::scan_of(tables, j.relation),
        ) {
            (Ok(p), Ok(right)) => {
                let ls = logical::plan_schema(p);
                let rs = logical::plan_schema(right);
                &&& relation::rows(q, ps, w) == (w.joined)(
                    relation::rows(p, ps, w),
                    relation::rows(right, ps, w),
                    written_on(nodes, j, ls, rs, ps, known, w),
                    if j.kind is Left || j.kind is LeftOuter {
                        Some(relation::nulls(rs.columns.len()))
                    } else {
                        None
                    },
                )
                &&& logical::plan_schema(q) == pushdown::joined(ls, rs)
            },
            _ => false,
        },
{
    one_more_join(tables, nodes, first, joins, j, 0, known);
    if let Ok(q) = planner::joined(tables, nodes, first, joins.push(j), 0, known) {
        let p = planner::joined(tables, nodes, first, joins, 0, known)->Ok_0;
        let right = planner::scan_of(tables, j.relation)->Ok_0;
        let ls = logical::plan_schema(p);
        let rs = logical::plan_schema(right);
        let c = planner::join_condition(nodes, j, known)->Ok_0;
        let f = relation::matching(c.0, c.1, ls, rs, ps, w.known);
        let g = written_on(nodes, j, ls, rs, ps, known, w);
        assert forall|x: Seq<ValueV>, y: Seq<ValueV>| #[trigger] f(x, y) == g(x, y) by {}
        assert(f =~= g);
    }
}

proof fn one_more_join(
    tables: Seq<(Seq<char>, SchemaV)>,
    nodes: Seq<SqlNodeV>,
    plan: PlanV,
    joins: Seq<JoinV>,
    j: JoinV,
    i: int,
    known: Seq<(QuestionV, AnswerV)>,
)
    requires
        0 <= i <= joins.len(),
    ensures
        planner::joined(tables, nodes, plan, joins.push(j), i, known) == (match planner::joined(
            tables,
            nodes,
            plan,
            joins,
            i,
            known,
        ) {
            Err(e) => Err(e),
            Ok(p) => match planner::scan_of(tables, j.relation) {
                Err(e) => Err(e),
                Ok(right) => match planner::join_condition(nodes, j, known) {
                    Err(e) => Err(e),
                    Ok(c) => Ok(logical::join_of(p, right, c.0, c.1)),
                },
            },
        }),
    decreases joins.len() - i,
{
    reveal_with_fuel(planner::joined, 2);
    if i < joins.len() {
        assert(joins.push(j)[i] == joins[i]);
        if let (Ok(right), Ok(c)) = (
            planner::scan_of(tables, joins[i].relation),
            planner::join_condition(nodes, joins[i], known),
        ) {
            one_more_join(tables, nodes, logical::join_of(plan, right, c.0, c.1), joins, j, i + 1, known);
        }
    } else {
        assert(joins.push(j)[i] == j);
    }
}

// ---------------------------------------------------------------- WHERE

/// WHERE keeps the rows of which its condition is true, in their order, and no others; without it
/// all rows stay.
pub proof fn where_keeps_the_rows_that_pass(
    tables: Seq<(Seq<char>, SchemaV)>,
    nodes: Seq<SqlNodeV>,
    select: SelectV,
    known: Seq<(QuestionV, AnswerV)>,
    ps: Map<Seq<char>, ValueV>,
    w: World,
)
    ensures
        planner::source_of(tables, nodes, select, known) matches Ok(q) ==> match planner::source_of(
            tables,
            nodes,
            SelectV { selection: None, ..select },
            known,
        ) {
            Ok(p) => {
                &&& logical::plan_schema(q) == logical::plan_schema(p)
                &&& match select.selection {
                    Some(i) => relation::rows(q, ps, w) == pushdown::passing(
                        relation::rows(p, ps, w),
                        relation::test(node_input(nodes, i as int, logical::plan_schema(p), ps, known, w)),
                    ),
                    None => relation::rows(q, ps, w) == relation::rows(p, ps, w),
                }
            },
            Err(_) => false,
        },
{
}

// ---------------------------------------------------------------- ORDER BY and LIMIT

/// ORDER BY sorts by the values of its expressions, from the first on, each from the least value
/// to the greatest unless it says DESC.
pub proof fn order_by_sorts(
    nodes: Seq<SqlNodeV>,
    p: PlanV,
    order: Seq<OrderItemV>,
    known: Seq<(QuestionV, AnswerV)>,
    ps: Map<Seq<char>, ValueV>,
    w: World,
)
    ensures
        planner::sorted(nodes, p, order, known) matches Ok(q) ==> {
            &&& logical::plan_schema(q) == logical::plan_schema(p)
            &&& order.len() == 0 ==> relation::rows(q, ps, w) == relation::rows(p, ps, w)
            &&& order.len() > 0 ==> relation::rows(q, ps, w) == (w.sorted)(
                relation::rows(p, ps, w),
                Seq::new(
                    order.len(),
                    |k: int|
                        (
                            node_input(nodes, order[k].expr as int, logical::plan_schema(p), ps, known, w),
                            order[k].asc != Some(false),
                        ),
                ),
            )
        },
{
    if let Ok(q) = planner::sorted(nodes, p, order, known) {
        if order.len() > 0 {
            let outs = planner::planned_keys(nodes, order, known);
            let keys = facts::collected(outs, 0, Seq::empty())->Ok_0;
            binding::collected_values(outs, 0, Seq::empty(), keys);
            let s = logical::plan_schema(p);
            let a = relation::sort_inputs(keys, s, ps, w.known);
            let b = Seq::new(
                order.len(),
                |k: int| (node_input(nodes, order[k].expr as int, s, ps, known, w), order[k].asc != Some(false)),
            );
            assert forall|k: int| 0 <= k < a.len() implies #[trigger] a[k] == b[k] by {
                assert(outs[k] == Ok::<(ExprV, bool), ErrorV>(keys[k]));
                assert(scalar::planned(nodes, order[k].expr as int, known) == Ok::<ExprV, ErrorV>(keys[k].0));
            }
            assert(a =~= b);
        }
    }
}

/// The number that a literal stands for.
pub open spec fn number_of(node: SqlNodeV) -> Option<int> {
    match node {
        SqlNodeV::Value(SqlValueV::Number(t)) => text::nat_value(t),
        _ => None,
    }
}

proof fn digits_are_natural(t: Seq<char>)
    requires
        text::all_digits(t),
    ensures
        text::digits_value(t) >= 0,
    decreases t.len(),
{
    if t.len() > 0 {
        assert(text::all_digits(t.drop_last()));
        digits_are_natural(t.drop_last());
    }
}

/// A number without a sign is not negative.
proof fn numbers_are_natural(node: SqlNodeV)
    ensures
        number_of(node) matches Some(n) ==> n >= 0,
{
    if let SqlNodeV::Value(SqlValueV::Number(t)) = node {
        let digits = if t.len() > 0 && t[0] == '+' {
            t.skip(1)
        } else {
            t
        };
        if text::all_digits(digits) {
            digits_are_natural(digits);
        }
    }
}

/// LIMIT n OFFSET m leaves out the first m rows, and gives n of those that follow, or all where
/// there are fewer; without OFFSET none is left out, and without LIMIT all that follow are given.
pub proof fn limit_and_offset_cut(
    nodes: Seq<SqlNodeV>,
    p: PlanV,
    clause: LimitClauseV,
    ps: Map<Seq<char>, ValueV>,
    w: World,
    row: int,
)
    requires
        forall|rows: Seq<Seq<ValueV>>, l: Option<usize>, o: usize| #[trigger]
            (w.limited)(rows, l, o) == lowering::cut(rows, l, o),
    ensures
        planner::limited(nodes, p, clause) matches Ok(q) ==> {
            let all = relation::rows(p, ps, w);
            let some = relation::rows(q, ps, w);
            &&& logical::plan_schema(q) == logical::plan_schema(p)
            &&& match clause {
                LimitClauseV::Absent => some == all,
                LimitClauseV::LimitOffset { limit, offset } => {
                    let n = match limit {
                        Some(i) => number_of(nodes[i as int]),
                        None => Some(all.len() as int),
                    };
                    let m = match offset {
                        Some(i) => number_of(nodes[i as int]),
                        None => Some(0int),
                    };
                    &&& n is Some && m is Some
                    &&& some.len() == (if all.len() <= m->0 {
                        0
                    } else if all.len() - m->0 <= n->0 {
                        all.len() - m->0
                    } else {
                        n->0
                    })
                    &&& 0 <= row < some.len() ==> some[row] == all[m->0 + row]
                },
            }
        },
{
    if let Ok(q) = planner::limited(nodes, p, clause) {
        let all = relation::rows(p, ps, w);
        let some = relation::rows(q, ps, w);
        let l = planner::limits_of(nodes, clause)->Ok_0;
        if let LimitClauseV::LimitOffset { limit, offset } = clause {
            if let Some(i) = limit {
                numbers_are_natural(nodes[i as int]);
            }
            if let Some(i) = offset {
                numbers_are_natural(nodes[i as int]);
            }
        }
        assert(some =~= lowering::cut(all, l.0, l.1));
    }
}

// ---------------------------------------------------------------- SELECT

/// Whether a SELECT list says what its columns are, one by one.
pub open spec fn is_itemized(items: Seq<SelectItemV>) -> bool {
    forall|i: int| 0 <= i < items.len() ==> (#[trigger] items[i] is Unnamed || items[i] is Aliased)
}

/// The node that an item of a SELECT list stands for.
pub open spec fn item_node(item: SelectItemV) -> int {
    match item {
        SelectItemV::Unnamed { expr, .. } => expr as int,
        SelectItemV::Aliased { expr, .. } => expr as int,
        _ => -1,
    }
}

proof fn itemized_columns(
    nodes: Seq<SqlNodeV>,
    items: Seq<SelectItemV>,
    i: int,
    cols: Seq<crate::schema::ColumnV>,
    p: planner::ProjectionV,
    known: Seq<(QuestionV, AnswerV)>,
)
    requires
        is_itemized(items),
        0 <= i <= items.len(),
        p.expressions.len() == i,
        p.names.len() == i,
    ensures
        planner::projected(nodes, items, i, cols, p, known) matches Ok(q) ==> {
            &&& q.expressions.len() == items.len()
            &&& q.names.len() == items.len()
            &&& forall|k: int| 0 <= k < i ==> q.expressions[k] == p.expressions[k] && q.names[k] == p.names[k]
            &&& forall|k: int|
                i <= k < items.len() ==> scalar::planned(nodes, item_node(#[trigger] items[k]), known) == Ok::<
                    ExprV,
                    ErrorV,
                >(q.expressions[k])
            &&& forall|k: int|
                i <= k < items.len() ==> (#[trigger] items[k] matches SelectItemV::Aliased { alias, .. } ==> q.names[k]
                    == alias)
        },
    decreases items.len() - i,
{
    if i < items.len() {
        assert(items[i] is Unnamed || items[i] is Aliased);
        if let Ok(x) = scalar::planned(nodes, item_node(items[i]), known) {
            let name = match items[i] {
                SelectItemV::Unnamed { text, .. } => planner::item_name(x, text),
                SelectItemV::Aliased { alias, .. } => alias,
                _ => Seq::empty(),
            };
            let next = planner::with_item(p, x, name);
            itemized_columns(nodes, items, i + 1, cols, next, known);
            if let Ok(q) = planner::projected(nodes, items, i, cols, p, known) {
                assert(q.expressions[i] == next.expressions[i]);
                assert(q.names[i] == next.names[i]);
                assert forall|k: int| 0 <= k < i implies q.expressions[k] == p.expressions[k] && q.names[k]
                    == p.names[k] by {
                    assert(next.expressions[k] == p.expressions[k]);
                    assert(next.names[k] == p.names[k]);
                }
            }
        }
    }
}

/// A SELECT list gives a row for each row, with the value of each of its items in its place, and
/// the name of each item that has one.
pub proof fn select_gives_its_items(
    nodes: Seq<SqlNodeV>,
    p: PlanV,
    items: Seq<SelectItemV>,
    known: Seq<(QuestionV, AnswerV)>,
    ps: Map<Seq<char>, ValueV>,
    w: World,
    r: int,
    k: int,
)
    requires
        is_itemized(items),
        0 <= r < relation::rows(p, ps, w).len(),
        0 <= k < items.len(),
    ensures
        planner::projection_to(nodes, p, items, known) matches Ok(q) ==> {
            let all = relation::rows(q, ps, w);
            &&& all.len() == relation::rows(p, ps, w).len()
            &&& all[r].len() == items.len()
            &&& all[r][k] == relation::cell(
                node_input(nodes, item_node(items[k]), logical::plan_schema(p), ps, known, w)(
                    relation::rows(p, ps, w)[r],
                ),
            )
            &&& logical::plan_schema(q).columns.len() == items.len()
            &&& items[k] matches SelectItemV::Aliased { alias, .. } ==> logical::plan_schema(q).columns[k].name == alias
        },
{
    let none = planner::ProjectionV { expressions: Seq::empty(), names: Seq::empty() };
    let s = logical::plan_schema(p);
    itemized_columns(nodes, items, 0, s.columns, none, known);
    if let Ok(q) = planner::projection_to(nodes, p, items, known) {
        let pr = planner::projected(nodes, items, 0, s.columns, none, known)->Ok_0;
        assert(scalar::planned(nodes, item_node(items[k]), known) == Ok::<ExprV, ErrorV>(pr.expressions[k]));
        let fs = relation::inputs(pr.expressions, s, ps, w.known);
        assert(fs[k] == relation::input(pr.expressions[k], s, ps, w.known));
    }
}

/// SELECT * gives all columns of what it selects from, under their names and in their order.
pub proof fn wildcard_gives_all_columns(
    nodes: Seq<SqlNodeV>,
    p: PlanV,
    known: Seq<(QuestionV, AnswerV)>,
)
    ensures
        match planner::projection_to(nodes, p, seq![SelectItemV::Wildcard], known) {
            Ok(PlanV::Projection { source, expressions, field_names, .. }) => {
                let cols = logical::plan_schema(p).columns;
                &&& *source == p
                &&& expressions.len() == cols.len() && field_names.len() == cols.len()
                &&& forall|k: int|
                    0 <= k < cols.len() ==> expressions[k] == ExprV::Column((#[trigger] cols[k]).name, None)
                        && field_names[k] == cols[k].name
            },
            _ => false,
        },
{
    reveal_with_fuel(planner::projected, 2);
    let items = seq![SelectItemV::Wildcard];
    let cols = logical::plan_schema(p).columns;
    let none = planner::ProjectionV { expressions: Seq::empty(), names: Seq::empty() };
    let all = planner::with_columns(none, cols);
    assert(items[0] is Wildcard);
    assert(planner::projected(nodes, items, 0, cols, none, known) == Ok::<planner::ProjectionV, ErrorV>(all));
    assert(all.expressions.len() == cols.len());
}

/// DISTINCT gives each row once: the rows of the query without it, those that are equal only once.
pub proof fn distinct_gives_each_row_once(
    tables: Seq<(Seq<char>, SchemaV)>,
    nodes: Seq<SqlNodeV>,
    select: SelectV,
    q: QueryV,
    known: Seq<(QuestionV, AnswerV)>,
    ps: Map<Seq<char>, ValueV>,
    w: World,
)
    requires
        q.limit is Absent,
    ensures
        match (
            planner::planned_select_query(tables, nodes, SelectV { distinct: true, ..select }, q, known),
            planner::planned_select_query(tables, nodes, SelectV { distinct: false, ..select }, q, known),
        ) {
            (Ok(once), Ok(all)) => relation::rows(once, ps, w) == (w.distinct)(relation::rows(all, ps, w)),
            (Err(a), Err(b)) => a == b,
            _ => false,
        },
{
    reveal(planner::planned_select_query);
    reveal(planner::planned_select);
}

/// A SELECT without groups sorts the rows that it selects from and gives its items of them, in the
/// same order.
pub proof fn plain_selects_keep_the_order(
    tables: Seq<(Seq<char>, SchemaV)>,
    nodes: Seq<SqlNodeV>,
    select: SelectV,
    order: Seq<OrderItemV>,
    known: Seq<(QuestionV, AnswerV)>,
)
    requires
        select.having is None,
        select.group_by matches GroupByV::Expressions { exprs, .. } && exprs.len() == 0,
        !grouping::items_call_aggregate(nodes, select.projection),
    ensures
        planner::planned_select(tables, nodes, select, order, known) matches Ok(q) ==> match planner::source_of(
            tables,
            nodes,
            select,
            known,
        ) {
            Ok(source) => match planner::sorted(nodes, source, order, known) {
                Ok(sorted) => planner::projection_to(nodes, sorted, select.projection, known) == Ok::<PlanV, ErrorV>(q),
                Err(_) => false,
            },
            Err(_) => false,
        },
{
    reveal(planner::planned_select);
}

// ---------------------------------------------------------------- groups

/// GROUP BY and HAVING: the groups by the values of the grouping expressions, of these the ones of
/// which the condition on the groups is true, and of each the items.
pub proof fn groups_are_tested_and_projected(
    nodes: Seq<SqlNodeV>,
    p: PlanV,
    select: SelectV,
    ids: Seq<usize>,
    known: Seq<(QuestionV, AnswerV)>,
    ps: Map<Seq<char>, ValueV>,
    w: World,
)
    ensures
        planner::aggregated(nodes, p, select, ids, known) matches Ok(q) ==> exists|
            groups: Seq<ExprV>,
            st: grouping::RewritingV,
        |
            {
                let s = logical::plan_schema(p);
                let grouped = #[trigger] logical::aggregate_of(p, groups, st.aggrs, st.names);
                let inputs = Seq::new(ids.len(), |k: int| node_input(nodes, ids[k] as int, s, ps, known, w));
                &&& relation::rows(grouped, ps, w) == (w.grouped)(
                    relation::rows(p, ps, w),
                    inputs,
                    relation::measures(st.aggrs, s, ps, w.known),
                )
                &&& match select.having {
                    Some(i) => {
                        let kept = PlanV::Filter {
                            source: Box::new(grouped),
                            predicate: scalar::planned(st.nodes, i as int, known)->Ok_0,
                        };
                        &&& relation::rows(kept, ps, w) == pushdown::passing(
                            relation::rows(grouped, ps, w),
                            relation::test(node_input(st.nodes, i as int, logical::plan_schema(grouped), ps, known, w)),
                        )
                        &&& planner::projection_to(st.nodes, kept, select.projection, known) == Ok::<PlanV, ErrorV>(q)
                    },
                    None => planner::projection_to(st.nodes, grouped, select.projection, known) == Ok::<PlanV, ErrorV>(q),
                }
            },
{
    if let Ok(q) = planner::aggregated(nodes, p, select, ids, known) {
        let outs = planner::planned_each(nodes, ids, known);
        let groups = facts::collected(outs, 0, Seq::empty())->Ok_0;
        binding::collected_values(outs, 0, Seq::empty(), groups);
        let start = grouping::RewritingV { nodes, aggrs: Seq::empty(), names: planner::group_names(groups) };
        let st = planner::rewritten_select(start, select, known)->Ok_0;
        let s = logical::plan_schema(p);
        let a = relation::inputs(groups, s, ps, w.known);
        let b = Seq::new(ids.len(), |k: int| node_input(nodes, ids[k] as int, s, ps, known, w));
        assert forall|k: int| 0 <= k < a.len() implies #[trigger] a[k] == b[k] by {
            assert(outs[k] == Ok::<ExprV, ErrorV>(groups[k]));
            assert(scalar::planned(nodes, ids[k] as int, known) == Ok::<ExprV, ErrorV>(groups[k]));
        }
        assert(a =~= b);
        let grouped = logical::aggregate_of(p, groups, st.aggrs, st.names);
        assert(relation::rows(grouped, ps, w) == (w.grouped)(
            relation::rows(p, ps, w),
            b,
            relation::measures(st.aggrs, s, ps, w.known),
        ));
    }
}

// ---------------------------------------------------------------- set operations

/// Whether set operations do with rows what they are for.
pub open spec fn combines_fairly(w: World) -> bool {
    forall|a: Seq<Seq<ValueV>>, b: Seq<Seq<ValueV>>, op: SetOpType, all: bool, x: Seq<ValueV>|
        (#[trigger] (w.combined)(a, b, op, all).contains(x)) == match op {
            SetOpType::Union => a.contains(x) || b.contains(x),
            SetOpType::Intersect => a.contains(x) && b.contains(x),
            SetOpType::Except => if all {
                a.to_multiset().count(x) > b.to_multiset().count(x)
            } else {
                a.contains(x) && !b.contains(x)
            },
        }
}

/// UNION gives the rows of both queries, INTERSECT those that both have, EXCEPT and MINUS those of
/// the first that the second does not have.
pub proof fn set_operators_combine_rows(
    l: PlanV,
    r: PlanV,
    op: SetOperator,
    ps: Map<Seq<char>, ValueV>,
    w: World,
    x: Seq<ValueV>,
)
    requires
        combines_fairly(w),
    ensures
        planner::combined(l, r, op, false) matches Ok(q) ==> {
            let a = relation::rows(l, ps, w).contains(x);
            let b = relation::rows(r, ps, w).contains(x);
            relation::rows(q, ps, w).contains(x) == match op {
                SetOperator::Union => a || b,
                SetOperator::Intersect => a && b,
                SetOperator::Except => a && !b,
                SetOperator::Minus => a && !b,
            }
        },
        planner::combined(l, r, op, true) matches Ok(q) ==> {
            let a = relation::rows(l, ps, w);
            let b = relation::rows(r, ps, w);
            relation::rows(q, ps, w).contains(x) == match op {
                SetOperator::Union => a.contains(x) || b.contains(x),
                SetOperator::Intersect => a.contains(x) && b.contains(x),
                SetOperator::Except => a.to_multiset().count(x) > b.to_multiset().count(x),
                SetOperator::Minus => a.to_multiset().count(x) > b.to_multiset().count(x),
            }
        },
        planner::combined(l, r, op, false) is Ok ==> logical::plan_schema(l).columns.len() == logical::plan_schema(
            r,
        ).columns.len(),
{
}

/// LIMIT and OFFSET come last: a query with them gives a cut of what it gives without them.
pub proof fn limits_come_last(
    tables: Seq<(Seq<char>, SchemaV)>,
    nodes: Seq<SqlNodeV>,
    select: SelectV,
    q: QueryV,
    known: Seq<(QuestionV, AnswerV)>,
)
    ensures
        planner::planned_select_query(tables, nodes, select, q, known) matches Ok(some) ==> match planner::planned_select_query(
            tables,
            nodes,
            select,
            QueryV { limit: LimitClauseV::Absent, ..q },
            known,
        ) {
            Ok(all) => planner::limited(nodes, all, q.limit) == Ok::<PlanV, ErrorV>(some),
            Err(_) => false,
        },
{
    reveal(planner::planned_select_query);
}

} // verus!
