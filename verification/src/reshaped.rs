//! Why optimizing keeps the rows of a query: each rewriting of a plan gives the same rows, each as
//! often.

use crate::bags;
use crate::expr;
use crate::expr::ExprV;
use crate::facts::{AnswerV, ErrorV, QuestionV};
use crate::kept;
use crate::logical;
use crate::logical::{AggregateV, JoinType, PlanV, SetOpType};
use crate::lowering;
use crate::merge;
use crate::optimizer;
use crate::optimizer::Optimizer;
use crate::pushdown;
use crate::ranges;
use crate::relation;
use crate::relation::{Measure, World};
use crate::schema::SchemaV;
use crate::value::ValueV;
use vstd::prelude::*;

verus! {

// ---------------------------------------------------------------- worlds that are as they should be

/// Whether joining, sorting and the rest do with rows what they are for, in whatever order the rows
/// come out: a join gives the rows that belong together, and one that keeps its left side loses
/// none of it; a sort gives the rows it gets; DISTINCT gives each row once; what a limit, a grouping
/// and a set operation give depends on the rows and not on their order; and an index has the rows
/// of its table.
pub open spec fn is_fair(w: World) -> bool {
    &&& joins_fairly(w)
    &&& forall|a: Seq<Seq<ValueV>>, keys: Seq<(spec_fn(Seq<ValueV>) -> Result<ValueV, ErrorV>, bool)>|
        bags::same(#[trigger] (w.sorted)(a, keys), a)
    &&& forall|a: Seq<Seq<ValueV>>, b: Seq<Seq<ValueV>>, l: Option<usize>, o: usize|
        bags::same(a, b) ==> bags::same(#[trigger] (w.limited)(a, l, o), #[trigger] (w.limited)(b, l, o))
    &&& forall|a: Seq<Seq<ValueV>>, l: Option<usize>, o: usize, x: Seq<ValueV>| #[trigger]
        (w.limited)(a, l, o).contains(x) ==> a.contains(x)
    &&& groups_fairly(w)
    &&& forall|
        a: Seq<Seq<ValueV>>,
        b: Seq<Seq<ValueV>>,
        c: Seq<Seq<ValueV>>,
        d: Seq<Seq<ValueV>>,
        op: SetOpType,
        all: bool,
    |
        bags::same(a, b) && bags::same(c, d) ==> bags::same(
            #[trigger] (w.combined)(a, c, op, all),
            #[trigger] (w.combined)(b, d, op, all),
        )
    &&& forall|a: Seq<Seq<ValueV>>, b: Seq<Seq<ValueV>>, op: SetOpType, all: bool, x: Seq<ValueV>| #[trigger]
        (w.combined)(a, b, op, all).contains(x) ==> a.contains(x) || b.contains(x)
    &&& forall|a: Seq<Seq<ValueV>>, x: Seq<ValueV>|
        (#[trigger] (w.distinct)(a).to_multiset().count(x)) == if a.contains(x) {
            1nat
        } else {
            0nat
        }
    &&& forall|t: Seq<char>, i: Seq<char>| bags::same(#[trigger] (w.index)(t, i), (w.table)(t))
}

/// Whether joins give the rows that belong together.
pub open spec fn joins_fairly(w: World) -> bool {
    forall|
        l: Seq<Seq<ValueV>>,
        r: Seq<Seq<ValueV>>,
        on: spec_fn(Seq<ValueV>, Seq<ValueV>) -> bool,
        n: Option<Seq<ValueV>>,
    |
        bags::same(#[trigger] (w.joined)(l, r, on, n), bags::joined(l, r, on, n))
}

/// Whether groups depend on the rows and not on their order, and have a value for each input.
pub open spec fn groups_fairly(w: World) -> bool {
    &&& forall|
        a: Seq<Seq<ValueV>>,
        b: Seq<Seq<ValueV>>,
        g: Seq<spec_fn(Seq<ValueV>) -> Result<ValueV, ErrorV>>,
        m: Seq<Measure>,
    |
        bags::same(a, b) ==> bags::same(#[trigger] (w.grouped)(a, g, m), #[trigger] (w.grouped)(b, g, m))
    &&& forall|
        a: Seq<Seq<ValueV>>,
        g: Seq<spec_fn(Seq<ValueV>) -> Result<ValueV, ErrorV>>,
        m: Seq<Measure>,
        x: Seq<ValueV>,
    | #[trigger]
        (w.grouped)(a, g, m).contains(x) ==> x.len() == g.len() + m.len()
}

/// Whether the tables that a plan reads have rows of their schemas, and set operations have sides
/// of equal width.
pub open spec fn fits(p: PlanV, w: World) -> bool
    decreases p,
{
    match p {
        PlanV::Scan { table_name, schema, .. } => pushdown::rows_of_schema((w.table)(table_name), schema),
        PlanV::IndexScan { table_name, schema, .. } => pushdown::rows_of_schema((w.table)(table_name), schema),
        PlanV::FullTextScan { table_name, index_name, schema, query } => pushdown::rows_of_schema(
            (w.search)(table_name, index_name, query),
            schema,
        ),
        PlanV::Filter { source, .. } => fits(*source, w),
        PlanV::Limit { source, .. } => fits(*source, w),
        PlanV::Distinct { source } => fits(*source, w),
        PlanV::Sort { source, .. } => fits(*source, w),
        PlanV::Projection { source, expressions, field_names, .. } => fits(*source, w) && expressions.len()
            <= field_names.len(),
        PlanV::Join { left, right, .. } => fits(*left, w) && fits(*right, w),
        PlanV::Aggregate { source, .. } => fits(*source, w),
        PlanV::SetOp { left, right, .. } => fits(*left, w) && fits(*right, w) && logical::plan_schema(
            *left,
        ).columns.len() == logical::plan_schema(*right).columns.len(),
    }
}

/// Whether rows have a width.
pub open spec fn are_wide(rows: Seq<Seq<ValueV>>, n: nat) -> bool {
    forall|x: Seq<ValueV>| #[trigger] rows.contains(x) ==> x.len() == n
}

proof fn wide_rows(rows: Seq<Seq<ValueV>>, s: SchemaV)
    ensures
        are_wide(rows, s.columns.len()) == pushdown::rows_of_schema(rows, s),
{
    if are_wide(rows, s.columns.len()) {
        assert forall|i: int| 0 <= i < rows.len() implies (#[trigger] rows[i]).len() == s.columns.len() by {
            assert(rows.contains(rows[i]));
        }
    }
}

/// The rows of a plan have a value for each of its columns.
pub proof fn rows_have_the_columns(p: PlanV, ps: Map<Seq<char>, ValueV>, w: World)
    requires
        is_fair(w),
        lowering::is_built(p),
        fits(p, w),
    ensures
        are_wide(relation::rows(p, ps, w), logical::plan_schema(p).columns.len()),
    decreases p,
{
    let n = logical::plan_schema(p).columns.len();
    let all = relation::rows(p, ps, w);
    match p {
        PlanV::Scan { table_name, schema, range } => {
            let b = relation::table_bounds(schema, range, ps);
            let t = |row: Seq<ValueV>| relation::is_read(b.0, b.1, relation::table_key(schema, row));
            wide_rows((w.table)(table_name), schema);
            assert forall|x: Seq<ValueV>| #[trigger] all.contains(x) implies x.len() == n by {
                bags::passing_contains((w.table)(table_name), t, x);
            }
        },
        PlanV::IndexScan { table_name, index_name, schema, range } => {
            let b = relation::index_bounds(schema, index_name, range, ps);
            let t = |row: Seq<ValueV>| relation::is_read(b.0, b.1, relation::index_key(schema, index_name, row));
            wide_rows((w.table)(table_name), schema);
            assert forall|x: Seq<ValueV>| #[trigger] all.contains(x) implies x.len() == n by {
                bags::passing_contains((w.index)(table_name, index_name), t, x);
                bags::same_contains((w.index)(table_name, index_name), (w.table)(table_name), x);
            }
        },
        PlanV::FullTextScan { schema, .. } => wide_rows(all, schema),
        PlanV::Filter { source, predicate } => {
            rows_have_the_columns(*source, ps, w);
            let t = relation::test(relation::input(predicate, logical::plan_schema(*source), ps, w.known));
            assert forall|x: Seq<ValueV>| #[trigger] all.contains(x) implies x.len() == n by {
                bags::passing_contains(relation::rows(*source, ps, w), t, x);
            }
        },
        PlanV::Limit { source, .. } => rows_have_the_columns(*source, ps, w),
        PlanV::Distinct { source } => {
            rows_have_the_columns(*source, ps, w);
            assert forall|x: Seq<ValueV>| #[trigger] all.contains(x) implies x.len() == n by {
                all.to_multiset_ensures();
                assert(all.to_multiset().count(x) > 0);
            }
        },
        PlanV::Sort { source, keys } => {
            rows_have_the_columns(*source, ps, w);
            assert forall|x: Seq<ValueV>| #[trigger] all.contains(x) implies x.len() == n by {
                bags::same_contains(all, relation::rows(*source, ps, w), x);
            }
        },
        PlanV::Projection { source, expressions, .. } => {
            assert forall|x: Seq<ValueV>| #[trigger] all.contains(x) implies x.len() == n by {
                let k = choose|k: int| 0 <= k < all.len() && all[k] == x;
                assert(all[k].len() == expressions.len());
            }
        },
        PlanV::Aggregate { .. } => {},
        PlanV::Join { left, right, condition, join_type, .. } => {
            rows_have_the_columns(*left, ps, w);
            rows_have_the_columns(*right, ps, w);
            let ls = logical::plan_schema(*left);
            let rs = logical::plan_schema(*right);
            let on = relation::matching(condition, join_type, ls, rs, ps, w.known);
            let f = relation::filler(join_type, rs);
            let a = relation::rows(*left, ps, w);
            let b = relation::rows(*right, ps, w);
            assert forall|x: Seq<ValueV>| #[trigger] all.contains(x) implies x.len() == n by {
                bags::same_contains(all, bags::joined(a, b, on, f), x);
                let lr = bags::joined_rows_have_both_sides(a, b, on, f, x);
            }
        },
        PlanV::SetOp { left, right, .. } => {
            rows_have_the_columns(*left, ps, w);
            rows_have_the_columns(*right, ps, w);
        },
    }
}

// ---------------------------------------------------------------- the same plan over the same rows

/// Whether a plan stands for the rows of another one, each as often, under the same column names.
#[verifier::opaque]
pub open spec fn stands_for(q: PlanV, p: PlanV, ps: Map<Seq<char>, ValueV>, w: World) -> bool {
    &&& bags::same(relation::rows(q, ps, w), relation::rows(p, ps, w))
    &&& relation::alike(logical::plan_schema(q), logical::plan_schema(p))
}

/// Expressions have the same inputs under schemas that agree.
pub proof fn input_alike(
    e: ExprV,
    s: SchemaV,
    t: SchemaV,
    ps: Map<Seq<char>, ValueV>,
    known: Seq<(QuestionV, AnswerV)>,
)
    requires
        relation::alike(s, t),
    ensures
        relation::input(e, s, ps, known) == relation::input(e, t, ps, known),
{
    reveal(relation::input);
    assert forall|row: Seq<ValueV>| #[trigger] relation::input(e, s, ps, known)(row) == relation::input(e, t, ps, known)(
        row,
    ) by {
        if let Ok(q) = expr::substituted(e, ps) {
            relation::value_alike(q, row, s, t, known);
        }
    }
    assert(relation::input(e, s, ps, known) =~= relation::input(e, t, ps, known));
}

proof fn inputs_alike(
    es: Seq<ExprV>,
    s: SchemaV,
    t: SchemaV,
    ps: Map<Seq<char>, ValueV>,
    known: Seq<(QuestionV, AnswerV)>,
)
    requires
        relation::alike(s, t),
    ensures
        relation::inputs(es, s, ps, known) == relation::inputs(es, t, ps, known),
{
    assert forall|i: int| 0 <= i < es.len() implies relation::input(#[trigger] es[i], s, ps, known) == relation::input(
        es[i],
        t,
        ps,
        known,
    ) by {
        input_alike(es[i], s, t, ps, known);
    }
    assert(relation::inputs(es, s, ps, known) =~= relation::inputs(es, t, ps, known));
}

proof fn sort_inputs_alike(
    keys: Seq<(ExprV, bool)>,
    s: SchemaV,
    t: SchemaV,
    ps: Map<Seq<char>, ValueV>,
    known: Seq<(QuestionV, AnswerV)>,
)
    requires
        relation::alike(s, t),
    ensures
        relation::sort_inputs(keys, s, ps, known) == relation::sort_inputs(keys, t, ps, known),
{
    assert forall|i: int| 0 <= i < keys.len() implies relation::input((#[trigger] keys[i]).0, s, ps, known)
        == relation::input(keys[i].0, t, ps, known) by {
        input_alike(keys[i].0, s, t, ps, known);
    }
    assert(relation::sort_inputs(keys, s, ps, known) =~= relation::sort_inputs(keys, t, ps, known));
}

proof fn measures_alike(
    aggrs: Seq<AggregateV>,
    s: SchemaV,
    t: SchemaV,
    ps: Map<Seq<char>, ValueV>,
    known: Seq<(QuestionV, AnswerV)>,
)
    requires
        relation::alike(s, t),
    ensures
        relation::measures(aggrs, s, ps, known) == relation::measures(aggrs, t, ps, known),
{
    assert forall|i: int| 0 <= i < aggrs.len() implies relation::input(
        relation::argument(#[trigger] aggrs[i]),
        s,
        ps,
        known,
    ) == relation::input(relation::argument(aggrs[i]), t, ps, known) by {
        input_alike(relation::argument(aggrs[i]), s, t, ps, known);
    }
    assert(relation::measures(aggrs, s, ps, known) =~= relation::measures(aggrs, t, ps, known));
}

proof fn joined_alike(ls: SchemaV, rs: SchemaV, tl: SchemaV, tr: SchemaV)
    requires
        relation::alike(tl, ls),
        relation::alike(tr, rs),
        ls.columns.len() + rs.columns.len() <= usize::MAX,
    ensures
        relation::alike(pushdown::joined(tl, tr), pushdown::joined(ls, rs)),
{
    let a = pushdown::joined(tl, tr);
    let b = pushdown::joined(ls, rs);
    assert forall|i: int| 0 <= i < a.columns.len() implies (#[trigger] a.columns[i]).name == b.columns[i].name by {
        if i < ls.columns.len() {
            assert(a.columns[i].name == tl.columns[i].name);
        } else {
            assert(a.columns[i].name == tr.columns[i - ls.columns.len()].name);
        }
    }
}

proof fn matching_alike(
    condition: ExprV,
    join_type: JoinType,
    ls: SchemaV,
    rs: SchemaV,
    tl: SchemaV,
    tr: SchemaV,
    ps: Map<Seq<char>, ValueV>,
    known: Seq<(QuestionV, AnswerV)>,
)
    requires
        relation::alike(tl, ls),
        relation::alike(tr, rs),
        ls.columns.len() + rs.columns.len() <= usize::MAX,
    ensures
        relation::matching(condition, join_type, tl, tr, ps, known) == relation::matching(
            condition,
            join_type,
            ls,
            rs,
            ps,
            known,
        ),
{
    joined_alike(ls, rs, tl, tr);
    input_alike(condition, pushdown::joined(tl, tr), pushdown::joined(ls, rs), ps, known);
    let f = relation::matching(condition, join_type, tl, tr, ps, known);
    let g = relation::matching(condition, join_type, ls, rs, ps, known);
    assert forall|x: Seq<ValueV>, y: Seq<ValueV>| #[trigger] f(x, y) == g(x, y) by {}
    assert(f =~= g);
}

pub proof fn filter_stands(
    q: PlanV,
    p: PlanV,
    predicate: ExprV,
    ps: Map<Seq<char>, ValueV>,
    w: World,
)
    requires
        stands_for(q, p, ps, w),
    ensures
        stands_for(
            PlanV::Filter { source: Box::new(q), predicate },
            PlanV::Filter { source: Box::new(p), predicate },
            ps,
            w,
        ),
{
    reveal(stands_for);
    input_alike(predicate, logical::plan_schema(q), logical::plan_schema(p), ps, w.known);
    let t = relation::test(relation::input(predicate, logical::plan_schema(p), ps, w.known));
    bags::passing_same(relation::rows(q, ps, w), relation::rows(p, ps, w), t, t);
}

pub proof fn projection_stands(
    q: PlanV,
    p: PlanV,
    es: Seq<ExprV>,
    names: Seq<Seq<char>>,
    ps: Map<Seq<char>, ValueV>,
    w: World,
)
    requires
        stands_for(q, p, ps, w),
        logical::plan_schema(logical::projection_of(p, es, names)).columns.len() <= usize::MAX,
    ensures
        stands_for(logical::projection_of(q, es, names), logical::projection_of(p, es, names), ps, w),
{
    reveal(stands_for);
    let s = logical::plan_schema(q);
    let t = logical::plan_schema(p);
    inputs_alike(es, s, t, ps, w.known);
    let fs = relation::inputs(es, t, ps, w.known);
    merge::mapped_multisets(
        relation::rows(q, ps, w),
        relation::rows(p, ps, w),
        |row: Seq<ValueV>| fs.map_values(|f: spec_fn(Seq<ValueV>) -> Result<ValueV, ErrorV>| relation::cell(f(row))),
    );
    let a = logical::plan_schema(logical::projection_of(q, es, names));
    let b = logical::plan_schema(logical::projection_of(p, es, names));
    assert(a.columns.len() == b.columns.len());
    assert forall|i: int| 0 <= i < a.columns.len() implies (#[trigger] a.columns[i]).name == b.columns[i].name by {}
}

pub proof fn aggregate_stands(
    q: PlanV,
    p: PlanV,
    group_by: Seq<ExprV>,
    aggrs: Seq<AggregateV>,
    names: Seq<Seq<char>>,
    ps: Map<Seq<char>, ValueV>,
    w: World,
)
    requires
        is_fair(w),
        stands_for(q, p, ps, w),
        logical::plan_schema(logical::aggregate_of(p, group_by, aggrs, names)).columns.len() <= usize::MAX,
    ensures
        stands_for(
            logical::aggregate_of(q, group_by, aggrs, names),
            logical::aggregate_of(p, group_by, aggrs, names),
            ps,
            w,
        ),
{
    reveal(stands_for);
    let s = logical::plan_schema(q);
    let t = logical::plan_schema(p);
    inputs_alike(group_by, s, t, ps, w.known);
    measures_alike(aggrs, s, t, ps, w.known);
    let a = logical::plan_schema(logical::aggregate_of(q, group_by, aggrs, names));
    let b = logical::plan_schema(logical::aggregate_of(p, group_by, aggrs, names));
    assert(a.columns.len() == b.columns.len());
    assert forall|i: int| 0 <= i < a.columns.len() implies (#[trigger] a.columns[i]).name == b.columns[i].name by {}
}

pub proof fn sort_stands(
    q: PlanV,
    p: PlanV,
    keys: Seq<(ExprV, bool)>,
    ps: Map<Seq<char>, ValueV>,
    w: World,
)
    requires
        is_fair(w),
        stands_for(q, p, ps, w),
    ensures
        stands_for(PlanV::Sort { source: Box::new(q), keys }, PlanV::Sort { source: Box::new(p), keys }, ps, w),
        stands_for(q, PlanV::Sort { source: Box::new(p), keys }, ps, w),
{
    reveal(stands_for);
}

pub proof fn limit_stands(
    q: PlanV,
    p: PlanV,
    limit: Option<usize>,
    offset: usize,
    ps: Map<Seq<char>, ValueV>,
    w: World,
)
    requires
        is_fair(w),
        stands_for(q, p, ps, w),
    ensures
        stands_for(
            PlanV::Limit { source: Box::new(q), limit, offset },
            PlanV::Limit { source: Box::new(p), limit, offset },
            ps,
            w,
        ),
{
    reveal(stands_for);
}

pub proof fn distinct_stands(q: PlanV, p: PlanV, ps: Map<Seq<char>, ValueV>, w: World)
    requires
        is_fair(w),
        stands_for(q, p, ps, w),
    ensures
        stands_for(PlanV::Distinct { source: Box::new(q) }, PlanV::Distinct { source: Box::new(p) }, ps, w),
{
    broadcast use vstd::multiset::group_multiset_axioms;

    reveal(stands_for);
    let a = relation::rows(q, ps, w);
    let b = relation::rows(p, ps, w);
    let x = (w.distinct)(a).to_multiset();
    let y = (w.distinct)(b).to_multiset();
    assert forall|row: Seq<ValueV>| x.count(row) == y.count(row) by {
        bags::same_contains(a, b, row);
    }
    assert(x =~= y);
}

pub proof fn set_op_stands(
    l: PlanV,
    r: PlanV,
    left: PlanV,
    right: PlanV,
    op: SetOpType,
    all: bool,
    ps: Map<Seq<char>, ValueV>,
    w: World,
)
    requires
        is_fair(w),
        stands_for(l, left, ps, w),
        stands_for(r, right, ps, w),
    ensures
        stands_for(
            PlanV::SetOp { left: Box::new(l), right: Box::new(r), op, all },
            PlanV::SetOp { left: Box::new(left), right: Box::new(right), op, all },
            ps,
            w,
        ),
{
    reveal(stands_for);
}

pub proof fn join_stands(
    l: PlanV,
    r: PlanV,
    left: PlanV,
    right: PlanV,
    condition: ExprV,
    join_type: JoinType,
    ps: Map<Seq<char>, ValueV>,
    w: World,
)
    requires
        is_fair(w),
        stands_for(l, left, ps, w),
        stands_for(r, right, ps, w),
        logical::plan_schema(left).columns.len() + logical::plan_schema(right).columns.len() <= usize::MAX,
    ensures
        stands_for(
            logical::join_of(l, r, condition, join_type),
            logical::join_of(left, right, condition, join_type),
            ps,
            w,
        ),
{
    reveal(stands_for);
    let ls = logical::plan_schema(left);
    let rs = logical::plan_schema(right);
    let tl = logical::plan_schema(l);
    let tr = logical::plan_schema(r);
    matching_alike(condition, join_type, ls, rs, tl, tr, ps, w.known);
    joined_alike(ls, rs, tl, tr);
    let on = relation::matching(condition, join_type, ls, rs, ps, w.known);
    let f = relation::filler(join_type, rs);
    assert(relation::filler(join_type, tr) == f);
    bags::joined_same(
        relation::rows(l, ps, w),
        relation::rows(left, ps, w),
        relation::rows(r, ps, w),
        relation::rows(right, ps, w),
        on,
        f,
    );
}

pub proof fn stands_for_itself(p: PlanV, ps: Map<Seq<char>, ValueV>, w: World)
    requires
        logical::plan_schema(p).columns.len() <= usize::MAX,
    ensures
        stands_for(p, p, ps, w),
{
    reveal(stands_for);
}

pub proof fn stands_for_both(r: PlanV, q: PlanV, p: PlanV, ps: Map<Seq<char>, ValueV>, w: World)
    requires
        stands_for(r, q, ps, w),
        stands_for(q, p, ps, w),
    ensures
        stands_for(r, p, ps, w),
{
    reveal(stands_for);
}

// ---------------------------------------------------------------- sorts

/// Reading through an index in place of a table keeps the rows.
pub proof fn promoting_keeps_rows(p: PlanV, col: Seq<char>, ps: Map<Seq<char>, ValueV>, w: World)
    requires
        is_fair(w),
        lowering::is_built(p),
    ensures
        optimizer::promoted(p, col) matches Some(q) ==> stands_for(q, p, ps, w),
    decreases p,
{
    optimizer::promoted_keeps_schema(p, col);
    match p {
        PlanV::Scan { table_name, schema, range } => {
            if let Some(q) = optimizer::promoted(p, col) {
                whole_index_stands(p, q, ps, w);
            }
        },
        PlanV::Filter { source, predicate } => {
            promoting_keeps_rows(*source, col, ps, w);
            if let Some(q) = optimizer::promoted(*source, col) {
                filter_stands(q, *source, predicate, ps, w);
            }
        },
        PlanV::Limit { source, limit, offset } => {
            promoting_keeps_rows(*source, col, ps, w);
            if let Some(q) = optimizer::promoted(*source, col) {
                limit_stands(q, *source, limit, offset, ps, w);
            }
        },
        PlanV::Distinct { source } => {
            promoting_keeps_rows(*source, col, ps, w);
            if let Some(q) = optimizer::promoted(*source, col) {
                distinct_stands(q, *source, ps, w);
            }
        },
        PlanV::Projection { source, expressions, field_names, schema } => {
            if let Some(inner) = optimizer::passed_from(expressions, field_names, col, 0) {
                promoting_keeps_rows(*source, inner, ps, w);
                optimizer::promoted_keeps_schema(*source, inner);
                if let Some(q) = optimizer::promoted(*source, inner) {
                    projection_stands(q, *source, expressions, field_names, ps, w);
                }
            }
        },
        _ => {},
    }
}

proof fn whole_index_stands(p: PlanV, q: PlanV, ps: Map<Seq<char>, ValueV>, w: World)
    requires
        is_fair(w),
        lowering::is_built(p),
        match (p, q) {
            (
                PlanV::Scan { table_name, schema, range },
                PlanV::IndexScan { table_name: t, index_name, schema: s, range: r },
            ) => table_name == t && schema == s && range is None && r is None,
            _ => false,
        },
    ensures
        stands_for(q, p, ps, w),
{
    reveal(stands_for);
    match (p, q) {
        (PlanV::Scan { table_name, schema, .. }, PlanV::IndexScan { index_name, .. }) => {
            let all = (w.table)(table_name);
            let index = (w.index)(table_name, index_name);
            let a = |row: Seq<ValueV>| relation::is_read(None, None, relation::table_key(schema, row));
            let b = |row: Seq<ValueV>| relation::is_read(None, None, relation::index_key(schema, index_name, row));
            bags::passing_same(index, all, b, a);
        },
        _ => {},
    }
}

/// Removing the sorts that a plan does not need keeps its rows.
pub proof fn removing_sorts_keeps_rows(p: PlanV, ps: Map<Seq<char>, ValueV>, w: World)
    requires
        is_fair(w),
        lowering::is_built(p),
    ensures
        stands_for(optimizer::unsorted(p), p, ps, w),
        lowering::is_built(optimizer::unsorted(p)),
    decreases p,
{
    optimizer::unsorted_keeps_schema(p);
    match p {
        PlanV::Sort { source, keys } => {
            removing_sorts_keeps_rows(*source, ps, w);
            optimizer::unsorted_keeps_schema(*source);
            let q = optimizer::unsorted(*source);
            sort_stands(q, *source, keys, ps, w);
            if keys.len() == 1 && keys[0].1 {
                if let ExprV::Column(col, _) = keys[0].0 {
                    promoting_keeps_rows(q, col, ps, w);
                    promoted_is_built(q, col);
                    if let Some(r) = optimizer::promoted(q, col) {
                        stands_for_both(r, q, p, ps, w);
                    }
                }
            }
        },
        PlanV::Filter { source, predicate } => {
            removing_sorts_keeps_rows(*source, ps, w);
            filter_stands(optimizer::unsorted(*source), *source, predicate, ps, w);
        },
        PlanV::Limit { source, limit, offset } => {
            removing_sorts_keeps_rows(*source, ps, w);
            limit_stands(optimizer::unsorted(*source), *source, limit, offset, ps, w);
        },
        PlanV::Distinct { source } => {
            removing_sorts_keeps_rows(*source, ps, w);
            distinct_stands(optimizer::unsorted(*source), *source, ps, w);
        },
        PlanV::Projection { source, expressions, field_names, .. } => {
            removing_sorts_keeps_rows(*source, ps, w);
            optimizer::unsorted_keeps_schema(*source);
            projection_stands(optimizer::unsorted(*source), *source, expressions, field_names, ps, w);
        },
        PlanV::Aggregate { source, group_by, aggrs, field_names, .. } => {
            removing_sorts_keeps_rows(*source, ps, w);
            optimizer::unsorted_keeps_schema(*source);
            let q = optimizer::unsorted(*source);
            let r = optimizer::grouped_source(q, group_by);
            if group_by.len() == 1 {
                if let ExprV::Column(col, _) = group_by[0] {
                    promoting_keeps_rows(q, col, ps, w);
                    promoted_is_built(q, col);
                    optimizer::promoted_keeps_schema(q, col);
                    if let Some(x) = optimizer::promoted(q, col) {
                        stands_for_both(x, q, *source, ps, w);
                    }
                }
            }
            aggregate_stands(r, *source, group_by, aggrs, field_names, ps, w);
        },
        PlanV::Join { left, right, condition, join_type, .. } => {
            removing_sorts_keeps_rows(*left, ps, w);
            removing_sorts_keeps_rows(*right, ps, w);
            optimizer::unsorted_keeps_schema(*left);
            optimizer::unsorted_keeps_schema(*right);
            join_stands(
                optimizer::unsorted(*left),
                optimizer::unsorted(*right),
                *left,
                *right,
                condition,
                join_type,
                ps,
                w,
            );
        },
        PlanV::SetOp { left, right, op, all } => {
            removing_sorts_keeps_rows(*left, ps, w);
            removing_sorts_keeps_rows(*right, ps, w);
            set_op_stands(optimizer::unsorted(*left), optimizer::unsorted(*right), *left, *right, op, all, ps, w);
        },
        _ => stands_for_itself(p, ps, w),
    }
}

proof fn promoted_is_built(p: PlanV, col: Seq<char>)
    requires
        lowering::is_built(p),
    ensures
        optimizer::promoted(p, col) matches Some(q) ==> lowering::is_built(q),
    decreases p,
{
    optimizer::promoted_keeps_schema(p, col);
    match p {
        PlanV::Filter { source, .. } => promoted_is_built(*source, col),
        PlanV::Limit { source, .. } => promoted_is_built(*source, col),
        PlanV::Distinct { source } => promoted_is_built(*source, col),
        PlanV::Projection { source, expressions, field_names, .. } => {
            if let Some(inner) = optimizer::passed_from(expressions, field_names, col, 0) {
                promoted_is_built(*source, inner);
                optimizer::promoted_keeps_schema(*source, inner);
            }
        },
        _ => {},
    }
}

// ---------------------------------------------------------------- joins

/// Whether the condition of a join says which columns it reads, and its operands can be exchanged.
pub open spec fn is_swappable(
    condition: ExprV,
    ls: SchemaV,
    rs: SchemaV,
    ps: Map<Seq<char>, ValueV>,
    known: Seq<(QuestionV, AnswerV)>,
) -> bool {
    let all = pushdown::joined(ls, rs);
    &&& pushdown::names_are_unique(all)
    &&& expr::substituted(condition, ps) matches Ok(q) ==> pushdown::is_unambiguous(q, all) && forall|row: Seq<ValueV>|
        row.len() == all.columns.len() ==> #[trigger] kept::is_exchangeable(q, row, all, known)
}

/// Whether this holds of the inner joins of a plan. Of the other ones nothing is asked.
pub open spec fn is_orderly(p: PlanV, ps: Map<Seq<char>, ValueV>, known: Seq<(QuestionV, AnswerV)>) -> bool
    decreases p,
{
    match p {
        PlanV::Filter { source, .. } => is_orderly(*source, ps, known),
        PlanV::Limit { source, .. } => is_orderly(*source, ps, known),
        PlanV::Distinct { source } => is_orderly(*source, ps, known),
        PlanV::Sort { source, .. } => is_orderly(*source, ps, known),
        PlanV::Projection { source, .. } => is_orderly(*source, ps, known),
        PlanV::Aggregate { source, .. } => is_orderly(*source, ps, known),
        PlanV::SetOp { left, right, .. } => is_orderly(*left, ps, known) && is_orderly(*right, ps, known),
        PlanV::Join { left, right, condition, join_type, .. } => {
            &&& is_orderly(*left, ps, known)
            &&& is_orderly(*right, ps, known)
            &&& join_type is Inner ==> is_swappable(
                condition,
                logical::plan_schema(*left),
                logical::plan_schema(*right),
                ps,
                known,
            )
        },
        _ => true,
    }
}

/// Which rows an inner join puts together, as a test of the joined rows.
proof fn matching_is_a_test(
    condition: ExprV,
    q: ExprV,
    ls: SchemaV,
    rs: SchemaV,
    l: Seq<ValueV>,
    r: Seq<ValueV>,
    ps: Map<Seq<char>, ValueV>,
    known: Seq<(QuestionV, AnswerV)>,
)
    requires
        expr::substituted(condition, ps) == Ok::<ExprV, ErrorV>(q),
        l.len() == ls.columns.len(),
        r.len() == rs.columns.len(),
    ensures
        relation::matching(condition, JoinType::Inner, ls, rs, ps, known)(l, r) == pushdown::test_of(
            seq![q],
            pushdown::joined(ls, rs),
            known,
        )(l + r),
        relation::matching(condition, JoinType::Left, ls, rs, ps, known)(l, r) == pushdown::test_of(
            seq![q],
            pushdown::joined(ls, rs),
            known,
        )(l + r),
{
    reveal(relation::input);
    reveal(ranges::accepts);
    let es = seq![q];
    assert(es[0] == q);
}

proof fn swapped_is_substituted(condition: ExprV, ps: Map<Seq<char>, ValueV>)
    ensures
        expr::substituted(condition, ps) matches Ok(q) ==> expr::substituted(optimizer::swapped(condition), ps)
            == Ok::<ExprV, ErrorV>(optimizer::swapped(q)),
        expr::substituted(condition, ps) is Err ==> expr::substituted(optimizer::swapped(condition), ps) is Err,
{
}

/// A join that puts no rows together has no rows.
proof fn nothing_joined(
    left: Seq<Seq<ValueV>>,
    right: Seq<Seq<ValueV>>,
    on: spec_fn(Seq<ValueV>, Seq<ValueV>) -> bool,
)
    requires
        forall|l: Seq<ValueV>, r: Seq<ValueV>| !#[trigger] on(l, r),
    ensures
        bags::joined(left, right, on, None) == Seq::<Seq<ValueV>>::empty(),
{
    let all = bags::joined(left, right, on, None);
    if all.len() > 0 {
        assert(all.contains(all[0]));
        let lr = bags::joined_rows_have_both_sides(left, right, on, None, all[0]);
        assert(!on(lr.0, lr.1));
    }
}

/// The rows of a join with its sides exchanged, as lists of rows.
proof fn exchanged_rows(
    condition: ExprV,
    q: ExprV,
    ls: SchemaV,
    rs: SchemaV,
    a: Seq<Seq<ValueV>>,
    b: Seq<Seq<ValueV>>,
    ps: Map<Seq<char>, ValueV>,
    known: Seq<(QuestionV, AnswerV)>,
)
    requires
        expr::substituted(condition, ps) == Ok::<ExprV, ErrorV>(q),
        is_swappable(condition, ls, rs, ps, known),
        are_wide(a, ls.columns.len()),
        are_wide(b, rs.columns.len()),
        ls.columns.len() + rs.columns.len() <= usize::MAX,
    ensures
        bags::same(
            relation::mapped(
                bags::joined(
                    b,
                    a,
                    relation::matching(optimizer::swapped(condition), JoinType::Inner, rs, ls, ps, known),
                    None,
                ),
                relation::inputs(
                    optimizer::column_refs(pushdown::joined(ls, rs).columns),
                    pushdown::joined(rs, ls),
                    ps,
                    known,
                ),
            ),
            bags::joined(a, b, relation::matching(condition, JoinType::Inner, ls, rs, ps, known), None),
        ),
{
    let all = pushdown::joined(ls, rs);
    let back = pushdown::joined(rs, ls);
    let es = optimizer::column_refs(all.columns);
    let on = relation::matching(condition, JoinType::Inner, ls, rs, ps, known);
    let no = relation::matching(optimizer::swapped(condition), JoinType::Inner, rs, ls, ps, known);
    let t = pushdown::test_of(seq![q], all, known);
    let u = pushdown::test_of(seq![optimizer::swapped(q)], back, known);
    swapped_is_substituted(condition, ps);
    wide_rows(a, ls);
    wide_rows(b, rs);
    assert forall|i: int, j: int| 0 <= i < a.len() && 0 <= j < b.len() implies on(#[trigger] a[i], #[trigger] b[j]) == t(
        a[i] + b[j],
    ) by {
        matching_is_a_test(condition, q, ls, rs, a[i], b[j], ps, known);
    }
    assert forall|i: int, j: int| 0 <= i < b.len() && 0 <= j < a.len() implies no(#[trigger] b[i], #[trigger] a[j]) == u(
        b[i] + a[j],
    ) by {
        matching_is_a_test(optimizer::swapped(condition), optimizer::swapped(q), rs, ls, b[i], a[j], ps, known);
    }
    bags::joined_is_join_rows(a, b, on, t, None);
    bags::joined_is_join_rows(b, a, no, u, None);
    let x = pushdown::join_rows(a, b, t, None);
    let y = pushdown::join_rows(b, a, u, None);
    assert forall|i: int, j: int| 0 <= i < a.len() && 0 <= j < b.len() implies kept::is_exchangeable(
        q,
        #[trigger] a[i] + #[trigger] b[j],
        all,
        known,
    ) by {}
    pushdown::exchanging_a_join_keeps_rows(q, ls, rs, a, b, known);
    let f = |r: Seq<Result<ValueV, ErrorV>>| r.map_values(|v: Result<ValueV, ErrorV>| relation::cell(v));
    merge::mapped_multisets(pushdown::projected(y, es, back, known), pushdown::given(x), f);
    let fs = relation::inputs(es, back, ps, known);
    let m = relation::mapped(y, fs);
    let n = pushdown::projected(y, es, back, known).map_values(f);
    assert forall|i: int| 0 <= i < m.len() implies #[trigger] m[i] == n[i] by {
        reveal(relation::input);
        assert forall|k: int| 0 <= k < es.len() implies #[trigger] m[i][k] == n[i][k] by {
            assert(es[k] == ExprV::Column(all.columns[k].name, None));
            assert(fs[k] == relation::input(es[k], back, ps, known));
        }
        assert(m[i] =~= n[i]);
    }
    assert(m =~= n);
    let o = pushdown::given(x).map_values(f);
    assert forall|i: int| 0 <= i < x.len() implies #[trigger] o[i] == x[i] by {
        assert(o[i] =~= x[i]);
    }
    assert(o =~= x);
}

/// An inner join stands for the same join with its sides exchanged, under a projection that brings
/// its columns back into their order.
pub proof fn exchanging_keeps_rows(l: PlanV, r: PlanV, condition: ExprV, ps: Map<Seq<char>, ValueV>, w: World)
    requires
        is_fair(w),
        lowering::is_built(l),
        lowering::is_built(r),
        fits(l, w),
        fits(r, w),
        is_swappable(condition, logical::plan_schema(l), logical::plan_schema(r), ps, w.known),
        logical::plan_schema(l).columns.len() + logical::plan_schema(r).columns.len() <= usize::MAX,
    ensures
        ({
            let cols = logical::plan_schema(logical::join_of(l, r, condition, JoinType::Inner)).columns;
            stands_for(
                logical::projection_of(
                    logical::join_of(r, l, optimizer::swapped(condition), JoinType::Inner),
                    optimizer::column_refs(cols),
                    optimizer::column_names(cols),
                ),
                logical::join_of(l, r, condition, JoinType::Inner),
                ps,
                w,
            )
        }),
{
    reveal(stands_for);
    let ls = logical::plan_schema(l);
    let rs = logical::plan_schema(r);
    let a = relation::rows(l, ps, w);
    let b = relation::rows(r, ps, w);
    rows_have_the_columns(l, ps, w);
    rows_have_the_columns(r, ps, w);
    let all = pushdown::joined(ls, rs);
    let back = pushdown::joined(rs, ls);
    let cols = all.columns;
    let es = optimizer::column_refs(cols);
    let on = relation::matching(condition, JoinType::Inner, ls, rs, ps, w.known);
    let no = relation::matching(optimizer::swapped(condition), JoinType::Inner, rs, ls, ps, w.known);
    let x = bags::joined(a, b, on, None);
    let y = bags::joined(b, a, no, None);
    let fs = relation::inputs(es, back, ps, w.known);
    swapped_is_substituted(condition, ps);
    match expr::substituted(condition, ps) {
        Ok(q) => exchanged_rows(condition, q, ls, rs, a, b, ps, w.known),
        Err(_) => {
            assert forall|u: Seq<ValueV>, v: Seq<ValueV>| !#[trigger] on(u, v) by {
                reveal(relation::input);
            }
            assert forall|u: Seq<ValueV>, v: Seq<ValueV>| !#[trigger] no(u, v) by {
                reveal(relation::input);
            }
            nothing_joined(a, b, on);
            nothing_joined(b, a, no);
            assert(relation::mapped(y, fs) =~= x);
        },
    }
    let join = logical::join_of(r, l, optimizer::swapped(condition), JoinType::Inner);
    assert(bags::same(relation::rows(join, ps, w), y));
    merge::mapped_multisets(
        relation::rows(join, ps, w),
        y,
        |row: Seq<ValueV>| fs.map_values(|f: spec_fn(Seq<ValueV>) -> Result<ValueV, ErrorV>| relation::cell(f(row))),
    );
    let p = logical::projection_of(join, es, optimizer::column_names(cols));
    let s = logical::plan_schema(p);
    assert(s.columns.len() == cols.len());
    assert forall|i: int| 0 <= i < s.columns.len() implies (#[trigger] s.columns[i]).name == cols[i].name by {}
}

/// An inner join with its larger side on the left has the rows of the join, and so have an outer
/// and a cross join as they are.
proof fn ordered_join_keeps_rows(
    l: PlanV,
    r: PlanV,
    left: PlanV,
    right: PlanV,
    condition: ExprV,
    join_type: JoinType,
    o: Optimizer,
    known: Seq<(QuestionV, AnswerV)>,
    ps: Map<Seq<char>, ValueV>,
    w: World,
)
    requires
        is_fair(w),
        stands_for(l, left, ps, w),
        stands_for(r, right, ps, w),
        lowering::is_built(l),
        lowering::is_built(r),
        lowering::is_built(left),
        lowering::is_built(right),
        fits(left, w),
        fits(right, w),
        join_type is Inner ==> is_swappable(
            condition,
            logical::plan_schema(left),
            logical::plan_schema(right),
            ps,
            w.known,
        ),
        logical::plan_schema(left).columns.len() + logical::plan_schema(right).columns.len() <= usize::MAX,
    ensures
        optimizer::ordered_join(l, r, condition, join_type, o, known) matches Ok(q) ==> stands_for(
            q,
            logical::join_of(left, right, condition, join_type),
            ps,
            w,
        ) && lowering::is_built(q),
{
    join_stands(l, r, left, right, condition, join_type, ps, w);
    let join = logical::join_of(left, right, condition, join_type);
    reveal(stands_for);
    if join_type is Inner {
        let cols = logical::plan_schema(join).columns;
        let es = optimizer::column_refs(cols);
        let names = optimizer::column_names(cols);
        let swap = optimizer::swapped(condition);
        join_stands(r, l, right, left, swap, join_type, ps, w);
        projection_stands(
            logical::join_of(r, l, swap, join_type),
            logical::join_of(right, left, swap, join_type),
            es,
            names,
            ps,
            w,
        );
        exchanging_keeps_rows(left, right, condition, ps, w);
        let q = logical::projection_of(logical::join_of(r, l, swap, join_type), es, names);
        stands_for_both(
            q,
            logical::projection_of(logical::join_of(right, left, swap, join_type), es, names),
            join,
            ps,
            w,
        );
        let other = logical::plan_schema(logical::join_of(l, r, condition, join_type)).columns;
        assert forall|i: int| 0 <= i < cols.len() implies (#[trigger] cols[i]).name == other[i].name by {
            assert(relation::alike(
                logical::plan_schema(logical::join_of(l, r, condition, join_type)),
                logical::plan_schema(join),
            ));
        }
        assert(optimizer::column_refs(other) =~= es);
        assert(optimizer::column_names(other) =~= names);
        assert(lowering::is_built(logical::join_of(r, l, swap, join_type)));
        assert(logical::plan_schema(q).columns.len() == cols.len());
        assert(lowering::is_built(q));
    }
    assert(lowering::is_built(logical::join_of(l, r, condition, join_type)));
}

/// Putting the larger side of each inner join on the left keeps the rows of a plan, each as often,
/// whatever its joins are: those of an outer join with all rows of its left side.
pub proof fn reordering_keeps_rows(
    p: PlanV,
    o: Optimizer,
    known: Seq<(QuestionV, AnswerV)>,
    ps: Map<Seq<char>, ValueV>,
    w: World,
)
    requires
        is_fair(w),
        lowering::is_built(p),
        fits(p, w),
        is_orderly(p, ps, w.known),
    ensures
        optimizer::reordered(p, o, known) matches Ok(q) ==> stands_for(q, p, ps, w) && lowering::is_built(q),
    decreases p,
{
    match p {
        PlanV::Join { left, right, condition, join_type, .. } => {
            reordering_keeps_rows(*left, o, known, ps, w);
            reordering_keeps_rows(*right, o, known, ps, w);
            if let (Ok(l), Ok(r)) = (optimizer::reordered(*left, o, known), optimizer::reordered(*right, o, known)) {
                ordered_join_keeps_rows(l, r, *left, *right, condition, join_type, o, known, ps, w);
            }
        },
        PlanV::Filter { source, predicate } => {
            reordering_keeps_rows(*source, o, known, ps, w);
            if let Ok(q) = optimizer::reordered(*source, o, known) {
                filter_stands(q, *source, predicate, ps, w);
            }
        },
        PlanV::Projection { source, expressions, field_names, .. } => {
            reordering_keeps_rows(*source, o, known, ps, w);
            if let Ok(q) = optimizer::reordered(*source, o, known) {
                projection_stands(q, *source, expressions, field_names, ps, w);
            }
        },
        PlanV::Aggregate { source, group_by, aggrs, field_names, .. } => {
            reordering_keeps_rows(*source, o, known, ps, w);
            if let Ok(q) = optimizer::reordered(*source, o, known) {
                aggregate_stands(q, *source, group_by, aggrs, field_names, ps, w);
            }
        },
        PlanV::Sort { source, keys } => {
            reordering_keeps_rows(*source, o, known, ps, w);
            if let Ok(q) = optimizer::reordered(*source, o, known) {
                sort_stands(q, *source, keys, ps, w);
            }
        },
        PlanV::Limit { source, limit, offset } => {
            reordering_keeps_rows(*source, o, known, ps, w);
            if let Ok(q) = optimizer::reordered(*source, o, known) {
                limit_stands(q, *source, limit, offset, ps, w);
            }
        },
        PlanV::Distinct { source } => {
            reordering_keeps_rows(*source, o, known, ps, w);
            if let Ok(q) = optimizer::reordered(*source, o, known) {
                distinct_stands(q, *source, ps, w);
            }
        },
        PlanV::SetOp { left, right, op, all } => {
            reordering_keeps_rows(*left, o, known, ps, w);
            reordering_keeps_rows(*right, o, known, ps, w);
            if let (Ok(l), Ok(r)) = (optimizer::reordered(*left, o, known), optimizer::reordered(*right, o, known)) {
                set_op_stands(l, r, *left, *right, op, all, ps, w);
            }
        },
        _ => stands_for_itself(p, ps, w),
    }
    if let Ok(q) = optimizer::reordered(p, o, known) {
        reveal(stands_for);
        assert(logical::plan_schema(q).columns.len() == logical::plan_schema(p).columns.len());
    }
}

} // verus!
