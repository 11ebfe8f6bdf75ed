//! A compiled plan gives the rows of the plan that it was compiled from.

use crate::binding;
use crate::bounds;
use crate::eval;
use crate::expr;
use crate::expr::{ExprV, Operator};
use crate::facts;
use crate::facts::{AnswerV, ErrorV, QuestionV};
use crate::kept;
use crate::logical;
use crate::logical::{AggregateV, JoinType, PlanV, SetOpType};
use crate::optimizer;
use crate::physical;
use crate::physical::PhysicalV;
use crate::pushdown;
use crate::relation;
use crate::relation::World;
use crate::schema;
use crate::schema::SchemaV;
use crate::text;
use crate::value::{KeyV, ValueV};
use vstd::prelude::*;

verus! {

/// Whether the nodes of a plan have the schemas that their sources give them.
pub open spec fn is_built(p: PlanV) -> bool
    decreases p,
{
    &&& logical::plan_schema(p).columns.len() <= usize::MAX
    &&& match p {
        PlanV::Scan { .. } => true,
        PlanV::IndexScan { .. } => true,
        PlanV::FullTextScan { .. } => true,
        PlanV::Filter { source, .. } => is_built(*source),
        PlanV::Limit { source, .. } => is_built(*source),
        PlanV::Distinct { source } => is_built(*source),
        PlanV::Sort { source, .. } => is_built(*source),
        PlanV::Projection { source, expressions, field_names, .. } => is_built(*source) && p == logical::projection_of(
            *source,
            expressions,
            field_names,
        ),
        PlanV::Join { left, right, condition, join_type, .. } => is_built(*left) && is_built(*right) && p
            == logical::join_of(*left, *right, condition, join_type),
        PlanV::Aggregate { source, group_by, aggrs, field_names, .. } => is_built(*source) && p == logical::aggregate_of(
            *source,
            group_by,
            aggrs,
            field_names,
        ),
        PlanV::SetOp { left, right, .. } => is_built(*left) && is_built(*right),
    }
}

/// Whether the condition of a join is an equality of which one side has all columns of an operand,
/// and the other side all of the other.
pub open spec fn parts(condition: ExprV, ls: SchemaV, rs: SchemaV) -> bool {
    condition matches ExprV::BinaryOp { left, op, right } && op == Operator::Eq && (optimizer::covers(
        ls,
        expr::expr_columns(*left),
    ) && optimizer::covers(rs, expr::expr_columns(*right)) || optimizer::covers(ls, expr::expr_columns(*right))
        && optimizer::covers(rs, expr::expr_columns(*left)))
}

/// Whether the expressions of a plan say which columns they read: full-text matches name theirs
/// exactly, and the operands of join conditions belong to one side each, with names that are
/// unambiguous in the join.
pub open spec fn is_legible(p: PlanV, ps: Map<Seq<char>, ValueV>) -> bool
    decreases p,
{
    match p {
        PlanV::Scan { .. } => true,
        PlanV::IndexScan { .. } => true,
        PlanV::FullTextScan { .. } => true,
        PlanV::Filter { source, predicate } => is_legible(*source, ps) && relation::is_clear(
            predicate,
            logical::plan_schema(*source),
            ps,
        ),
        PlanV::Limit { source, .. } => is_legible(*source, ps),
        PlanV::Distinct { source } => is_legible(*source, ps),
        PlanV::Sort { source, keys } => is_legible(*source, ps) && forall|i: int|
            0 <= i < keys.len() ==> relation::is_clear((#[trigger] keys[i]).0, logical::plan_schema(*source), ps),
        PlanV::Projection { source, expressions, .. } => is_legible(*source, ps) && forall|i: int|
            0 <= i < expressions.len() ==> relation::is_clear(#[trigger] expressions[i], logical::plan_schema(*source), ps),
        PlanV::Join { left, right, condition, join_type, .. } => {
            let ls = logical::plan_schema(*left);
            let rs = logical::plan_schema(*right);
            &&& is_legible(*left, ps)
            &&& is_legible(*right, ps)
            &&& join_type is Cross || (expr::substituted(condition, ps) matches Ok(q) ==> parts(q, ls, rs)
                && pushdown::is_unambiguous(q, pushdown::joined(ls, rs)) && binding::matches_by_name(q, ls)
                && binding::matches_by_name(q, rs))
        },
        PlanV::Aggregate { source, group_by, aggrs, .. } => {
            &&& is_legible(*source, ps)
            &&& forall|i: int|
                0 <= i < group_by.len() ==> relation::is_clear(#[trigger] group_by[i], logical::plan_schema(*source), ps)
            &&& forall|i: int|
                0 <= i < aggrs.len() ==> relation::is_clear(
                    relation::argument(#[trigger] aggrs[i]),
                    logical::plan_schema(*source),
                    ps,
                )
        },
        PlanV::SetOp { left, right, .. } => is_legible(*left, ps) && is_legible(*right, ps),
    }
}

/// Whether a compiled plan gives the rows of a plan, under the names of its columns.
#[verifier::opaque]
pub open spec fn gives_the_rows(c: PhysicalV, p: PlanV, ps: Map<Seq<char>, ValueV>, w: World) -> bool {
    relation::given(c, w) == relation::rows(p, ps, w) && relation::alike(
        physical::physical_schema(c),
        logical::plan_schema(p),
    )
}

// ---------------------------------------------------------------- scans

/// The least key of a type bounds nothing from below, and the greatest nothing from above.
proof fn types_are_unbounded(ty: crate::value::DataType)
    ensures
        bounds::unbounded_min(bounds::type_min(ty)),
        bounds::unbounded_max(bounds::type_max(ty)),
{
    broadcast use crate::value::Decimal::lemma_made;

}

proof fn scans_give_the_rows(p: PlanV, cols: Option<Set<Seq<char>>>, ps: Map<Seq<char>, ValueV>, w: World)
    requires
        p is Scan || p is IndexScan || p is FullTextScan,
        is_built(p),
    ensures
        physical::compiled(p, cols, ps) matches Ok(c) ==> gives_the_rows(c, p, ps, w),
{
    reveal(gives_the_rows);
    reveal(physical::table_scan);
    reveal(physical::index_scan);
    match p {
        PlanV::Scan { table_name, schema, range } => {
            if range is None && physical::primary_range(schema) is Ok {
                let positions = schema::key_columns(schema.columns);
                types_are_unbounded(schema.columns[positions[0] as int].data_type);
                let least = physical::least_keys(schema, positions);
                let greatest = physical::greatest_keys(schema, positions);
                assert(bounds::unbounded_min(least[0]) && bounds::unbounded_max(greatest[0]));
                assert(bounds::unbounded_min(KeyV::Composite(least)));
                assert(bounds::unbounded_max(KeyV::Composite(greatest)));
            }
        },
        PlanV::IndexScan { schema, index_name, range, .. } => {
            if range is None && physical::index_range(schema, index_name) is Ok {
                let index = physical::index_from(schema.indexes, index_name, 0)->0;
                let i = schema::column_position(schema.columns, index.columns[0])->0;
                types_are_unbounded(schema.columns[i].data_type);
            }
        },
        _ => {},
    }
}

// ---------------------------------------------------------------- joins

proof fn position_is_a_column(s: SchemaV, name: Seq<char>, i: int)
    requires
        0 <= i,
    ensures
        schema::column_position_from(s.columns, name, i) is Some ==> optimizer::has_column(s, name),
        (exists|k: int| i <= k < s.columns.len() && text::names_match(#[trigger] s.columns[k].name, name))
            ==> schema::column_position_from(s.columns, name, i) is Some,
    decreases s.columns.len() - i,
{
    if i < s.columns.len() {
        if text::names_match(s.columns[i].name, name) {
            assert(text::names_match(s.columns[i].name, name));
        } else {
            position_is_a_column(s, name, i + 1);
            if exists|k: int| i <= k < s.columns.len() && text::names_match(#[trigger] s.columns[k].name, name) {
                let k = choose|k: int| i <= k < s.columns.len() && text::names_match(#[trigger] s.columns[k].name, name);
                assert(i + 1 <= k);
            }
        }
    }
}

/// A schema has all columns of an expression where its names cover them.
proof fn covering_is_having(s: SchemaV, t: SchemaV, e: ExprV)
    requires
        relation::alike(t, s),
    ensures
        physical::has_all(t, e) == optimizer::covers(s, expr::expr_columns(e)),
{
    let names = expr::expr_columns(e);
    assert forall|n: Seq<char>| #[trigger] names.contains(n) implies physical::has_column(t, n) == optimizer::has_column(
        s,
        n,
    ) by {
        position_is_a_column(t, n, 0);
        if optimizer::has_column(s, n) {
            let k = choose|k: int| 0 <= k < s.columns.len() && text::names_match(#[trigger] s.columns[k].name, n);
            assert(t.columns[k].name == s.columns[k].name);
        }
        if optimizer::has_column(t, n) {
            let k = choose|k: int| 0 <= k < t.columns.len() && text::names_match(#[trigger] t.columns[k].name, n);
            assert(t.columns[k].name == s.columns[k].name);
            assert(text::names_match(s.columns[k].name, n));
        }
    }
}

/// A bound operand has on the row of a side the value that the operand has there.
proof fn operand_value(
    x: ExprV,
    b: ExprV,
    s: SchemaV,
    t: SchemaV,
    row: Seq<ValueV>,
    known: Seq<(QuestionV, AnswerV)>,
)
    requires
        relation::alike(t, s),
        binding::matches_by_name(x, s),
        expr::bound(x, t) == Ok::<ExprV, ErrorV>(b),
    ensures
        eval::evaluated(b, row, t, known) == eval::evaluated(x, row, s, known),
{
    relation::value_alike(x, row, t, s, known);
    binding::binding_columns_keeps_values(x, t, row, known);
}

/// An equality is true where its operands are equal.
proof fn equality_is_true(a: ExprV, b: ExprV, row: Seq<ValueV>, s: SchemaV, known: Seq<(QuestionV, AnswerV)>)
    ensures
        relation::is_true(
            eval::evaluated(ExprV::BinaryOp { left: Box::new(a), op: Operator::Eq, right: Box::new(b) }, row, s, known),
        ) == relation::are_equal(eval::evaluated(a, row, s, known), eval::evaluated(b, row, s, known), known),
        relation::are_equal(eval::evaluated(a, row, s, known), eval::evaluated(b, row, s, known), known)
            == relation::are_equal(eval::evaluated(b, row, s, known), eval::evaluated(a, row, s, known), known),
{
    let x = eval::evaluated(a, row, s, known);
    let y = eval::evaluated(b, row, s, known);
    if x is Ok && y is Ok {
        kept::comparison_reverses(x->Ok_0, y->Ok_0, known);
        kept::comparison_reverses(y->Ok_0, x->Ok_0, known);
    }
}

/// A join by an equality puts the rows together that the condition accepts.
proof fn merge_join_matches(
    condition: ExprV,
    a: ExprV,
    b: ExprV,
    join_type: JoinType,
    ls: SchemaV,
    rs: SchemaV,
    tl: SchemaV,
    tr: SchemaV,
    left_on: ExprV,
    right_on: ExprV,
    ps: Map<Seq<char>, ValueV>,
    known: Seq<(QuestionV, AnswerV)>,
)
    requires
        !(join_type is Cross),
        expr::substituted(condition, ps) == Ok::<ExprV, ErrorV>(
            ExprV::BinaryOp { left: Box::new(a), op: Operator::Eq, right: Box::new(b) },
        ),
        ({
            let q = ExprV::BinaryOp { left: Box::new(a), op: Operator::Eq, right: Box::new(b) };
            parts(q, ls, rs) && pushdown::is_unambiguous(q, pushdown::joined(ls, rs)) && binding::matches_by_name(q, ls)
                && binding::matches_by_name(q, rs)
        }),
        relation::alike(tl, ls),
        relation::alike(tr, rs),
        ls.columns.len() + rs.columns.len() <= usize::MAX,
        expr::bound(physical::join_sides(a, b, tl, tr).0, tl) == Ok::<ExprV, ErrorV>(left_on),
        expr::bound(physical::join_sides(a, b, tl, tr).1, tr) == Ok::<ExprV, ErrorV>(right_on),
    ensures
        relation::equal_keys(left_on, right_on, tl, tr, known) == relation::matching(
            condition,
            join_type,
            ls,
            rs,
            ps,
            known,
        ),
{
    let q = ExprV::BinaryOp { left: Box::new(a), op: Operator::Eq, right: Box::new(b) };
    let sides = physical::join_sides(a, b, tl, tr);
    let all = pushdown::joined(ls, rs);
    covering_is_having(ls, tl, a);
    covering_is_having(ls, tl, b);
    covering_is_having(rs, tr, a);
    covering_is_having(rs, tr, b);
    assert(expr::expr_columns(a).subset_of(expr::expr_columns(q)));
    assert(expr::expr_columns(b).subset_of(expr::expr_columns(q)));
    let f = relation::equal_keys(left_on, right_on, tl, tr, known);
    let g = relation::matching(condition, join_type, ls, rs, ps, known);
    assert forall|l: Seq<ValueV>, r: Seq<ValueV>| #[trigger] f(l, r) == g(l, r) by {
        reveal(relation::input);
        reveal(relation::plain_input);
        if l.len() == ls.columns.len() && r.len() == rs.columns.len() {
            operand_value(sides.0, left_on, ls, tl, l, known);
            operand_value(sides.1, right_on, rs, tr, r, known);
            pushdown::value_on_a_side_is_the_joined_one(a, ls, rs, l, r, known);
            pushdown::value_on_a_side_is_the_joined_one(b, ls, rs, l, r, known);
            equality_is_true(a, b, l + r, all, known);
        }
    }
    assert(f =~= g);
}

// ---------------------------------------------------------------- schemas

proof fn joined_alike(ls: SchemaV, rs: SchemaV, tl: SchemaV, tr: SchemaV)
    requires
        relation::alike(tl, ls),
        relation::alike(tr, rs),
        ls.columns.len() + rs.columns.len() <= usize::MAX,
    ensures
        relation::alike(pushdown::joined(tl, tr), pushdown::joined(ls, rs)),
{
    let a = pushdown::joined(tl, tr);
    let b = pushdown::joined(ls, rs);
    assert forall|i: int| 0 <= i < a.columns.len() implies (#[trigger] a.columns[i]).name == b.columns[i].name by {
        if i < ls.columns.len() {
            assert(a.columns[i].name == tl.columns[i].name);
        } else {
            assert(a.columns[i].name == tr.columns[i - ls.columns.len()].name);
        }
    }
}

// ---------------------------------------------------------------- plans

proof fn filter_gives_the_rows(source: PlanV, predicate: ExprV, x: ExprV, src: PhysicalV, c: PhysicalV, ps: Map<Seq<char>, ValueV>, w: World)
    requires
        gives_the_rows(src, source, ps, w),
        relation::is_clear(predicate, logical::plan_schema(source), ps),
        expr::substituted(predicate, ps) == Ok::<ExprV, ErrorV>(x),
        physical::filter_of(x, src) == Ok::<PhysicalV, ErrorV>(c),
    ensures
        gives_the_rows(c, PlanV::Filter { source: Box::new(source), predicate }, ps, w),
{
    reveal(gives_the_rows);
    reveal(physical::filter_of);
    let t = physical::physical_schema(src);
    let b = expr::bound(x, t)->Ok_0;
    relation::bound_input(predicate, x, b, logical::plan_schema(source), t, ps, w.known);
}

proof fn projection_gives_the_rows(
    source: PlanV,
    expressions: Seq<ExprV>,
    names: Seq<Seq<char>>,
    es: Seq<ExprV>,
    src: PhysicalV,
    c: PhysicalV,
    ps: Map<Seq<char>, ValueV>,
    w: World,
)
    requires
        gives_the_rows(src, source, ps, w),
        forall|i: int|
            0 <= i < expressions.len() ==> relation::is_clear(#[trigger] expressions[i], logical::plan_schema(source), ps),
        facts::collected(expr::substituted_each(expressions, ps), 0, Seq::empty()) == Ok::<Seq<ExprV>, ErrorV>(es),
        physical::projection_of(es, names, src) == Ok::<PhysicalV, ErrorV>(c),
        logical::plan_schema(logical::projection_of(source, expressions, names)).columns.len() <= usize::MAX,
    ensures
        gives_the_rows(c, logical::projection_of(source, expressions, names), ps, w),
{
    reveal(gives_the_rows);
    reveal(physical::projection_of);
    let t = physical::physical_schema(src);
    let bs = facts::collected(expr::bound_each(es, t), 0, Seq::empty())->Ok_0;
    relation::bound_inputs(expressions, es, bs, logical::plan_schema(source), t, ps, w.known);
    let a = physical::physical_schema(c);
    let b = logical::plan_schema(logical::projection_of(source, expressions, names));
    assert(a.columns.len() == b.columns.len());
    assert forall|i: int| 0 <= i < a.columns.len() implies (#[trigger] a.columns[i]).name == b.columns[i].name by {}
}

proof fn sort_gives_the_rows(
    source: PlanV,
    keys: Seq<(ExprV, bool)>,
    ks: Seq<(ExprV, bool)>,
    src: PhysicalV,
    c: PhysicalV,
    ps: Map<Seq<char>, ValueV>,
    w: World,
)
    requires
        gives_the_rows(src, source, ps, w),
        forall|i: int|
            0 <= i < keys.len() ==> relation::is_clear((#[trigger] keys[i]).0, logical::plan_schema(source), ps),
        facts::collected(logical::substituted_keys(keys, ps), 0, Seq::empty()) == Ok::<Seq<(ExprV, bool)>, ErrorV>(ks),
        physical::sort_of(ks, src) == Ok::<PhysicalV, ErrorV>(c),
    ensures
        gives_the_rows(c, PlanV::Sort { source: Box::new(source), keys }, ps, w),
{
    reveal(gives_the_rows);
    reveal(physical::sort_of);
    let t = physical::physical_schema(src);
    let bs = facts::collected(physical::bound_keys(ks, t), 0, Seq::empty())->Ok_0;
    relation::bound_sort_inputs(keys, ks, bs, logical::plan_schema(source), t, ps, w.known);
}

proof fn aggregate_gives_the_rows(
    source: PlanV,
    group_by: Seq<ExprV>,
    aggrs: Seq<AggregateV>,
    names: Seq<Seq<char>>,
    g: Seq<ExprV>,
    a: Seq<AggregateV>,
    in_order: bool,
    src: PhysicalV,
    c: PhysicalV,
    ps: Map<Seq<char>, ValueV>,
    w: World,
)
    requires
        gives_the_rows(src, source, ps, w),
        forall|i: int|
            0 <= i < group_by.len() ==> relation::is_clear(#[trigger] group_by[i], logical::plan_schema(source), ps),
        forall|i: int|
            0 <= i < aggrs.len() ==> relation::is_clear(
                relation::argument(#[trigger] aggrs[i]),
                logical::plan_schema(source),
                ps,
            ),
        facts::collected(expr::substituted_each(group_by, ps), 0, Seq::empty()) == Ok::<Seq<ExprV>, ErrorV>(g),
        facts::collected(logical::substituted_aggrs(aggrs, ps), 0, Seq::empty()) == Ok::<Seq<AggregateV>, ErrorV>(a),
        physical::aggregate_of(g, a, names, in_order, src) == Ok::<PhysicalV, ErrorV>(c),
        logical::plan_schema(logical::aggregate_of(source, group_by, aggrs, names)).columns.len() <= usize::MAX,
    ensures
        gives_the_rows(c, logical::aggregate_of(source, group_by, aggrs, names), ps, w),
{
    reveal(gives_the_rows);
    reveal(physical::aggregate_of);
    let t = physical::physical_schema(src);
    let bg = facts::collected(expr::bound_each(g, t), 0, Seq::empty())->Ok_0;
    let ba = facts::collected(physical::bound_aggrs(a, t), 0, Seq::empty())->Ok_0;
    relation::bound_inputs(group_by, g, bg, logical::plan_schema(source), t, ps, w.known);
    relation::bound_measures(aggrs, a, ba, logical::plan_schema(source), t, ps, w.known);
    let x = physical::physical_schema(c);
    let y = logical::plan_schema(logical::aggregate_of(source, group_by, aggrs, names));
    assert(x.columns.len() == y.columns.len());
    assert forall|i: int| 0 <= i < x.columns.len() implies (#[trigger] x.columns[i]).name == y.columns[i].name by {}
}

proof fn join_gives_the_rows(
    left: PlanV,
    right: PlanV,
    condition: ExprV,
    join_type: JoinType,
    q: ExprV,
    l: PhysicalV,
    r: PhysicalV,
    c: PhysicalV,
    ps: Map<Seq<char>, ValueV>,
    w: World,
)
    requires
        gives_the_rows(l, left, ps, w),
        gives_the_rows(r, right, ps, w),
        expr::substituted(condition, ps) == Ok::<ExprV, ErrorV>(q),
        join_type is Cross || parts(q, logical::plan_schema(left), logical::plan_schema(right))
            && pushdown::is_unambiguous(q, pushdown::joined(logical::plan_schema(left), logical::plan_schema(right)))
            && binding::matches_by_name(q, logical::plan_schema(left)) && binding::matches_by_name(
            q,
            logical::plan_schema(right),
        ),
        physical::join_of(q, join_type, l, r) == Ok::<PhysicalV, ErrorV>(c),
        logical::plan_schema(left).columns.len() + logical::plan_schema(right).columns.len() <= usize::MAX,
    ensures
        gives_the_rows(c, logical::join_of(left, right, condition, join_type), ps, w),
{
    reveal(gives_the_rows);
    reveal(physical::join_of);
    let ls = logical::plan_schema(left);
    let rs = logical::plan_schema(right);
    let tl = physical::physical_schema(l);
    let tr = physical::physical_schema(r);
    joined_alike(ls, rs, tl, tr);
    assert(logical::plan_schema(logical::join_of(left, right, condition, join_type)) == pushdown::joined(ls, rs));
    assert(physical::physical_schema(c) == pushdown::joined(tl, tr));
    if join_type is Cross {
        let f = relation::any_keys(tl, tr);
        let g = relation::matching(condition, join_type, ls, rs, ps, w.known);
        assert forall|x: Seq<ValueV>, y: Seq<ValueV>| #[trigger] f(x, y) == g(x, y) by {}
        assert(f =~= g);
    } else if let ExprV::BinaryOp { left: a, op, right: b } = q {
        let sides = physical::join_sides(*a, *b, tl, tr);
        let left_on = expr::bound(sides.0, tl)->Ok_0;
        let right_on = expr::bound(sides.1, tr)->Ok_0;
        merge_join_matches(condition, *a, *b, join_type, ls, rs, tl, tr, left_on, right_on, ps, w.known);
        assert(relation::filler(join_type, tr) == relation::filler(join_type, rs));
    }
}

proof fn limit_gives_the_rows(
    source: PlanV,
    limit: Option<usize>,
    offset: usize,
    src: PhysicalV,
    c: PhysicalV,
    cols: Option<Set<Seq<char>>>,
    ps: Map<Seq<char>, ValueV>,
    w: World,
)
    requires
        gives_the_rows(src, source, ps, w),
        physical::compiled(source, cols, ps) == Ok::<PhysicalV, ErrorV>(src),
        physical::compiled(PlanV::Limit { source: Box::new(source), limit, offset }, cols, ps) == Ok::<PhysicalV, ErrorV>(c),
    ensures
        gives_the_rows(c, PlanV::Limit { source: Box::new(source), limit, offset }, ps, w),
{
    reveal(gives_the_rows);
}

proof fn distinct_gives_the_rows(
    source: PlanV,
    src: PhysicalV,
    c: PhysicalV,
    cols: Option<Set<Seq<char>>>,
    ps: Map<Seq<char>, ValueV>,
    w: World,
)
    requires
        gives_the_rows(src, source, ps, w),
        physical::compiled(source, cols, ps) == Ok::<PhysicalV, ErrorV>(src),
        physical::compiled(PlanV::Distinct { source: Box::new(source) }, cols, ps) == Ok::<PhysicalV, ErrorV>(c),
    ensures
        gives_the_rows(c, PlanV::Distinct { source: Box::new(source) }, ps, w),
{
    reveal(gives_the_rows);
}

proof fn set_op_gives_the_rows(
    left: PlanV,
    right: PlanV,
    op: SetOpType,
    all: bool,
    l: PhysicalV,
    r: PhysicalV,
    c: PhysicalV,
    cols: Option<Set<Seq<char>>>,
    ps: Map<Seq<char>, ValueV>,
    w: World,
)
    requires
        gives_the_rows(l, left, ps, w),
        gives_the_rows(r, right, ps, w),
        physical::compiled(left, cols, ps) == Ok::<PhysicalV, ErrorV>(l),
        physical::compiled(right, cols, ps) == Ok::<PhysicalV, ErrorV>(r),
        physical::compiled(PlanV::SetOp { left: Box::new(left), right: Box::new(right), op, all }, cols, ps) == Ok::<
            PhysicalV,
            ErrorV,
        >(c),
    ensures
        gives_the_rows(c, PlanV::SetOp { left: Box::new(left), right: Box::new(right), op, all }, ps, w),
{
    reveal(gives_the_rows);
}

/// A compiled plan gives the rows of the plan: whatever the tables hold, and whatever joining,
/// sorting, limiting, grouping and combining make of rows. It holds of plans whose nodes have the
/// schemas that their sources give them, and whose expressions say which columns they read.
#[verifier::rlimit(60)]
#[verifier::spinoff_prover]
pub proof fn compiled_plans_give_the_rows(
    p: PlanV,
    cols: Option<Set<Seq<char>>>,
    ps: Map<Seq<char>, ValueV>,
    w: World,
)
    requires
        is_built(p),
        is_legible(p, ps),
    ensures
        physical::compiled(p, cols, ps) matches Ok(c) ==> gives_the_rows(c, p, ps, w),
    decreases p,
{
    if physical::compiled(p, cols, ps) is Ok {
        let c = physical::compiled(p, cols, ps)->Ok_0;
        match p {
            PlanV::Filter { source, predicate } => {
                let x = expr::substituted(predicate, ps)->Ok_0;
                let cs = physical::united(cols, expr::expr_columns(x));
                compiled_plans_give_the_rows(*source, cs, ps, w);
                filter_gives_the_rows(*source, predicate, x, physical::compiled(*source, cs, ps)->Ok_0, c, ps, w);
            },
            PlanV::Projection { source, expressions, field_names, .. } => {
                let es = facts::collected(expr::substituted_each(expressions, ps), 0, Seq::empty())->Ok_0;
                let cs = Some(expr::exprs_columns(es));
                compiled_plans_give_the_rows(*source, cs, ps, w);
                projection_gives_the_rows(
                    *source,
                    expressions,
                    field_names,
                    es,
                    physical::compiled(*source, cs, ps)->Ok_0,
                    c,
                    ps,
                    w,
                );
            },
            PlanV::Limit { source, limit, offset } => {
                compiled_plans_give_the_rows(*source, cols, ps, w);
                limit_gives_the_rows(
                    *source,
                    limit,
                    offset,
                    physical::compiled(*source, cols, ps)->Ok_0,
                    c,
                    cols,
                    ps,
                    w,
                );
            },
            PlanV::Distinct { source } => {
                compiled_plans_give_the_rows(*source, cols, ps, w);
                distinct_gives_the_rows(*source, physical::compiled(*source, cols, ps)->Ok_0, c, cols, ps, w);
            },
            PlanV::Sort { source, keys } => {
                let ks = facts::collected(logical::substituted_keys(keys, ps), 0, Seq::empty())->Ok_0;
                let cs = physical::united(cols, logical::sort_keys_columns(ks));
                compiled_plans_give_the_rows(*source, cs, ps, w);
                sort_gives_the_rows(*source, keys, ks, physical::compiled(*source, cs, ps)->Ok_0, c, ps, w);
            },
            PlanV::Join { left, right, condition, join_type, .. } => {
                let q = expr::substituted(condition, ps)->Ok_0;
                let cl = physical::side_columns(cols, q, logical::plan_schema(*left));
                let cr = physical::side_columns(cols, q, logical::plan_schema(*right));
                compiled_plans_give_the_rows(*left, cl, ps, w);
                compiled_plans_give_the_rows(*right, cr, ps, w);
                join_gives_the_rows(
                    *left,
                    *right,
                    condition,
                    join_type,
                    q,
                    physical::compiled(*left, cl, ps)->Ok_0,
                    physical::compiled(*right, cr, ps)->Ok_0,
                    c,
                    ps,
                    w,
                );
            },
            PlanV::Aggregate { source, group_by, aggrs, field_names, .. } => {
                let g = facts::collected(expr::substituted_each(group_by, ps), 0, Seq::empty())->Ok_0;
                let a = facts::collected(logical::substituted_aggrs(aggrs, ps), 0, Seq::empty())->Ok_0;
                let cs = Some(expr::exprs_columns(g) + logical::aggrs_columns(a));
                compiled_plans_give_the_rows(*source, cs, ps, w);
                aggregate_gives_the_rows(
                    *source,
                    group_by,
                    aggrs,
                    field_names,
                    g,
                    a,
                    physical::sorted_by(*source, g),
                    physical::compiled(*source, cs, ps)->Ok_0,
                    c,
                    ps,
                    w,
                );
            },
            PlanV::SetOp { left, right, op, all } => {
                compiled_plans_give_the_rows(*left, cols, ps, w);
                compiled_plans_give_the_rows(*right, cols, ps, w);
                set_op_gives_the_rows(
                    *left,
                    *right,
                    op,
                    all,
                    physical::compiled(*left, cols, ps)->Ok_0,
                    physical::compiled(*right, cols, ps)->Ok_0,
                    c,
                    cols,
                    ps,
                    w,
                );
            },
            _ => scans_give_the_rows(p, cols, ps, w),
        }
    }
}

/// The rows of a limit: those after the first `offset`, and no more than `limit` of them.
pub open spec fn cut(rows: Seq<Seq<ValueV>>, limit: Option<usize>, offset: usize) -> Seq<Seq<ValueV>> {
    let rest = if offset <= rows.len() {
        rows.skip(offset as int)
    } else {
        Seq::empty()
    };
    match limit {
        Some(n) => if n <= rest.len() {
            rest.take(n as int)
        } else {
            rest
        },
        None => rest,
    }
}

/// A compiled LIMIT with an OFFSET leaves out the first rows of its source, as many as the offset
/// says, and gives the next ones in order, as many as the limit says or as there are.
pub proof fn compiled_limits_skip_and_take(
    source: PlanV,
    limit: Option<usize>,
    offset: usize,
    cols: Option<Set<Seq<char>>>,
    ps: Map<Seq<char>, ValueV>,
    w: World,
)
    requires
        is_built(source),
        is_legible(source, ps),
        forall|r: Seq<Seq<ValueV>>, l: Option<usize>, o: usize| #[trigger] (w.limited)(r, l, o) == cut(r, l, o),
    ensures
        physical::compiled(PlanV::Limit { source: Box::new(source), limit, offset }, cols, ps) matches Ok(c) ==> {
            let all = relation::rows(source, ps, w);
            let some = relation::given(c, w);
            let left = if all.len() < offset {
                0
            } else {
                all.len() - offset
            };
            &&& some.len() == if limit is Some && limit->0 < left {
                limit->0 as int
            } else {
                left
            }
            &&& forall|i: int| 0 <= i < some.len() ==> #[trigger] some[i] == all[offset + i]
        },
{
    let p = PlanV::Limit { source: Box::new(source), limit, offset };
    if physical::compiled(p, cols, ps) is Ok {
        let src = physical::compiled(source, cols, ps)->Ok_0;
        compiled_plans_give_the_rows(source, cols, ps, w);
        cut_of_the_rows(source, limit, offset, src, ps, w);
    }
}

proof fn cut_of_the_rows(
    source: PlanV,
    limit: Option<usize>,
    offset: usize,
    src: PhysicalV,
    ps: Map<Seq<char>, ValueV>,
    w: World,
)
    requires
        gives_the_rows(src, source, ps, w),
        forall|r: Seq<Seq<ValueV>>, l: Option<usize>, o: usize| #[trigger] (w.limited)(r, l, o) == cut(r, l, o),
    ensures
        relation::given(PhysicalV::Limit { source: Box::new(src), limit, offset }, w) == cut(
            relation::rows(source, ps, w),
            limit,
            offset,
        ),
{
    reveal(gives_the_rows);
}

} // verus!
