//! Why moving predicates down keeps the rows of a query: the rows that they accept are read as
//! before, each as often.

use crate::bags;
use crate::bounds;
use crate::eval;
use crate::expr;
use crate::expr::{ExprV, Operator};
use crate::expr_laws;
use crate::facts;
use crate::facts::{AnswerV, ErrorV, QuestionV};
use crate::kept;
use crate::logical;
use crate::logical::{JoinType, PlanV};
use crate::lowering;
use crate::modify;
use crate::optimizer;
use crate::optimizer::{Optimizer, PathV, Side};
use crate::physical;
use crate::pushdown;
use crate::ranges;
use crate::relation;
use crate::relation::World;
use crate::reshaped;
use crate::schema;
use crate::schema::{IndexType, SchemaV};
use crate::cost::TableStatistics;
use crate::value::{DataType, ValueV};
use vstd::prelude::*;

verus! {

// ---------------------------------------------------------------- predicates

/// Whether every one of some predicates is true of a row.
pub open spec fn all_true(
    es: Seq<ExprV>,
    s: SchemaV,
    ps: Map<Seq<char>, ValueV>,
    known: Seq<(QuestionV, AnswerV)>,
) -> spec_fn(Seq<ValueV>) -> bool {
    |row: Seq<ValueV>|
        forall|i: int| 0 <= i < es.len() ==> relation::is_true(relation::input(#[trigger] es[i], s, ps, known)(row))
}

/// Whether a predicate is true of a row.
pub open spec fn one_true(
    e: ExprV,
    s: SchemaV,
    ps: Map<Seq<char>, ValueV>,
    known: Seq<(QuestionV, AnswerV)>,
    row: Seq<ValueV>,
) -> bool {
    relation::is_true(relation::input(e, s, ps, known)(row))
}

/// A predicate is true of the rows that it accepts with its parameters bound.
pub proof fn true_is_accepted(
    e: ExprV,
    s: SchemaV,
    ps: Map<Seq<char>, ValueV>,
    known: Seq<(QuestionV, AnswerV)>,
    row: Seq<ValueV>,
)
    ensures
        one_true(e, s, ps, known, row) == (expr::substituted(e, ps) matches Ok(q) && ranges::accepts(q, row, s, known)),
{
    reveal(relation::input);
    reveal(ranges::accepts);
}

proof fn and_is_true(
    l: ExprV,
    r: ExprV,
    s: SchemaV,
    ps: Map<Seq<char>, ValueV>,
    known: Seq<(QuestionV, AnswerV)>,
    row: Seq<ValueV>,
)
    ensures
        one_true((ExprV::BinaryOp { left: Box::new(l), op: Operator::And, right: Box::new(r) }), s, ps, known, row) == (
        one_true(l, s, ps, known, row) && one_true(r, s, ps, known, row)),
{
    let e = ExprV::BinaryOp { left: Box::new(l), op: Operator::And, right: Box::new(r) };
    true_is_accepted(e, s, ps, known, row);
    true_is_accepted(l, s, ps, known, row);
    true_is_accepted(r, s, ps, known, row);
    if let (Ok(x), Ok(y)) = (expr::substituted(l, ps), expr::substituted(r, ps)) {
        kept::and_accepts(x, y, row, s, known);
    }
}

proof fn both_are_true(
    a: Seq<ExprV>,
    b: Seq<ExprV>,
    s: SchemaV,
    ps: Map<Seq<char>, ValueV>,
    known: Seq<(QuestionV, AnswerV)>,
    row: Seq<ValueV>,
)
    ensures
        all_true(a + b, s, ps, known)(row) == (all_true(a, s, ps, known)(row) && all_true(b, s, ps, known)(row)),
{
    let all = a + b;
    if all_true(all, s, ps, known)(row) {
        assert forall|i: int| 0 <= i < a.len() implies relation::is_true(
            relation::input(#[trigger] a[i], s, ps, known)(row),
        ) by {
            assert(all[i] == a[i]);
        }
        assert forall|i: int| 0 <= i < b.len() implies relation::is_true(
            relation::input(#[trigger] b[i], s, ps, known)(row),
        ) by {
            assert(all[a.len() + i] == b[i]);
        }
    }
}

proof fn one_of_one(
    e: ExprV,
    s: SchemaV,
    ps: Map<Seq<char>, ValueV>,
    known: Seq<(QuestionV, AnswerV)>,
    row: Seq<ValueV>,
)
    ensures
        all_true(seq![e], s, ps, known)(row) == one_true(e, s, ps, known, row),
{
    let es = seq![e];
    assert(es[0] == e);
    if all_true(es, s, ps, known)(row) {
        assert(relation::is_true(relation::input(es[0], s, ps, known)(row)));
    }
}

/// A predicate is true where all its conjuncts are.
pub proof fn conjuncts_are_true(
    e: ExprV,
    s: SchemaV,
    ps: Map<Seq<char>, ValueV>,
    known: Seq<(QuestionV, AnswerV)>,
    row: Seq<ValueV>,
)
    ensures
        one_true(e, s, ps, known, row) == all_true(optimizer::conjuncts(e), s, ps, known)(row),
    decreases e,
{
    match e {
        ExprV::BinaryOp { left, op: Operator::And, right } => {
            conjuncts_are_true(*left, s, ps, known, row);
            conjuncts_are_true(*right, s, ps, known, row);
            and_is_true(*left, *right, s, ps, known, row);
            both_are_true(optimizer::conjuncts(*left), optimizer::conjuncts(*right), s, ps, known, row);
        },
        _ => {
            assert(optimizer::conjuncts(e) =~= seq![e]);
            one_of_one(e, s, ps, known, row);
        },
    }
}

/// The conjunction of some predicates is true where all of them are.
pub proof fn conjunction_is_true(
    es: Seq<ExprV>,
    s: SchemaV,
    ps: Map<Seq<char>, ValueV>,
    known: Seq<(QuestionV, AnswerV)>,
    row: Seq<ValueV>,
)
    requires
        es.len() > 0,
    ensures
        one_true(optimizer::conjunction_of(es), s, ps, known, row) == all_true(es, s, ps, known)(row),
    decreases es.len(),
{
    if es.len() > 1 {
        let shorter = es.drop_last();
        conjunction_is_true(shorter, s, ps, known, row);
        and_is_true(optimizer::conjunction_of(shorter), es.last(), s, ps, known, row);
        both_are_true(shorter, seq![es.last()], s, ps, known, row);
        one_of_one(es.last(), s, ps, known, row);
        assert(es =~= shorter + seq![es.last()]);
    } else {
        one_of_one(es[0], s, ps, known, row);
        assert(es =~= seq![es[0]]);
    }
}

// ---------------------------------------------------------------- served predicates

/// Whether a plan gives the rows of another one of which some predicates are true.
#[verifier::opaque]
pub open spec fn serves(q: PlanV, p: PlanV, es: Seq<ExprV>, ps: Map<Seq<char>, ValueV>, w: World) -> bool {
    &&& bags::same(
        relation::rows(q, ps, w),
        pushdown::passing(relation::rows(p, ps, w), all_true(es, logical::plan_schema(p), ps, w.known)),
    )
    &&& logical::plan_schema(q) == logical::plan_schema(p)
}

proof fn everything_passes(rows: Seq<Seq<ValueV>>, test: spec_fn(Seq<ValueV>) -> bool)
    requires
        forall|x: Seq<ValueV>| #[trigger] test(x),
    ensures
        pushdown::passing(rows, test) == rows,
    decreases rows.len(),
{
    if rows.len() > 0 {
        everything_passes(rows.drop_first(), test);
        assert(test(rows[0]));
        assert(pushdown::passing(rows, test) =~= rows);
    }
}

proof fn none_are_true(s: SchemaV, ps: Map<Seq<char>, ValueV>, known: Seq<(QuestionV, AnswerV)>, rows: Seq<Seq<ValueV>>)
    ensures
        pushdown::passing(rows, all_true(Seq::empty(), s, ps, known)) == rows,
{
    let t = all_true(Seq::empty(), s, ps, known);
    assert forall|x: Seq<ValueV>| #[trigger] t(x) by {}
    everything_passes(rows, t);
}

/// A filter for some predicates, or none where there are none.
proof fn filter_serves(es: Seq<ExprV>, x: PlanV, y: PlanV, ps: Map<Seq<char>, ValueV>, w: World)
    requires
        bags::same(relation::rows(x, ps, w), relation::rows(y, ps, w)),
        logical::plan_schema(x) == logical::plan_schema(y),
    ensures
        serves(optimizer::filtered(es, x), y, es, ps, w),
{
    reveal(serves);
    let s = logical::plan_schema(y);
    let t = all_true(es, s, ps, w.known);
    if es.len() == 0 {
        assert(es =~= Seq::empty());
        none_are_true(s, ps, w.known, relation::rows(y, ps, w));
    } else {
        let u = relation::test(relation::input(optimizer::conjunction_of(es), s, ps, w.known));
        assert forall|row: Seq<ValueV>| #[trigger] relation::rows(x, ps, w).contains(row) implies u(row) == t(row) by {
            conjunction_is_true(es, s, ps, w.known, row);
        }
        bags::passing_same(relation::rows(x, ps, w), relation::rows(y, ps, w), u, t);
    }
}

/// A plan that serves no predicate stands for the plan.
proof fn serves_none(q: PlanV, p: PlanV, ps: Map<Seq<char>, ValueV>, w: World)
    requires
        serves(q, p, Seq::empty(), ps, w),
        logical::plan_schema(p).columns.len() <= usize::MAX,
    ensures
        reshaped::stands_for(q, p, ps, w),
{
    reveal(serves);
    reveal(reshaped::stands_for);
    none_are_true(logical::plan_schema(p), ps, w.known, relation::rows(p, ps, w));
}

proof fn stands_serves(x: PlanV, y: PlanV, es: Seq<ExprV>, ps: Map<Seq<char>, ValueV>, w: World)
    requires
        reshaped::stands_for(x, y, ps, w),
        logical::plan_schema(x) == logical::plan_schema(y),
    ensures
        serves(optimizer::filtered(es, x), y, es, ps, w),
{
    reveal(reshaped::stands_for);
    filter_serves(es, x, y, ps, w);
}

proof fn below_a_filter(
    q: PlanV,
    source: PlanV,
    predicate: ExprV,
    es: Seq<ExprV>,
    ps: Map<Seq<char>, ValueV>,
    w: World,
)
    requires
        serves(q, source, es + optimizer::conjuncts(predicate), ps, w),
    ensures
        serves(q, (PlanV::Filter { source: Box::new(source), predicate }), es, ps, w),
{
    reveal(serves);
    let s = logical::plan_schema(source);
    let rows = relation::rows(source, ps, w);
    let f = relation::test(relation::input(predicate, s, ps, w.known));
    let g = all_true(es, s, ps, w.known);
    let h = all_true(es + optimizer::conjuncts(predicate), s, ps, w.known);
    assert forall|x: Seq<ValueV>| #[trigger] rows.contains(x) implies h(x) == (f(x) && g(x)) by {
        both_are_true(es, optimizer::conjuncts(predicate), s, ps, w.known, x);
        conjuncts_are_true(predicate, s, ps, w.known, x);
    }
    bags::passing_twice(rows, f, g, h);
}

proof fn below_a_sort(
    q: PlanV,
    source: PlanV,
    keys: Seq<(ExprV, bool)>,
    es: Seq<ExprV>,
    ps: Map<Seq<char>, ValueV>,
    w: World,
)
    requires
        reshaped::is_fair(w),
        serves(q, source, es, ps, w),
    ensures
        serves(
            (PlanV::Sort { source: Box::new(q), keys }),
            (PlanV::Sort { source: Box::new(source), keys }),
            es,
            ps,
            w,
        ),
{
    reveal(serves);
    let t = all_true(es, logical::plan_schema(source), ps, w.known);
    let sort = PlanV::Sort { source: Box::new(source), keys };
    bags::passing_same(relation::rows(sort, ps, w), relation::rows(source, ps, w), t, t);
}

proof fn below_a_distinct(q: PlanV, source: PlanV, es: Seq<ExprV>, ps: Map<Seq<char>, ValueV>, w: World)
    requires
        reshaped::is_fair(w),
        serves(q, source, es, ps, w),
    ensures
        serves((PlanV::Distinct { source: Box::new(q) }), (PlanV::Distinct { source: Box::new(source) }), es, ps, w),
{
    broadcast use vstd::multiset::group_multiset_axioms;

    reveal(serves);
    let t = all_true(es, logical::plan_schema(source), ps, w.known);
    let a = relation::rows(q, ps, w);
    let b = relation::rows(source, ps, w);
    let x = (w.distinct)(a).to_multiset();
    let y = pushdown::passing((w.distinct)(b), t).to_multiset();
    assert forall|row: Seq<ValueV>| x.count(row) == y.count(row) by {
        bags::passing_counts((w.distinct)(b), t, row);
        bags::same_contains(a, pushdown::passing(b, t), row);
        bags::passing_contains(b, t, row);
    }
    assert(x =~= y);
}

// ---------------------------------------------------------------- joins

/// A predicate with its parameters bound.
pub open spec fn bound_one(e: ExprV, ps: Map<Seq<char>, ValueV>) -> ExprV {
    expr::substituted(e, ps)->Ok_0
}

/// Some predicates with their parameters bound.
pub open spec fn bound(es: Seq<ExprV>, ps: Map<Seq<char>, ValueV>) -> Seq<ExprV> {
    es.map_values(|e: ExprV| bound_one(e, ps))
}

/// Whether every parameter of a predicate has a value, and binding them leaves its columns alone.
pub open spec fn is_bound(e: ExprV, ps: Map<Seq<char>, ValueV>) -> bool {
    expr::substituted(e, ps) is Ok && expr::expr_columns(bound_one(e, ps)) == expr::expr_columns(e)
}

pub open spec fn are_bound(es: Seq<ExprV>, ps: Map<Seq<char>, ValueV>) -> bool {
    forall|i: int| 0 <= i < es.len() ==> is_bound(#[trigger] es[i], ps)
}

proof fn bound_are_true(
    es: Seq<ExprV>,
    s: SchemaV,
    ps: Map<Seq<char>, ValueV>,
    known: Seq<(QuestionV, AnswerV)>,
    row: Seq<ValueV>,
)
    requires
        are_bound(es, ps),
    ensures
        all_true(es, s, ps, known)(row) == pushdown::test_of(bound(es, ps), s, known)(row),
{
    let qs = bound(es, ps);
    if all_true(es, s, ps, known)(row) {
        assert forall|i: int| 0 <= i < qs.len() implies ranges::accepts(#[trigger] qs[i], row, s, known) by {
            assert(is_bound(es[i], ps));
            true_is_accepted(es[i], s, ps, known, row);
        }
    }
    if pushdown::test_of(qs, s, known)(row) {
        assert forall|i: int| 0 <= i < es.len() implies relation::is_true(
            relation::input(#[trigger] es[i], s, ps, known)(row),
        ) by {
            assert(is_bound(es[i], ps));
            assert(ranges::accepts(qs[i], row, s, known));
            true_is_accepted(es[i], s, ps, known, row);
        }
    }
}

proof fn sides_of_bound(
    es: Seq<ExprV>,
    ls: SchemaV,
    rs: SchemaV,
    join_type: JoinType,
    side: Side,
    i: int,
    acc: Seq<ExprV>,
    ps: Map<Seq<char>, ValueV>,
)
    requires
        0 <= i,
        are_bound(es, ps),
        are_bound(acc, ps),
    ensures
        optimizer::going_to(bound(es, ps), ls, rs, join_type, side, i, bound(acc, ps)) == bound(
            optimizer::going_to(es, ls, rs, join_type, side, i, acc),
            ps,
        ),
        are_bound(optimizer::going_to(es, ls, rs, join_type, side, i, acc), ps),
    decreases es.len() - i,
{
    if i < es.len() {
        assert(is_bound(es[i], ps));
        assert(bound(es, ps)[i] == bound_one(es[i], ps));
        if optimizer::side_of(es[i], ls, rs, join_type) == side {
            assert(bound(acc.push(es[i]), ps) =~= bound(acc, ps).push(bound_one(es[i], ps)));
            sides_of_bound(es, ls, rs, join_type, side, i + 1, acc.push(es[i]), ps);
        } else {
            sides_of_bound(es, ls, rs, join_type, side, i + 1, acc, ps);
        }
    }
}

/// What a join tests, with its parameters bound: nothing where it is a cross join, and a falsehood
/// where a parameter has no value.
pub open spec fn tested(condition: ExprV, join_type: JoinType, ps: Map<Seq<char>, ValueV>) -> ExprV {
    if join_type is Cross {
        ExprV::Literal(ValueV::Bool(true))
    } else {
        match expr::substituted(condition, ps) {
            Ok(q) => q,
            Err(_) => ExprV::Literal(ValueV::Bool(false)),
        }
    }
}

proof fn matching_is_tested(
    condition: ExprV,
    join_type: JoinType,
    ls: SchemaV,
    rs: SchemaV,
    l: Seq<ValueV>,
    r: Seq<ValueV>,
    ps: Map<Seq<char>, ValueV>,
    known: Seq<(QuestionV, AnswerV)>,
)
    requires
        l.len() == ls.columns.len(),
        r.len() == rs.columns.len(),
    ensures
        relation::matching(condition, join_type, ls, rs, ps, known)(l, r) == pushdown::test_of(
            seq![tested(condition, join_type, ps)],
            pushdown::joined(ls, rs),
            known,
        )(l + r),
{
    let q = tested(condition, join_type, ps);
    let es = seq![q];
    assert(es[0] == q);
    let all = pushdown::joined(ls, rs);
    true_is_accepted(condition, all, ps, known, l + r);
    if join_type is Cross || expr::substituted(condition, ps) is Err {
        reveal(ranges::accepts);
        assert(eval::evaluated(q, l + r, all, known) == Ok::<ValueV, ErrorV>(ValueV::Bool(join_type is Cross)));
    }
}

/// The rows of a join as lists of rows.
proof fn tested_rows(
    condition: ExprV,
    join_type: JoinType,
    ls: SchemaV,
    rs: SchemaV,
    a: Seq<Seq<ValueV>>,
    b: Seq<Seq<ValueV>>,
    ps: Map<Seq<char>, ValueV>,
    known: Seq<(QuestionV, AnswerV)>,
)
    requires
        pushdown::rows_of_schema(a, ls),
        pushdown::rows_of_schema(b, rs),
    ensures
        bags::joined(
            a,
            b,
            relation::matching(condition, join_type, ls, rs, ps, known),
            relation::filler(join_type, rs),
        ) == pushdown::join_rows(
            a,
            b,
            pushdown::test_of(seq![tested(condition, join_type, ps)], pushdown::joined(ls, rs), known),
            relation::filler(join_type, rs),
        ),
{
    let on = relation::matching(condition, join_type, ls, rs, ps, known);
    let t = pushdown::test_of(seq![tested(condition, join_type, ps)], pushdown::joined(ls, rs), known);
    assert forall|i: int, j: int| 0 <= i < a.len() && 0 <= j < b.len() implies on(#[trigger] a[i], #[trigger] b[j]) == t(
        a[i] + b[j],
    ) by {
        matching_is_tested(condition, join_type, ls, rs, a[i], b[j], ps, known);
    }
    bags::joined_is_join_rows(a, b, on, t, relation::filler(join_type, rs));
}

proof fn passing_is_wide(rows: Seq<Seq<ValueV>>, t: spec_fn(Seq<ValueV>) -> bool, s: SchemaV)
    requires
        reshaped::are_wide(rows, s.columns.len()),
    ensures
        pushdown::rows_of_schema(rows, s),
        pushdown::rows_of_schema(pushdown::passing(rows, t), s),
{
    let p = pushdown::passing(rows, t);
    assert forall|i: int| 0 <= i < rows.len() implies (#[trigger] rows[i]).len() == s.columns.len() by {
        assert(rows.contains(rows[i]));
    }
    assert forall|i: int| 0 <= i < p.len() implies (#[trigger] p[i]).len() == s.columns.len() by {
        assert(p.contains(p[i]));
        bags::passing_contains(rows, t, p[i]);
    }
}

/// Whether the predicates above a join say which of its columns they read.
pub open spec fn are_sorted_out(es: Seq<ExprV>, ls: SchemaV, rs: SchemaV, ps: Map<Seq<char>, ValueV>) -> bool {
    &&& are_bound(es, ps)
    &&& forall|i: int|
        0 <= i < es.len() ==> pushdown::is_unambiguous(bound_one(#[trigger] es[i], ps), pushdown::joined(ls, rs))
}

/// Predicates above a join accept the same rows where those that read one side only stand below it.
proof fn shared_predicates(
    es: Seq<ExprV>,
    condition: ExprV,
    join_type: JoinType,
    ls: SchemaV,
    rs: SchemaV,
    a: Seq<Seq<ValueV>>,
    b: Seq<Seq<ValueV>>,
    ps: Map<Seq<char>, ValueV>,
    known: Seq<(QuestionV, AnswerV)>,
)
    requires
        are_sorted_out(es, ls, rs, ps),
        reshaped::are_wide(a, ls.columns.len()),
        reshaped::are_wide(b, rs.columns.len()),
        ls.columns.len() + rs.columns.len() <= usize::MAX,
    ensures
        ({
            let to_left = optimizer::going_to(es, ls, rs, join_type, Side::Left, 0, Seq::empty());
            let to_right = optimizer::going_to(es, ls, rs, join_type, Side::Right, 0, Seq::empty());
            let above = optimizer::going_to(es, ls, rs, join_type, Side::Above, 0, Seq::empty());
            let on = relation::matching(condition, join_type, ls, rs, ps, known);
            let nulls = relation::filler(join_type, rs);
            let all = pushdown::joined(ls, rs);
            bags::same(
                pushdown::passing(
                    bags::joined(
                        pushdown::passing(a, all_true(to_left, ls, ps, known)),
                        pushdown::passing(b, all_true(to_right, rs, ps, known)),
                        on,
                        nulls,
                    ),
                    all_true(above, all, ps, known),
                ),
                pushdown::passing(bags::joined(a, b, on, nulls), all_true(es, all, ps, known)),
            )
        }),
{
    let none = Seq::<ExprV>::empty();
    let to_left = optimizer::going_to(es, ls, rs, join_type, Side::Left, 0, none);
    let to_right = optimizer::going_to(es, ls, rs, join_type, Side::Right, 0, none);
    let above = optimizer::going_to(es, ls, rs, join_type, Side::Above, 0, none);
    let on = relation::matching(condition, join_type, ls, rs, ps, known);
    let nulls = relation::filler(join_type, rs);
    let all = pushdown::joined(ls, rs);
    let qs = bound(es, ps);
    let q = tested(condition, join_type, ps);
    assert(bound(none, ps) =~= none);
    sides_of_bound(es, ls, rs, join_type, Side::Left, 0, none, ps);
    sides_of_bound(es, ls, rs, join_type, Side::Right, 0, none, ps);
    sides_of_bound(es, ls, rs, join_type, Side::Above, 0, none, ps);
    let f = all_true(to_left, ls, ps, known);
    let g = all_true(to_right, rs, ps, known);
    let h = all_true(above, all, ps, known);
    let k = all_true(es, all, ps, known);
    let f2 = pushdown::test_of(bound(to_left, ps), ls, known);
    let g2 = pushdown::test_of(bound(to_right, ps), rs, known);
    let h2 = pushdown::test_of(bound(above, ps), all, known);
    let k2 = pushdown::test_of(qs, all, known);
    assert forall|x: Seq<ValueV>| #[trigger] f(x) == f2(x) by {
        bound_are_true(to_left, ls, ps, known, x);
    }
    assert forall|x: Seq<ValueV>| #[trigger] g(x) == g2(x) by {
        bound_are_true(to_right, rs, ps, known, x);
    }
    assert forall|x: Seq<ValueV>| #[trigger] h(x) == h2(x) by {
        bound_are_true(above, all, ps, known, x);
    }
    assert forall|x: Seq<ValueV>| #[trigger] k(x) == k2(x) by {
        bound_are_true(es, all, ps, known, x);
    }
    assert(f =~= f2);
    assert(g =~= g2);
    assert(h =~= h2);
    assert(k =~= k2);
    passing_is_wide(a, f, ls);
    passing_is_wide(b, g, rs);
    tested_rows(condition, join_type, ls, rs, a, b, ps, known);
    tested_rows(
        condition,
        join_type,
        ls,
        rs,
        pushdown::passing(a, f),
        pushdown::passing(b, g),
        ps,
        known,
    );
    assert forall|j: int| 0 <= j < qs.len() implies pushdown::is_unambiguous(#[trigger] qs[j], all) by {
        assert(qs[j] == bound_one(es[j], ps));
    }
    pushdown::pushing_below_a_join_keeps_rows(qs, q, join_type, ls, rs, a, b, nulls, known);
}

proof fn below_a_join(
    l: PlanV,
    r: PlanV,
    left: PlanV,
    right: PlanV,
    condition: ExprV,
    join_type: JoinType,
    es: Seq<ExprV>,
    ps: Map<Seq<char>, ValueV>,
    w: World,
)
    requires
        reshaped::is_fair(w),
        lowering::is_built(left),
        lowering::is_built(right),
        reshaped::fits(left, w),
        reshaped::fits(right, w),
        logical::plan_schema(left).columns.len() + logical::plan_schema(right).columns.len() <= usize::MAX,
        are_sorted_out(es, logical::plan_schema(left), logical::plan_schema(right), ps),
        ({
            let ls = logical::plan_schema(left);
            let rs = logical::plan_schema(right);
            &&& serves(l, left, optimizer::going_to(es, ls, rs, join_type, Side::Left, 0, Seq::empty()), ps, w)
            &&& serves(r, right, optimizer::going_to(es, ls, rs, join_type, Side::Right, 0, Seq::empty()), ps, w)
        }),
    ensures
        ({
            let ls = logical::plan_schema(left);
            let rs = logical::plan_schema(right);
            serves(
                optimizer::filtered(
                    optimizer::going_to(es, ls, rs, join_type, Side::Above, 0, Seq::empty()),
                    logical::join_of(l, r, condition, join_type),
                ),
                logical::join_of(left, right, condition, join_type),
                es,
                ps,
                w,
            )
        }),
{
    let ls = logical::plan_schema(left);
    let rs = logical::plan_schema(right);
    let all = pushdown::joined(ls, rs);
    let to_left = optimizer::going_to(es, ls, rs, join_type, Side::Left, 0, Seq::empty());
    let to_right = optimizer::going_to(es, ls, rs, join_type, Side::Right, 0, Seq::empty());
    let above = optimizer::going_to(es, ls, rs, join_type, Side::Above, 0, Seq::empty());
    let a = relation::rows(left, ps, w);
    let b = relation::rows(right, ps, w);
    reshaped::rows_have_the_columns(left, ps, w);
    reshaped::rows_have_the_columns(right, ps, w);
    let on = relation::matching(condition, join_type, ls, rs, ps, w.known);
    let nulls = relation::filler(join_type, rs);
    let pa = pushdown::passing(a, all_true(to_left, ls, ps, w.known));
    let pb = pushdown::passing(b, all_true(to_right, rs, ps, w.known));
    reveal(serves);
    let made = logical::join_of(l, r, condition, join_type);
    let join = logical::join_of(left, right, condition, join_type);
    bags::joined_same(relation::rows(l, ps, w), pa, relation::rows(r, ps, w), pb, on, nulls);
    let x = bags::joined(pa, pb, on, nulls);
    let y = bags::joined(a, b, on, nulls);
    assert(bags::same(relation::rows(made, ps, w), x));
    assert(bags::same(relation::rows(join, ps, w), y));
    filter_serves(above, made, made, ps, w);
    let h = all_true(above, all, ps, w.known);
    let k = all_true(es, all, ps, w.known);
    bags::passing_same(relation::rows(made, ps, w), x, h, h);
    shared_predicates(es, condition, join_type, ls, rs, a, b, ps, w.known);
    bags::passing_same(y, relation::rows(join, ps, w), k, k);
}

// ---------------------------------------------------------------- tables

/// Whether the value of a column of a row is one that the range which a predicate implies for the
/// column speaks of: it is null or of the column's type, and the comparisons of the predicate read
/// it.
pub open spec fn is_key_value(
    e: ExprV,
    col: Seq<char>,
    ty: DataType,
    v: ValueV,
    row: Seq<ValueV>,
    s: SchemaV,
    known: Seq<(QuestionV, AnswerV)>,
) -> bool {
    (v is Null || ranges::is_of_type(v, ty)) && ranges::fits(e, col, ty, v, row, s, known)
}

/// Whether the primary key and the indexes of a row's table hold its keys.
pub open spec fn is_keyed_row(s: SchemaV, e: ExprV, row: Seq<ValueV>, known: Seq<(QuestionV, AnswerV)>) -> bool {
    &&& schema::primary_key_position(s) matches Some(k) ==> k < row.len() && is_key_value(
        e,
        s.columns[k as int].name,
        s.columns[k as int].data_type,
        row[k as int],
        row,
        s,
        known,
    )
    &&& forall|i: int|
        0 <= i < s.indexes.len() && (#[trigger] s.indexes[i]).columns.len() > 0 ==> (schema::column_position(
            s.columns,
            s.indexes[i].columns[0],
        ) matches Some(k) ==> is_key_value(e, s.columns[k].name, s.columns[k].data_type, row[k], row, s, known))
}

/// Whether the indexes of a table can be told apart by name, none searches for words, and the keys
/// of its rows are as a predicate reads them.
pub open spec fn is_keyed(table: Seq<char>, s: SchemaV, e: ExprV, w: World) -> bool {
    &&& forall|i: int|
        0 <= i < s.indexes.len() ==> (#[trigger] s.indexes[i]).index_type != IndexType::FullText && physical::index_from(
            s.indexes,
            s.indexes[i].name,
            0,
        ) == Some(s.indexes[i])
    &&& forall|row: Seq<ValueV>| #[trigger] (w.table)(table).contains(row) ==> is_keyed_row(s, e, row, w.known)
}

/// A predicate that implies a range for a column refuses the rows in which the column is null.
proof fn null_keys_are_refused(
    e: ExprV,
    q: ExprV,
    col: Seq<char>,
    ty: DataType,
    row: Seq<ValueV>,
    s: SchemaV,
    ps: Map<Seq<char>, ValueV>,
    known: Seq<(QuestionV, AnswerV)>,
)
    requires
        ranges::fits(e, col, ty, ValueV::Null, row, s, known),
        expr::substituted(e, ps) == Ok::<ExprV, ErrorV>(q),
        bounds::key_bounds(e, col, ty) is Some,
    ensures
        !ranges::accepts(q, row, s, known),
    decreases e,
{
    if let ExprV::BinaryOp { left, op, right } = e {
        let l = expr::substituted(*left, ps)->Ok_0;
        let r = expr::substituted(*right, ps)->Ok_0;
        assert(q == (ExprV::BinaryOp { left: Box::new(l), op, right: Box::new(r) }));
        match op {
            Operator::And => {
                kept::and_accepts(l, r, row, s, known);
                if bounds::key_bounds(*left, col, ty) is Some {
                    null_keys_are_refused(*left, l, col, ty, row, s, ps, known);
                } else {
                    null_keys_are_refused(*right, r, col, ty, row, s, ps, known);
                }
            },
            Operator::Like => {
                null_side_refuses(l, op, r, row, s, known);
            },
            _ => {
                assert(bounds::column_comparison(*left, *right, col) is Some);
                assert(op is Eq || op is Gt || op is GtEq || op is Lt || op is LtEq);
                null_side_refuses(l, op, r, row, s, known);
            },
        }
    }
}

proof fn null_side_refuses(
    l: ExprV,
    op: Operator,
    r: ExprV,
    row: Seq<ValueV>,
    s: SchemaV,
    known: Seq<(QuestionV, AnswerV)>,
)
    requires
        op != Operator::And && op != Operator::Or,
        l is Column && r is Literal && eval::evaluated(l, row, s, known) == Ok::<ValueV, ErrorV>(ValueV::Null) || l is Literal
            && r is Column && eval::evaluated(r, row, s, known) == Ok::<ValueV, ErrorV>(ValueV::Null),
    ensures
        !ranges::accepts((ExprV::BinaryOp { left: Box::new(l), op, right: Box::new(r) }), row, s, known),
{
    reveal(ranges::accepts);
    reveal(expr_laws::valued);
    match (l, r) {
        (ExprV::Column(..), ExprV::Literal(v)) => {
            assert(eval::evaluated(r, row, s, known) == Ok::<ValueV, ErrorV>(v));
            expr_laws::operators_on_null_give_null(l, op, r, ValueV::Null, v, row, s, known);
        },
        (ExprV::Literal(v), ExprV::Column(..)) => {
            assert(eval::evaluated(l, row, s, known) == Ok::<ValueV, ErrorV>(v));
            expr_laws::operators_on_null_give_null(l, op, r, v, ValueV::Null, row, s, known);
        },
        _ => {},
    }
}

/// A range that a predicate implies reads the key of every row that it accepts.
proof fn accepted_keys_are_read(
    e: ExprV,
    col: Seq<char>,
    ty: DataType,
    v: ValueV,
    row: Seq<ValueV>,
    s: SchemaV,
    ps: Map<Seq<char>, ValueV>,
    known: Seq<(QuestionV, AnswerV)>,
)
    requires
        is_key_value(e, col, ty, v, row, s, known),
        one_true(e, s, ps, known, row),
        bounds::key_bounds(e, col, ty) is Some,
    ensures
        v !is Null,
        ({
            let b = relation::bounds_of(physical::scan_range(bounds::key_bounds(e, col, ty)->0, ps, Some(ty)));
            relation::is_read(b.0, b.1, bounds::key_of(v))
        }),
{
    true_is_accepted(e, s, ps, known, row);
    let q = expr::substituted(e, ps)->Ok_0;
    if v is Null {
        null_keys_are_refused(e, q, col, ty, row, s, ps, known);
    } else {
        ranges::range_covers_accepted_rows(e, col, ty, v, row, s, ps, known, q);
    }
}

/// Whether a plan reads a table so that no row is missed of which a predicate is true.
#[verifier::opaque]
spec fn is_way(plan: PlanV, table: Seq<char>, s: SchemaV, e: ExprV, ps: Map<Seq<char>, ValueV>, w: World) -> bool {
    let t = relation::test(relation::input(e, s, ps, w.known));
    &&& logical::plan_schema(plan) == s
    &&& bags::same(pushdown::passing(relation::rows(plan, ps, w), t), pushdown::passing((w.table)(table), t))
    &&& plan is Scan || plan is IndexScan
    &&& reshaped::fits(plan, w)
}

proof fn whole_scan_is_a_way(table: Seq<char>, s: SchemaV, e: ExprV, ps: Map<Seq<char>, ValueV>, w: World)
    requires
        pushdown::rows_of_schema((w.table)(table), s),
    ensures
        is_way((PlanV::Scan { table_name: table, schema: s, range: None }), table, s, e, ps, w),
{
    reveal(is_way);
    let t = relation::test(relation::input(e, s, ps, w.known));
    let u = |row: Seq<ValueV>| relation::is_read(None, None, relation::table_key(s, row));
    bags::passing_twice((w.table)(table), u, t, t);
}

proof fn key_range_is_a_way(table: Seq<char>, s: SchemaV, e: ExprV, ps: Map<Seq<char>, ValueV>, w: World)
    requires
        pushdown::rows_of_schema((w.table)(table), s),
        is_keyed(table, s, e, w),
        bounds::primary_key_range(e, s) is Some,
    ensures
        is_way(
            (PlanV::Scan { table_name: table, schema: s, range: bounds::primary_key_range(e, s) }),
            table,
            s,
            e,
            ps,
            w,
        ),
{
    reveal(is_way);
    let all = (w.table)(table);
    let t = relation::test(relation::input(e, s, ps, w.known));
    let r = bounds::primary_key_range(e, s)->0;
    let b = relation::bounds_of(physical::scan_range(r, ps, physical::key_type(s)));
    let u = |row: Seq<ValueV>| relation::is_read(b.0, b.1, relation::table_key(s, row));
    let k = schema::primary_key_position(s)->0;
    let col = s.columns[k as int];
    assert forall|x: Seq<ValueV>| #[trigger] all.contains(x) implies t(x) == (u(x) && t(x)) by {
        if t(x) {
            assert(is_keyed_row(s, e, x, w.known));
            accepted_keys_are_read(e, col.name, col.data_type, x[k as int], x, s, ps, w.known);
            let parts = modify::key_parts(x, schema::key_columns(s.columns));
            let v = x[k as int];
            assert(parts.len() == 1 && parts[0] == modify::key_part(v));
            reveal_with_fuel(facts::collected, 2);
            assert(relation::table_key(s, x) == bounds::key_of(v));
        }
    }
    bags::passing_twice(all, u, t, t);
}

proof fn index_range_is_a_way(
    table: Seq<char>,
    s: SchemaV,
    i: int,
    k: int,
    e: ExprV,
    ps: Map<Seq<char>, ValueV>,
    w: World,
)
    requires
        reshaped::is_fair(w),
        pushdown::rows_of_schema((w.table)(table), s),
        is_keyed(table, s, e, w),
        0 <= i < s.indexes.len(),
        s.indexes[i].columns.len() > 0,
        schema::column_position(s.columns, s.indexes[i].columns[0]) == Some(k),
        bounds::key_bounds(e, s.columns[k].name, s.columns[k].data_type) is Some,
    ensures
        is_way(
            (PlanV::IndexScan {
                table_name: table,
                index_name: s.indexes[i].name,
                schema: s,
                range: bounds::key_bounds(e, s.columns[k].name, s.columns[k].data_type),
            }),
            table,
            s,
            e,
            ps,
            w,
        ),
{
    reveal(is_way);
    let name = s.indexes[i].name;
    let col = s.columns[k];
    let index = (w.index)(table, name);
    let t = relation::test(relation::input(e, s, ps, w.known));
    let r = bounds::key_bounds(e, col.name, col.data_type)->0;
    let b = relation::bounds_of(physical::scan_range(r, ps, physical::index_type(s, name)));
    let u = |row: Seq<ValueV>| relation::is_read(b.0, b.1, relation::index_key(s, name, row));
    assert forall|x: Seq<ValueV>| #[trigger] index.contains(x) implies t(x) == (u(x) && t(x)) by {
        bags::same_contains(index, (w.table)(table), x);
        if t(x) {
            assert(is_keyed_row(s, e, x, w.known));
            assert(is_key_value(e, col.name, col.data_type, x[k], x, s, w.known));
            accepted_keys_are_read(e, col.name, col.data_type, x[k], x, s, ps, w.known);
        }
    }
    bags::passing_twice(index, u, t, t);
    bags::passing_same(index, (w.table)(table), t, t);
}

proof fn best_index_is_a_way(
    table: Seq<char>,
    s: SchemaV,
    e: ExprV,
    t: Option<TableStatistics>,
    cols: Set<Seq<char>>,
    i: int,
    best: PathV,
    known: Seq<(QuestionV, AnswerV)>,
    ps: Map<Seq<char>, ValueV>,
    w: World,
)
    requires
        0 <= i,
        reshaped::is_fair(w),
        pushdown::rows_of_schema((w.table)(table), s),
        is_keyed(table, s, e, w),
        is_way(best.plan, table, s, e, ps, w),
    ensures
        optimizer::best_index_from(table, s, e, t, cols, i, best, known) matches Ok(p) ==> is_way(
            p.plan,
            table,
            s,
            e,
            ps,
            w,
        ),
    decreases s.indexes.len() - i,
{
    if i < s.indexes.len() {
        let index = s.indexes[i];
        let path = optimizer::index_path(table, s, index, e, t, cols, known);
        if let Ok(Some(p)) = path {
            let k = schema::column_position(s.columns, index.columns[0])->0;
            assert(index.index_type != IndexType::FullText);
            index_range_is_a_way(table, s, i, k, e, ps, w);
            assert(is_way(p.plan, table, s, e, ps, w));
        }
        if let Ok(b) = optimizer::better(best, path) {
            best_index_is_a_way(table, s, e, t, cols, i + 1, b, known, ps, w);
        }
    }
}

/// The cheapest way to read a table under a predicate misses no row of which it is true.
proof fn best_path_is_a_way(
    table: Seq<char>,
    s: SchemaV,
    e: ExprV,
    t: Option<TableStatistics>,
    cols: Set<Seq<char>>,
    known: Seq<(QuestionV, AnswerV)>,
    ps: Map<Seq<char>, ValueV>,
    w: World,
)
    requires
        reshaped::is_fair(w),
        pushdown::rows_of_schema((w.table)(table), s),
        is_keyed(table, s, e, w),
    ensures
        optimizer::best_path(table, s, e, t, cols, known) matches Ok(p) ==> is_way(p, table, s, e, ps, w),
{
    whole_scan_is_a_way(table, s, e, ps, w);
    if bounds::primary_key_range(e, s) is Some {
        key_range_is_a_way(table, s, e, ps, w);
    }
    if let Ok(full) = crate::cost::scan_cost(s, t, None, cols, known) {
        let scan = PathV { plan: PlanV::Scan { table_name: table, schema: s, range: None }, cost: full };
        if let Ok(b) = optimizer::better(scan, optimizer::key_path(table, s, e, t, cols, known)) {
            best_index_is_a_way(table, s, e, t, cols, 0, b, known, ps, w);
        }
    }
}

// ---------------------------------------------------------------- plans

/// Whether the predicates of a plan, with some from above it, can be moved to where their columns
/// come from: those above a join say which of its columns they read, and those above a table read
/// its keys as they are. The table is then read as a whole.
pub open spec fn is_movable(p: PlanV, es: Seq<ExprV>, ps: Map<Seq<char>, ValueV>, w: World) -> bool
    decreases p,
{
    match p {
        PlanV::Filter { source, predicate } => is_movable(*source, es + optimizer::conjuncts(predicate), ps, w),
        PlanV::Join { left, right, join_type, .. } => {
            let ls = logical::plan_schema(*left);
            let rs = logical::plan_schema(*right);
            &&& are_sorted_out(es, ls, rs, ps)
            &&& is_movable(*left, optimizer::going_to(es, ls, rs, join_type, Side::Left, 0, Seq::empty()), ps, w)
            &&& is_movable(*right, optimizer::going_to(es, ls, rs, join_type, Side::Right, 0, Seq::empty()), ps, w)
        },
        PlanV::Sort { source, .. } => is_movable(*source, es, ps, w),
        PlanV::Distinct { source } => is_movable(*source, es, ps, w),
        PlanV::Projection { source, .. } => is_movable(*source, Seq::empty(), ps, w),
        PlanV::Aggregate { source, .. } => is_movable(*source, Seq::empty(), ps, w),
        PlanV::Limit { source, .. } => is_movable(*source, Seq::empty(), ps, w),
        PlanV::SetOp { left, right, .. } => is_movable(*left, Seq::empty(), ps, w) && is_movable(
            *right,
            Seq::empty(),
            ps,
            w,
        ),
        PlanV::Scan { table_name, schema, range } => es.len() == 0 || range is None && is_keyed(
            table_name,
            schema,
            optimizer::conjunction_of(es),
            w,
        ),
        PlanV::IndexScan { .. } => es.len() == 0,
        PlanV::FullTextScan { .. } => es.len() == 0,
    }
}

/// Whether a plan serves another one with some predicates, and is as well built as that one.
spec fn is_narrowed(q: PlanV, p: PlanV, es: Seq<ExprV>, ps: Map<Seq<char>, ValueV>, w: World) -> bool {
    &&& serves(q, p, es, ps, w)
    &&& logical::plan_schema(q) == logical::plan_schema(p)
    &&& lowering::is_built(q)
    &&& reshaped::fits(q, w)
    &&& reshaped::is_orderly(p, ps, w.known) ==> reshaped::is_orderly(q, ps, w.known)
}

proof fn filtering_is_narrow(es: Seq<ExprV>, x: PlanV, y: PlanV, ps: Map<Seq<char>, ValueV>, w: World)
    requires
        reshaped::stands_for(x, y, ps, w),
        logical::plan_schema(x) == logical::plan_schema(y),
        lowering::is_built(x),
        reshaped::fits(x, w),
        reshaped::is_orderly(y, ps, w.known) ==> reshaped::is_orderly(x, ps, w.known),
    ensures
        is_narrowed(optimizer::filtered(es, x), y, es, ps, w),
{
    stands_serves(x, y, es, ps, w);
}

proof fn leaf_is_narrow(
    p: PlanV,
    es: Seq<ExprV>,
    cols: Set<Seq<char>>,
    o: Optimizer,
    known: Seq<(QuestionV, AnswerV)>,
    ps: Map<Seq<char>, ValueV>,
    w: World,
)
    requires
        reshaped::is_fair(w),
        lowering::is_built(p),
        reshaped::fits(p, w),
        is_movable(p, es, ps, w),
        p is Scan || p is IndexScan || p is FullTextScan,
    ensures
        optimizer::pushed(p, es, cols, o, known) matches Ok(q) ==> is_narrowed(q, p, es, ps, w),
{
    if es.len() == 0 {
        filter_serves(es, p, p, ps, w);
    } else if let PlanV::Scan { table_name, schema, range } = p {
        let e = optimizer::conjunction_of(es);
        best_path_is_a_way(table_name, schema, e, o.stats_of(table_name), cols, known, ps, w);
        if let Ok(q) = optimizer::best_path(table_name, schema, e, o.stats_of(table_name), cols, known) {
            reveal(is_way);
            reveal(serves);
            let t = relation::test(relation::input(e, schema, ps, w.known));
            let k = all_true(es, schema, ps, w.known);
            let all = (w.table)(table_name);
            let rows = relation::rows(p, ps, w);
            let u = |row: Seq<ValueV>| relation::is_read(None, None, relation::table_key(schema, row));
            assert forall|x: Seq<ValueV>| #[trigger] all.contains(x) implies t(x) == (u(x) && k(x)) by {
                conjunction_is_true(es, schema, ps, w.known, x);
            }
            bags::passing_twice(all, u, k, t);
            let f = PlanV::Filter { source: Box::new(q), predicate: e };
            assert(relation::rows(p, ps, w) == pushdown::passing(all, u));
            assert(relation::rows(f, ps, w) == pushdown::passing(relation::rows(q, ps, w), t));
            assert(serves(f, p, es, ps, w));
            assert(lowering::is_built(q));
            assert(reshaped::is_orderly(q, ps, w.known));
            assert(is_narrowed(f, p, es, ps, w));
        }
    }
}

/// Moving predicates down keeps the rows of a plan of which they are true, each as often.
pub proof fn moving_predicates_keeps_rows(
    p: PlanV,
    es: Seq<ExprV>,
    cols: Set<Seq<char>>,
    o: Optimizer,
    known: Seq<(QuestionV, AnswerV)>,
    ps: Map<Seq<char>, ValueV>,
    w: World,
)
    requires
        reshaped::is_fair(w),
        lowering::is_built(p),
        reshaped::fits(p, w),
        is_movable(p, es, ps, w),
    ensures
        optimizer::pushed(p, es, cols, o, known) matches Ok(q) ==> {
            &&& serves(q, p, es, ps, w)
            &&& logical::plan_schema(q) == logical::plan_schema(p)
            &&& lowering::is_built(q)
            &&& reshaped::fits(q, w)
            &&& reshaped::is_orderly(p, ps, w.known) ==> reshaped::is_orderly(q, ps, w.known)
        },
    decreases p,
{
    match p {
        PlanV::Filter { source, predicate } => {
            let all = es + optimizer::conjuncts(predicate);
            moving_predicates_keeps_rows(*source, all, cols, o, known, ps, w);
            if let Ok(q) = optimizer::pushed(*source, all, cols, o, known) {
                below_a_filter(q, *source, predicate, es, ps, w);
            }
        },
        PlanV::Join { left, right, condition, join_type, .. } => {
            let ls = logical::plan_schema(*left);
            let rs = logical::plan_schema(*right);
            let to_left = optimizer::going_to(es, ls, rs, join_type, Side::Left, 0, Seq::empty());
            let to_right = optimizer::going_to(es, ls, rs, join_type, Side::Right, 0, Seq::empty());
            moving_predicates_keeps_rows(*left, to_left, cols, o, known, ps, w);
            moving_predicates_keeps_rows(*right, to_right, cols, o, known, ps, w);
            if let (Ok(l), Ok(r)) = (
                optimizer::pushed(*left, to_left, cols, o, known),
                optimizer::pushed(*right, to_right, cols, o, known),
            ) {
                below_a_join(l, r, *left, *right, condition, join_type, es, ps, w);
                let join = logical::join_of(l, r, condition, join_type);
                assert(lowering::is_built(join));
                assert(reshaped::fits(join, w));
                assert(reshaped::is_orderly(p, ps, w.known) ==> reshaped::is_orderly(join, ps, w.known));
            }
        },
        PlanV::Projection { source, expressions, field_names, .. } => {
            let none = Seq::<ExprV>::empty();
            moving_predicates_keeps_rows(*source, none, cols, o, known, ps, w);
            if let Ok(q) = optimizer::pushed(*source, none, cols, o, known) {
                serves_none(q, *source, ps, w);
                reshaped::projection_stands(q, *source, expressions, field_names, ps, w);
                filtering_is_narrow(es, logical::projection_of(q, expressions, field_names), p, ps, w);
            }
        },
        PlanV::Aggregate { source, group_by, aggrs, field_names, .. } => {
            let none = Seq::<ExprV>::empty();
            moving_predicates_keeps_rows(*source, none, cols, o, known, ps, w);
            if let Ok(q) = optimizer::pushed(*source, none, cols, o, known) {
                serves_none(q, *source, ps, w);
                reshaped::aggregate_stands(q, *source, group_by, aggrs, field_names, ps, w);
                filtering_is_narrow(es, logical::aggregate_of(q, group_by, aggrs, field_names), p, ps, w);
            }
        },
        PlanV::Sort { source, keys } => {
            moving_predicates_keeps_rows(*source, es, cols, o, known, ps, w);
            if let Ok(q) = optimizer::pushed(*source, es, cols, o, known) {
                below_a_sort(q, *source, keys, es, ps, w);
            }
        },
        PlanV::Distinct { source } => {
            moving_predicates_keeps_rows(*source, es, cols, o, known, ps, w);
            if let Ok(q) = optimizer::pushed(*source, es, cols, o, known) {
                below_a_distinct(q, *source, es, ps, w);
            }
        },
        PlanV::Limit { source, limit, offset } => {
            let none = Seq::<ExprV>::empty();
            moving_predicates_keeps_rows(*source, none, cols, o, known, ps, w);
            if let Ok(q) = optimizer::pushed(*source, none, cols, o, known) {
                serves_none(q, *source, ps, w);
                reshaped::limit_stands(q, *source, limit, offset, ps, w);
                filtering_is_narrow(es, (PlanV::Limit { source: Box::new(q), limit, offset }), p, ps, w);
            }
        },
        PlanV::SetOp { left, right, op, all } => {
            let none = Seq::<ExprV>::empty();
            moving_predicates_keeps_rows(*left, none, cols, o, known, ps, w);
            moving_predicates_keeps_rows(*right, none, cols, o, known, ps, w);
            if let (Ok(l), Ok(r)) = (
                optimizer::pushed(*left, none, cols, o, known),
                optimizer::pushed(*right, none, cols, o, known),
            ) {
                serves_none(l, *left, ps, w);
                serves_none(r, *right, ps, w);
                reshaped::set_op_stands(l, r, *left, *right, op, all, ps, w);
                filtering_is_narrow(es, (PlanV::SetOp { left: Box::new(l), right: Box::new(r), op, all }), p, ps, w);
            }
        },
        _ => leaf_is_narrow(p, es, cols, o, known, ps, w),
    }
}

/// Optimizing keeps the rows of a plan, each as often, and the names of its columns: those of inner
/// joins whose sides may be exchanged, of outer joins with all rows of their left side, and of
/// cross joins; wherever the predicates are moved to, and in whichever way the tables are read.
pub proof fn optimizing_keeps_rows(
    p: PlanV,
    o: Optimizer,
    known: Seq<(QuestionV, AnswerV)>,
    ps: Map<Seq<char>, ValueV>,
    w: World,
)
    requires
        reshaped::is_fair(w),
        lowering::is_built(p),
        reshaped::fits(p, w),
        reshaped::is_orderly(p, ps, w.known),
        is_movable(p, Seq::empty(), ps, w),
    ensures
        optimizer::optimized(p, o, known) matches Ok(q) ==> {
            &&& bags::same(relation::rows(q, ps, w), relation::rows(p, ps, w))
            &&& relation::alike(logical::plan_schema(q), logical::plan_schema(p))
            &&& lowering::is_built(q)
        },
{
    let none = Seq::<ExprV>::empty();
    let cols = logical::plan_columns(p);
    moving_predicates_keeps_rows(p, none, cols, o, known, ps, w);
    if let Ok(q) = optimizer::pushed(p, none, cols, o, known) {
        serves_none(q, p, ps, w);
        reshaped::reordering_keeps_rows(q, o, known, ps, w);
        if let Ok(r) = optimizer::reordered(q, o, known) {
            reshaped::removing_sorts_keeps_rows(r, ps, w);
            reshaped::stands_for_both(r, q, p, ps, w);
            reshaped::stands_for_both(optimizer::unsorted(r), r, p, ps, w);
            reveal(reshaped::stands_for);
        }
    }
}

} // verus!
