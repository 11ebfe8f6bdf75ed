//! What optimization keeps of a plan: the names of its columns, its predicates, and the rows
//! that these accept.

use crate::eval;
use crate::expr::{ExprV, Operator};
use crate::facts::{AnswerV, ErrorV, QuestionV};
use crate::logical;
use crate::logical::{JoinType, PlanV};
use crate::optimizer;
use crate::optimizer::{Optimizer, Side};
use crate::order;
use crate::ranges;
use crate::schema;
use crate::schema::{IndexV, SchemaV};
use crate::text;
use crate::value;
use crate::value::{Order, ValueV};
use vstd::multiset::Multiset;
use vstd::prelude::*;

verus! {

// ---------------------------------------------------------------- conjunctions

/// An AND accepts the rows that both of its sides accept.
pub proof fn and_accepts(l: ExprV, r: ExprV, row: Seq<ValueV>, s: SchemaV, known: Seq<(QuestionV, AnswerV)>)
    ensures
        ranges::accepts((ExprV::BinaryOp { left: Box::new(l), op: Operator::And, right: Box::new(r) }), row, s, known)
            == (ranges::accepts(l, row, s, known) && ranges::accepts(r, row, s, known)),
{
    reveal(ranges::accepts);
}

/// Whether every one of some predicates accepts a row.
pub open spec fn all_accept(es: Seq<ExprV>, row: Seq<ValueV>, s: SchemaV, known: Seq<(QuestionV, AnswerV)>) -> bool {
    forall|i: int| 0 <= i < es.len() ==> ranges::accepts(#[trigger] es[i], row, s, known)
}

/// A predicate accepts the rows that all of its conjuncts accept.
pub proof fn conjuncts_accept_same_rows(e: ExprV, row: Seq<ValueV>, s: SchemaV, known: Seq<(QuestionV, AnswerV)>)
    ensures
        ranges::accepts(e, row, s, known) == all_accept(optimizer::conjuncts(e), row, s, known),
    decreases e,
{
    match e {
        ExprV::BinaryOp { left, op: Operator::And, right } => {
            conjuncts_accept_same_rows(*left, row, s, known);
            conjuncts_accept_same_rows(*right, row, s, known);
            and_accepts(*left, *right, row, s, known);
            let l = optimizer::conjuncts(*left);
            let r = optimizer::conjuncts(*right);
            let all = optimizer::conjuncts(e);
            assert(all =~= l + r);
            if all_accept(all, row, s, known) {
                assert forall|i: int| 0 <= i < l.len() implies ranges::accepts(#[trigger] l[i], row, s, known) by {
                    assert(all[i] == l[i]);
                }
                assert forall|i: int| 0 <= i < r.len() implies ranges::accepts(#[trigger] r[i], row, s, known) by {
                    assert(all[l.len() + i] == r[i]);
                }
            }
        },
        _ => {
            assert(optimizer::conjuncts(e) =~= seq![e]);
            if all_accept(optimizer::conjuncts(e), row, s, known) {
                assert(ranges::accepts(optimizer::conjuncts(e)[0], row, s, known));
            }
        },
    }
}

/// The conjunction of some predicates accepts the rows that all of them accept.
pub proof fn conjunction_accepts_same_rows(
    es: Seq<ExprV>,
    row: Seq<ValueV>,
    s: SchemaV,
    known: Seq<(QuestionV, AnswerV)>,
)
    requires
        es.len() > 0,
    ensures
        ranges::accepts(optimizer::conjunction_of(es), row, s, known) == all_accept(es, row, s, known),
    decreases es.len(),
{
    if es.len() > 1 {
        let shorter = es.drop_last();
        conjunction_accepts_same_rows(shorter, row, s, known);
        and_accepts(optimizer::conjunction_of(shorter), es.last(), row, s, known);
        if all_accept(es, row, s, known) {
            assert forall|i: int| 0 <= i < shorter.len() implies ranges::accepts(#[trigger] shorter[i], row, s, known) by {
                assert(shorter[i] == es[i]);
            }
            assert(ranges::accepts(es[es.len() - 1], row, s, known));
        }
        if all_accept(shorter, row, s, known) && ranges::accepts(es.last(), row, s, known) {
            assert forall|i: int| 0 <= i < es.len() implies ranges::accepts(#[trigger] es[i], row, s, known) by {
                if i < shorter.len() {
                    assert(ranges::accepts(shorter[i], row, s, known));
                }
            }
        }
    } else {
        if all_accept(es, row, s, known) {
            assert(ranges::accepts(es[0], row, s, known));
        }
    }
}

// ---------------------------------------------------------------- join conditions

/// Whether an operator compares its sides.
pub open spec fn compares(op: Operator) -> bool {
    op == Operator::Eq || op == Operator::NotEq || op == Operator::Gt || op == Operator::Lt || op == Operator::GtEq || op
        == Operator::LtEq
}

/// Comparing two decimals the other way round gives the opposite outcome.
proof fn decimals_reverse(a: value::Decimal, b: value::Decimal)
    ensures
        value::decimal_order(b, a) == value::reversed(value::decimal_order(a, b)),
{
    order::total_order_reverses(ValueV::Decimal(a), ValueV::Decimal(b));
}

/// Comparing two values the other way round gives the opposite outcome, or fails as well.
#[verifier::spinoff_prover]
#[verifier::rlimit(60)]
pub proof fn comparison_reverses(a: ValueV, b: ValueV, known: Seq<(QuestionV, AnswerV)>)
    ensures
        match eval::comparison(a, b, known) {
            Ok(o) => eval::comparison(b, a, known) == Ok::<Order, ErrorV>(value::reversed(o)),
            Err(_) => eval::comparison(b, a, known) is Err,
        },
{
    match (a, b) {
        (ValueV::String(_), ValueV::String(_)) => order::total_order_reverses(a, b),
        (ValueV::Bytes(_), ValueV::Bytes(_)) => order::total_order_reverses(a, b),
        (ValueV::Decimal(x), ValueV::Decimal(y)) => decimals_reverse(x, y),
        (ValueV::Decimal(x), ValueV::Int(y)) => decimals_reverse(x, value::Decimal::of(y as i128, 0)),
        (ValueV::Int(x), ValueV::Decimal(y)) => decimals_reverse(value::Decimal::of(x as i128, 0), y),
        _ => {},
    }
}

/// Exchanging the sides of a join condition twice gives it back.
pub proof fn swapping_twice_gives_back(e: ExprV)
    ensures
        optimizer::swapped(optimizer::swapped(e)) == e,
{
}

/// Whether an expression has no truth value on a row.
pub open spec fn fails(e: ExprV, row: Seq<ValueV>, s: SchemaV, known: Seq<(QuestionV, AnswerV)>) -> bool {
    match eval::evaluated(e, row, s, known) {
        Ok(v) => eval::truth(v) is Err,
        Err(_) => true,
    }
}

/// Whether the sides of a condition can be exchanged on a row. Those of a LIKE and of a quotient
/// cannot. An OR that is true on the left does not look at a right side that fails. A difference
/// of two integers can be in range one way only.
pub open spec fn is_exchangeable(e: ExprV, row: Seq<ValueV>, s: SchemaV, known: Seq<(QuestionV, AnswerV)>) -> bool {
    match e {
        ExprV::BinaryOp { left, op, right } => match op {
            Operator::Like => false,
            Operator::Div => false,
            Operator::Or => {
                &&& !(ranges::accepts(*left, row, s, known) && fails(*right, row, s, known))
                &&& !(ranges::accepts(*right, row, s, known) && fails(*left, row, s, known))
            },
            Operator::Sub => match (
                eval::evaluated(*left, row, s, known),
                eval::evaluated(*right, row, s, known),
            ) {
                (Ok(ValueV::Int(a)), Ok(ValueV::Int(b))) => a - b != i64::MIN && b - a != i64::MIN,
                _ => true,
            },
            _ => true,
        },
        _ => true,
    }
}

/// An OR accepts the rows that one of its sides accepts, unless a side fails.
proof fn or_accepts(l: ExprV, r: ExprV, row: Seq<ValueV>, s: SchemaV, known: Seq<(QuestionV, AnswerV)>)
    requires
        !(ranges::accepts(l, row, s, known) && fails(r, row, s, known)),
        !(ranges::accepts(r, row, s, known) && fails(l, row, s, known)),
    ensures
        ranges::accepts((ExprV::BinaryOp { left: Box::new(l), op: Operator::Or, right: Box::new(r) }), row, s, known)
            == (ranges::accepts(l, row, s, known) || ranges::accepts(r, row, s, known)),
{
    reveal(ranges::accepts);
}

/// A sum, a product or a difference the other way round has a true value where it had one.
proof fn arithmetic_exchanges(op: Operator, a: ValueV, b: ValueV, known: Seq<(QuestionV, AnswerV)>)
    requires
        op == Operator::Add || op == Operator::Mul || op == Operator::Sub,
        op == Operator::Sub && a is Int && b is Int ==> a->Int_0 - b->Int_0 != i64::MIN && b->Int_0 - a->Int_0
            != i64::MIN,
    ensures
        is_true(eval::operation(op, a, b, known)) == is_true(eval::operation(op, b, a, known)),
{
    if let (ValueV::Int(x), ValueV::Int(y)) = (a, b) {
        vstd::arithmetic::mul::lemma_mul_is_commutative(x as int, y as int);
    }
}

/// Whether an outcome is a true value.
spec fn is_true(v: Result<ValueV, ErrorV>) -> bool {
    v matches Ok(x) && eval::truth(x) == Ok::<bool, ErrorV>(true)
}

/// A join condition with its sides exchanged accepts the rows that the condition accepts.
pub proof fn swapped_condition_accepts_same_rows(
    e: ExprV,
    row: Seq<ValueV>,
    s: SchemaV,
    known: Seq<(QuestionV, AnswerV)>,
)
    requires
        is_exchangeable(e, row, s, known),
    ensures
        ranges::accepts(optimizer::swapped(e), row, s, known) == ranges::accepts(e, row, s, known),
{
    if let ExprV::BinaryOp { left, op, right } = e {
        if op == Operator::And {
            and_accepts(*left, *right, row, s, known);
            and_accepts(*right, *left, row, s, known);
        } else if op == Operator::Or {
            or_accepts(*left, *right, row, s, known);
            or_accepts(*right, *left, row, s, known);
        } else {
            reveal(ranges::accepts);
            let l = eval::evaluated(*left, row, s, known);
            let r = eval::evaluated(*right, row, s, known);
            if l is Ok && r is Ok {
                if compares(op) {
                    comparison_reverses(l->Ok_0, r->Ok_0, known);
                } else {
                    arithmetic_exchanges(op, l->Ok_0, r->Ok_0, known);
                }
            }
        }
    }
}

// ---------------------------------------------------------------- columns

/// The names of the columns of a plan, by its nodes.
pub open spec fn output_names(p: PlanV) -> Seq<Seq<char>>
    decreases p,
{
    match p {
        PlanV::Scan { schema, .. } => optimizer::column_names(schema.columns),
        PlanV::IndexScan { schema, .. } => optimizer::column_names(schema.columns),
        PlanV::FullTextScan { schema, .. } => optimizer::column_names(schema.columns),
        PlanV::Filter { source, .. } => output_names(*source),
        PlanV::Limit { source, .. } => output_names(*source),
        PlanV::Distinct { source } => output_names(*source),
        PlanV::Sort { source, .. } => output_names(*source),
        PlanV::Projection { expressions, field_names, .. } => field_names.take(expressions.len() as int),
        PlanV::Aggregate { group_by, aggrs, field_names, .. } => field_names.take((group_by.len() + aggrs.len()) as int),
        PlanV::Join { left, right, .. } => output_names(*left) + output_names(*right),
        PlanV::SetOp { left, .. } => output_names(*left),
    }
}

/// Whether the schema of a plan has the names that its nodes give.
pub open spec fn is_named(p: PlanV) -> bool {
    optimizer::column_names(logical::plan_schema(p).columns) == output_names(p)
}

proof fn projection_is_named(q: PlanV, es: Seq<ExprV>, names: Seq<Seq<char>>)
    requires
        es.len() <= names.len(),
    ensures
        is_named(logical::projection_of(q, es, names)),
        output_names(logical::projection_of(q, es, names)) == names.take(es.len() as int),
{
    let p = logical::projection_of(q, es, names);
    assert(optimizer::column_names(logical::plan_schema(p).columns) =~= names.take(es.len() as int));
}

proof fn aggregate_is_named(q: PlanV, group_by: Seq<ExprV>, aggrs: Seq<logical::AggregateV>, names: Seq<Seq<char>>)
    requires
        group_by.len() + aggrs.len() <= names.len(),
    ensures
        is_named(logical::aggregate_of(q, group_by, aggrs, names)),
        output_names(logical::aggregate_of(q, group_by, aggrs, names)) == names.take(
            (group_by.len() + aggrs.len()) as int,
        ),
{
    let p = logical::aggregate_of(q, group_by, aggrs, names);
    assert(optimizer::column_names(logical::plan_schema(p).columns) =~= names.take(
        (group_by.len() + aggrs.len()) as int,
    ));
}

proof fn join_is_named(l: PlanV, r: PlanV, condition: ExprV, join_type: JoinType)
    requires
        is_named(l),
        is_named(r),
    ensures
        is_named(logical::join_of(l, r, condition, join_type)),
        output_names(logical::join_of(l, r, condition, join_type)) == output_names(l) + output_names(r),
{
    let p = logical::join_of(l, r, condition, join_type);
    assert(optimizer::column_names(logical::plan_schema(p).columns) =~= output_names(l) + output_names(r));
}

/// A plan under a filter has the names of the plan.
proof fn filtered_is_named(es: Seq<ExprV>, p: PlanV)
    requires
        is_named(p),
    ensures
        is_named(optimizer::filtered(es, p)),
        output_names(optimizer::filtered(es, p)) == output_names(p),
{
}

/// Moving predicates down keeps the names of the columns.
proof fn pushing_keeps_names(
    p: PlanV,
    es: Seq<ExprV>,
    cols: Set<Seq<char>>,
    o: Optimizer,
    known: Seq<(QuestionV, AnswerV)>,
)
    requires
        logical::well_formed(p),
    ensures
        optimizer::pushed(p, es, cols, o, known) matches Ok(q) ==> is_named(q) && output_names(q) == output_names(p),
    decreases p,
{
    match p {
        PlanV::Filter { source, predicate } => {
            pushing_keeps_names(*source, es + optimizer::conjuncts(predicate), cols, o, known);
        },
        PlanV::Join { left, right, condition, join_type, .. } => {
            let ls = logical::plan_schema(*left);
            let rs = logical::plan_schema(*right);
            let to_left = optimizer::going_to(es, ls, rs, join_type, Side::Left, 0, Seq::empty());
            let to_right = optimizer::going_to(es, ls, rs, join_type, Side::Right, 0, Seq::empty());
            let above = optimizer::going_to(es, ls, rs, join_type, Side::Above, 0, Seq::empty());
            pushing_keeps_names(*left, to_left, cols, o, known);
            pushing_keeps_names(*right, to_right, cols, o, known);
            if let (Ok(l), Ok(r)) = (
                optimizer::pushed(*left, to_left, cols, o, known),
                optimizer::pushed(*right, to_right, cols, o, known),
            ) {
                join_is_named(l, r, condition, join_type);
                filtered_is_named(above, logical::join_of(l, r, condition, join_type));
            }
        },
        PlanV::Projection { source, expressions, field_names, .. } => {
            if let Ok(q) = optimizer::pushed(*source, Seq::empty(), cols, o, known) {
                projection_is_named(q, expressions, field_names);
                filtered_is_named(es, logical::projection_of(q, expressions, field_names));
            }
        },
        PlanV::Aggregate { source, group_by, aggrs, field_names, .. } => {
            if let Ok(q) = optimizer::pushed(*source, Seq::empty(), cols, o, known) {
                aggregate_is_named(q, group_by, aggrs, field_names);
                filtered_is_named(es, logical::aggregate_of(q, group_by, aggrs, field_names));
            }
        },
        PlanV::Sort { source, .. } => {
            pushing_keeps_names(*source, es, cols, o, known);
        },
        PlanV::Distinct { source } => {
            pushing_keeps_names(*source, es, cols, o, known);
        },
        PlanV::Limit { source, limit, offset } => {
            pushing_keeps_names(*source, Seq::empty(), cols, o, known);
            if let Ok(q) = optimizer::pushed(*source, Seq::empty(), cols, o, known) {
                filtered_is_named(es, PlanV::Limit { source: Box::new(q), limit, offset });
            }
        },
        PlanV::SetOp { left, right, op, all } => {
            pushing_keeps_names(*left, Seq::empty(), cols, o, known);
            if let (Ok(l), Ok(r)) = (
                optimizer::pushed(*left, Seq::empty(), cols, o, known),
                optimizer::pushed(*right, Seq::empty(), cols, o, known),
            ) {
                filtered_is_named(es, PlanV::SetOp { left: Box::new(l), right: Box::new(r), op, all });
            }
        },
        PlanV::Scan { table_name, schema, .. } => leaf_is_named(p, table_name, schema, es, cols, o, known),
        PlanV::IndexScan { table_name, schema, .. } => leaf_is_named(p, table_name, schema, es, cols, o, known),
        PlanV::FullTextScan { table_name, schema, .. } => leaf_is_named(p, table_name, schema, es, cols, o, known),
    }
}

proof fn leaf_is_named(
    p: PlanV,
    table: Seq<char>,
    s: SchemaV,
    es: Seq<ExprV>,
    cols: Set<Seq<char>>,
    o: Optimizer,
    known: Seq<(QuestionV, AnswerV)>,
)
    requires
        optimizer::reads(p, table, s),
    ensures
        optimizer::pushed_leaf(p, table, s, es, cols, o, known) matches Ok(q) ==> is_named(q) && output_names(q)
            == output_names(p),
{
    if es.len() > 0 {
        optimizer::best_path_reads_the_table(
            table,
            s,
            optimizer::conjunction_of(es),
            o.stats_of(table),
            cols,
            known,
        );
        if let Ok(q) = optimizer::best_path(table, s, optimizer::conjunction_of(es), o.stats_of(table), cols, known) {
            assert(output_names(q) == output_names(p) && is_named(q));
        }
    }
}

/// Reordering joins keeps the names of the columns.
proof fn reordering_keeps_names(p: PlanV, o: Optimizer, known: Seq<(QuestionV, AnswerV)>)
    requires
        logical::well_formed(p),
    ensures
        optimizer::reordered(p, o, known) matches Ok(q) ==> is_named(q) && output_names(q) == output_names(p),
    decreases p,
{
    match p {
        PlanV::Join { left, right, condition, join_type, .. } => {
            reordering_keeps_names(*left, o, known);
            reordering_keeps_names(*right, o, known);
            if let (Ok(l), Ok(r)) = (optimizer::reordered(*left, o, known), optimizer::reordered(*right, o, known)) {
                join_is_named(l, r, condition, join_type);
                let join = logical::join_of(l, r, condition, join_type);
                let cols = logical::plan_schema(join).columns;
                let refs = optimizer::column_refs(cols);
                let names = optimizer::column_names(cols);
                let exchanged = logical::join_of(r, l, optimizer::swapped(condition), join_type);
                projection_is_named(exchanged, refs, names);
                assert(names.take(refs.len() as int) =~= names);
            }
        },
        PlanV::Filter { source, .. } => reordering_keeps_names(*source, o, known),
        PlanV::Sort { source, .. } => reordering_keeps_names(*source, o, known),
        PlanV::Limit { source, .. } => reordering_keeps_names(*source, o, known),
        PlanV::Distinct { source } => reordering_keeps_names(*source, o, known),
        PlanV::Projection { source, expressions, field_names, .. } => {
            if let Ok(q) = optimizer::reordered(*source, o, known) {
                projection_is_named(q, expressions, field_names);
            }
        },
        PlanV::Aggregate { source, group_by, aggrs, field_names, .. } => {
            if let Ok(q) = optimizer::reordered(*source, o, known) {
                aggregate_is_named(q, group_by, aggrs, field_names);
            }
        },
        PlanV::SetOp { left, .. } => reordering_keeps_names(*left, o, known),
        _ => {},
    }
}

/// Reading through an index keeps the names of the columns, and the predicates.
proof fn promoting_keeps(p: PlanV, col: Seq<char>)
    ensures
        optimizer::promoted(p, col) matches Some(q) ==> output_names(q) == output_names(p) && filters(q) == filters(p),
    decreases p,
{
    match p {
        PlanV::Filter { source, .. } => promoting_keeps(*source, col),
        PlanV::Limit { source, .. } => promoting_keeps(*source, col),
        PlanV::Distinct { source } => promoting_keeps(*source, col),
        PlanV::Projection { source, expressions, field_names, .. } => {
            if let Some(inner) = optimizer::passed_from(expressions, field_names, col, 0) {
                promoting_keeps(*source, inner);
            }
        },
        _ => {},
    }
}

/// Removing sorts keeps the names of the columns, and the predicates.
proof fn unsorting_keeps(p: PlanV)
    ensures
        output_names(optimizer::unsorted(p)) == output_names(p),
        filters(optimizer::unsorted(p)) == filters(p),
    decreases p,
{
    match p {
        PlanV::Sort { source, keys } => {
            unsorting_keeps(*source);
            let q = optimizer::unsorted(*source);
            if keys.len() == 1 {
                if let ExprV::Column(col, _) = keys[0].0 {
                    promoting_keeps(q, col);
                }
            }
            let sort = PlanV::Sort { source: Box::new(q), keys };
            assert(output_names(sort) == output_names(q));
            assert(filters(sort) == filters(q));
        },
        PlanV::Filter { source, .. } => unsorting_keeps(*source),
        PlanV::Projection { source, .. } => unsorting_keeps(*source),
        PlanV::Join { left, right, .. } => {
            unsorting_keeps(*left);
            unsorting_keeps(*right);
        },
        PlanV::Aggregate { source, group_by, .. } => {
            unsorting_keeps(*source);
            if group_by.len() == 1 {
                if let ExprV::Column(col, _) = group_by[0] {
                    promoting_keeps(optimizer::unsorted(*source), col);
                }
            }
        },
        PlanV::Limit { source, .. } => unsorting_keeps(*source),
        PlanV::Distinct { source } => unsorting_keeps(*source),
        PlanV::SetOp { left, right, .. } => {
            unsorting_keeps(*left);
            unsorting_keeps(*right);
        },
        _ => {},
    }
}

/// An optimized plan gives columns of the same names, in the same order, as the plan it was made
/// from, and its schema says so.
pub proof fn optimizing_keeps_column_names(p: PlanV, o: Optimizer, known: Seq<(QuestionV, AnswerV)>)
    requires
        logical::well_formed(p),
    ensures
        optimizer::optimized(p, o, known) matches Ok(q) ==> output_names(q) == output_names(p) && is_named(q),
{
    let cols = logical::plan_columns(p);
    pushing_keeps_names(p, Seq::empty(), cols, o, known);
    optimizer::pushed_is_well_formed(p, Seq::empty(), cols, o, known);
    if let Ok(q) = optimizer::pushed(p, Seq::empty(), cols, o, known) {
        reordering_keeps_names(q, o, known);
        if let Ok(r) = optimizer::reordered(q, o, known) {
            unsorting_keeps(r);
            optimizer::unsorted_keeps_schema(r);
        }
    }
}

// ---------------------------------------------------------------- predicates

/// The predicates of all filters of a plan, each as often as it occurs.
pub open spec fn filters(p: PlanV) -> Multiset<ExprV>
    decreases p,
{
    match p {
        PlanV::Filter { source, predicate } => optimizer::conjuncts(predicate).to_multiset().add(filters(*source)),
        PlanV::Projection { source, .. } => filters(*source),
        PlanV::Aggregate { source, .. } => filters(*source),
        PlanV::Sort { source, .. } => filters(*source),
        PlanV::Limit { source, .. } => filters(*source),
        PlanV::Distinct { source } => filters(*source),
        PlanV::Join { left, right, .. } => filters(*left).add(filters(*right)),
        PlanV::SetOp { left, right, .. } => filters(*left).add(filters(*right)),
        _ => Multiset::empty(),
    }
}

/// Whether none of some predicates is a conjunction.
spec fn are_split(es: Seq<ExprV>) -> bool {
    forall|i: int| 0 <= i < es.len() ==> !is_and(#[trigger] es[i])
}

/// Whether a predicate is a conjunction.
spec fn is_and(e: ExprV) -> bool {
    e matches ExprV::BinaryOp { op: Operator::And, .. }
}

proof fn conjuncts_are_split(e: ExprV)
    ensures
        are_split(optimizer::conjuncts(e)),
    decreases e,
{
    if let ExprV::BinaryOp { left, op: Operator::And, right } = e {
        conjuncts_are_split(*left);
        conjuncts_are_split(*right);
        let l = optimizer::conjuncts(*left);
        let r = optimizer::conjuncts(*right);
        assert forall|i: int| 0 <= i < (l + r).len() implies !is_and(#[trigger] (l + r)[i]) by {
            if i < l.len() {
                assert(!is_and(l[i]));
            } else {
                assert(!is_and(r[i - l.len()]));
            }
        }
    }
}

proof fn conjuncts_of_conjunction(es: Seq<ExprV>)
    requires
        es.len() > 0,
        are_split(es),
    ensures
        optimizer::conjuncts(optimizer::conjunction_of(es)) == es,
    decreases es.len(),
{
    assert(!is_and(es[0]));
    assert(!is_and(es[es.len() - 1]));
    if es.len() > 1 {
        let shorter = es.drop_last();
        assert forall|i: int| 0 <= i < shorter.len() implies !is_and(#[trigger] shorter[i]) by {
            assert(shorter[i] == es[i]);
        }
        conjuncts_of_conjunction(shorter);
        assert(optimizer::conjuncts(es.last()) =~= seq![es.last()]);
        assert(optimizer::conjuncts(optimizer::conjunction_of(es)) =~= shorter + seq![es.last()]);
        assert(shorter + seq![es.last()] =~= es);
    } else {
        assert(optimizer::conjuncts(es[0]) =~= seq![es[0]]);
        assert(es =~= seq![es[0]]);
    }
}

proof fn filtered_adds(es: Seq<ExprV>, p: PlanV)
    requires
        are_split(es),
    ensures
        filters(optimizer::filtered(es, p)) == es.to_multiset().add(filters(p)),
{
    if es.len() > 0 {
        conjuncts_of_conjunction(es);
    } else {
        es.to_multiset_ensures();
        assert(es.to_multiset() =~= Multiset::<ExprV>::empty());
        assert(es.to_multiset().add(filters(p)) =~= filters(p));
    }
}

/// The predicates above a join are shared out: each goes to one side, or stays above.
proof fn sides_share(
    es: Seq<ExprV>,
    ls: SchemaV,
    rs: SchemaV,
    join_type: JoinType,
    i: int,
    a: Seq<ExprV>,
    b: Seq<ExprV>,
    c: Seq<ExprV>,
)
    requires
        0 <= i <= es.len(),
        are_split(es),
        are_split(a),
        are_split(b),
        are_split(c),
    ensures
        ({
            let l = optimizer::going_to(es, ls, rs, join_type, Side::Left, i, a);
            let r = optimizer::going_to(es, ls, rs, join_type, Side::Right, i, b);
            let n = optimizer::going_to(es, ls, rs, join_type, Side::Above, i, c);
            &&& are_split(l)
            &&& are_split(r)
            &&& are_split(n)
            &&& l.to_multiset().add(r.to_multiset()).add(n.to_multiset()) == a.to_multiset().add(b.to_multiset()).add(
                c.to_multiset(),
            ).add(es.skip(i).to_multiset())
        }),
    decreases es.len() - i,
{
    if i >= es.len() {
        let rest = es.skip(i);
        rest.to_multiset_ensures();
        assert(rest.to_multiset() =~= Multiset::<ExprV>::empty());
        let sum = a.to_multiset().add(b.to_multiset()).add(c.to_multiset());
        assert(sum.add(rest.to_multiset()) =~= sum);
    } else {
        let e = es[i];
        assert(!is_and(e));
        let rest = es.skip(i);
        assert(rest.remove(0) =~= es.skip(i + 1));
        rest.to_multiset_ensures();
        assert(rest.to_multiset().count(e) > 0) by {
            assert(rest[0] == e);
            assert(rest.contains(e));
        }
        assert(rest.to_multiset() =~= es.skip(i + 1).to_multiset().insert(e));
        a.to_multiset_ensures();
        b.to_multiset_ensures();
        c.to_multiset_ensures();
        match optimizer::side_of(e, ls, rs, join_type) {
            Side::Left => {
                split_grows(a, e);
                sides_share(es, ls, rs, join_type, i + 1, a.push(e), b, c);
                assert(a.push(e).to_multiset() =~= a.to_multiset().insert(e));
            },
            Side::Right => {
                split_grows(b, e);
                sides_share(es, ls, rs, join_type, i + 1, a, b.push(e), c);
                assert(b.push(e).to_multiset() =~= b.to_multiset().insert(e));
            },
            Side::Above => {
                split_grows(c, e);
                sides_share(es, ls, rs, join_type, i + 1, a, b, c.push(e));
                assert(c.push(e).to_multiset() =~= c.to_multiset().insert(e));
            },
        }
        let l = optimizer::going_to(es, ls, rs, join_type, Side::Left, i, a);
        let r = optimizer::going_to(es, ls, rs, join_type, Side::Right, i, b);
        let n = optimizer::going_to(es, ls, rs, join_type, Side::Above, i, c);
        assert(l.to_multiset().add(r.to_multiset()).add(n.to_multiset()) =~= a.to_multiset().add(b.to_multiset()).add(
            c.to_multiset(),
        ).add(rest.to_multiset()));
    }
}

proof fn split_grows(es: Seq<ExprV>, e: ExprV)
    requires
        are_split(es),
        !is_and(e),
    ensures
        are_split(es.push(e)),
{
    assert forall|i: int| 0 <= i < es.push(e).len() implies !is_and(#[trigger] es.push(e)[i]) by {
        if i < es.len() {
            assert(!is_and(es[i]));
        }
    }
}

/// A predicate above an outer join never goes to its right side.
pub proof fn outer_join_keeps_its_right_side(es: Seq<ExprV>, ls: SchemaV, rs: SchemaV, i: int)
    requires
        0 <= i,
    ensures
        optimizer::going_to(es, ls, rs, JoinType::Left, Side::Right, i, Seq::empty()) == Seq::<ExprV>::empty(),
    decreases es.len() - i,
{
    if i < es.len() {
        outer_join_keeps_its_right_side(es, ls, rs, i + 1);
    }
}

proof fn leaf_keeps_filters(
    p: PlanV,
    table: Seq<char>,
    s: SchemaV,
    es: Seq<ExprV>,
    cols: Set<Seq<char>>,
    o: Optimizer,
    known: Seq<(QuestionV, AnswerV)>,
)
    requires
        optimizer::reads(p, table, s),
        are_split(es),
    ensures
        optimizer::pushed_leaf(p, table, s, es, cols, o, known) matches Ok(q) ==> filters(q) == es.to_multiset().add(
            filters(p),
        ),
{
    if es.len() > 0 {
        conjuncts_of_conjunction(es);
        optimizer::best_path_reads_the_table(
            table,
            s,
            optimizer::conjunction_of(es),
            o.stats_of(table),
            cols,
            known,
        );
        if let Ok(q) = optimizer::best_path(table, s, optimizer::conjunction_of(es), o.stats_of(table), cols, known) {
            assert(filters(q) == filters(p));
        }
    } else {
        es.to_multiset_ensures();
        assert(es.to_multiset().add(filters(p)) =~= filters(p));
    }
}

proof fn nothing_to_add(p: PlanV)
    ensures
        Seq::<ExprV>::empty().to_multiset().add(filters(p)) == filters(p),
        are_split(Seq::<ExprV>::empty()),
{
    let none = Seq::<ExprV>::empty();
    none.to_multiset_ensures();
    assert(none.to_multiset().add(filters(p)) =~= filters(p));
}

/// Moving predicates down keeps all of them.
proof fn pushing_keeps_filters(
    p: PlanV,
    es: Seq<ExprV>,
    cols: Set<Seq<char>>,
    o: Optimizer,
    known: Seq<(QuestionV, AnswerV)>,
)
    requires
        are_split(es),
    ensures
        optimizer::pushed(p, es, cols, o, known) matches Ok(q) ==> filters(q) == es.to_multiset().add(filters(p)),
    decreases p,
{
    match p {
        PlanV::Filter { source, predicate } => {
            let more = optimizer::conjuncts(predicate);
            conjuncts_are_split(predicate);
            assert forall|i: int| 0 <= i < (es + more).len() implies !is_and(#[trigger] (es + more)[i]) by {
                if i < es.len() {
                    assert(!is_and(es[i]));
                } else {
                    assert(!is_and(more[i - es.len()]));
                }
            }
            pushing_keeps_filters(*source, es + more, cols, o, known);
            vstd::seq_lib::lemma_multiset_commutative(es, more);
            assert(es.to_multiset().add(more.to_multiset()).add(filters(*source)) =~= es.to_multiset().add(
                more.to_multiset().add(filters(*source)),
            ));
        },
        PlanV::Join { left, right, condition, join_type, .. } => {
            let ls = logical::plan_schema(*left);
            let rs = logical::plan_schema(*right);
            let none = Seq::<ExprV>::empty();
            let to_left = optimizer::going_to(es, ls, rs, join_type, Side::Left, 0, none);
            let to_right = optimizer::going_to(es, ls, rs, join_type, Side::Right, 0, none);
            let above = optimizer::going_to(es, ls, rs, join_type, Side::Above, 0, none);
            nothing_to_add(p);
            sides_share(es, ls, rs, join_type, 0, none, none, none);
            assert(es.skip(0) =~= es);
            none.to_multiset_ensures();
            assert(none.to_multiset() =~= Multiset::<ExprV>::empty());
            assert(to_left.to_multiset().add(to_right.to_multiset()).add(above.to_multiset()) =~= es.to_multiset());
            pushing_keeps_filters(*left, to_left, cols, o, known);
            pushing_keeps_filters(*right, to_right, cols, o, known);
            if let (Ok(l), Ok(r)) = (
                optimizer::pushed(*left, to_left, cols, o, known),
                optimizer::pushed(*right, to_right, cols, o, known),
            ) {
                let join = logical::join_of(l, r, condition, join_type);
                filtered_adds(above, join);
                assert(filters(join) == filters(l).add(filters(r)));
                assert(above.to_multiset().add(
                    to_left.to_multiset().add(filters(*left)).add(to_right.to_multiset().add(filters(*right))),
                ) =~= to_left.to_multiset().add(to_right.to_multiset()).add(above.to_multiset()).add(
                    filters(*left).add(filters(*right)),
                ));
            }
        },
        PlanV::Projection { source, expressions, field_names, .. } => {
            nothing_to_add(*source);
            pushing_keeps_filters(*source, Seq::empty(), cols, o, known);
            if let Ok(q) = optimizer::pushed(*source, Seq::empty(), cols, o, known) {
                filtered_adds(es, logical::projection_of(q, expressions, field_names));
            }
        },
        PlanV::Aggregate { source, group_by, aggrs, field_names, .. } => {
            nothing_to_add(*source);
            pushing_keeps_filters(*source, Seq::empty(), cols, o, known);
            if let Ok(q) = optimizer::pushed(*source, Seq::empty(), cols, o, known) {
                filtered_adds(es, logical::aggregate_of(q, group_by, aggrs, field_names));
            }
        },
        PlanV::Sort { source, .. } => {
            pushing_keeps_filters(*source, es, cols, o, known);
        },
        PlanV::Distinct { source } => {
            pushing_keeps_filters(*source, es, cols, o, known);
        },
        PlanV::Limit { source, limit, offset } => {
            nothing_to_add(*source);
            pushing_keeps_filters(*source, Seq::empty(), cols, o, known);
            if let Ok(q) = optimizer::pushed(*source, Seq::empty(), cols, o, known) {
                filtered_adds(es, PlanV::Limit { source: Box::new(q), limit, offset });
            }
        },
        PlanV::SetOp { left, right, op, all } => {
            nothing_to_add(*left);
            nothing_to_add(*right);
            pushing_keeps_filters(*left, Seq::empty(), cols, o, known);
            pushing_keeps_filters(*right, Seq::empty(), cols, o, known);
            if let (Ok(l), Ok(r)) = (
                optimizer::pushed(*left, Seq::empty(), cols, o, known),
                optimizer::pushed(*right, Seq::empty(), cols, o, known),
            ) {
                filtered_adds(es, PlanV::SetOp { left: Box::new(l), right: Box::new(r), op, all });
            }
        },
        PlanV::Scan { table_name, schema, .. } => leaf_keeps_filters(p, table_name, schema, es, cols, o, known),
        PlanV::IndexScan { table_name, schema, .. } => leaf_keeps_filters(p, table_name, schema, es, cols, o, known),
        PlanV::FullTextScan { table_name, schema, .. } => leaf_keeps_filters(p, table_name, schema, es, cols, o, known),
    }
}

/// Reordering joins keeps the predicates.
proof fn reordering_keeps_filters(p: PlanV, o: Optimizer, known: Seq<(QuestionV, AnswerV)>)
    ensures
        optimizer::reordered(p, o, known) matches Ok(q) ==> filters(q) == filters(p),
    decreases p,
{
    match p {
        PlanV::Join { left, right, condition, join_type, .. } => {
            reordering_keeps_filters(*left, o, known);
            reordering_keeps_filters(*right, o, known);
            if let (Ok(l), Ok(r)) = (optimizer::reordered(*left, o, known), optimizer::reordered(*right, o, known)) {
                let join = logical::join_of(l, r, condition, join_type);
                let exchanged = logical::join_of(r, l, optimizer::swapped(condition), join_type);
                assert(filters(join) == filters(l).add(filters(r)));
                assert(filters(exchanged) == filters(r).add(filters(l)));
                assert(filters(r).add(filters(l)) =~= filters(l).add(filters(r)));
                let cols = logical::plan_schema(join).columns;
                assert(filters(
                    logical::projection_of(exchanged, optimizer::column_refs(cols), optimizer::column_names(cols)),
                ) == filters(exchanged));
            }
        },
        PlanV::Filter { source, .. } => reordering_keeps_filters(*source, o, known),
        PlanV::Sort { source, .. } => reordering_keeps_filters(*source, o, known),
        PlanV::Limit { source, .. } => reordering_keeps_filters(*source, o, known),
        PlanV::Distinct { source } => reordering_keeps_filters(*source, o, known),
        PlanV::Projection { source, .. } => reordering_keeps_filters(*source, o, known),
        PlanV::Aggregate { source, .. } => reordering_keeps_filters(*source, o, known),
        PlanV::SetOp { left, right, .. } => {
            reordering_keeps_filters(*left, o, known);
            reordering_keeps_filters(*right, o, known);
        },
        _ => {},
    }
}

/// An optimized plan checks exactly the predicates of the plan it was made from: none is lost,
/// also where a scan was narrowed by it, and none is added.
pub proof fn optimizing_keeps_predicates(p: PlanV, o: Optimizer, known: Seq<(QuestionV, AnswerV)>)
    ensures
        optimizer::optimized(p, o, known) matches Ok(q) ==> filters(q) == filters(p),
{
    let cols = logical::plan_columns(p);
    nothing_to_add(p);
    pushing_keeps_filters(p, Seq::empty(), cols, o, known);
    if let Ok(q) = optimizer::pushed(p, Seq::empty(), cols, o, known) {
        reordering_keeps_filters(q, o, known);
        if let Ok(r) = optimizer::reordered(q, o, known) {
            unsorting_keeps(r);
        }
    }
}

// ---------------------------------------------------------------- sorts

/// Whether some index of a table with this name has a column that denotes `col` in front.
pub open spec fn index_sorts(indexes: Seq<IndexV>, name: Seq<char>, col: Seq<char>) -> bool {
    exists|i: int|
        0 <= i < indexes.len() && (#[trigger] indexes[i]).name == name && indexes[i].columns.len() > 0
            && text::names_match(indexes[i].columns[0], col)
}

/// Whether a projection, from position `i` on, passes a column on under a name that denotes
/// `col`, and its source comes sorted by it.
pub open spec fn passes_sorted(source: PlanV, es: Seq<ExprV>, names: Seq<Seq<char>>, col: Seq<char>, i: int) -> bool
    decreases source, 2int, es.len() - i,
{
    i < es.len() && ((text::names_match(names[i], col) && (es[i] matches ExprV::Column(inner, _) && comes_sorted(
        source,
        inner,
    ))) || passes_sorted(source, es, names, col, i + 1))
}

/// Whether the rows of a plan come in the order of a column: they are read by a primary key or
/// an index with the column in front, and nothing changes their order on the way.
pub open spec fn comes_sorted(p: PlanV, col: Seq<char>) -> bool
    decreases p, 1int, 0int,
{
    match p {
        PlanV::Scan { schema, .. } => schema::primary_key_position(schema) matches Some(i) && text::names_match(
            schema.columns[i as int].name,
            col,
        ),
        PlanV::IndexScan { schema, index_name, .. } => index_sorts(schema.indexes, index_name, col),
        PlanV::Filter { source, .. } => comes_sorted(*source, col),
        PlanV::Limit { source, .. } => comes_sorted(*source, col),
        PlanV::Distinct { source } => comes_sorted(*source, col),
        PlanV::Projection { source, expressions, field_names, .. } => passes_sorted(
            *source,
            expressions,
            field_names,
            col,
            0,
        ),
        _ => false,
    }
}

proof fn index_key_sorts(indexes: Seq<IndexV>, name: Seq<char>, i: int, col: Seq<char>)
    requires
        0 <= i,
        optimizer::index_key_from(indexes, name, i) matches Some(k) && text::names_match(k, col),
    ensures
        index_sorts(indexes, name, col),
    decreases indexes.len() - i,
{
    if i < indexes.len() && indexes[i].name != name {
        index_key_sorts(indexes, name, i + 1, col);
    }
}

proof fn index_on_sorts(indexes: Seq<IndexV>, col: Seq<char>, i: int)
    requires
        0 <= i,
        optimizer::index_on_from(indexes, col, i) is Some,
    ensures
        index_sorts(indexes, optimizer::index_on_from(indexes, col, i)->0, col),
    decreases indexes.len() - i,
{
    if i < indexes.len() && !(indexes[i].columns.len() > 0 && text::names_match(indexes[i].columns[0], col)) {
        index_on_sorts(indexes, col, i + 1);
    }
}

/// A position at which a projection passes a sorted column on is found.
proof fn passes_sorted_at(source: PlanV, es: Seq<ExprV>, names: Seq<Seq<char>>, col: Seq<char>, i: int, j: int)
    requires
        0 <= i <= j < es.len(),
        text::names_match(names[j], col),
        es[j] matches ExprV::Column(inner, _) && comes_sorted(source, inner),
    ensures
        passes_sorted(source, es, names, col, i),
    decreases j - i,
{
    if i < j {
        passes_sorted_at(source, es, names, col, i + 1, j);
    }
}

proof fn passed_on_at(es: Seq<ExprV>, names: Seq<Seq<char>>, key: Seq<char>, i: int) -> (j: int)
    requires
        0 <= i,
        optimizer::passed_on(es, names, key, i) is Some,
    ensures
        i <= j < es.len(),
        optimizer::passed_on(es, names, key, i) == Some(names[j]),
        es[j] matches ExprV::Column(inner, _) && text::names_match(inner, key),
    decreases es.len() - i,
{
    if let ExprV::Column(name, _) = es[i] {
        if text::names_match(name, key) {
            return i;
        }
    }
    passed_on_at(es, names, key, i + 1)
}

proof fn passed_from_at(es: Seq<ExprV>, names: Seq<Seq<char>>, col: Seq<char>, i: int) -> (j: int)
    requires
        0 <= i,
        optimizer::passed_from(es, names, col, i) is Some,
    ensures
        i <= j < es.len(),
        names[j] == col,
        es[j] matches ExprV::Column(inner, _) && optimizer::passed_from(es, names, col, i) == Some(inner),
    decreases es.len() - i,
{
    if names[i] == col && es[i] is Column {
        i
    } else {
        passed_from_at(es, names, col, i + 1)
    }
}

/// A plan whose known sort key denotes a column comes sorted by it.
proof fn sort_key_sorts(p: PlanV, col: Seq<char>)
    requires
        optimizer::sort_key(p) matches Some(k) && text::names_match(k, col),
    ensures
        comes_sorted(p, col),
    decreases p,
{
    match p {
        PlanV::IndexScan { schema, index_name, .. } => index_key_sorts(schema.indexes, index_name, 0, col),
        PlanV::Filter { source, .. } => sort_key_sorts(*source, col),
        PlanV::Limit { source, .. } => sort_key_sorts(*source, col),
        PlanV::Distinct { source } => sort_key_sorts(*source, col),
        PlanV::Projection { source, expressions, field_names, .. } => {
            let key = optimizer::sort_key(*source)->0;
            let j = passed_on_at(expressions, field_names, key, 0);
            sort_key_sorts(*source, expressions[j]->Column_0);
            passes_sorted_at(*source, expressions, field_names, col, 0, j);
        },
        _ => {},
    }
}

/// A plan read through an index on a column comes sorted by it.
proof fn promoted_sorts(p: PlanV, col: Seq<char>)
    requires
        optimizer::promoted(p, col) is Some,
    ensures
        comes_sorted(optimizer::promoted(p, col)->0, col),
    decreases p,
{
    match p {
        PlanV::Scan { schema, .. } => index_on_sorts(schema.indexes, col, 0),
        PlanV::Filter { source, .. } => promoted_sorts(*source, col),
        PlanV::Limit { source, .. } => promoted_sorts(*source, col),
        PlanV::Distinct { source } => promoted_sorts(*source, col),
        PlanV::Projection { source, expressions, field_names, .. } => {
            let inner = optimizer::passed_from(expressions, field_names, col, 0)->0;
            promoted_sorts(*source, inner);
            let j = passed_from_at(expressions, field_names, col, 0);
            passes_sorted_at(optimizer::promoted(*source, inner)->0, expressions, field_names, col, 0, j);
        },
        _ => {},
    }
}

/// A sort is dropped only where it is for one ascending column and the rows come in the order of
/// that column anyway.
pub proof fn dropped_sorts_are_served(q: PlanV, keys: Seq<(ExprV, bool)>)
    ensures
        optimizer::sorted_plan(q, keys) == (PlanV::Sort { source: Box::new(q), keys }) || (keys.len() == 1 && keys[0].1 && (
        keys[0].0 matches ExprV::Column(col, _) && comes_sorted(optimizer::sorted_plan(q, keys), col))),
{
    if keys.len() == 1 && keys[0].1 {
        if let ExprV::Column(col, _) = keys[0].0 {
            if optimizer::sort_key(q) is Some && text::names_match(optimizer::sort_key(q)->0, col) {
                sort_key_sorts(q, col);
            } else if optimizer::promoted(q, col) is Some {
                promoted_sorts(q, col);
            }
        }
    }
}

} // verus!
