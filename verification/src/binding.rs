//! What binding columns and parameters keeps of an expression.

use crate::eval;
use crate::expr;
use crate::expr::ExprV;
use crate::facts;
use crate::facts::{AnswerV, ErrorV, QuestionV};
use crate::logical;
use crate::logical::{AggregateV, PlanKeyV, PlanV};
use crate::schema::SchemaV;
use crate::value::ValueV;
use vstd::prelude::*;

verus! {

// ---------------------------------------------------------------- lists of outcomes

/// Collected values are those of their outcomes, each in its place.
pub proof fn collected_values<T>(rs: Seq<Result<T, ErrorV>>, i: int, acc: Seq<T>, ys: Seq<T>)
    requires
        0 <= i <= rs.len(),
        acc.len() == i,
        facts::collected(rs, i, acc) == Ok::<Seq<T>, ErrorV>(ys),
    ensures
        ys.len() == rs.len(),
        forall|j: int| 0 <= j < i ==> ys[j] == acc[j],
        forall|j: int| i <= j < rs.len() ==> #[trigger] rs[j] == Ok::<T, ErrorV>(ys[j]),
    decreases rs.len() - i,
{
    if i < rs.len() {
        let x = rs[i]->Ok_0;
        collected_values(rs, i + 1, acc.push(x), ys);
        assert(ys[i] == acc.push(x)[i]);
        assert forall|j: int| 0 <= j < i implies ys[j] == acc[j] by {
            assert(acc.push(x)[j] == acc[j]);
        }
    }
}

/// Outcomes that are all values are collected to these.
pub proof fn values_collected<T>(rs: Seq<Result<T, ErrorV>>, i: int, acc: Seq<T>, ys: Seq<T>)
    requires
        0 <= i <= rs.len(),
        ys.len() == rs.len(),
        acc == ys.take(i),
        forall|j: int| 0 <= j < rs.len() ==> #[trigger] rs[j] == Ok::<T, ErrorV>(ys[j]),
    ensures
        facts::collected(rs, i, acc) == Ok::<Seq<T>, ErrorV>(ys),
    decreases rs.len() - i,
{
    if i < rs.len() {
        assert(rs[i] == Ok::<T, ErrorV>(ys[i]));
        assert(acc.push(ys[i]) =~= ys.take(i + 1));
        values_collected(rs, i + 1, acc.push(ys[i]), ys);
    } else {
        assert(ys.take(i) =~= ys);
    }
}

// ---------------------------------------------------------------- columns

/// Whether the column of every full-text match of an expression is found by its exact name where
/// it is found at all.
pub open spec fn matches_by_name(e: ExprV, s: SchemaV) -> bool
    decreases e,
{
    match e {
        ExprV::Match { column, index, .. } => expr::bound_index(s, column, index) matches Ok(i) ==> eval::match_index(
            s,
            column,
            index,
        ) == Ok::<int, ErrorV>(i as int),
        ExprV::BinaryOp { left, right, .. } => matches_by_name(*left, s) && matches_by_name(*right, s),
        ExprV::Case { operand, conditions, results, else_result } => maybe_by_name(operand, s) && list_by_name(
            conditions,
            s,
        ) && list_by_name(results, s) && maybe_by_name(else_result, s),
        ExprV::Function { args, .. } => list_by_name(args, s),
        ExprV::Not(inner) => matches_by_name(*inner, s),
        ExprV::IsNull(inner) => matches_by_name(*inner, s),
        ExprV::InList { expr, list } => matches_by_name(*expr, s) && list_by_name(list, s),
        ExprV::InSubquery { expr, .. } => matches_by_name(*expr, s),
        ExprV::Cast { expr, .. } => matches_by_name(*expr, s),
        _ => true,
    }
}

/// Whether this holds of an optional expression.
pub open spec fn maybe_by_name(o: Option<Box<ExprV>>, s: SchemaV) -> bool
    decreases o,
{
    match o {
        Some(e) => matches_by_name(*e, s),
        None => true,
    }
}

/// Whether this holds of every one of some expressions.
pub open spec fn list_by_name(es: Seq<ExprV>, s: SchemaV) -> bool
    decreases es,
{
    forall|i: int| 0 <= i < es.len() ==> matches_by_name(#[trigger] es[i], s)
}

/// An expression whose columns were bound to a schema has on every row of the schema the value
/// that it had before. It holds of full-text matches whose columns are named exactly.
pub proof fn binding_columns_keeps_values(
    e: ExprV,
    s: SchemaV,
    row: Seq<ValueV>,
    known: Seq<(QuestionV, AnswerV)>,
)
    requires
        matches_by_name(e, s),
    ensures
        expr::bound(e, s) matches Ok(b) ==> eval::evaluated(b, row, s, known) == eval::evaluated(e, row, s, known),
    decreases e,
{
    if expr::bound(e, s) is Ok {
        match e {
            ExprV::BinaryOp { left, right, .. } => {
                binding_columns_keeps_values(*left, s, row, known);
                binding_columns_keeps_values(*right, s, row, known);
            },
            ExprV::Case { operand, conditions, results, else_result } => {
                maybe_keeps_value(operand, s, row, known);
                list_keeps_values(conditions, s, row, known);
                list_keeps_values(results, s, row, known);
                maybe_keeps_value(else_result, s, row, known);
            },
            ExprV::Function { args, .. } => list_keeps_values(args, s, row, known),
            ExprV::Not(inner) => binding_columns_keeps_values(*inner, s, row, known),
            ExprV::IsNull(inner) => binding_columns_keeps_values(*inner, s, row, known),
            ExprV::InList { expr, list } => {
                binding_columns_keeps_values(*expr, s, row, known);
                list_keeps_values(list, s, row, known);
            },
            ExprV::Cast { expr, .. } => binding_columns_keeps_values(*expr, s, row, known),
            _ => {},
        }
    }
}

proof fn maybe_keeps_value(o: Option<Box<ExprV>>, s: SchemaV, row: Seq<ValueV>, known: Seq<(QuestionV, AnswerV)>)
    requires
        maybe_by_name(o, s),
    ensures
        expr::bound_opt(o, s) matches Ok(b) ==> eval::evaluated_opt(b, row, s, known) == eval::evaluated_opt(
            o,
            row,
            s,
            known,
        ),
    decreases o,
{
    if let Some(e) = o {
        binding_columns_keeps_values(*e, s, row, known);
    }
}

proof fn list_keeps_values(es: Seq<ExprV>, s: SchemaV, row: Seq<ValueV>, known: Seq<(QuestionV, AnswerV)>)
    requires
        list_by_name(es, s),
    ensures
        facts::collected(expr::bound_each(es, s), 0, Seq::empty()) matches Ok(bs) ==> bs.len() == es.len()
            && eval::evaluated_each(bs, row, s, known) == eval::evaluated_each(es, row, s, known),
    decreases es,
{
    let rs = expr::bound_each(es, s);
    if let Ok(bs) = facts::collected(rs, 0, Seq::empty()) {
        collected_values(rs, 0, Seq::empty(), bs);
        assert forall|i: int| 0 <= i < es.len() implies eval::evaluated(#[trigger] bs[i], row, s, known)
            == eval::evaluated(es[i], row, s, known) by {
            assert(rs[i] == Ok::<ExprV, ErrorV>(bs[i]));
            assert(matches_by_name(es[i], s));
            binding_columns_keeps_values(es[i], s, row, known);
        }
        assert(eval::evaluated_each(bs, row, s, known) =~= eval::evaluated_each(es, row, s, known));
    }
}

/// Binding the columns of an expression a second time changes nothing, whatever the schema.
pub proof fn binding_columns_twice_changes_nothing(e: ExprV, s: SchemaV, other: SchemaV)
    ensures
        expr::bound(e, s) matches Ok(b) ==> expr::bound(b, other) == Ok::<ExprV, ErrorV>(b),
    decreases e,
{
    if expr::bound(e, s) is Ok {
        match e {
            ExprV::BinaryOp { left, right, .. } => {
                binding_columns_twice_changes_nothing(*left, s, other);
                binding_columns_twice_changes_nothing(*right, s, other);
            },
            ExprV::Case { operand, conditions, results, else_result } => {
                maybe_bound_twice(operand, s, other);
                list_bound_twice(conditions, s, other);
                list_bound_twice(results, s, other);
                maybe_bound_twice(else_result, s, other);
            },
            ExprV::Function { args, .. } => list_bound_twice(args, s, other),
            ExprV::Not(inner) => binding_columns_twice_changes_nothing(*inner, s, other),
            ExprV::IsNull(inner) => binding_columns_twice_changes_nothing(*inner, s, other),
            ExprV::InList { expr, list } => {
                binding_columns_twice_changes_nothing(*expr, s, other);
                list_bound_twice(list, s, other);
            },
            ExprV::InSubquery { expr, .. } => binding_columns_twice_changes_nothing(*expr, s, other),
            ExprV::Cast { expr, .. } => binding_columns_twice_changes_nothing(*expr, s, other),
            _ => {},
        }
    }
}

proof fn maybe_bound_twice(o: Option<Box<ExprV>>, s: SchemaV, other: SchemaV)
    ensures
        expr::bound_opt(o, s) matches Ok(b) ==> expr::bound_opt(b, other) == Ok::<Option<Box<ExprV>>, ErrorV>(b),
    decreases o,
{
    if let Some(e) = o {
        binding_columns_twice_changes_nothing(*e, s, other);
    }
}

proof fn list_bound_twice(es: Seq<ExprV>, s: SchemaV, other: SchemaV)
    ensures
        facts::collected(expr::bound_each(es, s), 0, Seq::empty()) matches Ok(bs) ==> facts::collected(
            expr::bound_each(bs, other),
            0,
            Seq::empty(),
        ) == Ok::<Seq<ExprV>, ErrorV>(bs),
    decreases es,
{
    let rs = expr::bound_each(es, s);
    if let Ok(bs) = facts::collected(rs, 0, Seq::empty()) {
        collected_values(rs, 0, Seq::empty(), bs);
        let again = expr::bound_each(bs, other);
        assert forall|i: int| 0 <= i < again.len() implies #[trigger] again[i] == Ok::<ExprV, ErrorV>(bs[i]) by {
            assert(rs[i] == Ok::<ExprV, ErrorV>(bs[i]));
            binding_columns_twice_changes_nothing(es[i], s, other);
        }
        assert(bs.take(0) =~= Seq::empty());
        values_collected(again, 0, Seq::empty(), bs);
    }
}

/// Whether an index is set, and as it was where it was set before.
pub open spec fn is_indexed(before: Option<usize>, after: Option<usize>) -> bool {
    after is Some && (before is Some ==> after == before)
}

/// Whether an expression is another one with an index for every column, and nothing else changed.
/// The columns of a subquery are not its own.
pub open spec fn only_indexed(e: ExprV, b: ExprV) -> bool
    decreases e,
{
    match e {
        ExprV::Column(name, index) => b matches ExprV::Column(n, i) && n == name && is_indexed(index, i),
        ExprV::Match { column, index, query_str } => b matches ExprV::Match { column: c, index: i, query_str: q }
            && c == column && q == query_str && is_indexed(index, i),
        ExprV::BinaryOp { left, op, right } => b matches ExprV::BinaryOp { left: l, op: o, right: r } && o == op
            && only_indexed(*left, *l) && only_indexed(*right, *r),
        ExprV::Case { operand, conditions, results, else_result } => b matches ExprV::Case {
            operand: o,
            conditions: c,
            results: r,
            else_result: l,
        } && maybe_indexed(operand, o) && list_indexed(conditions, c) && list_indexed(results, r) && maybe_indexed(
            else_result,
            l,
        ),
        ExprV::Function { name, args } => b matches ExprV::Function { name: n, args: a } && n == name && list_indexed(
            args,
            a,
        ),
        ExprV::Not(inner) => b matches ExprV::Not(i) && only_indexed(*inner, *i),
        ExprV::IsNull(inner) => b matches ExprV::IsNull(i) && only_indexed(*inner, *i),
        ExprV::InList { expr, list } => b matches ExprV::InList { expr: x, list: l } && only_indexed(*expr, *x)
            && list_indexed(list, l),
        ExprV::InSubquery { expr, subquery, negated } => b matches ExprV::InSubquery {
            expr: x,
            subquery: p,
            negated: n,
        } && only_indexed(*expr, *x) && p == subquery && n == negated,
        ExprV::Cast { expr, target_type } => b matches ExprV::Cast { expr: x, target_type: t } && only_indexed(
            *expr,
            *x,
        ) && t == target_type,
        ExprV::Literal(_) => b == e,
        ExprV::Parameter(_) => b == e,
        ExprV::ScalarSubquery(_) => b == e,
        ExprV::Exists { .. } => b == e,
    }
}

/// Whether this holds of an optional expression.
pub open spec fn maybe_indexed(o: Option<Box<ExprV>>, b: Option<Box<ExprV>>) -> bool
    decreases o,
{
    match o {
        Some(e) => b matches Some(x) && only_indexed(*e, *x),
        None => b is None,
    }
}

/// Whether this holds of every one of some expressions.
pub open spec fn list_indexed(es: Seq<ExprV>, bs: Seq<ExprV>) -> bool
    decreases es,
{
    es.len() == bs.len() && forall|i: int| 0 <= i < es.len() ==> only_indexed(#[trigger] es[i], bs[i])
}

/// After its columns were bound, every column of an expression has an index, one that had an
/// index before has the same, and all else is unchanged.
pub proof fn binding_columns_sets_indexes_alone(e: ExprV, s: SchemaV)
    ensures
        expr::bound(e, s) matches Ok(b) ==> only_indexed(e, b),
    decreases e,
{
    if expr::bound(e, s) is Ok {
        match e {
            ExprV::BinaryOp { left, right, .. } => {
                binding_columns_sets_indexes_alone(*left, s);
                binding_columns_sets_indexes_alone(*right, s);
            },
            ExprV::Case { operand, conditions, results, else_result } => {
                maybe_sets_indexes(operand, s);
                list_sets_indexes(conditions, s);
                list_sets_indexes(results, s);
                maybe_sets_indexes(else_result, s);
            },
            ExprV::Function { args, .. } => list_sets_indexes(args, s),
            ExprV::Not(inner) => binding_columns_sets_indexes_alone(*inner, s),
            ExprV::IsNull(inner) => binding_columns_sets_indexes_alone(*inner, s),
            ExprV::InList { expr, list } => {
                binding_columns_sets_indexes_alone(*expr, s);
                list_sets_indexes(list, s);
            },
            ExprV::InSubquery { expr, .. } => binding_columns_sets_indexes_alone(*expr, s),
            ExprV::Cast { expr, .. } => binding_columns_sets_indexes_alone(*expr, s),
            _ => {},
        }
    }
}

proof fn maybe_sets_indexes(o: Option<Box<ExprV>>, s: SchemaV)
    ensures
        expr::bound_opt(o, s) matches Ok(b) ==> maybe_indexed(o, b),
    decreases o,
{
    if let Some(e) = o {
        binding_columns_sets_indexes_alone(*e, s);
    }
}

proof fn list_sets_indexes(es: Seq<ExprV>, s: SchemaV)
    ensures
        facts::collected(expr::bound_each(es, s), 0, Seq::empty()) matches Ok(bs) ==> list_indexed(es, bs),
    decreases es,
{
    let rs = expr::bound_each(es, s);
    if let Ok(bs) = facts::collected(rs, 0, Seq::empty()) {
        collected_values(rs, 0, Seq::empty(), bs);
        assert forall|i: int| 0 <= i < es.len() implies only_indexed(#[trigger] es[i], bs[i]) by {
            assert(rs[i] == Ok::<ExprV, ErrorV>(bs[i]));
            binding_columns_sets_indexes_alone(es[i], s);
        }
    }
}

// ---------------------------------------------------------------- parameters

/// Whether an expression has no parameter.
pub open spec fn is_closed(e: ExprV) -> bool
    decreases e,
{
    match e {
        ExprV::Parameter(_) => false,
        ExprV::Column(_, _) => true,
        ExprV::Literal(_) => true,
        ExprV::Match { .. } => true,
        ExprV::BinaryOp { left, right, .. } => is_closed(*left) && is_closed(*right),
        ExprV::Case { operand, conditions, results, else_result } => maybe_closed(operand) && list_closed(conditions)
            && list_closed(results) && maybe_closed(else_result),
        ExprV::Function { args, .. } => list_closed(args),
        ExprV::Not(inner) => is_closed(*inner),
        ExprV::IsNull(inner) => is_closed(*inner),
        ExprV::InList { expr, list } => is_closed(*expr) && list_closed(list),
        ExprV::ScalarSubquery(p) => plan_closed(*p),
        ExprV::Exists { subquery, .. } => plan_closed(*subquery),
        ExprV::InSubquery { expr, subquery, .. } => is_closed(*expr) && plan_closed(*subquery),
        ExprV::Cast { expr, .. } => is_closed(*expr),
    }
}

/// Whether an optional expression has no parameter.
pub open spec fn maybe_closed(o: Option<Box<ExprV>>) -> bool
    decreases o,
{
    match o {
        Some(e) => is_closed(*e),
        None => true,
    }
}

/// Whether none of some expressions has a parameter.
pub open spec fn list_closed(es: Seq<ExprV>) -> bool
    decreases es,
{
    forall|i: int| 0 <= i < es.len() ==> is_closed(#[trigger] es[i])
}

/// Whether none of some aggregate functions has a parameter.
pub open spec fn aggrs_closed(s: Seq<AggregateV>) -> bool
    decreases s,
{
    forall|i: int| 0 <= i < s.len() ==> aggr_closed(#[trigger] s[i])
}

/// Whether an aggregate function has no parameter.
pub open spec fn aggr_closed(a: AggregateV) -> bool
    decreases a,
{
    match a {
        AggregateV::Count { expr, .. } => is_closed(expr),
        AggregateV::Sum { expr, .. } => is_closed(expr),
        AggregateV::Min { expr, .. } => is_closed(expr),
        AggregateV::Max { expr, .. } => is_closed(expr),
        AggregateV::Avg { expr, .. } => is_closed(expr),
    }
}

/// Whether none of some sort keys has a parameter.
pub open spec fn keys_closed(s: Seq<(ExprV, bool)>) -> bool
    decreases s,
{
    forall|i: int| 0 <= i < s.len() ==> is_closed((#[trigger] s[i]).0)
}

/// Whether the bounds of a range are no parameters.
pub open spec fn range_closed(r: Option<(PlanKeyV, PlanKeyV)>) -> bool {
    r matches Some((a, b)) ==> a is Value && b is Value
}

/// Whether a plan has no parameter.
pub open spec fn plan_closed(p: PlanV) -> bool
    decreases p,
{
    match p {
        PlanV::Scan { range, .. } => range_closed(range),
        PlanV::IndexScan { range, .. } => range_closed(range),
        PlanV::FullTextScan { .. } => true,
        PlanV::Filter { source, predicate } => plan_closed(*source) && is_closed(predicate),
        PlanV::Projection { source, expressions, .. } => plan_closed(*source) && list_closed(expressions),
        PlanV::Join { left, right, condition, .. } => plan_closed(*left) && plan_closed(*right) && is_closed(condition),
        PlanV::Aggregate { source, group_by, aggrs, .. } => plan_closed(*source) && list_closed(group_by)
            && aggrs_closed(aggrs),
        PlanV::Sort { source, keys } => plan_closed(*source) && keys_closed(keys),
        PlanV::Limit { source, .. } => plan_closed(*source),
        PlanV::Distinct { source } => plan_closed(*source),
        PlanV::SetOp { left, right, .. } => plan_closed(*left) && plan_closed(*right),
    }
}

/// An expression whose parameters were replaced has none left, and one without parameters is
/// left as it is.
pub proof fn substituting_closes_expressions(e: ExprV, ps: Map<Seq<char>, ValueV>)
    ensures
        expr::substituted(e, ps) matches Ok(q) ==> is_closed(q),
        is_closed(e) ==> expr::substituted(e, ps) == Ok::<ExprV, ErrorV>(e),
    decreases e,
{
    match e {
        ExprV::BinaryOp { left, right, .. } => {
            substituting_closes_expressions(*left, ps);
            substituting_closes_expressions(*right, ps);
        },
        ExprV::Case { operand, conditions, results, else_result } => {
            maybe_substituted(operand, ps);
            list_substituted(conditions, ps);
            list_substituted(results, ps);
            maybe_substituted(else_result, ps);
        },
        ExprV::Function { args, .. } => list_substituted(args, ps),
        ExprV::Not(inner) => substituting_closes_expressions(*inner, ps),
        ExprV::IsNull(inner) => substituting_closes_expressions(*inner, ps),
        ExprV::InList { expr, list } => {
            substituting_closes_expressions(*expr, ps);
            list_substituted(list, ps);
        },
        ExprV::ScalarSubquery(p) => substituting_closes_plans(*p, ps),
        ExprV::Exists { subquery, .. } => substituting_closes_plans(*subquery, ps),
        ExprV::InSubquery { expr, subquery, .. } => {
            substituting_closes_expressions(*expr, ps);
            substituting_closes_plans(*subquery, ps);
        },
        ExprV::Cast { expr, .. } => substituting_closes_expressions(*expr, ps),
        _ => {},
    }
}

proof fn maybe_substituted(o: Option<Box<ExprV>>, ps: Map<Seq<char>, ValueV>)
    ensures
        expr::substituted_opt(o, ps) matches Ok(q) ==> maybe_closed(q),
        maybe_closed(o) ==> expr::substituted_opt(o, ps) == Ok::<Option<Box<ExprV>>, ErrorV>(o),
    decreases o,
{
    if let Some(e) = o {
        substituting_closes_expressions(*e, ps);
    }
}

proof fn list_substituted(es: Seq<ExprV>, ps: Map<Seq<char>, ValueV>)
    ensures
        facts::collected(expr::substituted_each(es, ps), 0, Seq::empty()) matches Ok(qs) ==> list_closed(qs),
        list_closed(es) ==> facts::collected(expr::substituted_each(es, ps), 0, Seq::empty()) == Ok::<
            Seq<ExprV>,
            ErrorV,
        >(es),
    decreases es,
{
    let rs = expr::substituted_each(es, ps);
    if let Ok(qs) = facts::collected(rs, 0, Seq::empty()) {
        collected_values(rs, 0, Seq::empty(), qs);
        assert forall|i: int| 0 <= i < qs.len() implies is_closed(#[trigger] qs[i]) by {
            assert(rs[i] == Ok::<ExprV, ErrorV>(qs[i]));
            substituting_closes_expressions(es[i], ps);
        }
    }
    if list_closed(es) {
        assert forall|i: int| 0 <= i < rs.len() implies #[trigger] rs[i] == Ok::<ExprV, ErrorV>(es[i]) by {
            assert(is_closed(es[i]));
            substituting_closes_expressions(es[i], ps);
        }
        assert(es.take(0) =~= Seq::empty());
        values_collected(rs, 0, Seq::empty(), es);
    }
}

proof fn aggr_substituted(a: AggregateV, ps: Map<Seq<char>, ValueV>)
    ensures
        logical::substituted_aggr(a, ps) matches Ok(q) ==> aggr_closed(q),
        aggr_closed(a) ==> logical::substituted_aggr(a, ps) == Ok::<AggregateV, ErrorV>(a),
    decreases a,
{
    let e = logical::aggr_arg(a);
    assert(decreases_to!(a => e));
    assert(aggr_closed(a) == is_closed(e));
    assert(logical::with_arg(a, e) == a);
    assert(logical::substituted_aggr(a, ps) == (match expr::substituted(e, ps) {
        Err(x) => Err(x),
        Ok(q) => Ok(logical::with_arg(a, q)),
    }));
    substituting_closes_expressions(e, ps);
    if let Ok(q) = expr::substituted(e, ps) {
        assert(aggr_closed(logical::with_arg(a, q)) == is_closed(q));
    }
}

proof fn aggrs_substituted(s: Seq<AggregateV>, ps: Map<Seq<char>, ValueV>)
    ensures
        facts::collected(logical::substituted_aggrs(s, ps), 0, Seq::empty()) matches Ok(qs) ==> aggrs_closed(qs),
        aggrs_closed(s) ==> facts::collected(logical::substituted_aggrs(s, ps), 0, Seq::empty()) == Ok::<
            Seq<AggregateV>,
            ErrorV,
        >(s),
    decreases s,
{
    let rs = logical::substituted_aggrs(s, ps);
    if let Ok(qs) = facts::collected(rs, 0, Seq::empty()) {
        collected_values(rs, 0, Seq::empty(), qs);
        assert forall|i: int| 0 <= i < qs.len() implies aggr_closed(#[trigger] qs[i]) by {
            assert(rs[i] == Ok::<AggregateV, ErrorV>(qs[i]));
            aggr_substituted(s[i], ps);
        }
    }
    if aggrs_closed(s) {
        assert forall|i: int| 0 <= i < rs.len() implies #[trigger] rs[i] == Ok::<AggregateV, ErrorV>(s[i]) by {
            assert(aggr_closed(s[i]));
            aggr_substituted(s[i], ps);
        }
        assert(s.take(0) =~= Seq::empty());
        values_collected(rs, 0, Seq::empty(), s);
    }
}

proof fn keys_substituted(s: Seq<(ExprV, bool)>, ps: Map<Seq<char>, ValueV>)
    ensures
        facts::collected(logical::substituted_keys(s, ps), 0, Seq::empty()) matches Ok(qs) ==> keys_closed(qs),
        keys_closed(s) ==> facts::collected(logical::substituted_keys(s, ps), 0, Seq::empty()) == Ok::<
            Seq<(ExprV, bool)>,
            ErrorV,
        >(s),
    decreases s,
{
    let rs = logical::substituted_keys(s, ps);
    if let Ok(qs) = facts::collected(rs, 0, Seq::empty()) {
        collected_values(rs, 0, Seq::empty(), qs);
        assert forall|i: int| 0 <= i < qs.len() implies is_closed((#[trigger] qs[i]).0) by {
            assert(rs[i] == Ok::<(ExprV, bool), ErrorV>(qs[i]));
            assert(decreases_to!(s => s[i]));
            assert(decreases_to!(s[i] => s[i].0));
            substituting_closes_expressions(s[i].0, ps);
        }
    }
    if keys_closed(s) {
        assert forall|i: int| 0 <= i < rs.len() implies #[trigger] rs[i] == Ok::<(ExprV, bool), ErrorV>(s[i]) by {
            assert(is_closed(s[i].0));
            assert(decreases_to!(s => s[i]));
            assert(decreases_to!(s[i] => s[i].0));
            substituting_closes_expressions(s[i].0, ps);
        }
        assert(s.take(0) =~= Seq::empty());
        values_collected(rs, 0, Seq::empty(), s);
    }
}

/// A plan whose parameters were replaced has none left, and one without parameters is left as it
/// is.
pub proof fn substituting_closes_plans(p: PlanV, ps: Map<Seq<char>, ValueV>)
    ensures
        logical::substituted_plan(p, ps) matches Ok(q) ==> plan_closed(q),
        plan_closed(p) ==> logical::substituted_plan(p, ps) == Ok::<PlanV, ErrorV>(p),
    decreases p,
{
    match p {
        PlanV::Filter { source, predicate } => {
            substituting_closes_plans(*source, ps);
            substituting_closes_expressions(predicate, ps);
        },
        PlanV::Projection { source, expressions, .. } => {
            substituting_closes_plans(*source, ps);
            list_substituted(expressions, ps);
        },
        PlanV::Join { left, right, condition, .. } => {
            substituting_closes_plans(*left, ps);
            substituting_closes_plans(*right, ps);
            substituting_closes_expressions(condition, ps);
        },
        PlanV::Aggregate { source, group_by, aggrs, .. } => {
            substituting_closes_plans(*source, ps);
            list_substituted(group_by, ps);
            aggrs_substituted(aggrs, ps);
        },
        PlanV::Sort { source, keys } => {
            substituting_closes_plans(*source, ps);
            keys_substituted(keys, ps);
        },
        PlanV::Limit { source, .. } => substituting_closes_plans(*source, ps),
        PlanV::Distinct { source } => substituting_closes_plans(*source, ps),
        PlanV::SetOp { left, right, .. } => {
            substituting_closes_plans(*left, ps);
            substituting_closes_plans(*right, ps);
        },
        _ => {},
    }
}

} // verus!
