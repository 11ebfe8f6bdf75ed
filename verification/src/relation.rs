//! The rows that logical and physical plans stand for.
//!
//! How rows are joined, sorted, cut, grouped and combined is given by a `World`; the laws on plans
//! hold in every one.

use crate::binding;
use crate::eval;
use crate::expr;
use crate::expr::ExprV;
use crate::facts;
use crate::facts::{AnswerV, ErrorV, QuestionV};
use crate::logical;
use crate::logical::{AggregateV, FtsQueryV, JoinType, PlanKeyV, PlanV, SetOpType};
use crate::modify;
use crate::physical;
use crate::physical::PhysicalV;
use crate::pushdown;
use crate::schema;
use crate::schema::SchemaV;
use crate::bounds;
use crate::value::{KeyV, Order, ValueV};
use vstd::prelude::*;

verus! {

// ---------------------------------------------------------------- worlds

/// What an aggregate function is.
pub enum Kind {
    Count,
    Sum,
    Min,
    Max,
    Avg,
}

/// An aggregate function of rows: what it is, whether equal inputs count once, and its input.
pub struct Measure {
    pub kind: Kind,
    pub distinct: bool,
    pub input: spec_fn(Seq<ValueV>) -> Result<ValueV, ErrorV>,
}

/// What plans are run on: the rows of the tables, in the order of their keys and in that of their
/// indexes; what a full-text search finds; what is known of floats and tokens; and what the
/// operators make of rows. A join is given by which rows of its sides belong together, and by the
/// values in place of a missing row of the right side where it keeps all rows of the left one.
pub struct World {
    pub known: Seq<(QuestionV, AnswerV)>,
    pub table: spec_fn(Seq<char>) -> Seq<Seq<ValueV>>,
    pub index: spec_fn(Seq<char>, Seq<char>) -> Seq<Seq<ValueV>>,
    pub search: spec_fn(Seq<char>, Seq<char>, FtsQueryV) -> Seq<Seq<ValueV>>,
    pub joined: spec_fn(
        Seq<Seq<ValueV>>,
        Seq<Seq<ValueV>>,
        spec_fn(Seq<ValueV>, Seq<ValueV>) -> bool,
        Option<Seq<ValueV>>,
    ) -> Seq<Seq<ValueV>>,
    pub sorted: spec_fn(
        Seq<Seq<ValueV>>,
        Seq<(spec_fn(Seq<ValueV>) -> Result<ValueV, ErrorV>, bool)>,
    ) -> Seq<Seq<ValueV>>,
    pub limited: spec_fn(Seq<Seq<ValueV>>, Option<usize>, usize) -> Seq<Seq<ValueV>>,
    pub grouped: spec_fn(
        Seq<Seq<ValueV>>,
        Seq<spec_fn(Seq<ValueV>) -> Result<ValueV, ErrorV>>,
        Seq<Measure>,
    ) -> Seq<Seq<ValueV>>,
    pub combined: spec_fn(Seq<Seq<ValueV>>, Seq<Seq<ValueV>>, SetOpType, bool) -> Seq<Seq<ValueV>>,
    pub distinct: spec_fn(Seq<Seq<ValueV>>) -> Seq<Seq<ValueV>>,
}

/// Whether an outcome is a true value.
pub open spec fn is_true(v: Result<ValueV, ErrorV>) -> bool {
    v matches Ok(x) && eval::truth(x) == Ok::<bool, ErrorV>(true)
}

/// The value in a row that an outcome gives: null in place of an error.
pub open spec fn cell(v: Result<ValueV, ErrorV>) -> ValueV {
    match v {
        Ok(x) => x,
        Err(_) => ValueV::Null,
    }
}

/// The value of an expression with parameters on the rows of a schema.
#[verifier::opaque]
pub open spec fn input(e: ExprV, s: SchemaV, ps: Map<Seq<char>, ValueV>, known: Seq<(QuestionV, AnswerV)>) -> spec_fn(
    Seq<ValueV>,
) -> Result<ValueV, ErrorV> {
    |row: Seq<ValueV>|
        match expr::substituted(e, ps) {
            Ok(q) => eval::evaluated(q, row, s, known),
            Err(x) => Err(x),
        }
}

/// The value of an expression without parameters on the rows of a schema.
#[verifier::opaque]
pub open spec fn plain_input(e: ExprV, s: SchemaV, known: Seq<(QuestionV, AnswerV)>) -> spec_fn(Seq<ValueV>) -> Result<
    ValueV,
    ErrorV,
> {
    |row: Seq<ValueV>| eval::evaluated(e, row, s, known)
}

/// Whether a value is true of a row.
pub open spec fn test(f: spec_fn(Seq<ValueV>) -> Result<ValueV, ErrorV>) -> spec_fn(Seq<ValueV>) -> bool {
    |row: Seq<ValueV>| is_true(f(row))
}

/// Rows of the values of some inputs.
pub open spec fn mapped(rows: Seq<Seq<ValueV>>, fs: Seq<spec_fn(Seq<ValueV>) -> Result<ValueV, ErrorV>>) -> Seq<
    Seq<ValueV>,
> {
    rows.map_values(|row: Seq<ValueV>| fs.map_values(|f: spec_fn(Seq<ValueV>) -> Result<ValueV, ErrorV>| cell(f(row))))
}

/// Nulls in place of a missing row.
pub open spec fn nulls(n: nat) -> Seq<ValueV> {
    Seq::new(n, |i: int| ValueV::Null)
}

/// Nulls where a join keeps the rows of its left side.
pub open spec fn filler(join_type: JoinType, s: SchemaV) -> Option<Seq<ValueV>> {
    match join_type {
        JoinType::Left => Some(nulls(s.columns.len())),
        _ => None,
    }
}

/// What an aggregate function is.
pub open spec fn kind(a: AggregateV) -> Kind {
    match a {
        AggregateV::Count { .. } => Kind::Count,
        AggregateV::Sum { .. } => Kind::Sum,
        AggregateV::Min { .. } => Kind::Min,
        AggregateV::Max { .. } => Kind::Max,
        AggregateV::Avg { .. } => Kind::Avg,
    }
}

/// Whether equal inputs of an aggregate function count once.
pub open spec fn counts_once(a: AggregateV) -> bool {
    match a {
        AggregateV::Count { distinct, .. } => distinct,
        AggregateV::Sum { distinct, .. } => distinct,
        AggregateV::Min { distinct, .. } => distinct,
        AggregateV::Max { distinct, .. } => distinct,
        AggregateV::Avg { distinct, .. } => distinct,
    }
}

/// The expression that an aggregate function takes its input from.
pub open spec fn argument(a: AggregateV) -> ExprV {
    match a {
        AggregateV::Count { expr, .. } => expr,
        AggregateV::Sum { expr, .. } => expr,
        AggregateV::Min { expr, .. } => expr,
        AggregateV::Max { expr, .. } => expr,
        AggregateV::Avg { expr, .. } => expr,
    }
}

// ---------------------------------------------------------------- scans

/// The key of a row in the order of its table.
pub open spec fn table_key(s: SchemaV, row: Seq<ValueV>) -> Option<KeyV> {
    match modify::primary_key(s, row) {
        Ok(k) => Some(k),
        Err(_) => None,
    }
}

/// The key of a row in the order of an index.
pub open spec fn index_key(s: SchemaV, index_name: Seq<char>, row: Seq<ValueV>) -> Option<KeyV> {
    match physical::index_from(s.indexes, index_name, 0) {
        Some(index) => if index.columns.len() > 0 {
            match schema::column_position(s.columns, index.columns[0]) {
                Some(i) => bounds::key_of(row[i]),
                None => None,
            }
        } else {
            None
        },
        None => None,
    }
}

/// Whether a scan reads a row: all where it has no bounds, or else those with a key between them.
pub open spec fn is_read(start: Option<KeyV>, end: Option<KeyV>, key: Option<KeyV>) -> bool {
    start is None && end is None || (key matches Some(k) && physical::reads(start, end, k))
}

/// The rows that a scan of a table gives.
pub open spec fn table_rows(table: Seq<char>, s: SchemaV, start: Option<KeyV>, end: Option<KeyV>, w: World) -> Seq<
    Seq<ValueV>,
> {
    pushdown::passing((w.table)(table), |row: Seq<ValueV>| is_read(start, end, table_key(s, row)))
}

/// The rows that a scan of an index gives.
pub open spec fn index_rows(
    table: Seq<char>,
    index_name: Seq<char>,
    s: SchemaV,
    start: Option<KeyV>,
    end: Option<KeyV>,
    w: World,
) -> Seq<Seq<ValueV>> {
    pushdown::passing((w.index)(table, index_name), |row: Seq<ValueV>| is_read(start, end, index_key(s, index_name, row)))
}

/// The bounds of a scan by the keys of its range.
pub open spec fn bounds_of(r: Result<(KeyV, KeyV), ErrorV>) -> (Option<KeyV>, Option<KeyV>) {
    match r {
        Ok(k) => (physical::lower(k.0), physical::upper(k.1)),
        Err(_) => (None, None),
    }
}

/// The bounds of the scan of a table.
pub open spec fn table_bounds(s: SchemaV, range: Option<(PlanKeyV, PlanKeyV)>, ps: Map<Seq<char>, ValueV>) -> (
    Option<KeyV>,
    Option<KeyV>,
) {
    match range {
        Some(r) => bounds_of(physical::scan_range(r, ps, physical::key_type(s))),
        None => (None, None),
    }
}

/// The bounds of the scan of an index.
pub open spec fn index_bounds(
    s: SchemaV,
    index_name: Seq<char>,
    range: Option<(PlanKeyV, PlanKeyV)>,
    ps: Map<Seq<char>, ValueV>,
) -> (Option<KeyV>, Option<KeyV>) {
    match range {
        Some(r) => bounds_of(physical::scan_range(r, ps, physical::index_type(s, index_name))),
        None => (None, None),
    }
}

// ---------------------------------------------------------------- logical plans

/// Which rows of its sides a join puts together. The condition of a cross join is none.
pub open spec fn matching(
    condition: ExprV,
    join_type: JoinType,
    ls: SchemaV,
    rs: SchemaV,
    ps: Map<Seq<char>, ValueV>,
    known: Seq<(QuestionV, AnswerV)>,
) -> spec_fn(Seq<ValueV>, Seq<ValueV>) -> bool {
    |l: Seq<ValueV>, r: Seq<ValueV>|
        l.len() == ls.columns.len() && r.len() == rs.columns.len() && (join_type is Cross || is_true(
            input(condition, pushdown::joined(ls, rs), ps, known)(l + r),
        ))
}

/// The inputs of some expressions.
pub open spec fn inputs(
    es: Seq<ExprV>,
    s: SchemaV,
    ps: Map<Seq<char>, ValueV>,
    known: Seq<(QuestionV, AnswerV)>,
) -> Seq<spec_fn(Seq<ValueV>) -> Result<ValueV, ErrorV>> {
    es.map_values(|e: ExprV| input(e, s, ps, known))
}

/// The inputs of sort keys.
pub open spec fn sort_inputs(
    keys: Seq<(ExprV, bool)>,
    s: SchemaV,
    ps: Map<Seq<char>, ValueV>,
    known: Seq<(QuestionV, AnswerV)>,
) -> Seq<(spec_fn(Seq<ValueV>) -> Result<ValueV, ErrorV>, bool)> {
    keys.map_values(|k: (ExprV, bool)| (input(k.0, s, ps, known), k.1))
}

/// Aggregate functions of rows.
pub open spec fn measures(
    aggrs: Seq<AggregateV>,
    s: SchemaV,
    ps: Map<Seq<char>, ValueV>,
    known: Seq<(QuestionV, AnswerV)>,
) -> Seq<Measure> {
    aggrs.map_values(
        |a: AggregateV|
            Measure { kind: kind(a), distinct: counts_once(a), input: input(argument(a), s, ps, known) },
    )
}

/// The rows of a logical plan.
pub open spec fn rows(p: PlanV, ps: Map<Seq<char>, ValueV>, w: World) -> Seq<Seq<ValueV>>
    decreases p,
{
    match p {
        PlanV::Scan { table_name, schema, range } => {
            let b = table_bounds(schema, range, ps);
            table_rows(table_name, schema, b.0, b.1, w)
        },
        PlanV::IndexScan { table_name, index_name, schema, range } => {
            let b = index_bounds(schema, index_name, range, ps);
            index_rows(table_name, index_name, schema, b.0, b.1, w)
        },
        PlanV::FullTextScan { table_name, index_name, query, .. } => (w.search)(table_name, index_name, query),
        PlanV::Filter { source, predicate } => pushdown::passing(
            rows(*source, ps, w),
            test(input(predicate, logical::plan_schema(*source), ps, w.known)),
        ),
        PlanV::Projection { source, expressions, .. } => mapped(
            rows(*source, ps, w),
            inputs(expressions, logical::plan_schema(*source), ps, w.known),
        ),
        PlanV::Join { left, right, condition, join_type, .. } => (w.joined)(
            rows(*left, ps, w),
            rows(*right, ps, w),
            matching(condition, join_type, logical::plan_schema(*left), logical::plan_schema(*right), ps, w.known),
            filler(join_type, logical::plan_schema(*right)),
        ),
        PlanV::Aggregate { source, group_by, aggrs, .. } => (w.grouped)(
            rows(*source, ps, w),
            inputs(group_by, logical::plan_schema(*source), ps, w.known),
            measures(aggrs, logical::plan_schema(*source), ps, w.known),
        ),
        PlanV::Sort { source, keys } => (w.sorted)(
            rows(*source, ps, w),
            sort_inputs(keys, logical::plan_schema(*source), ps, w.known),
        ),
        PlanV::Limit { source, limit, offset } => (w.limited)(rows(*source, ps, w), limit, offset),
        PlanV::SetOp { left, right, op, all } => (w.combined)(rows(*left, ps, w), rows(*right, ps, w), op, all),
        PlanV::Distinct { source } => (w.distinct)(rows(*source, ps, w)),
    }
}

// ---------------------------------------------------------------- physical plans

/// The inputs of some expressions without parameters.
pub open spec fn plain_inputs(es: Seq<ExprV>, s: SchemaV, known: Seq<(QuestionV, AnswerV)>) -> Seq<
    spec_fn(Seq<ValueV>) -> Result<ValueV, ErrorV>,
> {
    es.map_values(|e: ExprV| plain_input(e, s, known))
}

/// The inputs of sort keys without parameters.
pub open spec fn plain_sort_inputs(keys: Seq<(ExprV, bool)>, s: SchemaV, known: Seq<(QuestionV, AnswerV)>) -> Seq<
    (spec_fn(Seq<ValueV>) -> Result<ValueV, ErrorV>, bool),
> {
    keys.map_values(|k: (ExprV, bool)| (plain_input(k.0, s, known), k.1))
}

/// Aggregate functions of rows, without parameters.
pub open spec fn plain_measures(aggrs: Seq<AggregateV>, s: SchemaV, known: Seq<(QuestionV, AnswerV)>) -> Seq<Measure> {
    aggrs.map_values(
        |a: AggregateV| Measure { kind: kind(a), distinct: counts_once(a), input: plain_input(argument(a), s, known) },
    )
}

/// Whether two values are equal as `=` says: neither is null, and they compare as equal.
pub open spec fn are_equal(
    a: Result<ValueV, ErrorV>,
    b: Result<ValueV, ErrorV>,
    known: Seq<(QuestionV, AnswerV)>,
) -> bool {
    match (a, b) {
        (Ok(x), Ok(y)) => x !is Null && y !is Null && eval::comparison(x, y, known) == Ok::<Order, ErrorV>(Order::Equal),
        _ => false,
    }
}

/// Which rows a join by an equality puts together.
pub open spec fn equal_keys(
    left_on: ExprV,
    right_on: ExprV,
    ls: SchemaV,
    rs: SchemaV,
    known: Seq<(QuestionV, AnswerV)>,
) -> spec_fn(Seq<ValueV>, Seq<ValueV>) -> bool {
    |l: Seq<ValueV>, r: Seq<ValueV>|
        l.len() == ls.columns.len() && r.len() == rs.columns.len() && are_equal(
            plain_input(left_on, ls, known)(l),
            plain_input(right_on, rs, known)(r),
            known,
        )
}

/// Which rows a cross join puts together: all.
pub open spec fn any_keys(ls: SchemaV, rs: SchemaV) -> spec_fn(Seq<ValueV>, Seq<ValueV>) -> bool {
    |l: Seq<ValueV>, r: Seq<ValueV>| l.len() == ls.columns.len() && r.len() == rs.columns.len()
}

/// The rows that a physical plan gives.
pub open spec fn given(c: PhysicalV, w: World) -> Seq<Seq<ValueV>>
    decreases c,
{
    match c {
        PhysicalV::SeqScan { table_name, schema, start, end, .. } => table_rows(table_name, schema, start, end, w),
        PhysicalV::IndexScan { table_name, index_name, schema, start, end, .. } => index_rows(
            table_name,
            index_name,
            schema,
            start,
            end,
            w,
        ),
        PhysicalV::FullTextScan { table_name, index_name, query, .. } => (w.search)(table_name, index_name, query),
        PhysicalV::Filter { source, predicate } => pushdown::passing(
            given(*source, w),
            test(plain_input(predicate, physical::physical_schema(*source), w.known)),
        ),
        PhysicalV::Projection { source, expressions, .. } => mapped(
            given(*source, w),
            plain_inputs(expressions, physical::physical_schema(*source), w.known),
        ),
        PhysicalV::Limit { source, limit, offset } => (w.limited)(given(*source, w), limit, offset),
        PhysicalV::Sort { source, keys } => (w.sorted)(
            given(*source, w),
            plain_sort_inputs(keys, physical::physical_schema(*source), w.known),
        ),
        PhysicalV::CrossJoin { left, right, .. } => (w.joined)(
            given(*left, w),
            given(*right, w),
            any_keys(physical::physical_schema(*left), physical::physical_schema(*right)),
            None,
        ),
        PhysicalV::SortMergeJoin { left, right, left_on, right_on, join_type, .. } => (w.joined)(
            given(*left, w),
            given(*right, w),
            equal_keys(
                left_on,
                right_on,
                physical::physical_schema(*left),
                physical::physical_schema(*right),
                w.known,
            ),
            filler(join_type, physical::physical_schema(*right)),
        ),
        PhysicalV::SortedAggregate { source, group_by, aggrs, .. } => (w.grouped)(
            given(*source, w),
            plain_inputs(group_by, physical::physical_schema(*source), w.known),
            plain_measures(aggrs, physical::physical_schema(*source), w.known),
        ),
        PhysicalV::HashAggregate { source, group_by, aggrs, .. } => (w.grouped)(
            given(*source, w),
            plain_inputs(group_by, physical::physical_schema(*source), w.known),
            plain_measures(aggrs, physical::physical_schema(*source), w.known),
        ),
        PhysicalV::SetOp { left, right, op, all, .. } => (w.combined)(given(*left, w), given(*right, w), op, all),
        PhysicalV::Distinct { source } => (w.distinct)(given(*source, w)),
    }
}

// ---------------------------------------------------------------- schemas that agree

/// Whether two schemas have the same column names, in order, and the same indexes.
pub open spec fn alike(s: SchemaV, t: SchemaV) -> bool {
    &&& s.columns.len() == t.columns.len()
    &&& s.columns.len() <= usize::MAX
    &&& forall|i: int| 0 <= i < s.columns.len() ==> (#[trigger] s.columns[i]).name == t.columns[i].name
    &&& s.indexes == t.indexes
}

proof fn matching_alike(s: SchemaV, t: SchemaV, name: Seq<char>, i: int, acc: Seq<usize>)
    requires
        alike(s, t),
        0 <= i,
        forall|k: int| 0 <= k < acc.len() ==> (#[trigger] acc[k]) < s.columns.len(),
    ensures
        schema::matching_columns_from(s.columns, name, i, acc) == schema::matching_columns_from(t.columns, name, i, acc),
        forall|k: int|
            0 <= k < schema::matching_columns_from(s.columns, name, i, acc).len() ==> (
            #[trigger] schema::matching_columns_from(s.columns, name, i, acc)[k]) < s.columns.len(),
        schema::exact_column_from(s.columns, name, i) == schema::exact_column_from(t.columns, name, i),
    decreases s.columns.len() - i,
{
    if i < s.columns.len() {
        assert(s.columns[i].name == t.columns[i].name);
        matching_alike(s, t, name, i + 1, acc);
        matching_alike(s, t, name, i + 1, acc.push(i as usize));
    }
}

pub proof fn resolved_alike(s: SchemaV, t: SchemaV, name: Seq<char>)
    requires
        alike(s, t),
    ensures
        expr::resolved(s, name) == expr::resolved(t, name),
        schema::exact_column_from(s.columns, name, 0) == schema::exact_column_from(t.columns, name, 0),
{
    matching_alike(s, t, name, 0, Seq::empty());
    let found = schema::matching_columns(s.columns, name);
    assert(expr::names_at(s.columns, found) =~= expr::names_at(t.columns, found));
}

/// An expression has the same value under schemas that agree.
pub proof fn value_alike(e: ExprV, row: Seq<ValueV>, s: SchemaV, t: SchemaV, known: Seq<(QuestionV, AnswerV)>)
    requires
        alike(s, t),
    ensures
        eval::evaluated(e, row, s, known) == eval::evaluated(e, row, t, known),
        binding::matches_by_name(e, s) == binding::matches_by_name(e, t),
    decreases e,
{
    match e {
        ExprV::Column(name, _) => resolved_alike(s, t, name),
        ExprV::Match { column, .. } => resolved_alike(s, t, column),
        ExprV::BinaryOp { left, right, .. } => {
            value_alike(*left, row, s, t, known);
            value_alike(*right, row, s, t, known);
        },
        ExprV::Case { operand, conditions, results, else_result } => {
            maybe_alike(operand, row, s, t, known);
            list_alike(conditions, row, s, t, known);
            list_alike(results, row, s, t, known);
            maybe_alike(else_result, row, s, t, known);
        },
        ExprV::Function { args, .. } => list_alike(args, row, s, t, known),
        ExprV::Not(inner) => value_alike(*inner, row, s, t, known),
        ExprV::IsNull(inner) => value_alike(*inner, row, s, t, known),
        ExprV::InList { expr, list } => {
            value_alike(*expr, row, s, t, known);
            list_alike(list, row, s, t, known);
        },
        ExprV::InSubquery { expr, .. } => value_alike(*expr, row, s, t, known),
        ExprV::Cast { expr, .. } => value_alike(*expr, row, s, t, known),
        _ => {},
    }
}

proof fn maybe_alike(
    o: Option<Box<ExprV>>,
    row: Seq<ValueV>,
    s: SchemaV,
    t: SchemaV,
    known: Seq<(QuestionV, AnswerV)>,
)
    requires
        alike(s, t),
    ensures
        eval::evaluated_opt(o, row, s, known) == eval::evaluated_opt(o, row, t, known),
        binding::maybe_by_name(o, s) == binding::maybe_by_name(o, t),
    decreases o,
{
    if let Some(e) = o {
        value_alike(*e, row, s, t, known);
    }
}

proof fn list_alike(es: Seq<ExprV>, row: Seq<ValueV>, s: SchemaV, t: SchemaV, known: Seq<(QuestionV, AnswerV)>)
    requires
        alike(s, t),
    ensures
        eval::evaluated_each(es, row, s, known) == eval::evaluated_each(es, row, t, known),
        binding::list_by_name(es, s) == binding::list_by_name(es, t),
    decreases es,
{
    assert forall|i: int| 0 <= i < es.len() implies eval::evaluated(#[trigger] es[i], row, s, known) == eval::evaluated(
        es[i],
        row,
        t,
        known,
    ) && binding::matches_by_name(es[i], s) == binding::matches_by_name(es[i], t) by {
        value_alike(es[i], row, s, t, known);
    }
    assert(eval::evaluated_each(es, row, s, known) =~= eval::evaluated_each(es, row, t, known));
}

// ---------------------------------------------------------------- compiled expressions

/// Whether full-text matches of an expression name their columns exactly, once its parameters are
/// bound.
pub open spec fn is_clear(e: ExprV, s: SchemaV, ps: Map<Seq<char>, ValueV>) -> bool {
    expr::substituted(e, ps) matches Ok(q) ==> binding::matches_by_name(q, s)
}

/// An expression with its parameters and columns bound gives what it gave before.
pub proof fn bound_input(
    e: ExprV,
    q: ExprV,
    b: ExprV,
    s: SchemaV,
    t: SchemaV,
    ps: Map<Seq<char>, ValueV>,
    known: Seq<(QuestionV, AnswerV)>,
)
    requires
        alike(t, s),
        is_clear(e, s, ps),
        expr::substituted(e, ps) == Ok::<ExprV, ErrorV>(q),
        expr::bound(q, t) == Ok::<ExprV, ErrorV>(b),
    ensures
        plain_input(b, t, known) == input(e, s, ps, known),
{
    reveal(input);
    reveal(plain_input);
    assert forall|row: Seq<ValueV>| #[trigger] plain_input(b, t, known)(row) == input(e, s, ps, known)(row) by {
        value_alike(q, row, t, s, known);
        binding::binding_columns_keeps_values(q, t, row, known);
    }
    assert(plain_input(b, t, known) =~= input(e, s, ps, known));
}

/// The same of a list of expressions.
pub proof fn bound_inputs(
    es: Seq<ExprV>,
    qs: Seq<ExprV>,
    bs: Seq<ExprV>,
    s: SchemaV,
    t: SchemaV,
    ps: Map<Seq<char>, ValueV>,
    known: Seq<(QuestionV, AnswerV)>,
)
    requires
        alike(t, s),
        forall|i: int| 0 <= i < es.len() ==> is_clear(#[trigger] es[i], s, ps),
        facts::collected(expr::substituted_each(es, ps), 0, Seq::empty()) == Ok::<Seq<ExprV>, ErrorV>(qs),
        facts::collected(expr::bound_each(qs, t), 0, Seq::empty()) == Ok::<Seq<ExprV>, ErrorV>(bs),
    ensures
        plain_inputs(bs, t, known) == inputs(es, s, ps, known),
        bs.len() == es.len(),
{
    binding::collected_values(expr::substituted_each(es, ps), 0, Seq::empty(), qs);
    binding::collected_values(expr::bound_each(qs, t), 0, Seq::empty(), bs);
    assert forall|i: int| 0 <= i < es.len() implies plain_input(bs[i], t, known) == #[trigger] input(es[i], s, ps, known) by {
        assert(expr::substituted_each(es, ps)[i] == Ok::<ExprV, ErrorV>(qs[i]));
        assert(expr::bound_each(qs, t)[i] == Ok::<ExprV, ErrorV>(bs[i]));
        assert(is_clear(es[i], s, ps));
        bound_input(es[i], qs[i], bs[i], s, t, ps, known);
    }
    assert(plain_inputs(bs, t, known) =~= inputs(es, s, ps, known));
}

/// The same of sort keys.
pub proof fn bound_sort_inputs(
    ks: Seq<(ExprV, bool)>,
    qs: Seq<(ExprV, bool)>,
    bs: Seq<(ExprV, bool)>,
    s: SchemaV,
    t: SchemaV,
    ps: Map<Seq<char>, ValueV>,
    known: Seq<(QuestionV, AnswerV)>,
)
    requires
        alike(t, s),
        forall|i: int| 0 <= i < ks.len() ==> is_clear((#[trigger] ks[i]).0, s, ps),
        facts::collected(logical::substituted_keys(ks, ps), 0, Seq::empty()) == Ok::<Seq<(ExprV, bool)>, ErrorV>(qs),
        facts::collected(physical::bound_keys(qs, t), 0, Seq::empty()) == Ok::<Seq<(ExprV, bool)>, ErrorV>(bs),
    ensures
        plain_sort_inputs(bs, t, known) == sort_inputs(ks, s, ps, known),
{
    binding::collected_values(logical::substituted_keys(ks, ps), 0, Seq::empty(), qs);
    binding::collected_values(physical::bound_keys(qs, t), 0, Seq::empty(), bs);
    assert forall|i: int| 0 <= i < ks.len() implies plain_input(bs[i].0, t, known) == input((#[trigger] ks[i]).0, s, ps, known)
        && bs[i].1 == ks[i].1 by {
        assert(logical::substituted_keys(ks, ps)[i] == Ok::<(ExprV, bool), ErrorV>(qs[i]));
        assert(physical::bound_keys(qs, t)[i] == Ok::<(ExprV, bool), ErrorV>(bs[i]));
        bound_input(ks[i].0, qs[i].0, bs[i].0, s, t, ps, known);
    }
    assert(plain_sort_inputs(bs, t, known) =~= sort_inputs(ks, s, ps, known));
}

/// The same of aggregate functions.
pub proof fn bound_measures(
    a: Seq<AggregateV>,
    qs: Seq<AggregateV>,
    bs: Seq<AggregateV>,
    s: SchemaV,
    t: SchemaV,
    ps: Map<Seq<char>, ValueV>,
    known: Seq<(QuestionV, AnswerV)>,
)
    requires
        alike(t, s),
        forall|i: int| 0 <= i < a.len() ==> is_clear(argument(#[trigger] a[i]), s, ps),
        facts::collected(logical::substituted_aggrs(a, ps), 0, Seq::empty()) == Ok::<Seq<AggregateV>, ErrorV>(qs),
        facts::collected(physical::bound_aggrs(qs, t), 0, Seq::empty()) == Ok::<Seq<AggregateV>, ErrorV>(bs),
    ensures
        plain_measures(bs, t, known) == measures(a, s, ps, known),
        bs.len() == a.len(),
{
    binding::collected_values(logical::substituted_aggrs(a, ps), 0, Seq::empty(), qs);
    binding::collected_values(physical::bound_aggrs(qs, t), 0, Seq::empty(), bs);
    assert forall|i: int| 0 <= i < a.len() implies plain_input(argument(bs[i]), t, known) == input(
        argument(#[trigger] a[i]),
        s,
        ps,
        known,
    ) && kind(bs[i]) == kind(a[i]) && counts_once(bs[i]) == counts_once(a[i]) by {
        assert(logical::substituted_aggrs(a, ps)[i] == Ok::<AggregateV, ErrorV>(qs[i]));
        assert(physical::bound_aggrs(qs, t)[i] == Ok::<AggregateV, ErrorV>(bs[i]));
        assert(is_clear(argument(a[i]), s, ps));
        bound_input(argument(a[i]), argument(qs[i]), argument(bs[i]), s, t, ps, known);
    }
    assert(plain_measures(bs, t, known) =~= measures(a, s, ps, known));
}

} // verus!
