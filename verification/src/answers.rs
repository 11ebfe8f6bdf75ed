//! What lookups and subqueries give: a lookup the rows of its plan, and a subquery its value, its
//! values or whether it has rows.

use crate::binding;
use crate::engine::Snapshot;
use crate::eval;
use crate::execute;
use crate::execute::QueryStepV;
use crate::expr;
use crate::expr::{ExprV, Operator};
use crate::expr_laws;
use crate::facts::{AnswerV, ErrorV, QuestionV};
use crate::logical;
use crate::logical::PlanV;
use crate::lowering;
use crate::physical;
use crate::physical::PhysicalV;
use crate::point_get;
use crate::point_get::PointGetV;
use crate::pushdown;
use crate::relation;
use crate::relation::World;
use crate::run;
use crate::run::{ActionV, EventV, ExecutionV, ResultV, StageV};
use crate::schema::SchemaV;
use crate::statement::SqlStatementV;
use crate::subquery;
use crate::subquery::{FoldStopV, SubqueryResultV};
use crate::value::ValueV;
use vstd::prelude::*;

verus! {

// ---------------------------------------------------------------- lookups

/// The scan at the bottom of a plan that a lookup stands for.
pub open spec fn looked_up_scan(p: PlanV) -> PlanV
    decreases p,
{
    match p {
        PlanV::Projection { source, .. } => looked_up_scan(*source),
        PlanV::Filter { source, .. } => looked_up_scan(*source),
        _ => p,
    }
}

/// The rows of an optional row.
pub open spec fn rows_of(row: Option<Seq<ValueV>>) -> Seq<Seq<ValueV>> {
    match row {
        Some(r) => seq![r],
        None => Seq::empty(),
    }
}

proof fn row_value_is_input(
    e: ExprV,
    row: Seq<ValueV>,
    s: SchemaV,
    ps: Map<Seq<char>, ValueV>,
    known: Seq<(QuestionV, AnswerV)>,
)
    requires
        relation::is_clear(e, s, ps),
        s.columns.len() <= usize::MAX,
    ensures
        point_get::row_value(e, row, s, ps, known) matches Ok(v) ==> relation::input(e, s, ps, known)(row) == Ok::<
            ValueV,
            ErrorV,
        >(v),
{
    if let Ok(q) = expr::substituted(e, ps) {
        if let Ok(b) = expr::bound(q, s) {
            relation::bound_input(e, q, b, s, s, ps, known);
            reveal(relation::plain_input);
            assert(relation::plain_input(b, s, known)(row) == eval::evaluated(b, row, s, known));
        }
    }
}

proof fn passing_is_true(v: ValueV)
    ensures
        point_get::passes(v) == (eval::truth(v) == Ok::<bool, ErrorV>(true)),
{
}

proof fn filtered_lookup(
    g: PointGetV,
    row: Seq<ValueV>,
    ps: Map<Seq<char>, ValueV>,
    known: Seq<(QuestionV, AnswerV)>,
)
    requires
        g.filter matches Some(f) ==> relation::is_clear(f, g.scan_schema, ps),
        g.scan_schema.columns.len() <= usize::MAX,
    ensures
        point_get::row_passes(g.filter, row, g.scan_schema, ps, known) matches Ok(b) ==> b == (g.filter matches Some(f)
            ==> relation::is_true(relation::input(f, g.scan_schema, ps, known)(row))),
{
    if let Some(f) = g.filter {
        row_value_is_input(f, row, g.scan_schema, ps, known);
        if let Ok(v) = point_get::row_value(f, row, g.scan_schema, ps, known) {
            passing_is_true(v);
        }
    }
}

proof fn projected_lookup(
    es: Seq<ExprV>,
    g: PointGetV,
    row: Seq<ValueV>,
    out: Seq<ValueV>,
    ps: Map<Seq<char>, ValueV>,
    known: Seq<(QuestionV, AnswerV)>,
)
    requires
        g.projection matches Some(p) && p.0 == es,
        forall|i: int| 0 <= i < es.len() ==> relation::is_clear(#[trigger] es[i], g.scan_schema, ps),
        g.scan_schema.columns.len() <= usize::MAX,
        point_get::projected_row(g, row, ps, known) == Ok::<Seq<ValueV>, ErrorV>(out),
    ensures
        relation::mapped(seq![row], relation::inputs(es, g.scan_schema, ps, known)) == seq![out],
{
    let outs = point_get::row_values(es, row, g.scan_schema, ps, known);
    binding::collected_values(outs, 0, Seq::empty(), out);
    let fs = relation::inputs(es, g.scan_schema, ps, known);
    let m = relation::mapped(seq![row], fs);
    assert forall|k: int| 0 <= k < es.len() implies #[trigger] m[0][k] == out[k] by {
        assert(outs[k] == Ok::<ValueV, ErrorV>(out[k]));
        assert(fs[k] == relation::input(es[k], g.scan_schema, ps, known));
        assert(relation::is_clear(es[k], g.scan_schema, ps));
        row_value_is_input(es[k], row, g.scan_schema, ps, known);
    }
    assert(m[0] =~= out);
    assert(m =~= seq![out]);
}

/// A lookup gives the rows of the plan that it stands for, where the row that was fetched is the
/// one that the scan of its key reads: that row with its filter true and its items in place of it,
/// or none.
pub proof fn lookups_give_the_rows(
    p: PlanV,
    g: PointGetV,
    row: Option<Seq<ValueV>>,
    ps: Map<Seq<char>, ValueV>,
    w: World,
)
    requires
        point_get::lookup(p, ps) == Some(g),
        lowering::is_legible(p, ps),
        g.scan_schema.columns.len() <= usize::MAX,
        relation::rows(looked_up_scan(p), ps, w) == rows_of(row),
    ensures
        point_get::found_row(g, row, ps, w.known) matches Ok(out) ==> relation::rows(p, ps, w) == rows_of(out),
{
    reveal_with_fuel(looked_up_scan, 3);
    reveal_with_fuel(relation::rows, 3);
    reveal_with_fuel(lowering::is_legible, 3);
    reveal_with_fuel(pushdown::passing, 2);
    let s = g.scan_schema;
    let below = match p {
        PlanV::Projection { source, .. } => *source,
        _ => p,
    };
    let scan = looked_up_scan(p);
    assert(logical::plan_schema(below) == s);
    match row {
        Some(r) => {
            filtered_lookup(g, r, ps, w.known);
            if let Ok(b) = point_get::row_passes(g.filter, r, s, ps, w.known) {
                let kept: Seq<Seq<ValueV>> = if b {
                    seq![r]
                } else {
                    Seq::empty()
                };
                assert(seq![r].drop_first() =~= Seq::empty());
                assert(relation::rows(below, ps, w) =~= kept);
                if let PlanV::Projection { expressions, .. } = p {
                    if b {
                        if let Ok(out) = point_get::projected_row(g, r, ps, w.known) {
                            projected_lookup(expressions, g, r, out, ps, w.known);
                        }
                    } else {
                        assert(relation::rows(p, ps, w) =~= Seq::empty());
                    }
                }
            }
        },
        None => {
            assert(relation::rows(below, ps, w) =~= Seq::empty());
            assert(relation::rows(p, ps, w) =~= Seq::empty());
        },
    }
}

// ---------------------------------------------------------------- subqueries

/// EXISTS is true where the subquery has rows, and NOT EXISTS where it has none.
pub proof fn exists_tells_whether_there_are_rows(
    plan: PlanV,
    negated: bool,
    results: Seq<SubqueryResultV>,
    k: int,
    row: Seq<ValueV>,
    s: SchemaV,
    known: Seq<(QuestionV, AnswerV)>,
)
    requires
        0 <= k < results.len(),
        subquery::folded_plan(plan, results, k) matches Ok(f) && f.1 == k,
    ensures
        subquery::folded_expr((ExprV::Exists { subquery: Box::new(plan), negated }), results, k) matches Ok(f) && f.1 == k
            + 1 && expr_laws::is_worth(f.0, ValueV::Bool(negated == (results[k].rows.len() == 0)), row, s, known),
{
    reveal(expr_laws::valued);
}

/// A subquery in place of a value is worth the value of its only row, NULL where it has none, and
/// an error where it has more rows or columns than one.
pub proof fn scalar_subqueries_are_worth_their_row(
    plan: PlanV,
    results: Seq<SubqueryResultV>,
    k: int,
    row: Seq<ValueV>,
    s: SchemaV,
    known: Seq<(QuestionV, AnswerV)>,
)
    requires
        0 <= k < results.len(),
        subquery::folded_plan(plan, results, k) matches Ok(f) && f.1 == k,
        forall|i: int| 0 <= i < results[k].rows.len() ==> (#[trigger] results[k].rows[i]).len() == results[k].columns,
    ensures
        match subquery::folded_expr(ExprV::ScalarSubquery(Box::new(plan)), results, k) {
            Ok(f) => {
                &&& f.1 == k + 1
                &&& results[k].columns == 1
                &&& results[k].rows.len() == 0 && expr_laws::is_worth(f.0, ValueV::Null, row, s, known)
                    || results[k].rows.len() == 1 && expr_laws::is_worth(f.0, results[k].rows[0][0], row, s, known)
            },
            Err(FoldStopV::Failed(_)) => results[k].columns != 1 || results[k].rows.len() > 1,
            Err(FoldStopV::Run(_)) => false,
        },
{
    reveal(expr_laws::valued);
    if results[k].rows.len() == 1 {
        assert(results[k].rows[0].len() == results[k].columns);
    }
}

/// IN with a subquery is true where one of its rows has the value, here of integers, and NOT IN
/// where none has it.
pub proof fn members_of_a_subquery_are_found(
    e: ExprV,
    plan: PlanV,
    negated: bool,
    results: Seq<SubqueryResultV>,
    k: int,
    a: i64,
    vs: Seq<i64>,
    row: Seq<ValueV>,
    s: SchemaV,
    known: Seq<(QuestionV, AnswerV)>,
)
    requires
        0 <= k < results.len(),
        subquery::folded_expr(e, results, k) == Ok::<(ExprV, int), FoldStopV>((e, k)),
        subquery::folded_plan(plan, results, k) matches Ok(f) && f.1 == k,
        results[k].columns == 1,
        results[k].rows.len() == vs.len(),
        forall|i: int| 0 <= i < vs.len() ==> #[trigger] results[k].rows[i] == seq![ValueV::Int(vs[i])],
        expr_laws::is_worth(e, ValueV::Int(a), row, s, known),
    ensures
        subquery::folded_expr(
            (ExprV::InSubquery { expr: Box::new(e), subquery: Box::new(plan), negated }),
            results,
            k,
        ) matches Ok(f) && f.1 == k + 1 && expr_laws::is_worth(
            f.0,
            ValueV::Bool(vs.contains(a) != negated),
            row,
            s,
            known,
        ),
{
    let list = subquery::member_literals(results[k])->Ok_0;
    let ws = Seq::new(vs.len(), |i: int| ValueV::Int(vs[i]));
    assert forall|i: int| 0 <= i < list.len() implies #[trigger] list[i] == ExprV::Literal(ws[i]) by {
        assert(results[k].rows[i] == seq![ValueV::Int(vs[i])]);
    }
    assert forall|i: int| 0 <= i < list.len() implies expr_laws::is_worth(#[trigger] list[i], ws[i], row, s, known) by {
        reveal(expr_laws::valued);
        assert(list[i] == ExprV::Literal(ws[i]));
    }
    assert forall|i: int| 0 <= i < list.len() implies expr_laws::is_worth(#[trigger] list[i], ws[i], row, s, known) && (
    ws[i] is Null || expr_laws::operated(e, Operator::Eq, list[i], row, s, known) is Ok) by {
        expr_laws::integers_compare_as_numbers(e, list[i], a, vs[i], row, s, known);
    }
    expr_laws::in_is_equality_with_some_value(e, list, ValueV::Int(a), ws, row, s, known);
    let t = ExprV::InList { expr: Box::new(e), list };
    let equal = |i: int|
        expr_laws::operated(e, Operator::Eq, list[i], row, s, known) == Ok::<ValueV, ErrorV>(ValueV::Bool(true));
    assert forall|i: int| 0 <= i < list.len() implies #[trigger] equal(i) == (vs[i] == a) by {
        assert(expr_laws::is_worth(list[i], ws[i], row, s, known));
        expr_laws::integers_compare_as_numbers(e, list[i], a, vs[i], row, s, known);
    }
    if vs.contains(a) {
        let i = choose|i: int| 0 <= i < vs.len() && vs[i] == a;
        assert(equal(i));
    } else {
        assert forall|i: int| 0 <= i < list.len() implies !#[trigger] equal(i) by {
            assert(vs[i] != a);
        }
    }
    assert forall|i: int| 0 <= i < ws.len() implies !(#[trigger] ws[i] is Null) by {}
    let v = ValueV::Bool(vs.contains(a));
    assert(expr_laws::is_worth(t, v, row, s, known));
    expr_laws::connectives_go_by_rank(t, t, v, v, row, s, known);
}

// ---------------------------------------------------------------- queries

/// Whether a plan is compiled from another one, for all that it refers to.
#[verifier::opaque]
spec fn is_compiled_query(c: PhysicalV, p: PlanV, ps: Map<Seq<char>, ValueV>) -> bool {
    physical::compiled(p, Some(logical::plan_columns(p)), ps) == Ok::<PhysicalV, ErrorV>(c)
}

#[verifier::rlimit(40)]
proof fn compiled_query_gives(c: PhysicalV, p: PlanV, ps: Map<Seq<char>, ValueV>, w: World)
    requires
        is_compiled_query(c, p, ps),
        lowering::is_built(p),
        lowering::is_legible(p, ps),
    ensures
        relation::given(c, w) == relation::rows(p, ps, w),
{
    assert(lowering::gives_the_rows(c, p, ps, w)) by {
        reveal(is_compiled_query);
        lowering::compiled_plans_give_the_rows(p, Some(logical::plan_columns(p)), ps, w);
    }
    reveal(lowering::gives_the_rows);
}

proof fn plain_step(p: PlanV, results: Seq<SubqueryResultV>, ps: Map<Seq<char>, ValueV>)
    requires
        !subquery::plan_has_subquery(p),
    ensures
        match execute::query_step(p, results, ps) {
            Ok(QueryStepV::Rows(c)) => is_compiled_query(c, p, ps),
            Ok(QueryStepV::Lookup(g)) => point_get::lookup(p, ps) == Some(g),
            Ok(QueryStepV::Subquery(_)) => false,
            Err(_) => true,
        },
{
    subquery::folding_keeps_plain_plans(p, results, 0);
    assert(execute::query_step(p, results, ps) == execute::plain_query_step(p, ps));
    reveal(is_compiled_query);
}

/// Whether an execution of a query takes a step.
#[verifier::opaque]
pub open spec fn steps_on(
    x: ExecutionV,
    e: EventV,
    y: ExecutionV,
    a: ActionV,
    p: PlanV,
    db: Snapshot,
    ps: Map<Seq<char>, ValueV>,
    known: Seq<(QuestionV, AnswerV)>,
) -> bool {
    &&& x.statement == SqlStatementV::Query(p)
    &&& run::coherent(x)
    &&& run::stepped(x, e, db, ps, known) == Ok::<(ExecutionV, ActionV), ErrorV>((y, a))
}

proof fn query_steps(
    x: ExecutionV,
    y: ExecutionV,
    a: ActionV,
    p: PlanV,
    db: Snapshot,
    ps: Map<Seq<char>, ValueV>,
    known: Seq<(QuestionV, AnswerV)>,
)
    requires
        x.statement == SqlStatementV::Query(p),
        run::advanced(x, db, ps, known) == Ok::<(ExecutionV, ActionV), ErrorV>((y, a)),
        !subquery::plan_has_subquery(p),
    ensures
        match a {
            ActionV::Open(c) => is_compiled_query(c, p, ps),
            ActionV::Stream(c) => is_compiled_query(c, p, ps),
            ActionV::Lookup { table_name, key, .. } => y.stage matches StageV::Lookup(g) && point_get::lookup(p, ps)
                == Some(g) && g.table_name == table_name && g.key == key,
            _ => false,
        },
{
    reveal(run::advanced);
    reveal(run::querying);
    plain_step(p, x.results, ps);
}

proof fn taken_steps(
    x: ExecutionV,
    e: EventV,
    y: ExecutionV,
    a: ActionV,
    p: PlanV,
    db: Snapshot,
    ps: Map<Seq<char>, ValueV>,
    known: Seq<(QuestionV, AnswerV)>,
)
    requires
        steps_on(x, e, y, a, p, db, ps, known),
        !subquery::plan_has_subquery(p),
    ensures
        match a {
            ActionV::Open(c) => is_compiled_query(c, p, ps),
            ActionV::Stream(c) => is_compiled_query(c, p, ps),
            ActionV::Lookup { table_name, key, .. } => y.stage matches StageV::Lookup(g) && point_get::lookup(p, ps)
                == Some(g) && g.table_name == table_name && g.key == key,
            _ => true,
        },
{
    reveal(steps_on);
    match (x.stage, e) {
        (StageV::Starting, EventV::Started) => query_steps(x, y, a, p, db, ps, known),
        (StageV::Table, EventV::Table(s)) => query_steps(ExecutionV { table: Some(s), ..x }, y, a, p, db, ps, known),
        (StageV::Subquery, EventV::Collected(r)) => query_steps(
            ExecutionV { results: x.results.push(r), ..x },
            y,
            a,
            p,
            db,
            ps,
            known,
        ),
        (StageV::Lookup(g), EventV::Row(r)) => {
            reveal(run::looked_up);
        },
        (StageV::Reading, EventV::Row(None)) => {
            reveal(run::drained);
        },
        (StageV::Reading, EventV::Row(Some(r))) => {
            reveal(run::taken_up);
        },
        (StageV::Writing, EventV::Done) => {
            reveal(run::written);
        },
        _ => {},
    }
}

/// A query reads the rows of its plan, whether they are collected or streamed; or it asks for the
/// row with a key, where its plan is such a lookup.
pub proof fn queries_read_the_rows_of_their_plan(
    x: ExecutionV,
    e: EventV,
    y: ExecutionV,
    a: ActionV,
    p: PlanV,
    db: Snapshot,
    ps: Map<Seq<char>, ValueV>,
    known: Seq<(QuestionV, AnswerV)>,
    w: World,
)
    requires
        steps_on(x, e, y, a, p, db, ps, known),
        !subquery::plan_has_subquery(p),
        lowering::is_built(p),
        lowering::is_legible(p, ps),
    ensures
        a matches ActionV::Open(c) ==> relation::given(c, w) == relation::rows(p, ps, w),
        a matches ActionV::Stream(c) ==> relation::given(c, w) == relation::rows(p, ps, w),
        a matches ActionV::Lookup { table_name, key, .. } ==> y.stage matches StageV::Lookup(g) && point_get::lookup(p, ps)
            == Some(g) && g.table_name == table_name && g.key == key,
{
    taken_steps(x, e, y, a, p, db, ps, known);
    match a {
        ActionV::Open(c) => compiled_query_gives(c, p, ps, w),
        ActionV::Stream(c) => compiled_query_gives(c, p, ps, w),
        _ => {},
    }
}

/// A query that asked for the row with a key ends with the rows of its plan, where the row that came
/// is the one that the scan of the key reads.
pub proof fn lookups_end_with_the_rows_of_their_plan(
    x: ExecutionV,
    row: Option<Seq<ValueV>>,
    g: PointGetV,
    y: ExecutionV,
    r: ResultV,
    p: PlanV,
    db: Snapshot,
    ps: Map<Seq<char>, ValueV>,
    w: World,
)
    requires
        x.stage == StageV::Lookup(g),
        run::stepped(x, EventV::Row(row), db, ps, w.known) == Ok::<(ExecutionV, ActionV), ErrorV>((y, ActionV::Finish(r))),
        point_get::lookup(p, ps) == Some(g),
        lowering::is_legible(p, ps),
        g.scan_schema.columns.len() <= usize::MAX,
        relation::rows(looked_up_scan(p), ps, w) == rows_of(row),
    ensures
        r matches ResultV::Select { rows, .. } && rows == relation::rows(p, ps, w),
{
    reveal(run::looked_up);
    lookups_give_the_rows(p, g, row, ps, w);
    assert(point_get::found_row(g, row, ps, w.known) is Ok);
}

} // verus!
