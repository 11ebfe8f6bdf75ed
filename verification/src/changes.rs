//! What DELETE, UPDATE and INSERT do to the rows of a table: the rows that the WHERE clause accepts
//! are changed and no others, columns that are not assigned to stay, and columns that no value is
//! given for have their defaults.

use crate::bags;
use crate::binding;
use crate::engine::Snapshot;
use crate::eval;
use crate::execute;
use crate::execute::QueryStepV;
use crate::expr;
use crate::expr::{ExprV, Operator};
use crate::facts::{AnswerV, ErrorV, QuestionV};
use crate::logical;
use crate::logical::PlanV;
use crate::lowering;
use crate::modify;
use crate::narrowing;
use crate::optimizer;
use crate::optimizer::{Optimizer, PathV};
use crate::physical;
use crate::physical::PhysicalV;
use crate::pushdown;
use crate::relation;
use crate::relation::World;
use crate::reshaped;
use crate::run;
use crate::run::{ActionV, EventV, ExecutionV, StageV};
use crate::scalar;
use crate::schema;
use crate::schema::SchemaV;
use crate::statement;
use crate::statement::SqlStatementV;
use crate::subquery;
use crate::syntax::{StatementBodyV, StatementV, TableFactorV};
use crate::value::{KeyV, ValueV};
use vstd::prelude::*;

verus! {

// ---------------------------------------------------------------- clauses

/// Whether a planned filter is that of a WHERE clause: there is one where there is a clause, and
/// it is true of the rows that the clause is true of.
pub open spec fn is_of_clause(
    filter: Option<ExprV>,
    s: StatementV,
    selection: Option<usize>,
    known: Seq<(QuestionV, AnswerV)>,
) -> bool {
    match (filter, selection) {
        (None, None) => true,
        (Some(f), Some(i)) => scalar::planned(s.exprs, i as int, known) == Ok::<ExprV, ErrorV>(f),
        _ => false,
    }
}

/// A planned UPDATE, and a planned DELETE, changes the table that it names, and has a filter where
/// it has a WHERE clause, which is the condition of the clause.
pub proof fn changes_have_the_filter_of_their_clause(
    tables: Seq<(Seq<char>, SchemaV)>,
    s: StatementV,
    known: Seq<(QuestionV, AnswerV)>,
)
    ensures
        statement::planned_statement(tables, s, known) matches Ok(t) ==> match s.body {
            StatementBodyV::Update { table, selection, .. } => match (t, table) {
                (
                    SqlStatementV::Update { table_name, filter, .. },
                    TableFactorV::Table { name, .. },
                ) => table_name == name && is_of_clause(filter, s, selection, known),
                _ => false,
            },
            StatementBodyV::Delete { from, selection } => match t {
                SqlStatementV::Delete { table_name, filter } => from.len() > 0 && (match from[0] {
                    TableFactorV::Table { name, .. } => table_name == name,
                    _ => false,
                }) && is_of_clause(filter, s, selection, known),
                _ => false,
            },
            _ => true,
        },
{
}

/// An UPDATE and a DELETE of one table with one WHERE clause change the same rows: they have the
/// same filter.
pub proof fn update_and_delete_filter_alike(
    tables: Seq<(Seq<char>, SchemaV)>,
    update: StatementV,
    delete: StatementV,
    known: Seq<(QuestionV, AnswerV)>,
)
    requires
        update.exprs == delete.exprs,
        match (update.body, delete.body) {
            (
                StatementBodyV::Update { selection, .. },
                StatementBodyV::Delete { selection: other, .. },
            ) => selection == other,
            _ => false,
        },
    ensures
        match (
            statement::planned_statement(tables, update, known),
            statement::planned_statement(tables, delete, known),
        ) {
            (Ok(SqlStatementV::Update { filter, .. }), Ok(SqlStatementV::Delete { filter: other, .. })) => filter == other,
            (Ok(_), Ok(_)) => false,
            _ => true,
        },
{
    changes_have_the_filter_of_their_clause(tables, update, known);
    changes_have_the_filter_of_their_clause(tables, delete, known);
}

// ---------------------------------------------------------------- rows to change

/// Whether every one of some predicates has its parameters bound.
spec fn all_substituted(es: Seq<ExprV>, ps: Map<Seq<char>, ValueV>) -> bool {
    forall|i: int| 0 <= i < es.len() ==> expr::substituted(#[trigger] es[i], ps) is Ok
}

/// Whether every one of some predicates names its columns exactly where it searches for words.
spec fn all_clear(es: Seq<ExprV>, s: SchemaV, ps: Map<Seq<char>, ValueV>) -> bool {
    forall|i: int|
        0 <= i < es.len() ==> (expr::substituted(#[trigger] es[i], ps) matches Ok(q) && binding::matches_by_name(q, s))
}

/// A conjunction is substituted where its conjuncts are, and is clear where they are.
proof fn conjuncts_are_clear(e: ExprV, s: SchemaV, ps: Map<Seq<char>, ValueV>)
    ensures
        expr::substituted(e, ps) is Ok == all_substituted(optimizer::conjuncts(e), ps),
        expr::substituted(e, ps) matches Ok(q) ==> binding::matches_by_name(q, s) == all_clear(
            optimizer::conjuncts(e),
            s,
            ps,
        ),
    decreases e,
{
    let es = optimizer::conjuncts(e);
    match e {
        ExprV::BinaryOp { left, op: Operator::And, right } => {
            conjuncts_are_clear(*left, s, ps);
            conjuncts_are_clear(*right, s, ps);
            let l = optimizer::conjuncts(*left);
            let r = optimizer::conjuncts(*right);
            assert(es =~= l + r);
            both_are_clear(l, r, s, ps);
        },
        _ => {
            assert(es =~= seq![e]);
            assert(es[0] == e);
        },
    }
}

proof fn both_are_clear(l: Seq<ExprV>, r: Seq<ExprV>, s: SchemaV, ps: Map<Seq<char>, ValueV>)
    ensures
        all_substituted(l + r, ps) == (all_substituted(l, ps) && all_substituted(r, ps)),
        all_clear(l + r, s, ps) == (all_clear(l, s, ps) && all_clear(r, s, ps)),
{
    let es = l + r;
    assert forall|i: int| 0 <= i < l.len() implies #[trigger] l[i] == es[i] by {}
    assert forall|i: int| 0 <= i < r.len() implies #[trigger] r[i] == es[l.len() + i] by {}
    if all_substituted(es, ps) {
        assert forall|i: int| 0 <= i < l.len() implies expr::substituted(#[trigger] l[i], ps) is Ok by {
            assert(expr::substituted(es[i], ps) is Ok);
        }
        assert forall|i: int| 0 <= i < r.len() implies expr::substituted(#[trigger] r[i], ps) is Ok by {
            assert(expr::substituted(es[l.len() + i], ps) is Ok);
        }
    }
    if all_clear(es, s, ps) {
        assert forall|i: int| 0 <= i < l.len() implies (expr::substituted(#[trigger] l[i], ps) matches Ok(q)
            && binding::matches_by_name(q, s)) by {
            assert(expr::substituted(es[i], ps) is Ok);
        }
        assert forall|i: int| 0 <= i < r.len() implies (expr::substituted(#[trigger] r[i], ps) matches Ok(q)
            && binding::matches_by_name(q, s)) by {
            assert(expr::substituted(es[l.len() + i], ps) is Ok);
        }
    }
}

proof fn conjunction_is_clear(es: Seq<ExprV>, s: SchemaV, ps: Map<Seq<char>, ValueV>)
    requires
        es.len() > 0,
    ensures
        expr::substituted(optimizer::conjunction_of(es), ps) is Ok == all_substituted(es, ps),
        expr::substituted(optimizer::conjunction_of(es), ps) matches Ok(q) ==> binding::matches_by_name(q, s)
            == all_clear(es, s, ps),
    decreases es.len(),
{
    if es.len() > 1 {
        let shorter = es.drop_last();
        let one = seq![es.last()];
        conjunction_is_clear(shorter, s, ps);
        conjunction_is_clear(one, s, ps);
        assert(es =~= shorter + one);
        both_are_clear(shorter, one, s, ps);
    } else {
        assert(es =~= seq![es[0]]);
    }
}

proof fn conjuncts_are_some(e: ExprV)
    ensures
        optimizer::conjuncts(e).len() > 0,
    decreases e,
{
    if let ExprV::BinaryOp { left, op: Operator::And, right } = e {
        conjuncts_are_some(*left);
    }
}

/// The filter that stays above a table is clear where the condition is.
proof fn regrouped_is_clear(e: ExprV, s: SchemaV, ps: Map<Seq<char>, ValueV>)
    requires
        relation::is_clear(e, s, ps),
    ensures
        relation::is_clear(optimizer::conjunction_of(optimizer::conjuncts(e)), s, ps),
{
    conjuncts_are_some(e);
    conjuncts_are_clear(e, s, ps);
    conjunction_is_clear(optimizer::conjuncts(e), s, ps);
}

/// Whether a plan reads a table with a schema.
spec fn reads_table(p: PlanV, s: SchemaV) -> bool {
    (p is Scan || p is IndexScan || p is FullTextScan) && logical::plan_schema(p) == s
}

proof fn best_index_reads_the_table(
    table: Seq<char>,
    s: SchemaV,
    e: ExprV,
    t: Option<crate::cost::TableStatistics>,
    cols: Set<Seq<char>>,
    i: int,
    best: PathV,
    known: Seq<(QuestionV, AnswerV)>,
)
    requires
        reads_table(best.plan, s),
    ensures
        optimizer::best_index_from(table, s, e, t, cols, i, best, known) matches Ok(p) ==> reads_table(p.plan, s),
    decreases s.indexes.len() - i,
{
    if i < s.indexes.len() {
        if let Ok(b) = optimizer::better(best, optimizer::index_path(table, s, s.indexes[i], e, t, cols, known)) {
            best_index_reads_the_table(table, s, e, t, cols, i + 1, b, known);
        }
    }
}

/// The plan of the rows that a condition accepts keeps the condition above the table, in whichever
/// way the table is read.
proof fn changed_rows_stay_filtered(
    table: Seq<char>,
    s: SchemaV,
    e: ExprV,
    o: Optimizer,
    known: Seq<(QuestionV, AnswerV)>,
)
    ensures
        optimizer::optimized(modify::affected_rows(table, s, Some(e)), o, known) matches Ok(q) ==> match q {
            PlanV::Filter { source, predicate } => reads_table(*source, s) && predicate == optimizer::conjunction_of(
                optimizer::conjuncts(e),
            ),
            _ => false,
        },
{
    let p = modify::affected_rows(table, s, Some(e));
    let es = optimizer::conjuncts(e);
    conjuncts_are_some(e);
    assert(Seq::<ExprV>::empty() + es =~= es);
    let cols = logical::plan_columns(p);
    let c = optimizer::conjunction_of(es);
    let t = o.stats_of(table);
    if let Ok(full) = crate::cost::scan_cost(s, t, None, cols, known) {
        let scan = PathV { plan: PlanV::Scan { table_name: table, schema: s, range: None }, cost: full };
        if let Ok(b) = optimizer::better(scan, optimizer::key_path(table, s, c, t, cols, known)) {
            best_index_reads_the_table(table, s, c, t, cols, 0, b, known);
        }
    }
    reveal_with_fuel(optimizer::pushed, 2);
    reveal_with_fuel(optimizer::reordered, 2);
    reveal_with_fuel(optimizer::unsorted, 2);
}

/// The condition of a DELETE or an UPDATE once its subqueries have run.
pub open spec fn settled(x: ExecutionV, filter: Option<ExprV>) -> Option<ExprV> {
    match filter {
        None => None,
        Some(e) => Some(subquery::folded_expr(e, x.results, 0)->Ok_0.0),
    }
}

/// The WHERE clause of a statement that changes rows.
pub open spec fn clause(s: SqlStatementV) -> Option<ExprV> {
    match s {
        SqlStatementV::Update { filter, .. } => filter,
        SqlStatementV::Delete { filter, .. } => filter,
        _ => None,
    }
}

/// Whether a row passes a condition: every row does where there is none.
pub open spec fn passes(
    filter: Option<ExprV>,
    s: SchemaV,
    ps: Map<Seq<char>, ValueV>,
    known: Seq<(QuestionV, AnswerV)>,
) -> spec_fn(Seq<ValueV>) -> bool {
    |row: Seq<ValueV>|
        match filter {
            Some(e) => relation::is_true(relation::input(e, s, ps, known)(row)),
            None => true,
        }
}

/// Whether a plan is compiled from that of the rows of a table that pass a condition.
#[verifier::opaque]
spec fn is_compiled_change(
    c: PhysicalV,
    t: Seq<char>,
    s: SchemaV,
    filter: Option<ExprV>,
    o: Optimizer,
    ps: Map<Seq<char>, ValueV>,
    known: Seq<(QuestionV, AnswerV)>,
) -> bool {
    optimizer::optimized(modify::affected_rows(t, s, filter), o, known) matches Ok(q) && physical::compiled(q, None, ps)
        == Ok::<PhysicalV, ErrorV>(c)
}

proof fn changed_step_is_compiled(
    c: PhysicalV,
    t: Seq<char>,
    s: SchemaV,
    x: ExecutionV,
    filter: Option<ExprV>,
    db: Snapshot,
    ps: Map<Seq<char>, ValueV>,
    known: Seq<(QuestionV, AnswerV)>,
)
    requires
        execute::change_step(t, s, filter, x.results, db, ps, known) == Ok::<QueryStepV, ErrorV>(QueryStepV::Rows(c)),
    ensures
        is_compiled_change(c, t, s, settled(x, filter), db.optimizer, ps, known),
{
    reveal(is_compiled_change);
}

proof fn advancing_opens(
    x: ExecutionV,
    y: ExecutionV,
    c: PhysicalV,
    db: Snapshot,
    ps: Map<Seq<char>, ValueV>,
    known: Seq<(QuestionV, AnswerV)>,
)
    requires
        x.statement is Update || x.statement is Delete,
        run::advanced(x, db, ps, known) == Ok::<(ExecutionV, ActionV), ErrorV>((y, ActionV::Open(c))),
    ensures
        y.table is Some && y.table == x.table,
        y.statement == x.statement,
        y.results == x.results,
        y.stage is Reading,
        is_compiled_change(
            c,
            run::target(x.statement),
            y.table->0,
            settled(y, clause(x.statement)),
            db.optimizer,
            ps,
            known,
        ),
{
    reveal(run::advanced);
    reveal(run::collecting);
    if x.table is Some {
        let s = x.table->0;
        let t = run::target(x.statement);
        let filter = clause(x.statement);
        let step = execute::change_step(t, s, filter, x.results, db, ps, known);
        match x.statement {
            SqlStatementV::Delete { .. } => {
                reveal(run::deleting);
                assert(run::deleted(x, step, db, ps, known) == run::advanced(x, db, ps, known));
                assert(step == Ok::<QueryStepV, ErrorV>(QueryStepV::Rows(c)));
                changed_step_is_compiled(c, t, s, x, filter, db, ps, known);
            },
            SqlStatementV::Update { assignments, .. } => {
                reveal(run::updating);
                let folded = execute::folded_assignments(
                    assignments,
                    0,
                    Seq::empty(),
                    x.results,
                    run::results_used(filter, x.results),
                    ps,
                );
                assert(run::changing(x, step, folded, db, ps, known) == run::advanced(x, db, ps, known));
                assert(step == Ok::<QueryStepV, ErrorV>(QueryStepV::Rows(c)));
                changed_step_is_compiled(c, t, s, x, filter, db, ps, known);
            },
            _ => {},
        }
    }
}

/// Whether an execution of a DELETE or an UPDATE is about to read the rows of a plan.
#[verifier::opaque]
pub open spec fn opens(
    x: ExecutionV,
    e: EventV,
    y: ExecutionV,
    c: PhysicalV,
    db: Snapshot,
    ps: Map<Seq<char>, ValueV>,
    known: Seq<(QuestionV, AnswerV)>,
) -> bool {
    &&& x.statement is Update || x.statement is Delete
    &&& run::coherent(x)
    &&& run::stepped(x, e, db, ps, known) == Ok::<(ExecutionV, ActionV), ErrorV>((y, ActionV::Open(c)))
}

/// A DELETE or an UPDATE opens the plan of the rows that its condition accepts.
proof fn opened_plan(
    x: ExecutionV,
    e: EventV,
    y: ExecutionV,
    c: PhysicalV,
    db: Snapshot,
    ps: Map<Seq<char>, ValueV>,
    known: Seq<(QuestionV, AnswerV)>,
)
    requires
        opens(x, e, y, c, db, ps, known),
    ensures
        y.table is Some,
        y.statement == x.statement,
        y.stage is Reading,
        is_compiled_change(
            c,
            run::target(x.statement),
            y.table->0,
            settled(y, clause(x.statement)),
            db.optimizer,
            ps,
            known,
        ),
{
    reveal(opens);
    match (x.stage, e) {
        (StageV::Starting, EventV::Started) => advancing_opens(x, y, c, db, ps, known),
        (StageV::Table, EventV::Table(s)) => advancing_opens(ExecutionV { table: Some(s), ..x }, y, c, db, ps, known),
        (StageV::Subquery, EventV::Collected(r)) => advancing_opens(
            ExecutionV { results: x.results.push(r), ..x },
            y,
            c,
            db,
            ps,
            known,
        ),
        (StageV::Reading, EventV::Row(None)) => {
            reveal(run::drained);
        },
        (StageV::Reading, EventV::Row(Some(r))) => {
            reveal(run::taken_up);
        },
        (StageV::Writing, EventV::Done) => {
            reveal(run::written);
        },
        _ => {},
    }
}

/// Whether a plan is compiled from another one.
#[verifier::opaque]
spec fn is_compiled_from(c: PhysicalV, q: PlanV, ps: Map<Seq<char>, ValueV>) -> bool {
    physical::compiled(q, None, ps) == Ok::<PhysicalV, ErrorV>(c)
}

/// Whether some rows are those of a compiled plan.
#[verifier::opaque]
spec fn are_given(rows: Seq<Seq<ValueV>>, c: PhysicalV, w: World) -> bool {
    rows == relation::given(c, w)
}

#[verifier::rlimit(40)]
proof fn compiled_from_gives(c: PhysicalV, q: PlanV, ps: Map<Seq<char>, ValueV>, w: World)
    requires
        is_compiled_from(c, q, ps),
        lowering::is_built(q),
        lowering::is_legible(q, ps),
    ensures
        are_given(relation::rows(q, ps, w), c, w),
{
    assert(lowering::gives_the_rows(c, q, ps, w)) by {
        reveal(is_compiled_from);
        lowering::compiled_plans_give_the_rows(q, None, ps, w);
    }
    reveal(are_given);
    reveal(lowering::gives_the_rows);
}

/// The plan that a plan of changed rows is compiled from.
proof fn compiled_change_plan(
    c: PhysicalV,
    t: Seq<char>,
    s: SchemaV,
    filter: Option<ExprV>,
    o: Optimizer,
    ps: Map<Seq<char>, ValueV>,
    known: Seq<(QuestionV, AnswerV)>,
) -> (q: PlanV)
    requires
        is_compiled_change(c, t, s, filter, o, ps, known),
    ensures
        is_compiled_from(c, q, ps),
        is_optimized(q, modify::affected_rows(t, s, filter), o, known),
{
    reveal(is_compiled_change);
    reveal(is_compiled_from);
    reveal(is_optimized);
    optimizer::optimized(modify::affected_rows(t, s, filter), o, known)->Ok_0
}

/// Whether a plan is what another one becomes by optimizing.
#[verifier::opaque]
spec fn is_optimized(q: PlanV, p: PlanV, o: Optimizer, known: Seq<(QuestionV, AnswerV)>) -> bool {
    optimizer::optimized(p, o, known) == Ok::<PlanV, ErrorV>(q)
}

/// The rows of a plan of changed rows pass the condition.
proof fn compiled_changes_pass(
    c: PhysicalV,
    t: Seq<char>,
    s: SchemaV,
    f: ExprV,
    o: Optimizer,
    ps: Map<Seq<char>, ValueV>,
    known: Seq<(QuestionV, AnswerV)>,
    w: World,
    row: Seq<ValueV>,
)
    requires
        is_compiled_change(c, t, s, Some(f), o, ps, known),
        s.columns.len() <= usize::MAX,
        relation::is_clear(f, s, ps),
        relation::given(c, w).contains(row),
    ensures
        relation::is_true(relation::input(f, s, ps, w.known)(row)),
{
    let q = compiled_change_plan(c, t, s, Some(f), o, ps, known);
    assert(q is Filter && reads_table(*q->Filter_source, s) && q->Filter_predicate == optimizer::conjunction_of(
        optimizer::conjuncts(f),
    )) by {
        reveal(is_optimized);
        changed_rows_stay_filtered(t, s, f, o, known);
    }
    regrouped_is_clear(f, s, ps);
    let es = optimizer::conjuncts(f);
    conjuncts_are_some(f);
    if let PlanV::Filter { source, predicate } = q {
        filter_over_table_is_legible(*source, predicate, s, ps);
        compiled_from_gives(c, q, ps, w);
        assert(relation::rows(q, ps, w).contains(row)) by {
            reveal(are_given);
        }
        let u = relation::test(relation::input(predicate, s, ps, w.known));
        bags::passing_contains(relation::rows(*source, ps, w), u, row);
        narrowing::conjunction_is_true(es, s, ps, w.known, row);
        narrowing::conjuncts_are_true(f, s, ps, w.known, row);
    }
}

proof fn filter_over_table_is_legible(source: PlanV, predicate: ExprV, s: SchemaV, ps: Map<Seq<char>, ValueV>)
    requires
        reads_table(source, s),
        s.columns.len() <= usize::MAX,
        relation::is_clear(predicate, s, ps),
    ensures
        lowering::is_built(PlanV::Filter { source: Box::new(source), predicate }),
        lowering::is_legible(PlanV::Filter { source: Box::new(source), predicate }, ps),
{
    assert(lowering::is_built(source));
    assert(lowering::is_legible(source, ps));
}

/// The rows that a DELETE or an UPDATE reads all pass its condition: a row of which the condition
/// is not true is never read.
pub proof fn changes_read_rows_that_pass(
    x: ExecutionV,
    e: EventV,
    y: ExecutionV,
    c: PhysicalV,
    db: Snapshot,
    ps: Map<Seq<char>, ValueV>,
    known: Seq<(QuestionV, AnswerV)>,
    w: World,
    row: Seq<ValueV>,
)
    requires
        opens(x, e, y, c, db, ps, known),
        (y.table->0).columns.len() <= usize::MAX,
        settled(y, clause(x.statement)) matches Some(f) ==> relation::is_clear(f, y.table->0, ps),
        relation::given(c, w).contains(row),
    ensures
        passes(settled(y, clause(x.statement)), y.table->0, ps, w.known)(row),
{
    opened_plan(x, e, y, c, db, ps, known);
    if let Some(f) = settled(y, clause(x.statement)) {
        compiled_changes_pass(c, run::target(x.statement), y.table->0, f, db.optimizer, ps, known, w, row);
    }
}

proof fn whole_table(t: Seq<char>, s: SchemaV, o: Optimizer, known: Seq<(QuestionV, AnswerV)>)
    ensures
        optimizer::optimized(modify::affected_rows(t, s, None), o, known) == Ok::<PlanV, ErrorV>(
            PlanV::Scan { table_name: t, schema: s, range: None },
        ),
{
}

proof fn compiled_changes_are_the_passing(
    c: PhysicalV,
    t: Seq<char>,
    s: SchemaV,
    filter: Option<ExprV>,
    o: Optimizer,
    ps: Map<Seq<char>, ValueV>,
    known: Seq<(QuestionV, AnswerV)>,
    w: World,
)
    requires
        is_compiled_change(c, t, s, filter, o, ps, known),
        s.columns.len() <= usize::MAX,
        reshaped::is_fair(w),
        pushdown::rows_of_schema((w.table)(t), s),
        filter matches Some(f) ==> relation::is_clear(f, s, ps) && narrowing::is_keyed(
            t,
            s,
            optimizer::conjunction_of(optimizer::conjuncts(f)),
            w,
        ),
    ensures
        bags::same(relation::given(c, w), pushdown::passing((w.table)(t), passes(filter, s, ps, w.known))),
{
    let p = modify::affected_rows(t, s, filter);
    let q = compiled_change_plan(c, t, s, filter, o, ps, known);
    let scan = PlanV::Scan { table_name: t, schema: s, range: None };
    let none = Seq::<ExprV>::empty();
    let all = (w.table)(t);
    let a = |row: Seq<ValueV>| relation::is_read(None, None, relation::table_key(s, row));
    let b = passes(filter, s, ps, w.known);
    assert(lowering::is_built(scan));
    assert(lowering::is_legible(scan, ps));
    assert(reshaped::fits(scan, w));
    assert(reshaped::is_orderly(scan, ps, w.known));
    assert(relation::rows(scan, ps, w) == pushdown::passing(all, a));
    match filter {
        Some(f) => {
            assert(q is Filter && reads_table(*q->Filter_source, s) && q->Filter_predicate == optimizer::conjunction_of(
                optimizer::conjuncts(f),
            )) by {
                reveal(is_optimized);
                changed_rows_stay_filtered(t, s, f, o, known);
            }
            regrouped_is_clear(f, s, ps);
            assert(none + optimizer::conjuncts(f) =~= optimizer::conjuncts(f));
            assert(narrowing::is_movable(scan, optimizer::conjuncts(f), ps, w));
            assert(narrowing::is_movable(p, none, ps, w));
            filter_over_table_is_legible(*q->Filter_source, q->Filter_predicate, s, ps);
            assert(q == (PlanV::Filter { source: q->Filter_source, predicate: q->Filter_predicate }));
            assert(bags::same(relation::rows(q, ps, w), relation::rows(p, ps, w))) by {
                reveal(is_optimized);
                narrowing::optimizing_keeps_rows(p, o, known, ps, w);
            }
            compiled_from_gives(c, q, ps, w);
            let u = relation::test(relation::input(f, s, ps, w.known));
            bags::passing_twice(all, a, u, b);
            assert(relation::rows(p, ps, w) == pushdown::passing(pushdown::passing(all, a), u));
            assert(relation::given(c, w) == relation::rows(q, ps, w)) by {
                reveal(are_given);
            }
        },
        None => {
            assert(q == scan) by {
                reveal(is_optimized);
                whole_table(t, s, o, known);
            }
            compiled_from_gives(c, q, ps, w);
            bags::passing_same(all, all, a, b);
            assert(relation::given(c, w) == relation::rows(q, ps, w)) by {
                reveal(are_given);
            }
        },
    }
}

/// A DELETE or an UPDATE reads each row of its table of which its condition is true, as often as it
/// is there, and no other.
pub proof fn changes_read_the_rows_that_pass(
    x: ExecutionV,
    e: EventV,
    y: ExecutionV,
    c: PhysicalV,
    db: Snapshot,
    ps: Map<Seq<char>, ValueV>,
    known: Seq<(QuestionV, AnswerV)>,
    w: World,
)
    requires
        opens(x, e, y, c, db, ps, known),
        (y.table->0).columns.len() <= usize::MAX,
        reshaped::is_fair(w),
        pushdown::rows_of_schema((w.table)(run::target(x.statement)), y.table->0),
        settled(y, clause(x.statement)) matches Some(f) ==> relation::is_clear(f, y.table->0, ps) && narrowing::is_keyed(
            run::target(x.statement),
            y.table->0,
            optimizer::conjunction_of(optimizer::conjuncts(f)),
            w,
        ),
    ensures
        bags::same(
            relation::given(c, w),
            pushdown::passing(
                (w.table)(run::target(x.statement)),
                passes(settled(y, clause(x.statement)), y.table->0, ps, w.known),
            ),
        ),
{
    opened_plan(x, e, y, c, db, ps, known);
    compiled_changes_are_the_passing(
        c,
        run::target(x.statement),
        y.table->0,
        settled(y, clause(x.statement)),
        db.optimizer,
        ps,
        known,
        w,
    );
}

// ---------------------------------------------------------------- rows that are changed

/// Whether a row was read for a change, and the action on it is a DELETE of it, the DELETE of it
/// before it moves, or the PUT of what becomes of it.
pub open spec fn is_of_row(
    a: ActionV,
    row: Seq<ValueV>,
    t: Seq<char>,
    s: SchemaV,
    assignments: Seq<(Seq<char>, ExprV)>,
    known: Seq<(QuestionV, AnswerV)>,
) -> bool {
    match a {
        ActionV::Delete { table_name, key } => table_name == t && modify::primary_key(s, row) == Ok::<KeyV, ErrorV>(key),
        ActionV::Put { table_name, key, row: after } => {
            &&& table_name == t
            &&& modify::assigned(s, row, assignments, 0, row, known) == Ok::<Seq<ValueV>, ErrorV>(after)
            &&& modify::primary_key(s, after) == Ok::<KeyV, ErrorV>(key)
        },
        _ => false,
    }
}

/// Whether executions, events and actions are steps of one execution.
pub open spec fn are_steps(
    xs: Seq<ExecutionV>,
    es: Seq<EventV>,
    acts: Seq<ActionV>,
    db: Snapshot,
    ps: Map<Seq<char>, ValueV>,
    known: Seq<(QuestionV, AnswerV)>,
) -> bool {
    &&& xs.len() == es.len() + 1
    &&& acts.len() == es.len()
    &&& forall|i: int|
        0 <= i < es.len() ==> run::stepped(#[trigger] xs[i], es[i], db, ps, known) == Ok::<(ExecutionV, ActionV), ErrorV>(
            (xs[i + 1], acts[i]),
        )
}

/// Whether an action is on one of some rows.
pub open spec fn is_of_some_row(
    a: ActionV,
    read: spec_fn(Seq<ValueV>) -> bool,
    t: Seq<char>,
    s: SchemaV,
    assignments: Seq<(Seq<char>, ExprV)>,
    known: Seq<(QuestionV, AnswerV)>,
) -> bool {
    exists|row: Seq<ValueV>| #[trigger] read(row) && is_of_row(a, row, t, s, assignments, known)
}

/// Whether an execution reads, writes or moves one of some rows, or is finished.
spec fn is_at_a_row(x: ExecutionV, first: ExecutionV, read: spec_fn(Seq<ValueV>) -> bool, known: Seq<(QuestionV, AnswerV)>) -> bool {
    &&& x.statement == first.statement
    &&& x.table == first.table
    &&& x.assignments == first.assignments
    &&& match x.stage {
        StageV::Reading => true,
        StageV::Writing => true,
        StageV::Finished => true,
        StageV::Moving { row, key } => is_of_some_row(
            ActionV::Put { table_name: run::target(first.statement), key, row },
            read,
            run::target(first.statement),
            first.table->0,
            first.assignments,
            known,
        ),
        _ => false,
    }
}

proof fn one_step_on_a_row(
    x: ExecutionV,
    e: EventV,
    y: ExecutionV,
    a: ActionV,
    first: ExecutionV,
    read: spec_fn(Seq<ValueV>) -> bool,
    db: Snapshot,
    ps: Map<Seq<char>, ValueV>,
    known: Seq<(QuestionV, AnswerV)>,
)
    requires
        first.statement is Update || first.statement is Delete,
        first.table is Some,
        is_at_a_row(x, first, read, known),
        e matches EventV::Row(Some(r)) ==> read(r),
        run::stepped(x, e, db, ps, known) == Ok::<(ExecutionV, ActionV), ErrorV>((y, a)),
    ensures
        is_at_a_row(y, first, read, known),
        a is Put || a is Delete ==> is_of_some_row(
            a,
            read,
            run::target(first.statement),
            first.table->0,
            first.assignments,
            known,
        ),
        a is Put || a is Delete || a is NextRow || a is Finish,
{
    let t = run::target(first.statement);
    let s = first.table->0;
    match (x.stage, e) {
        (StageV::Reading, EventV::Row(None)) => {
            reveal(run::drained);
        },
        (StageV::Reading, EventV::Row(Some(r))) => {
            reveal(run::taken_up);
            assert(read(r));
            if first.statement is Delete {
                assert(is_of_row(a, r, t, s, first.assignments, known));
            } else {
                let u = modify::updated(s, r, x.assignments, known)->Ok_0;
                assert(is_of_row(a, r, t, s, first.assignments, known));
                assert(is_of_row(
                    (ActionV::Put { table_name: t, key: u.new_key, row: u.row }),
                    r,
                    t,
                    s,
                    first.assignments,
                    known,
                ));
            }
        },
        (StageV::Moving { row, key }, EventV::Done) => {},
        (StageV::Writing, EventV::Done) => {
            reveal(run::written);
        },
        _ => {},
    }
}

/// From where a DELETE or an UPDATE reads its rows, every row that it deletes is one that it read,
/// and every row that it puts is what its assignments make of one that it read. With what it reads
/// being the rows that pass its condition, a row that does not pass is never deleted or put.
pub proof fn only_read_rows_are_changed(
    xs: Seq<ExecutionV>,
    es: Seq<EventV>,
    acts: Seq<ActionV>,
    read: spec_fn(Seq<ValueV>) -> bool,
    db: Snapshot,
    ps: Map<Seq<char>, ValueV>,
    known: Seq<(QuestionV, AnswerV)>,
    i: int,
)
    requires
        are_steps(xs, es, acts, db, ps, known),
        xs[0].statement is Update || xs[0].statement is Delete,
        xs[0].table is Some,
        xs[0].stage is Reading,
        forall|j: int| 0 <= j < es.len() ==> (#[trigger] es[j] matches EventV::Row(Some(r)) ==> read(r)),
        0 <= i < es.len(),
    ensures
        acts[i] is Put || acts[i] is Delete ==> is_of_some_row(
            acts[i],
            read,
            run::target(xs[0].statement),
            xs[0].table->0,
            xs[0].assignments,
            known,
        ),
        acts[i] is Put || acts[i] is Delete || acts[i] is NextRow || acts[i] is Finish,
{
    stays_at_a_row(xs, es, acts, read, db, ps, known, i);
    assert(es[i] matches EventV::Row(Some(r)) ==> read(r));
    one_step_on_a_row(xs[i], es[i], xs[i + 1], acts[i], xs[0], read, db, ps, known);
}

proof fn stays_at_a_row(
    xs: Seq<ExecutionV>,
    es: Seq<EventV>,
    acts: Seq<ActionV>,
    read: spec_fn(Seq<ValueV>) -> bool,
    db: Snapshot,
    ps: Map<Seq<char>, ValueV>,
    known: Seq<(QuestionV, AnswerV)>,
    i: int,
)
    requires
        are_steps(xs, es, acts, db, ps, known),
        xs[0].statement is Update || xs[0].statement is Delete,
        xs[0].table is Some,
        xs[0].stage is Reading,
        forall|j: int| 0 <= j < es.len() ==> (#[trigger] es[j] matches EventV::Row(Some(r)) ==> read(r)),
        0 <= i <= es.len(),
    ensures
        is_at_a_row(xs[i], xs[0], read, known),
    decreases i,
{
    if i > 0 {
        stays_at_a_row(xs, es, acts, read, db, ps, known, i - 1);
        assert(run::stepped(xs[i - 1], es[i - 1], db, ps, known) == Ok::<(ExecutionV, ActionV), ErrorV>(
            (xs[i], acts[i - 1]),
        ));
        assert(es[i - 1] matches EventV::Row(Some(r)) ==> read(r));
        one_step_on_a_row(xs[i - 1], es[i - 1], xs[i], acts[i - 1], xs[0], read, db, ps, known);
    }
}

/// A DELETE or an UPDATE whose rows come from the plan that it opened deletes and puts only rows
/// that pass its condition, and what its assignments make of them.
pub proof fn rows_that_do_not_pass_are_left_alone(
    x: ExecutionV,
    e: EventV,
    c: PhysicalV,
    xs: Seq<ExecutionV>,
    es: Seq<EventV>,
    acts: Seq<ActionV>,
    db: Snapshot,
    ps: Map<Seq<char>, ValueV>,
    known: Seq<(QuestionV, AnswerV)>,
    w: World,
    i: int,
)
    requires
        are_steps(xs, es, acts, db, ps, known),
        opens(x, e, xs[0], c, db, ps, known),
        (xs[0].table->0).columns.len() <= usize::MAX,
        settled(xs[0], clause(x.statement)) matches Some(f) ==> relation::is_clear(f, xs[0].table->0, ps),
        forall|j: int|
            0 <= j < es.len() ==> (#[trigger] es[j] matches EventV::Row(Some(r)) ==> relation::given(c, w).contains(r)),
        0 <= i < es.len(),
        acts[i] is Put || acts[i] is Delete,
    ensures
        is_of_some_row(
            acts[i],
            passes(settled(xs[0], clause(x.statement)), xs[0].table->0, ps, w.known),
            run::target(x.statement),
            xs[0].table->0,
            xs[0].assignments,
            known,
        ),
{
    opened_plan(x, e, xs[0], c, db, ps, known);
    let read = passes(settled(xs[0], clause(x.statement)), xs[0].table->0, ps, w.known);
    assert forall|j: int| 0 <= j < es.len() implies (#[trigger] es[j] matches EventV::Row(Some(r)) ==> read(r)) by {
        if let EventV::Row(Some(r)) = es[j] {
            changes_read_rows_that_pass(x, e, xs[0], c, db, ps, known, w, r);
        }
    }
    assert(x.statement is Update || x.statement is Delete) by {
        reveal(opens);
    }
    only_read_rows_are_changed(xs, es, acts, read, db, ps, known, i);
}

/// A condition without subqueries is used as it is.
pub proof fn plain_conditions_are_used_as_they_are(x: ExecutionV, filter: Option<ExprV>)
    requires
        filter matches Some(e) ==> !subquery::expr_has_subquery(e),
    ensures
        settled(x, filter) == filter,
{
    if let Some(e) = filter {
        subquery::folding_keeps_plain_expressions(e, x.results, 0);
    }
}

// ---------------------------------------------------------------- assignments

/// Whether an assignment, or a column of an INSERT, is to the column at a position.
pub open spec fn is_to(s: SchemaV, name: Seq<char>, k: int) -> bool {
    schema::column_position(s.columns, name) == Some(k)
}

proof fn positions_are_columns(cols: Seq<schema::ColumnV>, name: Seq<char>, i: int)
    requires
        0 <= i,
    ensures
        schema::column_position_from(cols, name, i) matches Some(k) ==> i <= k < cols.len(),
    decreases cols.len() - i,
{
    if i < cols.len() {
        positions_are_columns(cols, name, i + 1);
    }
}

/// An UPDATE leaves the columns alone that it does not assign to, and gives each other column the
/// value that the last assignment to it has on the row as it was.
pub proof fn assignments_change_their_columns_alone(
    s: SchemaV,
    row: Seq<ValueV>,
    assignments: Seq<(Seq<char>, ExprV)>,
    known: Seq<(QuestionV, AnswerV)>,
    k: int,
)
    requires
        0 <= k < row.len(),
        s.columns.len() <= row.len(),
    ensures
        modify::assigned(s, row, assignments, 0, row, known) matches Ok(after) ==> {
            &&& after.len() == row.len()
            &&& (forall|j: int| 0 <= j < assignments.len() ==> !is_to(s, (#[trigger] assignments[j]).0, k)) ==> after[k]
                == row[k]
            &&& forall|j: int|
                0 <= j < assignments.len() && is_to(s, (#[trigger] assignments[j]).0, k) && (forall|i: int|
                    j < i < assignments.len() ==> !is_to(s, (#[trigger] assignments[i]).0, k)) ==> eval::evaluated(
                    assignments[j].1,
                    row,
                    s,
                    known,
                ) == Ok::<ValueV, ErrorV>(after[k])
        },
{
    assigned_from(s, row, assignments, 0, row, known, k);
}

proof fn assigned_from(
    s: SchemaV,
    row: Seq<ValueV>,
    assignments: Seq<(Seq<char>, ExprV)>,
    i: int,
    acc: Seq<ValueV>,
    known: Seq<(QuestionV, AnswerV)>,
    k: int,
)
    requires
        0 <= i,
        0 <= k < acc.len(),
        s.columns.len() <= acc.len(),
    ensures
        modify::assigned(s, row, assignments, i, acc, known) matches Ok(after) ==> {
            &&& after.len() == acc.len()
            &&& (forall|j: int| i <= j < assignments.len() ==> !is_to(s, (#[trigger] assignments[j]).0, k)) ==> after[k]
                == acc[k]
            &&& forall|j: int|
                i <= j < assignments.len() && is_to(s, (#[trigger] assignments[j]).0, k) && (forall|h: int|
                    j < h < assignments.len() ==> !is_to(s, (#[trigger] assignments[h]).0, k)) ==> eval::evaluated(
                    assignments[j].1,
                    row,
                    s,
                    known,
                ) == Ok::<ValueV, ErrorV>(after[k])
        },
    decreases assignments.len() - i,
{
    if i < assignments.len() {
        if let Some(at) = schema::column_position(s.columns, assignments[i].0) {
            positions_are_columns(s.columns, assignments[i].0, 0);
            if let Ok(v) = eval::evaluated(assignments[i].1, row, s, known) {
                let next = acc.update(at, v);
                assigned_from(s, row, assignments, i + 1, next, known, k);
                if let Ok(after) = modify::assigned(s, row, assignments, i, acc, known) {
                    if forall|j: int| i <= j < assignments.len() ==> !is_to(s, (#[trigger] assignments[j]).0, k) {
                        assert(!is_to(s, assignments[i].0, k));
                        assert(next[k] == acc[k]);
                    }
                    assert forall|j: int|
                        i <= j < assignments.len() && is_to(s, (#[trigger] assignments[j]).0, k) && (forall|h: int|
                            j < h < assignments.len() ==> !is_to(
                                s,
                                (#[trigger] assignments[h]).0,
                                k,
                            )) implies eval::evaluated(assignments[j].1, row, s, known) == Ok::<ValueV, ErrorV>(after[k]) by {
                        if j == i {
                            assert(next[k] == v);
                        }
                    }
                }
            }
        }
    }
}

/// An INSERT gives each named column its value, the last one where a column is named twice, and
/// every other column its default, or null where it has none.
pub proof fn inserted_rows_have_values_and_defaults(
    s: SchemaV,
    columns: Seq<Seq<char>>,
    values: Seq<ValueV>,
    k: int,
)
    requires
        0 <= k < s.columns.len(),
    ensures
        modify::aligned_row(s, columns, values) matches Ok(row) ==> {
            &&& row.len() == s.columns.len()
            &&& (forall|j: int| 0 <= j < columns.len() ==> !is_to(s, #[trigger] columns[j], k)) ==> (
            s.columns[k].default_value matches Some(v) ==> row[k] == v) && (s.columns[k].default_value is None ==> row[k]
                == ValueV::Null)
            &&& forall|j: int|
                0 <= j < columns.len() && is_to(s, #[trigger] columns[j], k) && (forall|i: int|
                    j < i < columns.len() ==> !is_to(s, #[trigger] columns[i], k)) ==> row[k] == values[j]
        },
{
    values_from(s, columns, values, 0, modify::default_row(s.columns), k);
}

proof fn values_from(s: SchemaV, columns: Seq<Seq<char>>, values: Seq<ValueV>, i: int, acc: Seq<ValueV>, k: int)
    requires
        0 <= i,
        0 <= k < acc.len(),
        s.columns.len() <= acc.len(),
    ensures
        modify::values_set(s, columns, values, i, acc) matches Ok(row) ==> {
            &&& row.len() == acc.len()
            &&& (forall|j: int| i <= j < columns.len() ==> !is_to(s, #[trigger] columns[j], k)) ==> row[k] == acc[k]
            &&& forall|j: int|
                i <= j < columns.len() && is_to(s, #[trigger] columns[j], k) && (forall|h: int|
                    j < h < columns.len() ==> !is_to(s, #[trigger] columns[h], k)) ==> row[k] == values[j]
        },
    decreases columns.len() - i,
{
    if i < columns.len() {
        if let Some(at) = schema::column_position(s.columns, columns[i]) {
            positions_are_columns(s.columns, columns[i], 0);
            let next = acc.update(at, values[i]);
            values_from(s, columns, values, i + 1, next, k);
            if let Ok(row) = modify::values_set(s, columns, values, i, acc) {
                if forall|j: int| i <= j < columns.len() ==> !is_to(s, #[trigger] columns[j], k) {
                    assert(!is_to(s, columns[i], k));
                    assert(next[k] == acc[k]);
                }
                assert forall|j: int|
                    i <= j < columns.len() && is_to(s, #[trigger] columns[j], k) && (forall|h: int|
                        j < h < columns.len() ==> !is_to(s, #[trigger] columns[h], k)) implies row[k] == values[j] by {
                    if j == i {
                        assert(next[k] == values[i]);
                    }
                }
            }
        }
    }
}

/// The assignments that an UPDATE works with are those of the statement, in their order and to their
/// columns; one without subqueries is only given its parameters.
pub proof fn assignments_keep_their_columns(
    assignments: Seq<(Seq<char>, ExprV)>,
    results: Seq<subquery::SubqueryResultV>,
    k: int,
    ps: Map<Seq<char>, ValueV>,
    j: int,
)
    requires
        0 <= j < assignments.len(),
    ensures
        execute::folded_assignments(assignments, 0, Seq::empty(), results, k, ps) matches Ok(out) ==> {
            &&& out.len() == assignments.len()
            &&& out[j].0 == assignments[j].0
            &&& expr::substituted(assignments[j].1, ps) matches Ok(b) && (!subquery::expr_has_subquery(b) ==> out[j].1 == b)
        },
{
    folded_from(assignments, 0, Seq::empty(), results, k, ps, j);
}

proof fn folded_from(
    assignments: Seq<(Seq<char>, ExprV)>,
    i: int,
    acc: Seq<(Seq<char>, ExprV)>,
    results: Seq<subquery::SubqueryResultV>,
    k: int,
    ps: Map<Seq<char>, ValueV>,
    j: int,
)
    requires
        0 <= i <= assignments.len(),
        acc.len() == i,
        0 <= j < assignments.len(),
    ensures
        execute::folded_assignments(assignments, i, acc, results, k, ps) matches Ok(out) ==> {
            &&& out.len() == assignments.len()
            &&& j < i ==> out[j] == acc[j]
            &&& j >= i ==> out[j].0 == assignments[j].0 && (expr::substituted(assignments[j].1, ps) matches Ok(b) && (
            !subquery::expr_has_subquery(b) ==> out[j].1 == b))
        },
    decreases assignments.len() - i,
{
    if i < assignments.len() {
        if let Ok(b) = expr::substituted(assignments[i].1, ps) {
            if !subquery::expr_has_subquery(b) {
                subquery::folding_keeps_plain_expressions(b, results, k);
            }
            if let Ok(x) = subquery::folded_expr(b, results, k) {
                let next = acc.push((assignments[i].0, x.0));
                folded_from(assignments, i + 1, next, results, x.1, ps, j);
                if j == i {
                    assert(next[i] == (assignments[i].0, x.0));
                } else if j < i {
                    assert(next[j] == acc[j]);
                }
            }
        }
    }
}

// ---------------------------------------------------------------- rows that are inserted

/// Whether a row is one that values were aligned to, with a number in place of each null that
/// stood in a column that increases automatically, or with some of these still open.
pub open spec fn is_numbered(row: Seq<ValueV>, aligned: Seq<ValueV>, s: SchemaV) -> bool {
    &&& row.len() == aligned.len()
    &&& forall|k: int|
        0 <= k < row.len() ==> (#[trigger] row[k] == aligned[k] || k < s.columns.len() && s.columns[k].is_auto_increment
            && aligned[k] is Null && row[k] is Int)
}

/// Whether a row comes of one of the rows of values of an INSERT.
pub open spec fn is_of_values(row: Seq<ValueV>, st: SqlStatementV, s: SchemaV) -> bool {
    st matches SqlStatementV::Insert { columns, rows, .. } && exists|j: int|
        0 <= j < rows.len() && (modify::aligned_row(s, columns, #[trigger] rows[j]) matches Ok(a) && is_numbered(row, a, s))
}

/// Whether the column at a position is to get the next number of a sequence.
spec fn is_open(row: Seq<ValueV>, at: int, s: SchemaV) -> bool {
    0 <= at < row.len() && at < s.columns.len() && s.columns[at].is_auto_increment && row[at] is Null
}

/// Whether an execution of an INSERT with values is at one of their rows.
spec fn is_at_values(x: ExecutionV, st: SqlStatementV) -> bool {
    &&& x.statement == st
    &&& 0 <= x.next
    &&& x.table matches Some(s) ==> s.columns.len() <= usize::MAX
    &&& match x.stage {
        StageV::Starting => true,
        StageV::Table => true,
        StageV::Writing => true,
        StageV::Finished => true,
        StageV::Sequence { row, at } => x.table is Some && is_of_values(row, st, x.table->0) && is_open(row, at, x.table->0),
        StageV::Passing { row, at } => x.table is Some && is_of_values(row, st, x.table->0) && 0 <= at,
        StageV::Checking { row, .. } => x.table is Some && is_of_values(row, st, x.table->0),
        _ => false,
    }
}

/// Whether a step leads from one row of values to another, and puts only such a row.
spec fn stays_at_values(out: run::StepV, st: SqlStatementV) -> bool {
    out matches Ok(r) ==> is_at_values(r.0, st) && (r.1 matches ActionV::Put { table_name, row, .. } ==> table_name
        == run::target(st) && r.0.table is Some && is_of_values(row, st, r.0.table->0))
}

proof fn open_columns(cols: Seq<schema::ColumnV>, row: Seq<ValueV>, i: int)
    requires
        0 <= i,
        cols.len() <= usize::MAX,
    ensures
        modify::sequence_step(cols, row, i) matches modify::SequenceStep::Next(k) ==> k < row.len() && k < cols.len()
            && cols[k as int].is_auto_increment && row[k as int] is Null,
    decreases cols.len() - i,
{
    if i < cols.len() {
        open_columns(cols, row, i + 1);
    }
}

proof fn inserting_stays(x: ExecutionV, s: SchemaV, row: Seq<ValueV>, from: int, st: SqlStatementV)
    requires
        x.statement == st,
        x.table == Some(s),
        s.columns.len() <= usize::MAX,
        0 <= x.next,
        0 <= from,
        is_of_values(row, st, s),
    ensures
        stays_at_values(run::inserting(x, s, row, from), st),
{
    reveal(run::inserting);
    open_columns(s.columns, row, from);
}

proof fn next_values_stay(x: ExecutionV, s: SchemaV, st: SqlStatementV)
    requires
        x.statement == st,
        x.table == Some(s),
        s.columns.len() <= usize::MAX,
        st is Insert,
        0 <= x.next,
    ensures
        stays_at_values(run::next_values(x, s), st),
{
    reveal(run::next_values);
    if let SqlStatementV::Insert { columns, rows, .. } = st {
        if x.next < rows.len() {
            if let Ok(a) = modify::aligned_row(s, columns, rows[x.next]) {
                assert(is_numbered(a, a, s));
                assert(is_of_values(a, st, s));
                inserting_stays(ExecutionV { next: x.next + 1, ..x }, s, a, 0, st);
            }
        }
    }
}

proof fn numbering_stays(row: Seq<ValueV>, at: int, v: i64, s: SchemaV, st: SqlStatementV)
    requires
        is_of_values(row, st, s),
        is_open(row, at, s),
    ensures
        is_of_values(row.update(at, ValueV::Int(v)), st, s),
{
    if let SqlStatementV::Insert { columns, rows, .. } = st {
        let j = choose|j: int|
            0 <= j < rows.len() && (modify::aligned_row(s, columns, #[trigger] rows[j]) matches Ok(a) && is_numbered(
                row,
                a,
                s,
            ));
        let a = modify::aligned_row(s, columns, rows[j])->Ok_0;
        let next = row.update(at, ValueV::Int(v));
        assert forall|k: int| 0 <= k < next.len() implies (#[trigger] next[k] == a[k] || k < s.columns.len()
            && s.columns[k].is_auto_increment && a[k] is Null && next[k] is Int) by {
            assert(row[k] == a[k] || k < s.columns.len() && s.columns[k].is_auto_increment && a[k] is Null && row[k] is Int);
        }
        assert(is_numbered(next, a, s));
    }
}

/// A step of an INSERT with values puts only rows that come of its values: each value in the column
/// that it was aligned to, the defaults in the others, and numbers of the sequence where a column
/// that increases automatically had none.
proof fn insert_steps_stay(
    x: ExecutionV,
    e: EventV,
    st: SqlStatementV,
    db: Snapshot,
    ps: Map<Seq<char>, ValueV>,
    known: Seq<(QuestionV, AnswerV)>,
)
    requires
        st is Insert,
        is_at_values(x, st),
        e matches EventV::Table(s) ==> s.columns.len() <= usize::MAX,
    ensures
        stays_at_values(run::stepped(x, e, db, ps, known), st),
{
    match (x.stage, e) {
        (StageV::Starting, EventV::Started) => {
            reveal(run::advanced);
            if let Some(s) = x.table {
                next_values_stay(x, s, st);
            }
        },
        (StageV::Table, EventV::Table(s)) => {
            reveal(run::advanced);
            next_values_stay(ExecutionV { table: Some(s), ..x }, s, st);
        },
        (StageV::Sequence { row, at }, EventV::Sequence(v)) => {
            reveal(run::numbered);
            let s = x.table->0;
            numbering_stays(row, at, v, s, st);
            inserting_stays(x, s, row.update(at, ValueV::Int(v)), at + 1, st);
        },
        (StageV::Passing { row, at }, EventV::Done) => {
            reveal(run::passed);
            inserting_stays(x, x.table->0, row, at + 1, st);
        },
        (StageV::Writing, EventV::Done) => {
            reveal(run::written);
            if let Some(s) = x.table {
                next_values_stay(ExecutionV { count: run::one_more(x.count), ..x }, s, st);
            }
        },
        _ => {},
    }
}

/// Every row that an INSERT with values puts comes of its values: each value in the column that it
/// is for, the defaults in the others, and the numbers of the sequence in the columns that increase
/// automatically and were given none.
pub proof fn inserted_rows_are_those_of_the_values(
    xs: Seq<ExecutionV>,
    es: Seq<EventV>,
    acts: Seq<ActionV>,
    db: Snapshot,
    ps: Map<Seq<char>, ValueV>,
    known: Seq<(QuestionV, AnswerV)>,
    i: int,
)
    requires
        are_steps(xs, es, acts, db, ps, known),
        xs[0].statement is Insert,
        xs[0].stage is Starting,
        xs[0].table is None,
        xs[0].next == 0,
        forall|j: int|
            0 <= j < es.len() ==> (#[trigger] es[j] matches EventV::Table(s) ==> s.columns.len() <= usize::MAX),
        0 <= i < es.len(),
    ensures
        acts[i] matches ActionV::Put { table_name, row, .. } ==> table_name == run::target(xs[0].statement)
            && xs[i + 1].table is Some && is_of_values(row, xs[0].statement, xs[i + 1].table->0),
{
    stays_at_some_values(xs, es, acts, db, ps, known, i);
    assert(es[i] matches EventV::Table(s) ==> s.columns.len() <= usize::MAX);
    insert_steps_stay(xs[i], es[i], xs[0].statement, db, ps, known);
}

proof fn stays_at_some_values(
    xs: Seq<ExecutionV>,
    es: Seq<EventV>,
    acts: Seq<ActionV>,
    db: Snapshot,
    ps: Map<Seq<char>, ValueV>,
    known: Seq<(QuestionV, AnswerV)>,
    i: int,
)
    requires
        are_steps(xs, es, acts, db, ps, known),
        xs[0].statement is Insert,
        xs[0].stage is Starting,
        xs[0].table is None,
        xs[0].next == 0,
        forall|j: int|
            0 <= j < es.len() ==> (#[trigger] es[j] matches EventV::Table(s) ==> s.columns.len() <= usize::MAX),
        0 <= i <= es.len(),
    ensures
        is_at_values(xs[i], xs[0].statement),
    decreases i,
{
    if i > 0 {
        stays_at_some_values(xs, es, acts, db, ps, known, i - 1);
        assert(run::stepped(xs[i - 1], es[i - 1], db, ps, known) == Ok::<(ExecutionV, ActionV), ErrorV>(
            (xs[i], acts[i - 1]),
        ));
        assert(es[i - 1] matches EventV::Table(s) ==> s.columns.len() <= usize::MAX);
        insert_steps_stay(xs[i - 1], es[i - 1], xs[0].statement, db, ps, known);
    }
}

} // verus!
