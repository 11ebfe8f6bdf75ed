//! Which columns the scans of a compiled plan read: all that an expression above them looks at.

use crate::expr;
use crate::expr::ExprV;
use crate::facts;
use crate::facts::ErrorV;
use crate::logical;
use crate::logical::{AggregateV, PlanV};
use crate::physical;
use crate::physical::PhysicalV;
use crate::value::ValueV;
use vstd::prelude::*;

verus! {

/// Whether the scans below a node read the column with a name, where it comes from them: those of
/// the side of a join that has the column, and none below a projection or an aggregation, which has
/// columns of its own.
pub open spec fn loads(p: PlanV, c: PhysicalV, n: Seq<char>) -> bool
    decreases p,
{
    match (p, c) {
        (PlanV::Scan { .. }, PhysicalV::SeqScan { columns, .. }) => columns matches Some(cs) ==> cs.contains(n),
        (PlanV::IndexScan { .. }, PhysicalV::IndexScan { columns, .. }) => columns matches Some(cs) ==> cs.contains(n),
        (PlanV::FullTextScan { .. }, PhysicalV::FullTextScan { columns, .. }) => columns matches Some(cs) ==> cs.contains(n),
        (PlanV::Filter { source, .. }, PhysicalV::Filter { source: d, .. }) => loads(*source, *d, n),
        (PlanV::Limit { source, .. }, PhysicalV::Limit { source: d, .. }) => loads(*source, *d, n),
        (PlanV::Sort { source, .. }, PhysicalV::Sort { source: d, .. }) => loads(*source, *d, n),
        (PlanV::Distinct { source }, PhysicalV::Distinct { source: d }) => loads(*source, *d, n),
        (PlanV::Projection { .. }, PhysicalV::Projection { .. }) => true,
        (PlanV::Aggregate { .. }, PhysicalV::SortedAggregate { .. }) => true,
        (PlanV::Aggregate { .. }, PhysicalV::HashAggregate { .. }) => true,
        (PlanV::Join { left, right, .. }, PhysicalV::CrossJoin { left: l, right: r, .. }) => {
            &&& physical::has_column(logical::plan_schema(*left), n) ==> loads(*left, *l, n)
            &&& physical::has_column(logical::plan_schema(*right), n) ==> loads(*right, *r, n)
        },
        (PlanV::Join { left, right, .. }, PhysicalV::SortMergeJoin { left: l, right: r, .. }) => {
            &&& physical::has_column(logical::plan_schema(*left), n) ==> loads(*left, *l, n)
            &&& physical::has_column(logical::plan_schema(*right), n) ==> loads(*right, *r, n)
        },
        (PlanV::SetOp { left, right, .. }, PhysicalV::SetOp { left: l, right: r, .. }) => loads(*left, *l, n) && loads(
            *right,
            *r,
            n,
        ),
        _ => false,
    }
}

/// Whether the scans below a node read some columns.
pub open spec fn loads_all(p: PlanV, c: PhysicalV, names: Set<Seq<char>>) -> bool {
    forall|n: Seq<char>| #[trigger] names.contains(n) ==> loads(p, c, n)
}

/// Whether the scans of a plan read the columns that the expressions above them look at.
pub open spec fn is_loaded(p: PlanV, c: PhysicalV, ps: Map<Seq<char>, ValueV>) -> bool
    decreases p,
{
    match (p, c) {
        (PlanV::Filter { source, predicate }, PhysicalV::Filter { source: d, .. }) => is_loaded(*source, *d, ps)
            && loads_all(*source, *d, expr::expr_columns(expr::substituted(predicate, ps)->Ok_0)),
        (PlanV::Limit { source, .. }, PhysicalV::Limit { source: d, .. }) => is_loaded(*source, *d, ps),
        (PlanV::Sort { source, keys }, PhysicalV::Sort { source: d, .. }) => is_loaded(*source, *d, ps) && loads_all(
            *source,
            *d,
            logical::sort_keys_columns(facts::collected(logical::substituted_keys(keys, ps), 0, Seq::empty())->Ok_0),
        ),
        (PlanV::Distinct { source }, PhysicalV::Distinct { source: d }) => is_loaded(*source, *d, ps),
        (PlanV::Projection { source, expressions, .. }, PhysicalV::Projection { source: d, .. }) => is_loaded(
            *source,
            *d,
            ps,
        ) && loads_all(
            *source,
            *d,
            expr::exprs_columns(facts::collected(expr::substituted_each(expressions, ps), 0, Seq::empty())->Ok_0),
        ),
        (PlanV::Aggregate { source, group_by, aggrs, .. }, PhysicalV::SortedAggregate { source: d, .. }) => {
            &&& is_loaded(*source, *d, ps)
            &&& loads_groups(*source, *d, group_by, aggrs, ps)
        },
        (PlanV::Aggregate { source, group_by, aggrs, .. }, PhysicalV::HashAggregate { source: d, .. }) => {
            &&& is_loaded(*source, *d, ps)
            &&& loads_groups(*source, *d, group_by, aggrs, ps)
        },
        (PlanV::Join { left, right, condition, .. }, PhysicalV::CrossJoin { left: l, right: r, .. }) => is_loaded(
            *left,
            *l,
            ps,
        ) && is_loaded(*right, *r, ps),
        (PlanV::Join { left, right, condition, .. }, PhysicalV::SortMergeJoin { left: l, right: r, .. }) => {
            &&& is_loaded(*left, *l, ps)
            &&& is_loaded(*right, *r, ps)
            &&& loads_all(p, c, expr::expr_columns(expr::substituted(condition, ps)->Ok_0))
        },
        (PlanV::SetOp { left, right, .. }, PhysicalV::SetOp { left: l, right: r, .. }) => is_loaded(*left, *l, ps)
            && is_loaded(*right, *r, ps),
        _ => true,
    }
}

/// Whether the scans below an aggregation read what it groups by and what it aggregates.
pub open spec fn loads_groups(
    p: PlanV,
    c: PhysicalV,
    group_by: Seq<ExprV>,
    aggrs: Seq<AggregateV>,
    ps: Map<Seq<char>, ValueV>,
) -> bool {
    &&& loads_all(p, c, expr::exprs_columns(facts::collected(expr::substituted_each(group_by, ps), 0, Seq::empty())->Ok_0))
    &&& loads_all(
        p,
        c,
        logical::aggrs_columns(facts::collected(logical::substituted_aggrs(aggrs, ps), 0, Seq::empty())->Ok_0),
    )
}

/// Whether the scans of a plan read some columns, or all.
pub open spec fn loads_asked(p: PlanV, c: PhysicalV, cols: Option<Set<Seq<char>>>) -> bool {
    match cols {
        Some(names) => loads_all(p, c, names),
        None => forall|n: Seq<char>| loads(p, c, n),
    }
}

/// Whether a compiled plan reads the columns that it is asked for, and those that it uses.
#[verifier::opaque]
spec fn reads_well(p: PlanV, c: PhysicalV, cols: Option<Set<Seq<char>>>, ps: Map<Seq<char>, ValueV>) -> bool {
    loads_asked(p, c, cols) && is_loaded(p, c, ps)
}

proof fn united_loads(p: PlanV, c: PhysicalV, cols: Option<Set<Seq<char>>>, extra: Set<Seq<char>>)
    requires
        loads_asked(p, c, physical::united(cols, extra)),
    ensures
        loads_asked(p, c, cols),
        loads_all(p, c, extra),
{
    if let Some(names) = cols {
        both_are_loaded(p, c, names, extra);
    }
}

proof fn both_are_loaded(p: PlanV, c: PhysicalV, a: Set<Seq<char>>, b: Set<Seq<char>>)
    requires
        loads_all(p, c, a + b),
    ensures
        loads_all(p, c, a),
        loads_all(p, c, b),
{
    let all = a + b;
    assert forall|n: Seq<char>| #[trigger] a.contains(n) implies loads(p, c, n) by {
        assert(all.contains(n));
    }
    assert forall|n: Seq<char>| #[trigger] b.contains(n) implies loads(p, c, n) by {
        assert(all.contains(n));
    }
}

proof fn filter_reads_well(
    source: PlanV,
    predicate: ExprV,
    x: ExprV,
    src: PhysicalV,
    c: PhysicalV,
    cols: Option<Set<Seq<char>>>,
    ps: Map<Seq<char>, ValueV>,
)
    requires
        reads_well(source, src, physical::united(cols, expr::expr_columns(x)), ps),
        expr::substituted(predicate, ps) == Ok::<ExprV, ErrorV>(x),
        physical::filter_of(x, src) == Ok::<PhysicalV, ErrorV>(c),
    ensures
        reads_well((PlanV::Filter { source: Box::new(source), predicate }), c, cols, ps),
{
    reveal(physical::filter_of);
    reveal(reads_well);
    united_loads(source, src, cols, expr::expr_columns(x));
    let p = PlanV::Filter { source: Box::new(source), predicate };
    assert forall|n: Seq<char>| loads(source, src, n) implies #[trigger] loads(p, c, n) by {}
}

proof fn projection_reads_well(
    p: PlanV,
    es: Seq<ExprV>,
    src: PhysicalV,
    c: PhysicalV,
    cols: Option<Set<Seq<char>>>,
    ps: Map<Seq<char>, ValueV>,
)
    requires
        p is Projection,
        reads_well(*p->Projection_source, src, Some(expr::exprs_columns(es)), ps),
        facts::collected(expr::substituted_each(p->Projection_expressions, ps), 0, Seq::empty()) == Ok::<
            Seq<ExprV>,
            ErrorV,
        >(es),
        physical::projection_of(es, p->Projection_field_names, src) == Ok::<PhysicalV, ErrorV>(c),
    ensures
        reads_well(p, c, cols, ps),
{
    reveal(physical::projection_of);
    reveal(reads_well);
}

proof fn sort_reads_well(
    source: PlanV,
    keys: Seq<(ExprV, bool)>,
    ks: Seq<(ExprV, bool)>,
    src: PhysicalV,
    c: PhysicalV,
    cols: Option<Set<Seq<char>>>,
    ps: Map<Seq<char>, ValueV>,
)
    requires
        reads_well(source, src, physical::united(cols, logical::sort_keys_columns(ks)), ps),
        facts::collected(logical::substituted_keys(keys, ps), 0, Seq::empty()) == Ok::<Seq<(ExprV, bool)>, ErrorV>(ks),
        physical::sort_of(ks, src) == Ok::<PhysicalV, ErrorV>(c),
    ensures
        reads_well((PlanV::Sort { source: Box::new(source), keys }), c, cols, ps),
{
    reveal(physical::sort_of);
    reveal(reads_well);
    united_loads(source, src, cols, logical::sort_keys_columns(ks));
    let p = PlanV::Sort { source: Box::new(source), keys };
    assert forall|n: Seq<char>| loads(source, src, n) implies #[trigger] loads(p, c, n) by {}
}

proof fn aggregate_reads_well(
    p: PlanV,
    g: Seq<ExprV>,
    a: Seq<AggregateV>,
    in_order: bool,
    src: PhysicalV,
    c: PhysicalV,
    cols: Option<Set<Seq<char>>>,
    ps: Map<Seq<char>, ValueV>,
)
    requires
        p is Aggregate,
        reads_well(*p->Aggregate_source, src, Some(expr::exprs_columns(g) + logical::aggrs_columns(a)), ps),
        facts::collected(expr::substituted_each(p->group_by, ps), 0, Seq::empty()) == Ok::<Seq<ExprV>, ErrorV>(g),
        facts::collected(logical::substituted_aggrs(p->aggrs, ps), 0, Seq::empty()) == Ok::<Seq<AggregateV>, ErrorV>(a),
        physical::aggregate_of(g, a, p->Aggregate_field_names, in_order, src) == Ok::<PhysicalV, ErrorV>(c),
    ensures
        reads_well(p, c, cols, ps),
{
    reveal(physical::aggregate_of);
    reveal(reads_well);
    both_are_loaded(*p->Aggregate_source, src, expr::exprs_columns(g), logical::aggrs_columns(a));
}

proof fn scans_read_well(p: PlanV, cols: Option<Set<Seq<char>>>, ps: Map<Seq<char>, ValueV>, c: PhysicalV)
    requires
        p is Scan || p is IndexScan || p is FullTextScan,
        physical::compiled(p, cols, ps) == Ok::<PhysicalV, ErrorV>(c),
    ensures
        reads_well(p, c, cols, ps),
{
    reveal(physical::table_scan);
    reveal(physical::index_scan);
    reveal(reads_well);
}

proof fn limit_reads_well(
    source: PlanV,
    src: PhysicalV,
    limit: Option<usize>,
    offset: usize,
    cols: Option<Set<Seq<char>>>,
    ps: Map<Seq<char>, ValueV>,
)
    requires
        reads_well(source, src, cols, ps),
    ensures
        reads_well(
            (PlanV::Limit { source: Box::new(source), limit, offset }),
            (PhysicalV::Limit { source: Box::new(src), limit, offset }),
            cols,
            ps,
        ),
{
    reveal(reads_well);
    let p = PlanV::Limit { source: Box::new(source), limit, offset };
    let c = PhysicalV::Limit { source: Box::new(src), limit, offset };
    assert forall|n: Seq<char>| loads(source, src, n) implies #[trigger] loads(p, c, n) by {}
}

proof fn distinct_reads_well(source: PlanV, src: PhysicalV, cols: Option<Set<Seq<char>>>, ps: Map<Seq<char>, ValueV>)
    requires
        reads_well(source, src, cols, ps),
    ensures
        reads_well(
            (PlanV::Distinct { source: Box::new(source) }),
            (PhysicalV::Distinct { source: Box::new(src) }),
            cols,
            ps,
        ),
{
    reveal(reads_well);
    let p = PlanV::Distinct { source: Box::new(source) };
    let c = PhysicalV::Distinct { source: Box::new(src) };
    assert forall|n: Seq<char>| loads(source, src, n) implies #[trigger] loads(p, c, n) by {}
}

proof fn set_op_reads_well(
    p: PlanV,
    l: PhysicalV,
    r: PhysicalV,
    c: PhysicalV,
    cols: Option<Set<Seq<char>>>,
    ps: Map<Seq<char>, ValueV>,
)
    requires
        p is SetOp,
        c matches PhysicalV::SetOp { left, right, .. } && *left == l && *right == r,
        reads_well(*p->SetOp_left, l, cols, ps),
        reads_well(*p->SetOp_right, r, cols, ps),
    ensures
        reads_well(p, c, cols, ps),
{
    reveal(reads_well);
    assert forall|n: Seq<char>| loads(*p->SetOp_left, l, n) && loads(*p->SetOp_right, r, n) implies #[trigger] loads(
        p,
        c,
        n,
    ) by {}
}

proof fn sides_read_what_is_asked(
    left: PlanV,
    right: PlanV,
    x: ExprV,
    cols: Option<Set<Seq<char>>>,
    l: PhysicalV,
    r: PhysicalV,
    n: Seq<char>,
)
    requires
        loads_asked(left, l, physical::side_columns(cols, x, logical::plan_schema(left))),
        loads_asked(right, r, physical::side_columns(cols, x, logical::plan_schema(right))),
        cols matches Some(names) ==> names.contains(n) || expr::expr_columns(x).contains(n),
    ensures
        physical::has_column(logical::plan_schema(left), n) ==> loads(left, l, n),
        physical::has_column(logical::plan_schema(right), n) ==> loads(right, r, n),
{
    if cols is Some {
        let a = physical::side_columns(cols, x, logical::plan_schema(left))->0;
        let b = physical::side_columns(cols, x, logical::plan_schema(right))->0;
        if physical::has_column(logical::plan_schema(left), n) {
            assert(a.contains(n));
        }
        if physical::has_column(logical::plan_schema(right), n) {
            assert(b.contains(n));
        }
    }
}

proof fn join_reads_well(
    p: PlanV,
    x: ExprV,
    cols: Option<Set<Seq<char>>>,
    ps: Map<Seq<char>, ValueV>,
    l: PhysicalV,
    r: PhysicalV,
    c: PhysicalV,
)
    requires
        p is Join,
        expr::substituted(p->Join_condition, ps) == Ok::<ExprV, ErrorV>(x),
        physical::join_of(x, p->Join_join_type, l, r) == Ok::<PhysicalV, ErrorV>(c),
        reads_well(*p->Join_left, l, physical::side_columns(cols, x, logical::plan_schema(*p->Join_left)), ps),
        reads_well(*p->Join_right, r, physical::side_columns(cols, x, logical::plan_schema(*p->Join_right)), ps),
    ensures
        reads_well(p, c, cols, ps),
{
    reveal(physical::join_of);
    reveal(reads_well);
    if let PlanV::Join { left, right, condition, .. } = p {
        assert forall|n: Seq<char>|
            (cols matches Some(names) ==> names.contains(n) || expr::expr_columns(x).contains(n)) implies #[trigger] loads(
            p,
            c,
            n,
        ) by {
            sides_read_what_is_asked(*left, *right, x, cols, l, r, n);
        }
        assert(loads_all(p, c, expr::expr_columns(x)));
    }
}

#[verifier::rlimit(60)]
#[verifier::spinoff_prover]
proof fn compiled_reads_well(p: PlanV, cols: Option<Set<Seq<char>>>, ps: Map<Seq<char>, ValueV>, c: PhysicalV)
    requires
        physical::compiled(p, cols, ps) == Ok::<PhysicalV, ErrorV>(c),
    ensures
        reads_well(p, c, cols, ps),
    decreases p,
{
    match p {
        PlanV::Filter { source, predicate } => {
            let x = expr::substituted(predicate, ps)->Ok_0;
            let cs = physical::united(cols, expr::expr_columns(x));
            let src = physical::compiled(*source, cs, ps)->Ok_0;
            compiled_reads_well(*source, cs, ps, src);
            filter_reads_well(*source, predicate, x, src, c, cols, ps);
        },
        PlanV::Projection { source, expressions, .. } => {
            let es = facts::collected(expr::substituted_each(expressions, ps), 0, Seq::empty())->Ok_0;
            let cs = Some(expr::exprs_columns(es));
            let src = physical::compiled(*source, cs, ps)->Ok_0;
            compiled_reads_well(*source, cs, ps, src);
            projection_reads_well(p, es, src, c, cols, ps);
        },
        PlanV::Limit { source, limit, offset } => {
            let src = physical::compiled(*source, cols, ps)->Ok_0;
            compiled_reads_well(*source, cols, ps, src);
            limit_reads_well(*source, src, limit, offset, cols, ps);
        },
        PlanV::Distinct { source } => {
            let src = physical::compiled(*source, cols, ps)->Ok_0;
            compiled_reads_well(*source, cols, ps, src);
            distinct_reads_well(*source, src, cols, ps);
        },
        PlanV::Sort { source, keys } => {
            let ks = facts::collected(logical::substituted_keys(keys, ps), 0, Seq::empty())->Ok_0;
            let cs = physical::united(cols, logical::sort_keys_columns(ks));
            let src = physical::compiled(*source, cs, ps)->Ok_0;
            compiled_reads_well(*source, cs, ps, src);
            sort_reads_well(*source, keys, ks, src, c, cols, ps);
        },
        PlanV::Join { left, right, condition, join_type, .. } => {
            let x = expr::substituted(condition, ps)->Ok_0;
            let a = physical::side_columns(cols, x, logical::plan_schema(*left));
            let b = physical::side_columns(cols, x, logical::plan_schema(*right));
            let l = physical::compiled(*left, a, ps)->Ok_0;
            let r = physical::compiled(*right, b, ps)->Ok_0;
            compiled_reads_well(*left, a, ps, l);
            compiled_reads_well(*right, b, ps, r);
            join_reads_well(p, x, cols, ps, l, r, c);
        },
        PlanV::Aggregate { source, group_by, aggrs, .. } => {
            let g = facts::collected(expr::substituted_each(group_by, ps), 0, Seq::empty())->Ok_0;
            let a = facts::collected(logical::substituted_aggrs(aggrs, ps), 0, Seq::empty())->Ok_0;
            let cs = Some(expr::exprs_columns(g) + logical::aggrs_columns(a));
            let src = physical::compiled(*source, cs, ps)->Ok_0;
            compiled_reads_well(*source, cs, ps, src);
            aggregate_reads_well(p, g, a, physical::sorted_by(*source, g), src, c, cols, ps);
        },
        PlanV::SetOp { left, right, .. } => {
            let l = physical::compiled(*left, cols, ps)->Ok_0;
            let r = physical::compiled(*right, cols, ps)->Ok_0;
            compiled_reads_well(*left, cols, ps, l);
            compiled_reads_well(*right, cols, ps, r);
            set_op_reads_well(p, l, r, c, cols, ps);
        },
        _ => scans_read_well(p, cols, ps, c),
    }
}

/// A compiled plan reads, of its tables, the columns that it is asked for and those that its
/// filters, its sort keys, its join conditions, its groups and its items look at.
#[verifier::rlimit(40)]
pub proof fn compiled_plans_read_the_columns_they_use(
    p: PlanV,
    cols: Option<Set<Seq<char>>>,
    ps: Map<Seq<char>, ValueV>,
    c: PhysicalV,
)
    requires
        physical::compiled(p, cols, ps) == Ok::<PhysicalV, ErrorV>(c),
    ensures
        loads_asked(p, c, cols),
        is_loaded(p, c, ps),
{
    assert(reads_well(p, c, cols, ps)) by {
        compiled_reads_well(p, cols, ps, c);
    }
    reveal(reads_well);
}

} // verus!
