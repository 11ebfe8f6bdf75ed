//! What the optimizer chooses among ways that give the same rows: the cheapest way to read a table,
//! and the larger side of a join on the left.

use crate::bounds;
use crate::cost;
use crate::cost::{IndexStatistics, TableStatistics};
use crate::expr::ExprV;
use crate::facts::{AnswerV, ErrorV, QuestionV};
use crate::logical::{JoinType, PlanKeyV, PlanV, SetOpType};
use crate::optimizer;
use crate::optimizer::{Optimizer, PathV};
use crate::schema::SchemaV;
use vstd::prelude::*;

verus! {

proof fn cheaper_composes(a: u64, b: u64, c: u64)
    ensures
        cost::cheaper(a, b) && cost::cheaper(b, c) ==> cost::cheaper(a, c),
        !cost::cheaper(a, a),
        cost::cheaper(a, b) ==> !cost::cheaper(b, a),
{
}

/// No way through an index is cheaper than the one that is chosen, nor is the one that was best
/// before.
pub proof fn no_index_is_cheaper(
    table: Seq<char>,
    s: SchemaV,
    e: ExprV,
    t: Option<TableStatistics>,
    cols: Set<Seq<char>>,
    i: int,
    best: PathV,
    known: Seq<(QuestionV, AnswerV)>,
)
    requires
        0 <= i,
    ensures
        optimizer::best_index_from(table, s, e, t, cols, i, best, known) matches Ok(p) ==> {
            &&& p.cost == best.cost || cost::cheaper(p.cost, best.cost)
            &&& forall|k: int|
                i <= k < s.indexes.len() ==> (optimizer::index_path(
                    table,
                    s,
                    #[trigger] s.indexes[k],
                    e,
                    t,
                    cols,
                    known,
                ) matches Ok(Some(q)) ==> !cost::cheaper(q.cost, p.cost))
        },
    decreases s.indexes.len() - i,
{
    cheaper_composes(best.cost, best.cost, best.cost);
    if i < s.indexes.len() {
        let path = optimizer::index_path(table, s, s.indexes[i], e, t, cols, known);
        if let Ok(b) = optimizer::better(best, path) {
            no_index_is_cheaper(table, s, e, t, cols, i + 1, b, known);
            if let Ok(p) = optimizer::best_index_from(table, s, e, t, cols, i, best, known) {
                cheaper_composes(p.cost, b.cost, best.cost);
                if let Ok(Some(q)) = path {
                    not_beaten(q.cost, best.cost, b.cost, p.cost);
                }
            }
        }
    }
}

/// What is not cheaper than the better of two is not cheaper than what is no dearer than that.
proof fn not_beaten(q: u64, best: u64, b: u64, p: u64)
    requires
        b == if cost::cheaper(q, best) {
            q
        } else {
            best
        },
        p == b || cost::cheaper(p, b),
    ensures
        !cost::cheaper(q, p),
        !cost::cheaper(best, p),
{
    cheaper_composes(q, p, b);
    cheaper_composes(p, q, p);
    cheaper_composes(q, p, best);
    cheaper_composes(best, p, b);
    cheaper_composes(b, best, p);
    cheaper_composes(p, b, best);
    cheaper_composes(best, p, best);
}

/// The plan that reads a table under a predicate is one whose cost none of the others beats: a scan
/// of the whole table, one of a range of its keys, or one of an index.
pub proof fn the_cheapest_way_is_taken(
    table: Seq<char>,
    s: SchemaV,
    e: ExprV,
    t: Option<TableStatistics>,
    cols: Set<Seq<char>>,
    known: Seq<(QuestionV, AnswerV)>,
)
    ensures
        optimizer::best_path(table, s, e, t, cols, known) matches Ok(plan) ==> exists|p: PathV|
            {
                &&& #[trigger] is_cheapest(p, table, s, e, t, cols, known)
                &&& p.plan == plan
            },
{
    if let Ok(full) = cost::scan_cost(s, t, None, cols, known) {
        let scan = PathV { plan: PlanV::Scan { table_name: table, schema: s, range: None }, cost: full };
        let path = optimizer::key_path(table, s, e, t, cols, known);
        if let Ok(b) = optimizer::better(scan, path) {
            no_index_is_cheaper(table, s, e, t, cols, 0, b, known);
            if let Ok(p) = optimizer::best_index_from(table, s, e, t, cols, 0, b, known) {
                cheaper_composes(scan.cost, scan.cost, scan.cost);
                cheaper_composes(scan.cost, p.cost, scan.cost);
                if let Ok(Some(q)) = path {
                    not_beaten(q.cost, scan.cost, b.cost, p.cost);
                }
                assert(is_cheapest(p, table, s, e, t, cols, known));
            }
        }
    }
}

/// Whether no way to read a table under a predicate is cheaper than one.
pub open spec fn is_cheapest(
    p: PathV,
    table: Seq<char>,
    s: SchemaV,
    e: ExprV,
    t: Option<TableStatistics>,
    cols: Set<Seq<char>>,
    known: Seq<(QuestionV, AnswerV)>,
) -> bool {
    &&& cost::scan_cost(s, t, None, cols, known) matches Ok(full) && !cost::cheaper(full, p.cost)
    &&& optimizer::key_path(table, s, e, t, cols, known) matches Ok(Some(q)) ==> !cost::cheaper(q.cost, p.cost)
    &&& forall|k: int|
        0 <= k < s.indexes.len() ==> (optimizer::index_path(table, s, #[trigger] s.indexes[k], e, t, cols, known) matches Ok(
            Some(q),
        ) ==> !cost::cheaper(q.cost, p.cost))
}

/// Of an inner join the side with more rows, as they are estimated, comes to stand on the left; the
/// sides of any other join stay where they are.
pub proof fn the_larger_side_is_on_the_left(
    l: PlanV,
    r: PlanV,
    condition: ExprV,
    join_type: JoinType,
    o: Optimizer,
    known: Seq<(QuestionV, AnswerV)>,
)
    ensures
        optimizer::ordered_join(l, r, condition, join_type, o, known) matches Ok(q) ==> match q {
            PlanV::Join { left, right, .. } => {
                &&& *left == l && *right == r
                &&& join_type is Inner ==> match (
                    optimizer::plan_rows(*left, o, known),
                    optimizer::plan_rows(*right, o, known),
                ) {
                    (Ok(a), Ok(b)) => a >= b,
                    _ => false,
                }
            },
            PlanV::Projection { source, .. } => match *source {
                PlanV::Join { left, right, .. } => {
                    &&& join_type is Inner
                    &&& *left == r && *right == l
                    &&& match (optimizer::plan_rows(*left, o, known), optimizer::plan_rows(*right, o, known)) {
                        (Ok(a), Ok(b)) => a >= b,
                        _ => false,
                    }
                },
                _ => false,
            },
            _ => false,
        },
{
}

// ---------------------------------------------------------------- estimates

/// The estimates of joins and set operations: an inner join and an INTERSECT have no more rows than
/// either side, a LEFT JOIN and an EXCEPT as many as the left side, a cross join as many as there
/// are pairs, and a UNION as many as both sides together, as far as that can be counted; sorting,
/// limiting and projecting change nothing, and all rows in one group give one.
pub proof fn estimates_stand_to_those_of_the_sides(p: PlanV, o: Optimizer, known: Seq<(QuestionV, AnswerV)>)
    ensures
        optimizer::plan_rows(p, o, known) matches Ok(n) ==> match p {
            PlanV::Join { left, right, join_type, .. } => match (
                optimizer::plan_rows(*left, o, known),
                optimizer::plan_rows(*right, o, known),
            ) {
                (Ok(l), Ok(r)) => match join_type {
                    JoinType::Inner => n <= l && n <= r && (n == l || n == r),
                    JoinType::Left => n == l,
                    JoinType::Cross => n == l * r || n == u64::MAX && l * r > u64::MAX,
                },
                _ => false,
            },
            PlanV::SetOp { left, right, op, .. } => match (
                optimizer::plan_rows(*left, o, known),
                optimizer::plan_rows(*right, o, known),
            ) {
                (Ok(l), Ok(r)) => match op {
                    SetOpType::Union => n == l + r || n == u64::MAX && l + r > u64::MAX,
                    SetOpType::Intersect => n <= l && n <= r && (n == l || n == r),
                    SetOpType::Except => n == l,
                },
                _ => false,
            },
            PlanV::Sort { source, .. } => optimizer::plan_rows(*source, o, known) == Ok::<u64, ErrorV>(n),
            PlanV::Limit { source, .. } => optimizer::plan_rows(*source, o, known) == Ok::<u64, ErrorV>(n),
            PlanV::Projection { source, .. } => optimizer::plan_rows(*source, o, known) == Ok::<u64, ErrorV>(n),
            PlanV::Aggregate { group_by, .. } => group_by.len() == 0 ==> n == 1,
            _ => true,
        },
{
}

/// The share of a table that a range is taken to hold: a range with one end open holds no more than
/// one with both, and a range with both ends no more than that; two equal ends are a point.
pub proof fn narrower_ranges_hold_less(
    start: PlanKeyV,
    end: PlanKeyV,
    point: Result<u64, ErrorV>,
)
    ensures
        bounds::same_plan_key(start, end) ==> cost::selectivity(start, end, point) == point,
        !bounds::same_plan_key(start, end) ==> (cost::selectivity(start, end, point) matches Ok(share) && {
            let from = !bounds::plan_key_unbounded_min(start);
            let to = !bounds::plan_key_unbounded_max(end);
            &&& !from && !to ==> share == cost::ONE
            &&& from != to ==> cost::cheaper(share, cost::ONE) && cost::cheaper(cost::TWENTIETH, share)
            &&& from && to ==> share == cost::TWENTIETH
        }),
{
}

/// Of the tokens of a pattern, the rarest one bounds the rows that have them all: no token is in
/// fewer rows, and one is in as many.
pub proof fn the_rarest_token_bounds(tokens: Seq<Seq<char>>, index: IndexStatistics, k: int)
    requires
        0 <= k < tokens.len(),
    ensures
        cost::rarest_from(tokens, index, 0, u64::MAX) <= index.posting_bound(tokens[k]),
        exists|j: int|
            0 <= j < tokens.len() && cost::rarest_from(tokens, index, 0, u64::MAX) == index.posting_bound(
                #[trigger] tokens[j],
            ),
{
    rarest_of_the_rest(tokens, index, 0, u64::MAX, k);
    if cost::rarest_from(tokens, index, 0, u64::MAX) == u64::MAX {
        assert(index.posting_bound(tokens[k]) == u64::MAX);
    }
}

proof fn rarest_of_the_rest(tokens: Seq<Seq<char>>, index: IndexStatistics, i: int, least: u64, k: int)
    requires
        0 <= i,
    ensures
        cost::rarest_from(tokens, index, i, least) <= least,
        i <= k < tokens.len() ==> cost::rarest_from(tokens, index, i, least) <= index.posting_bound(tokens[k]),
        cost::rarest_from(tokens, index, i, least) == least || exists|j: int|
            i <= j < tokens.len() && cost::rarest_from(tokens, index, i, least) == index.posting_bound(#[trigger] tokens[j]),
    decreases tokens.len() - i,
{
    if i < tokens.len() {
        let n = index.posting_bound(tokens[i]);
        let next = if n < least {
            n
        } else {
            least
        };
        rarest_of_the_rest(tokens, index, i + 1, next, k);
    }
}

} // verus!
