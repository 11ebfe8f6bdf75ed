//! Rule-based and cost-based rewriting of logical plans.

use crate::bounds;
use crate::cost;
use crate::cost::TableStatistics;
use crate::eval;
use crate::expr;
use crate::expr::{ColumnSet, Expr, ExprV, Operator};
use crate::facts;
use crate::facts::{AnswerV, ErrorV, Facts, Question, QuestionV, SqlError};
use crate::logical;
use crate::logical::{AggregateExpr, FtsQuery, FtsQueryV, JoinType, LogicalPlan, PlanKey, PlanKeyV, PlanV, SetOpType};
use crate::schema;
use crate::schema::{ColumnV, IndexDefinition, IndexType, IndexV, Schema, SchemaV};
use crate::text;
use crate::value::{DbValue, ValueV};
use vstd::prelude::*;
use vstd::string::*;

verus! {

/// The optimizer, with the statistics it goes by.
#[derive(Debug)]
pub struct Optimizer {
    pub statistics: Vec<(String, TableStatistics)>,
}

// ---------------------------------------------------------------- conjunctions

/// The conjuncts of a predicate, from left to right.
pub open spec fn conjuncts(e: ExprV) -> Seq<ExprV>
    decreases e,
{
    match e {
        ExprV::BinaryOp { left, op: Operator::And, right } => conjuncts(*left) + conjuncts(*right),
        _ => seq![e],
    }
}

/// The conjunction of some predicates, grouped from the left.
pub open spec fn conjunction_of(es: Seq<ExprV>) -> ExprV
    decreases es.len(),
{
    if es.len() <= 1 {
        es[0]
    } else {
        ExprV::BinaryOp {
            left: Box::new(conjunction_of(es.drop_last())),
            op: Operator::And,
            right: Box::new(es.last()),
        }
    }
}

/// A plan under a filter for some predicates; the plan itself where there are none.
pub open spec fn filtered(es: Seq<ExprV>, p: PlanV) -> PlanV {
    if es.len() == 0 {
        p
    } else {
        PlanV::Filter { source: Box::new(p), predicate: conjunction_of(es) }
    }
}

/// Appends the conjuncts of a predicate.
pub fn split_conjuncts_rec(e: &Expr, out: &mut Vec<Expr>)
    ensures
        expr::exprs_view(final(out)@) == expr::exprs_view(old(out)@) + conjuncts(e@),
    decreases e,
{
    match e {
        Expr::BinaryOp { left, op: Operator::And, right } => {
            split_conjuncts_rec(left, out);
            split_conjuncts_rec(right, out);
            assert(expr::exprs_view(final(out)@) =~= expr::exprs_view(old(out)@) + conjuncts(e@));
        },
        other => {
            out.push(other.copy());
            assert(expr::exprs_view(final(out)@) =~= expr::exprs_view(old(out)@) + conjuncts(e@));
        },
    }
}

/// The conjunction of some predicates; none where there are none.
pub fn combine_conjuncts(es: &Vec<Expr>) -> (out: Option<Expr>)
    ensures
        match out {
            Some(e) => es@.len() > 0 && e@ == conjunction_of(expr::exprs_view(es@)),
            None => es@.len() == 0,
        },
{
    if es.len() == 0 {
        return None;
    }
    let ghost v = expr::exprs_view(es@);
    let mut acc = es[0].copy();
    assert(v.take(1)[0] == v[0]);
    for i in 1..es.len()
        invariant
            v == expr::exprs_view(es@),
            1 <= i <= es@.len(),
            acc@ == conjunction_of(v.take(i as int)),
    {
        assert(v.take(i + 1).drop_last() =~= v.take(i as int));
        acc = Expr::BinaryOp { left: Box::new(acc), op: Operator::And, right: Box::new(es[i].copy()) };
    }
    assert(v.take(es@.len() as int) =~= v);
    Some(acc)
}

/// A plan under a filter for some predicates.
fn filter_plan(es: &Vec<Expr>, p: LogicalPlan) -> (out: LogicalPlan)
    ensures
        out@ == filtered(expr::exprs_view(es@), p@),
{
    assert(expr::exprs_view(es@).len() == es@.len());
    match combine_conjuncts(es) {
        Some(predicate) => LogicalPlan::Filter { source: Box::new(p), predicate },
        None => p,
    }
}

/// Where a predicate above a join goes.
#[derive(Clone, Copy, Debug, PartialEq, Eq, Structural)]
pub enum Side {
    Left,
    Right,
    Above,
}

/// Whether some column of a schema has a name that denotes the same column.
pub open spec fn has_column(s: SchemaV, name: Seq<char>) -> bool {
    exists|i: int| 0 <= i < s.columns.len() && text::names_match(#[trigger] s.columns[i].name, name)
}

/// Whether every name is one of a column of a schema.
pub open spec fn covers(s: SchemaV, names: Set<Seq<char>>) -> bool {
    forall|n: Seq<char>| #[trigger] names.contains(n) ==> has_column(s, n)
}

/// Where a predicate above a join goes: to a side that has all its columns, the left side
/// first, and never to the right side of an outer join.
pub open spec fn side_of(e: ExprV, left: SchemaV, right: SchemaV, join_type: JoinType) -> Side {
    let cols = expr::expr_columns(e);
    if cols == Set::<Seq<char>>::empty() {
        Side::Above
    } else if covers(left, cols) {
        Side::Left
    } else if covers(right, cols) && join_type != JoinType::Left {
        Side::Right
    } else {
        Side::Above
    }
}

/// The predicates from position `i` on that go to a side, after those in `acc`.
pub open spec fn going_to(
    es: Seq<ExprV>,
    left: SchemaV,
    right: SchemaV,
    join_type: JoinType,
    side: Side,
    i: int,
    acc: Seq<ExprV>,
) -> Seq<ExprV>
    decreases es.len() - i,
{
    if i >= es.len() {
        acc
    } else if side_of(es[i], left, right, join_type) == side {
        going_to(es, left, right, join_type, side, i + 1, acc.push(es[i]))
    } else {
        going_to(es, left, right, join_type, side, i + 1, acc)
    }
}

/// Whether some column of a schema has a name that denotes the same column.
fn schema_contains_col(s: &Schema, name: &str) -> (out: bool)
    ensures
        out == has_column(s@, name@),
{
    for i in 0..s.columns.len()
        invariant
            forall|j: int| 0 <= j < i ==> !text::names_match(#[trigger] s@.columns[j].name, name@),
    {
        if s.columns[i].matches_name(name) {
            assert(text::names_match(s@.columns[i as int].name, name@));
            return true;
        }
    }
    false
}

/// Whether every name of a set is one of a column of a schema.
fn cols_subset_of_schema(cols: &ColumnSet, s: &Schema) -> (out: bool)
    ensures
        out == covers(s@, cols@),
{
    let ghost v = text::views(cols.names@);
    for i in 0..cols.names.len()
        invariant
            v == text::views(cols.names@),
            forall|j: int| 0 <= j < i ==> has_column(s@, #[trigger] v[j]),
    {
        if !schema_contains_col(s, cols.names[i].as_str()) {
            assert(v[i as int] == cols.names@[i as int]@);
            assert(cols@.contains(v[i as int]));
            return false;
        }
    }
    assert forall|n: Seq<char>| #[trigger] cols@.contains(n) implies has_column(s@, n) by {
        let j = choose|j: int| 0 <= j < v.len() && v[j] == n;
        assert(v[j] == n);
    }
    true
}

/// Where a predicate above a join goes.
fn side_of_join(e: &Expr, left: &Schema, right: &Schema, join_type: JoinType) -> (out: Side)
    ensures
        out == side_of(e@, left@, right@, join_type),
{
    let mut cols = ColumnSet::new();
    e.collect_columns(&mut cols);
    assert(cols@ =~= expr::expr_columns(e@));
    let ghost v = text::views(cols.names@);
    if cols.names.len() == 0 {
        assert(cols@ =~= Set::<Seq<char>>::empty());
        return Side::Above;
    }
    assert(cols@.contains(v[0]));
    if cols_subset_of_schema(&cols, left) {
        Side::Left
    } else if cols_subset_of_schema(&cols, right) && join_type != JoinType::Left {
        Side::Right
    } else {
        Side::Above
    }
}

/// The predicates that go to a side of a join.
fn conjuncts_for(es: &Vec<Expr>, left: &Schema, right: &Schema, join_type: JoinType, side: Side) -> (out: Vec<Expr>)
    ensures
        expr::exprs_view(out@) == going_to(
            expr::exprs_view(es@),
            left@,
            right@,
            join_type,
            side,
            0,
            Seq::empty(),
        ),
{
    let ghost v = expr::exprs_view(es@);
    let mut out: Vec<Expr> = Vec::new();
    assert(expr::exprs_view(out@) =~= Seq::empty());
    for i in 0..es.len()
        invariant
            v == expr::exprs_view(es@),
            going_to(v, left@, right@, join_type, side, 0, Seq::empty()) == going_to(
                v,
                left@,
                right@,
                join_type,
                side,
                i as int,
                expr::exprs_view(out@),
            ),
    {
        if side_of_join(&es[i], left, right, join_type) == side {
            let ghost before = expr::exprs_view(out@);
            out.push(es[i].copy());
            assert(expr::exprs_view(out@) =~= before.push(v[i as int]));
        }
    }
    out
}

// ---------------------------------------------------------------- scan paths

/// Whether a predicate has a full-text match on a column.
pub open spec fn has_match(e: ExprV, col: Seq<char>) -> bool
    decreases e,
{
    match e {
        ExprV::Match { column, .. } => text::names_match(column, col),
        ExprV::BinaryOp { left, op: Operator::And, right } => has_match(*left, col) || has_match(*right, col),
        ExprV::Not(inner) => has_match(*inner, col),
        _ => false,
    }
}

/// The query of the first full-text match on a column.
pub open spec fn match_query(e: ExprV, col: Seq<char>) -> Option<Seq<char>>
    decreases e,
{
    match e {
        ExprV::Match { column, query_str, .. } => if text::names_match(column, col) {
            Some(query_str)
        } else {
            None
        },
        ExprV::BinaryOp { left, op: Operator::And, right } => match match_query(*left, col) {
            Some(q) => Some(q),
            None => match_query(*right, col),
        },
        ExprV::Not(inner) => match_query(*inner, col),
        _ => None,
    }
}

/// The pattern of a LIKE with these sides, where it is one on a column.
pub open spec fn like_operands(left: ExprV, right: ExprV, col: Seq<char>) -> Option<Seq<char>> {
    match (left, right) {
        (ExprV::Column(name, _), ExprV::Literal(ValueV::String(p))) => if text::names_match(name, col) {
            Some(p)
        } else {
            None
        },
        _ => None,
    }
}

/// The pattern of the first LIKE on a column. A negated LIKE has none: it cannot be
/// answered from tokens.
pub open spec fn like_pattern(e: ExprV, col: Seq<char>) -> Option<Seq<char>>
    decreases e,
{
    match e {
        ExprV::BinaryOp { left, op: Operator::Like, right } => like_operands(*left, *right, col),
        ExprV::BinaryOp { left, op: Operator::And, right } => match like_pattern(*left, col) {
            Some(q) => Some(q),
            None => like_pattern(*right, col),
        },
        _ => None,
    }
}

/// Whether a predicate has a full-text match on a column.
fn has_match_predicate_for_col(e: &Expr, col: &str) -> (out: bool)
    ensures
        out == has_match(e@, col@),
    decreases e,
{
    match e {
        Expr::Match { column, .. } => text::column_names_match(column.as_str(), col),
        Expr::BinaryOp { left, op: Operator::And, right } => has_match_predicate_for_col(left, col)
            || has_match_predicate_for_col(right, col),
        Expr::Not(inner) => has_match_predicate_for_col(inner, col),
        _ => false,
    }
}

/// The query of the first full-text match on a column.
fn extract_fulltext_query_str_for_col(e: &Expr, col: &str) -> (out: Option<String>)
    ensures
        schema::opt_text(out) == match_query(e@, col@),
    decreases e,
{
    match e {
        Expr::Match { column, query_str, .. } => if text::column_names_match(column.as_str(), col) {
            Some(query_str.clone())
        } else {
            None
        },
        Expr::BinaryOp { left, op: Operator::And, right } => match extract_fulltext_query_str_for_col(
            left,
            col,
        ) {
            Some(q) => Some(q),
            None => extract_fulltext_query_str_for_col(right, col),
        },
        Expr::Not(inner) => extract_fulltext_query_str_for_col(inner, col),
        _ => None,
    }
}

/// The pattern of a LIKE with these sides, where it is one on a column.
fn pattern_on_column(left: &Expr, right: &Expr, col: &str) -> (out: Option<String>)
    ensures
        schema::opt_text(out) == like_operands(left@, right@, col@),
{
    match (left, right) {
        (Expr::Column(name, _), Expr::Literal(DbValue::String(p))) => if text::column_names_match(
            name.as_str(),
            col,
        ) {
            Some(p.clone())
        } else {
            None
        },
        _ => None,
    }
}

/// The pattern of the first LIKE on a column.
fn extract_like_pattern_for_col(e: &Expr, col: &str) -> (out: Option<String>)
    ensures
        schema::opt_text(out) == like_pattern(e@, col@),
    decreases e,
{
    match e {
        Expr::BinaryOp { left, op: Operator::Like, right } => pattern_on_column(left, right, col),
        Expr::BinaryOp { left, op: Operator::And, right } => match extract_like_pattern_for_col(left, col) {
            Some(q) => Some(q),
            None => extract_like_pattern_for_col(right, col),
        },
        _ => None,
    }
}

/// A way to read a table, with its cost.
pub struct PathV {
    pub plan: PlanV,
    pub cost: u64,
}

/// The cheaper of two ways; the first where neither is.
pub open spec fn better(best: PathV, other: Result<Option<PathV>, ErrorV>) -> Result<PathV, ErrorV> {
    match other {
        Err(x) => Err(x),
        Ok(None) => Ok(best),
        Ok(Some(p)) => if cost::cheaper(p.cost, best.cost) {
            Ok(p)
        } else {
            Ok(best)
        },
    }
}

/// A way with a cost that may be open.
pub open spec fn path_of(plan: PlanV, cost: Result<u64, ErrorV>) -> Result<Option<PathV>, ErrorV> {
    match cost {
        Err(x) => Err(x),
        Ok(c) => Ok(Some(PathV { plan, cost: c })),
    }
}

/// The tokenizer of an index.
pub open spec fn index_tokenizer(index: IndexV) -> Seq<char> {
    match index.tokenizer {
        Some(t) => t,
        None => "simple"@,
    }
}

/// The way that intersects the tokens of a LIKE pattern. It is taken only with statistics
/// for the index, and where the tokenizer finds tokens in the pattern.
pub open spec fn token_path(
    table: Seq<char>,
    s: SchemaV,
    index: IndexV,
    col: Seq<char>,
    e: ExprV,
    t: Option<TableStatistics>,
    cols: Set<Seq<char>>,
    known: Seq<(QuestionV, AnswerV)>,
) -> Result<Option<PathV>, ErrorV> {
    match (t, cost::index_statistics(t, index.name), like_pattern(e, col)) {
        (Some(st), Some(ist), Some(pattern)) => match facts::tokens_fact(
            known,
            QuestionV::LikeTokens { tokenizer: index_tokenizer(index), pattern },
        ) {
            Err(x) => Err(x),
            Ok(None) => Ok(None),
            Ok(Some(tokens)) => if tokens.len() == 0 {
                Ok(None)
            } else {
                path_of(
                    PlanV::FullTextScan {
                        table_name: table,
                        index_name: index.name,
                        schema: s,
                        query: FtsQueryV::AllTokens(tokens),
                    },
                    cost::token_cost(tokens, s, st, ist, cols, known),
                )
            },
        },
        _ => Ok(None),
    }
}

/// The way through an index, where a predicate allows one.
pub open spec fn index_path(
    table: Seq<char>,
    s: SchemaV,
    index: IndexV,
    e: ExprV,
    t: Option<TableStatistics>,
    cols: Set<Seq<char>>,
    known: Seq<(QuestionV, AnswerV)>,
) -> Result<Option<PathV>, ErrorV> {
    if index.columns.len() == 0 {
        Ok(None)
    } else {
        match schema::column_position(s.columns, index.columns[0]) {
            None => Ok(None),
            Some(i) => {
                let col = s.columns[i];
                if index.index_type == IndexType::FullText {
                    if has_match(e, col.name) {
                        match match_query(e, col.name) {
                            None => Ok(None),
                            Some(q) => path_of(
                                PlanV::FullTextScan {
                                    table_name: table,
                                    index_name: index.name,
                                    schema: s,
                                    query: FtsQueryV::Match(q),
                                },
                                Ok(cost::FIVE),
                            ),
                        }
                    } else {
                        token_path(table, s, index, col.name, e, t, cols, known)
                    }
                } else if has_match(e, col.name) {
                    Ok(None)
                } else {
                    match bounds::key_bounds(e, col.name, col.data_type) {
                        None => Ok(None),
                        Some(r) => path_of(
                            PlanV::IndexScan {
                                table_name: table,
                                index_name: index.name,
                                schema: s,
                                range: Some(r),
                            },
                            cost::index_scan_cost(index.name, s, t, r.0, r.1, cols, known),
                        ),
                    }
                }
            },
        }
    }
}

/// The best of `best` and the ways through the indexes from position `i` on.
pub open spec fn best_index_from(
    table: Seq<char>,
    s: SchemaV,
    e: ExprV,
    t: Option<TableStatistics>,
    cols: Set<Seq<char>>,
    i: int,
    best: PathV,
    known: Seq<(QuestionV, AnswerV)>,
) -> Result<PathV, ErrorV>
    decreases s.indexes.len() - i,
{
    if i >= s.indexes.len() {
        Ok(best)
    } else {
        match better(best, index_path(table, s, s.indexes[i], e, t, cols, known)) {
            Err(x) => Err(x),
            Ok(b) => best_index_from(table, s, e, t, cols, i + 1, b, known),
        }
    }
}

/// The way through the primary key, where a predicate allows one.
pub open spec fn key_path(
    table: Seq<char>,
    s: SchemaV,
    e: ExprV,
    t: Option<TableStatistics>,
    cols: Set<Seq<char>>,
    known: Seq<(QuestionV, AnswerV)>,
) -> Result<Option<PathV>, ErrorV> {
    match bounds::primary_key_range(e, s) {
        None => Ok(None),
        Some(r) => path_of(
            PlanV::Scan { table_name: table, schema: s, range: Some(r) },
            cost::scan_cost(s, t, Some(r), cols, known),
        ),
    }
}

/// The cheapest way to read a table under a predicate: a full scan, a range of the primary
/// key, or an index, the first of these where costs tie.
pub open spec fn best_path(
    table: Seq<char>,
    s: SchemaV,
    e: ExprV,
    t: Option<TableStatistics>,
    cols: Set<Seq<char>>,
    known: Seq<(QuestionV, AnswerV)>,
) -> Result<PlanV, ErrorV> {
    match cost::scan_cost(s, t, None, cols, known) {
        Err(x) => Err(x),
        Ok(full) => {
            let scan = PathV { plan: PlanV::Scan { table_name: table, schema: s, range: None }, cost: full };
            match better(scan, key_path(table, s, e, t, cols, known)) {
                Err(x) => Err(x),
                Ok(b) => match best_index_from(table, s, e, t, cols, 0, b, known) {
                    Err(x) => Err(x),
                    Ok(p) => Ok(p.plan),
                },
            }
        },
    }
}

/// Whether an outcome of looking for a way is the expected one.
pub open spec fn is_path(out: Result<Option<(LogicalPlan, u64)>, SqlError>, expected: Result<Option<PathV>, ErrorV>) -> bool {
    match out {
        Err(x) => expected == Err::<Option<PathV>, ErrorV>(x@),
        Ok(None) => expected == Ok::<Option<PathV>, ErrorV>(None),
        Ok(Some(p)) => expected == Ok::<Option<PathV>, ErrorV>(Some(PathV { plan: p.0@, cost: p.1 })),
    }
}

/// The way that intersects the tokens of a LIKE pattern.
fn try_trigram_like_plan(
    table: &str,
    s: &Schema,
    index: &IndexDefinition,
    col: &str,
    e: &Expr,
    t: Option<&TableStatistics>,
    cols: &ColumnSet,
    facts: &Facts,
) -> (out: Result<Option<(LogicalPlan, u64)>, SqlError>)
    ensures
        is_path(out, token_path(table@, s@, index@, col@, e@, cost::deref_stats(t), cols@, facts@)),
{
    let st = match t {
        Some(st) => st,
        None => return Ok(None),
    };
    let ist = match cost::find_named(&st.index_stats, index.name.as_str()) {
        Some(i) => i,
        None => return Ok(None),
    };
    let pattern = match extract_like_pattern_for_col(e, col) {
        Some(p) => p,
        None => return Ok(None),
    };
    let tokenizer = match &index.tokenizer {
        Some(n) => n.clone(),
        None => "simple".to_owned(),
    };
    match facts.tokens(Question::LikeTokens { tokenizer, pattern }) {
        Err(x) => Err(x),
        Ok(None) => Ok(None),
        Ok(Some(tokens)) => {
            if tokens.len() == 0 {
                return Ok(None);
            }
            let c: u64 = cost::estimate_token_cost(&tokens, s, st, ist, cols, facts)?;
            let plan = LogicalPlan::FullTextScan {
                table_name: table.to_owned(),
                index_name: index.name.clone(),
                schema: s.clone(),
                query: FtsQuery::AllTokens(tokens),
            };
            Ok(Some((plan, c)))
        },
    }
}

/// The way through an index.
fn index_scan_path(
    table: &str,
    s: &Schema,
    index: &IndexDefinition,
    e: &Expr,
    t: Option<&TableStatistics>,
    cols: &ColumnSet,
    facts: &Facts,
) -> (out: Result<Option<(LogicalPlan, u64)>, SqlError>)
    ensures
        is_path(out, index_path(table@, s@, index@, e@, cost::deref_stats(t), cols@, facts@)),
{
    if index.columns.len() == 0 {
        return Ok(None);
    }
    let i: usize = match s.column_index(index.columns[0].as_str()) {
        Some(i) => i,
        None => return Ok(None),
    };
    let col = &s.columns[i];
    let matched = has_match_predicate_for_col(e, col.name.as_str());
    if index.index_type == IndexType::FullText {
        if matched {
            match extract_fulltext_query_str_for_col(e, col.name.as_str()) {
                None => Ok(None),
                Some(q) => {
                    let plan = LogicalPlan::FullTextScan {
                        table_name: table.to_owned(),
                        index_name: index.name.clone(),
                        schema: s.clone(),
                        query: FtsQuery::Match(q),
                    };
                    Ok(Some((plan, cost::FIVE)))
                },
            }
        } else {
            try_trigram_like_plan(table, s, index, col.name.as_str(), e, t, cols, facts)
        }
    } else if matched {
        Ok(None)
    } else {
        match bounds::extract_bounds_for_column(e, col.name.as_str(), &col.data_type) {
            None => Ok(None),
            Some((start, end)) => {
                let c: u64 = cost::estimate_index_scan_cost(
                    index.name.as_str(),
                    s,
                    t,
                    &start,
                    &end,
                    cols,
                    facts,
                )?;
                let plan = LogicalPlan::IndexScan {
                    table_name: table.to_owned(),
                    index_name: index.name.clone(),
                    schema: s.clone(),
                    range: Some((start, end)),
                };
                Ok(Some((plan, c)))
            },
        }
    }
}

/// The way through the primary key.
fn key_scan_path(
    table: &str,
    s: &Schema,
    e: &Expr,
    t: Option<&TableStatistics>,
    cols: &ColumnSet,
    facts: &Facts,
) -> (out: Result<Option<(LogicalPlan, u64)>, SqlError>)
    ensures
        is_path(out, key_path(table@, s@, e@, cost::deref_stats(t), cols@, facts@)),
{
    match bounds::extract_key_range(e, s) {
        None => Ok(None),
        Some(r) => {
            let range = Some(r);
            let c: u64 = cost::estimate_scan_cost(s, t, &range, cols, facts)?;
            let plan = LogicalPlan::Scan { table_name: table.to_owned(), schema: s.clone(), range };
            Ok(Some((plan, c)))
        },
    }
}

impl Optimizer {
    /// An optimizer that goes by these statistics.
    pub fn new(statistics: Vec<(String, TableStatistics)>) -> (out: Optimizer)
        ensures
            out.statistics@ == statistics@,
    {
        Optimizer { statistics }
    }

    /// The statistics of a table.
    pub open spec fn stats_of(&self, table: Seq<char>) -> Option<TableStatistics> {
        cost::named_from(self.statistics@, table, 0)
    }

    /// The statistics of a table.
    pub fn table_statistics(&self, table: &str) -> (out: Option<&TableStatistics>)
        ensures
            cost::deref_stats(out) == self.stats_of(table@),
    {
        cost::find_named(&self.statistics, table)
    }

    /// The cheapest way to read a table under a predicate.
    pub fn select_best_scan_path(&self, table: &str, s: &Schema, e: &Expr, cols: &ColumnSet, facts: &Facts) -> (out:
        Result<LogicalPlan, SqlError>)
        ensures
            logical::plan_result(out) == best_path(table@, s@, e@, self.stats_of(table@), cols@, facts@),
    {
        let t = self.table_statistics(table);
        let ghost gt = cost::deref_stats(t);
        let none: Option<(PlanKey, PlanKey)> = None;
        let mut min_cost: u64 = cost::estimate_scan_cost(s, t, &none, cols, facts)?;
        let mut best = LogicalPlan::Scan { table_name: table.to_owned(), schema: s.clone(), range: None };
        match key_scan_path(table, s, e, t, cols, facts)? {
            Some((plan, c)) => {
                if cost::is_cheaper(c, min_cost) {
                    min_cost = c;
                    best = plan;
                }
            },
            None => {},
        }
        let ghost start = PathV { plan: best@, cost: min_cost };
        for i in 0..s.indexes.len()
            invariant
                gt == cost::deref_stats(t),
                best_index_from(table@, s@, e@, gt, cols@, 0, start, facts@) == best_index_from(
                    table@,
                    s@,
                    e@,
                    gt,
                    cols@,
                    i as int,
                    PathV { plan: best@, cost: min_cost },
                    facts@,
                ),
                best_path(table@, s@, e@, gt, cols@, facts@) == (match best_index_from(
                    table@,
                    s@,
                    e@,
                    gt,
                    cols@,
                    0,
                    start,
                    facts@,
                ) {
                    Err(x) => Err(x),
                    Ok(p) => Ok(p.plan),
                }),
                gt == self.stats_of(table@),
        {
            match index_scan_path(table, s, &s.indexes[i], e, t, cols, facts)? {
                Some((plan, c)) => {
                    if cost::is_cheaper(c, min_cost) {
                        min_cost = c;
                        best = plan;
                    }
                },
                None => {},
            }
        }
        Ok(best)
    }
}

// ---------------------------------------------------------------- predicate push-down

/// The plan with the conjuncts of its filters, and those in `es`, moved down to where their
/// columns come from, and with each filtered table read in the cheapest way. The filter
/// stays above the table.
pub open spec fn pushed(
    p: PlanV,
    es: Seq<ExprV>,
    cols: Set<Seq<char>>,
    o: Optimizer,
    known: Seq<(QuestionV, AnswerV)>,
) -> Result<PlanV, ErrorV>
    decreases p,
{
    match p {
        PlanV::Filter { source, predicate } => pushed(*source, es + conjuncts(predicate), cols, o, known),
        PlanV::Join { left, right, condition, join_type, .. } => {
            let ls = logical::plan_schema(*left);
            let rs = logical::plan_schema(*right);
            match pushed(*left, going_to(es, ls, rs, join_type, Side::Left, 0, Seq::empty()), cols, o, known) {
                Err(x) => Err(x),
                Ok(l) => match pushed(
                    *right,
                    going_to(es, ls, rs, join_type, Side::Right, 0, Seq::empty()),
                    cols,
                    o,
                    known,
                ) {
                    Err(x) => Err(x),
                    Ok(r) => Ok(
                        filtered(
                            going_to(es, ls, rs, join_type, Side::Above, 0, Seq::empty()),
                            logical::join_of(l, r, condition, join_type),
                        ),
                    ),
                },
            }
        },
        PlanV::Projection { source, expressions, field_names, .. } => match pushed(
            *source,
            Seq::empty(),
            cols,
            o,
            known,
        ) {
            Err(x) => Err(x),
            Ok(q) => Ok(filtered(es, logical::projection_of(q, expressions, field_names))),
        },
        PlanV::Aggregate { source, group_by, aggrs, field_names, .. } => match pushed(
            *source,
            Seq::empty(),
            cols,
            o,
            known,
        ) {
            Err(x) => Err(x),
            Ok(q) => Ok(filtered(es, logical::aggregate_of(q, group_by, aggrs, field_names))),
        },
        PlanV::Sort { source, keys } => match pushed(*source, es, cols, o, known) {
            Err(x) => Err(x),
            Ok(q) => Ok(PlanV::Sort { source: Box::new(q), keys }),
        },
        PlanV::Distinct { source } => match pushed(*source, es, cols, o, known) {
            Err(x) => Err(x),
            Ok(q) => Ok(PlanV::Distinct { source: Box::new(q) }),
        },
        PlanV::Limit { source, limit, offset } => match pushed(*source, Seq::empty(), cols, o, known) {
            Err(x) => Err(x),
            Ok(q) => Ok(filtered(es, PlanV::Limit { source: Box::new(q), limit, offset })),
        },
        PlanV::SetOp { left, right, op, all } => match pushed(*left, Seq::empty(), cols, o, known) {
            Err(x) => Err(x),
            Ok(l) => match pushed(*right, Seq::empty(), cols, o, known) {
                Err(x) => Err(x),
                Ok(r) => Ok(filtered(es, PlanV::SetOp { left: Box::new(l), right: Box::new(r), op, all })),
            },
        },
        PlanV::Scan { table_name, schema, .. } => pushed_leaf(p, table_name, schema, es, cols, o, known),
        PlanV::IndexScan { table_name, schema, .. } => pushed_leaf(p, table_name, schema, es, cols, o, known),
        PlanV::FullTextScan { table_name, schema, .. } => pushed_leaf(p, table_name, schema, es, cols, o, known),
    }
}

/// A table under some predicates: read in the cheapest way and filtered; as it is where
/// there are none.
pub open spec fn pushed_leaf(
    p: PlanV,
    table: Seq<char>,
    s: SchemaV,
    es: Seq<ExprV>,
    cols: Set<Seq<char>>,
    o: Optimizer,
    known: Seq<(QuestionV, AnswerV)>,
) -> Result<PlanV, ErrorV> {
    if es.len() == 0 {
        Ok(p)
    } else {
        match best_path(table, s, conjunction_of(es), o.stats_of(table), cols, known) {
            Err(x) => Err(x),
            Ok(q) => Ok(PlanV::Filter { source: Box::new(q), predicate: conjunction_of(es) }),
        }
    }
}

impl Optimizer {
    /// A table under some predicates.
    fn push_down_leaf(
        &self,
        p: &LogicalPlan,
        table: &str,
        s: &Schema,
        es: &Vec<Expr>,
        cols: &ColumnSet,
        facts: &Facts,
    ) -> (out: Result<LogicalPlan, SqlError>)
        ensures
            logical::plan_result(out) == pushed_leaf(
                p@,
                table@,
                s@,
                expr::exprs_view(es@),
                cols@,
                *self,
                facts@,
            ),
    {
        assert(expr::exprs_view(es@).len() == es@.len());
        match combine_conjuncts(es) {
            None => Ok(p.copy()),
            Some(predicate) => {
                let best = self.select_best_scan_path(table, s, &predicate, cols, facts)?;
                Ok(LogicalPlan::Filter { source: Box::new(best), predicate })
            },
        }
    }

    /// The plan with its filters, and the predicates `es`, moved down.
    pub fn push_down_predicate(&self, p: &LogicalPlan, es: &Vec<Expr>, cols: &ColumnSet, facts: &Facts) -> (out:
        Result<LogicalPlan, SqlError>)
        requires
            logical::well_formed(p@),
        ensures
            logical::plan_result(out) == pushed(p@, expr::exprs_view(es@), cols@, *self, facts@),
        decreases p,
    {
        match p {
            LogicalPlan::Filter { source, predicate } => {
                let mut all = expr::copy_exprs(es);
                split_conjuncts_rec(predicate, &mut all);
                self.push_down_predicate(source, &all, cols, facts)
            },
            LogicalPlan::Join { left, right, condition, join_type, .. } => {
                let ls = left.schema();
                let rs = right.schema();
                let left_es = conjuncts_for(es, &ls, &rs, *join_type, Side::Left);
                let right_es = conjuncts_for(es, &ls, &rs, *join_type, Side::Right);
                let above = conjuncts_for(es, &ls, &rs, *join_type, Side::Above);
                let l = self.push_down_predicate(left, &left_es, cols, facts)?;
                let r = self.push_down_predicate(right, &right_es, cols, facts)?;
                Ok(filter_plan(&above, LogicalPlan::new_join(l, r, condition.copy(), *join_type)))
            },
            LogicalPlan::Projection { source, expressions, field_names, .. } => {
                let none: Vec<Expr> = Vec::new();
                assert(expr::exprs_view(none@) =~= Seq::empty());
                let q = self.push_down_predicate(source, &none, cols, facts)?;
                let node = LogicalPlan::new_projection(
                    q,
                    expr::copy_exprs(expressions),
                    text::copy_strings(field_names),
                );
                Ok(filter_plan(es, node))
            },
            LogicalPlan::Aggregate { source, group_by, aggrs, field_names, .. } => {
                let none: Vec<Expr> = Vec::new();
                assert(expr::exprs_view(none@) =~= Seq::empty());
                let q = self.push_down_predicate(source, &none, cols, facts)?;
                Ok(filter_plan(es, new_aggregate_of(q, group_by, aggrs, field_names)))
            },
            LogicalPlan::Sort { source, keys } => {
                let q = self.push_down_predicate(source, es, cols, facts)?;
                Ok(LogicalPlan::Sort { source: Box::new(q), keys: logical::copy_sort_keys(keys) })
            },
            LogicalPlan::Distinct { source } => {
                let q = self.push_down_predicate(source, es, cols, facts)?;
                Ok(LogicalPlan::Distinct { source: Box::new(q) })
            },
            LogicalPlan::Limit { source, limit, offset } => {
                let none: Vec<Expr> = Vec::new();
                assert(expr::exprs_view(none@) =~= Seq::empty());
                let q = self.push_down_predicate(source, &none, cols, facts)?;
                Ok(filter_plan(es, LogicalPlan::Limit { source: Box::new(q), limit: *limit, offset: *offset }))
            },
            LogicalPlan::SetOp { left, right, op, all } => {
                let none: Vec<Expr> = Vec::new();
                assert(expr::exprs_view(none@) =~= Seq::empty());
                let l = self.push_down_predicate(left, &none, cols, facts)?;
                let r = self.push_down_predicate(right, &none, cols, facts)?;
                Ok(
                    filter_plan(
                        es,
                        LogicalPlan::SetOp { left: Box::new(l), right: Box::new(r), op: *op, all: *all },
                    ),
                )
            },
            LogicalPlan::Scan { table_name, schema, .. } => self.push_down_leaf(
                p,
                table_name.as_str(),
                schema,
                es,
                cols,
                facts,
            ),
            LogicalPlan::IndexScan { table_name, schema, .. } => self.push_down_leaf(
                p,
                table_name.as_str(),
                schema,
                es,
                cols,
                facts,
            ),
            LogicalPlan::FullTextScan { table_name, schema, .. } => self.push_down_leaf(
                p,
                table_name.as_str(),
                schema,
                es,
                cols,
                facts,
            ),
        }
    }
}

/// An aggregation of a plan, from copies of its parts.
fn new_aggregate_of(
    q: LogicalPlan,
    group_by: &Vec<Expr>,
    aggrs: &Vec<AggregateExpr>,
    field_names: &Vec<String>,
) -> (out: LogicalPlan)
    requires
        expr::exprs_view(group_by@).len() + logical::aggrs_view(aggrs@).len() <= field_names@.len(),
    ensures
        out@ == logical::aggregate_of(
            q@,
            expr::exprs_view(group_by@),
            logical::aggrs_view(aggrs@),
            text::views(field_names@),
        ),
{
    let g = expr::copy_exprs(group_by);
    let a = logical::copy_aggrs(aggrs);
    let n = text::copy_strings(field_names);
    assert(expr::exprs_view(g@).len() == g@.len());
    assert(logical::aggrs_view(a@).len() == a@.len());
    LogicalPlan::new_aggregate(q, g, a, n)
}

// ---------------------------------------------------------------- join order

/// The estimated number of rows a plan gives. Sums and products stop at the largest number
/// there is.
pub open spec fn plan_rows(p: PlanV, o: Optimizer, known: Seq<(QuestionV, AnswerV)>) -> Result<u64, ErrorV>
    decreases p,
{
    match p {
        PlanV::Scan { table_name, range, .. } => ranged_rows(table_rows(o, table_name), range, known),
        PlanV::IndexScan { table_name, range, .. } => ranged_rows(table_rows(o, table_name), range, known),
        PlanV::FullTextScan { table_name, .. } => cost::scaled(table_rows(o, table_name), cost::TWENTIETH, known),
        PlanV::Filter { source, .. } => scaled_rows(plan_rows(*source, o, known), cost::FIFTH, known),
        PlanV::Projection { source, .. } => plan_rows(*source, o, known),
        PlanV::Join { left, right, join_type, .. } => match plan_rows(*left, o, known) {
            Err(x) => Err(x),
            Ok(l) => match plan_rows(*right, o, known) {
                Err(x) => Err(x),
                Ok(r) => Ok(
                    match join_type {
                        JoinType::Inner => if l < r {
                            l
                        } else {
                            r
                        },
                        JoinType::Left => l,
                        JoinType::Cross => capped(l * r),
                    },
                ),
            },
        },
        PlanV::Aggregate { source, group_by, .. } => if group_by.len() == 0 {
            Ok(1)
        } else {
            scaled_rows(plan_rows(*source, o, known), cost::TENTH, known)
        },
        PlanV::Sort { source, .. } => plan_rows(*source, o, known),
        PlanV::Limit { source, .. } => plan_rows(*source, o, known),
        PlanV::Distinct { source } => scaled_rows(plan_rows(*source, o, known), cost::FOUR_FIFTHS, known),
        PlanV::SetOp { left, right, op, .. } => match plan_rows(*left, o, known) {
            Err(x) => Err(x),
            Ok(l) => match plan_rows(*right, o, known) {
                Err(x) => Err(x),
                Ok(r) => Ok(
                    match op {
                        SetOpType::Union => capped(l + r),
                        SetOpType::Intersect => if l < r {
                            l
                        } else {
                            r
                        },
                        SetOpType::Except => l,
                    },
                ),
            },
        },
    }
}

/// A number, or the largest one there is.
pub open spec fn capped(n: int) -> u64 {
    if n > u64::MAX {
        u64::MAX
    } else {
        n as u64
    }
}

/// The number of rows of a table; a thousand without statistics.
pub open spec fn table_rows(o: Optimizer, table: Seq<char>) -> u64 {
    match o.stats_of(table) {
        Some(t) => t.row_count,
        None => 1000,
    }
}

/// The rows of a table, a tenth of them where a range bounds them.
pub open spec fn ranged_rows(n: u64, range: Option<(PlanKeyV, PlanKeyV)>, known: Seq<(QuestionV, AnswerV)>) -> Result<
    u64,
    ErrorV,
> {
    if range is Some {
        cost::scaled(n, cost::TENTH, known)
    } else {
        Ok(n)
    }
}

/// A number of rows that may be open, scaled.
pub open spec fn scaled_rows(n: Result<u64, ErrorV>, factor: u64, known: Seq<(QuestionV, AnswerV)>) -> Result<
    u64,
    ErrorV,
> {
    match n {
        Err(x) => Err(x),
        Ok(v) => cost::scaled(v, factor, known),
    }
}

/// The condition of a join with its sides exchanged: comparisons are mirrored.
pub open spec fn swapped(e: ExprV) -> ExprV {
    match e {
        ExprV::BinaryOp { left, op, right } => ExprV::BinaryOp { left: right, op: mirrored(op), right: left },
        _ => e,
    }
}

/// The comparison with its sides exchanged.
pub open spec fn mirrored(op: Operator) -> Operator {
    match op {
        Operator::Lt => Operator::Gt,
        Operator::LtEq => Operator::GtEq,
        Operator::Gt => Operator::Lt,
        Operator::GtEq => Operator::LtEq,
        _ => op,
    }
}

/// References to the columns of a schema, by name.
pub open spec fn column_refs(cols: Seq<ColumnV>) -> Seq<ExprV> {
    cols.map_values(|c: ColumnV| ExprV::Column(c.name, None))
}

/// The names of the columns of a schema.
pub open spec fn column_names(cols: Seq<ColumnV>) -> Seq<Seq<char>> {
    cols.map_values(|c: ColumnV| c.name)
}

/// An inner join of two plans, the larger side on the left. Where the sides are exchanged,
/// a projection brings the columns back into their order.
pub open spec fn ordered_join(
    l: PlanV,
    r: PlanV,
    condition: ExprV,
    join_type: JoinType,
    o: Optimizer,
    known: Seq<(QuestionV, AnswerV)>,
) -> Result<PlanV, ErrorV> {
    if join_type != JoinType::Inner {
        Ok(logical::join_of(l, r, condition, join_type))
    } else {
        match plan_rows(l, o, known) {
            Err(x) => Err(x),
            Ok(ln) => match plan_rows(r, o, known) {
                Err(x) => Err(x),
                Ok(rn) => if ln < rn {
                    let cols = logical::plan_schema(logical::join_of(l, r, condition, join_type)).columns;
                    Ok(
                        logical::projection_of(
                            logical::join_of(r, l, swapped(condition), join_type),
                            column_refs(cols),
                            column_names(cols),
                        ),
                    )
                } else {
                    Ok(logical::join_of(l, r, condition, join_type))
                },
            },
        }
    }
}

/// The plan with the larger side of each inner join on the left.
pub open spec fn reordered(p: PlanV, o: Optimizer, known: Seq<(QuestionV, AnswerV)>) -> Result<PlanV, ErrorV>
    decreases p,
{
    match p {
        PlanV::Join { left, right, condition, join_type, .. } => match reordered(*left, o, known) {
            Err(x) => Err(x),
            Ok(l) => match reordered(*right, o, known) {
                Err(x) => Err(x),
                Ok(r) => ordered_join(l, r, condition, join_type, o, known),
            },
        },
        PlanV::Filter { source, predicate } => match reordered(*source, o, known) {
            Err(x) => Err(x),
            Ok(q) => Ok(PlanV::Filter { source: Box::new(q), predicate }),
        },
        PlanV::Projection { source, expressions, field_names, .. } => match reordered(*source, o, known) {
            Err(x) => Err(x),
            Ok(q) => Ok(logical::projection_of(q, expressions, field_names)),
        },
        PlanV::Aggregate { source, group_by, aggrs, field_names, .. } => match reordered(*source, o, known) {
            Err(x) => Err(x),
            Ok(q) => Ok(logical::aggregate_of(q, group_by, aggrs, field_names)),
        },
        PlanV::Sort { source, keys } => match reordered(*source, o, known) {
            Err(x) => Err(x),
            Ok(q) => Ok(PlanV::Sort { source: Box::new(q), keys }),
        },
        PlanV::Limit { source, limit, offset } => match reordered(*source, o, known) {
            Err(x) => Err(x),
            Ok(q) => Ok(PlanV::Limit { source: Box::new(q), limit, offset }),
        },
        PlanV::Distinct { source } => match reordered(*source, o, known) {
            Err(x) => Err(x),
            Ok(q) => Ok(PlanV::Distinct { source: Box::new(q) }),
        },
        PlanV::SetOp { left, right, op, all } => match reordered(*left, o, known) {
            Err(x) => Err(x),
            Ok(l) => match reordered(*right, o, known) {
                Err(x) => Err(x),
                Ok(r) => Ok(PlanV::SetOp { left: Box::new(l), right: Box::new(r), op, all }),
            },
        },
        _ => Ok(p),
    }
}

/// The comparison with its sides exchanged.
pub fn mirror(op: Operator) -> (out: Operator)
    ensures
        out == mirrored(op),
{
    match op {
        Operator::Lt => Operator::Gt,
        Operator::LtEq => Operator::GtEq,
        Operator::Gt => Operator::Lt,
        Operator::GtEq => Operator::LtEq,
        other => other,
    }
}

/// The condition of a join with its sides exchanged.
pub fn swap_join_condition(e: Expr) -> (out: Expr)
    ensures
        out@ == swapped(e@),
{
    match e {
        Expr::BinaryOp { left, op, right } => {
            Expr::BinaryOp { left: right, op: mirror(op), right: left }
        },
        other => other,
    }
}

/// The product of two numbers, or the largest number there is.
fn capped_product(a: u64, b: u64) -> (out: u64)
    ensures
        out == capped(a * b),
{
    match a.checked_mul(b) {
        Some(n) => n,
        None => u64::MAX,
    }
}

/// The sum of two numbers, or the largest number there is.
fn capped_sum(a: u64, b: u64) -> (out: u64)
    ensures
        out == capped(a + b),
{
    match a.checked_add(b) {
        Some(n) => n,
        None => u64::MAX,
    }
}

impl Optimizer {
    /// The number of rows of a table.
    fn rows_of_table(&self, table: &str) -> (out: u64)
        ensures
            out == table_rows(*self, table@),
    {
        match self.table_statistics(table) {
            Some(t) => t.row_count,
            None => 1000,
        }
    }

    /// The estimated number of rows a plan gives.
    pub fn estimate_plan_rows(&self, p: &LogicalPlan, facts: &Facts) -> (out: Result<u64, SqlError>)
        ensures
            eval::plain_result(out) == plan_rows(p@, *self, facts@),
        decreases p,
    {
        match p {
            LogicalPlan::Scan { table_name, range, .. } => {
                let n: u64 = self.rows_of_table(table_name.as_str());
                if range.is_some() {
                    cost::scale_rows(n, cost::TENTH, facts)
                } else {
                    Ok(n)
                }
            },
            LogicalPlan::IndexScan { table_name, range, .. } => {
                let n: u64 = self.rows_of_table(table_name.as_str());
                if range.is_some() {
                    cost::scale_rows(n, cost::TENTH, facts)
                } else {
                    Ok(n)
                }
            },
            LogicalPlan::FullTextScan { table_name, .. } => {
                let n: u64 = self.rows_of_table(table_name.as_str());
                cost::scale_rows(n, cost::TWENTIETH, facts)
            },
            LogicalPlan::Filter { source, .. } => {
                let n: u64 = self.estimate_plan_rows(source, facts)?;
                cost::scale_rows(n, cost::FIFTH, facts)
            },
            LogicalPlan::Projection { source, .. } => self.estimate_plan_rows(source, facts),
            LogicalPlan::Join { left, right, join_type, .. } => {
                let l: u64 = self.estimate_plan_rows(left, facts)?;
                let r: u64 = self.estimate_plan_rows(right, facts)?;
                match join_type {
                    JoinType::Inner => if l < r {
                        Ok(l)
                    } else {
                        Ok(r)
                    },
                    JoinType::Left => Ok(l),
                    JoinType::Cross => Ok(capped_product(l, r)),
                }
            },
            LogicalPlan::Aggregate { source, group_by, .. } => {
                assert(expr::exprs_view(group_by@).len() == group_by@.len());
                if group_by.len() == 0 {
                    return Ok(1);
                }
                let n: u64 = self.estimate_plan_rows(source, facts)?;
                cost::scale_rows(n, cost::TENTH, facts)
            },
            LogicalPlan::Sort { source, .. } => self.estimate_plan_rows(source, facts),
            LogicalPlan::Limit { source, .. } => self.estimate_plan_rows(source, facts),
            LogicalPlan::Distinct { source } => {
                let n: u64 = self.estimate_plan_rows(source, facts)?;
                cost::scale_rows(n, cost::FOUR_FIFTHS, facts)
            },
            LogicalPlan::SetOp { left, right, op, .. } => {
                let l: u64 = self.estimate_plan_rows(left, facts)?;
                let r: u64 = self.estimate_plan_rows(right, facts)?;
                match op {
                    SetOpType::Union => Ok(capped_sum(l, r)),
                    SetOpType::Intersect => if l < r {
                        Ok(l)
                    } else {
                        Ok(r)
                    },
                    SetOpType::Except => Ok(l),
                }
            },
        }
    }

    /// An inner join of two plans, the larger side on the left.
    fn order_join(&self, l: LogicalPlan, r: LogicalPlan, condition: Expr, join_type: JoinType, facts: &Facts) -> (out:
        Result<LogicalPlan, SqlError>)
        ensures
            logical::plan_result(out) == ordered_join(l@, r@, condition@, join_type, *self, facts@),
    {
        if join_type != JoinType::Inner {
            return Ok(LogicalPlan::new_join(l, r, condition, join_type));
        }
        let ln: u64 = self.estimate_plan_rows(&l, facts)?;
        let rn: u64 = self.estimate_plan_rows(&r, facts)?;
        if ln >= rn {
            return Ok(LogicalPlan::new_join(l, r, condition, join_type));
        }
        let original = LogicalPlan::new_join(l.copy(), r.copy(), condition.copy(), join_type).schema();
        let swapped_join = LogicalPlan::new_join(r, l, swap_join_condition(condition), join_type);
        let mut refs: Vec<Expr> = Vec::new();
        let mut names: Vec<String> = Vec::new();
        for i in 0..original.columns.len()
            invariant
                refs@.len() == i,
                names@.len() == i,
                forall|j: int|
                    0 <= j < i ==> (#[trigger] refs@[j])@ == ExprV::Column(original.columns@[j].name@, None),
                forall|j: int| 0 <= j < i ==> (#[trigger] names@[j])@ == original.columns@[j].name@,
        {
            refs.push(Expr::Column(original.columns[i].name.clone(), None));
            names.push(original.columns[i].name.clone());
        }
        assert(expr::exprs_view(refs@) =~= column_refs(original@.columns));
        assert(text::views(names@) =~= column_names(original@.columns));
        Ok(LogicalPlan::new_projection(swapped_join, refs, names))
    }

    /// The plan with the larger side of each inner join on the left.
    pub fn optimize_join_order(&self, p: &LogicalPlan, facts: &Facts) -> (out: Result<LogicalPlan, SqlError>)
        requires
            logical::well_formed(p@),
        ensures
            logical::plan_result(out) == reordered(p@, *self, facts@),
        decreases p,
    {
        match p {
            LogicalPlan::Join { left, right, condition, join_type, .. } => {
                let l = self.optimize_join_order(left, facts)?;
                let r = self.optimize_join_order(right, facts)?;
                self.order_join(l, r, condition.copy(), *join_type, facts)
            },
            LogicalPlan::Filter { source, predicate } => {
                let q = self.optimize_join_order(source, facts)?;
                Ok(LogicalPlan::Filter { source: Box::new(q), predicate: predicate.copy() })
            },
            LogicalPlan::Projection { source, expressions, field_names, .. } => {
                let q = self.optimize_join_order(source, facts)?;
                Ok(
                    LogicalPlan::new_projection(
                        q,
                        expr::copy_exprs(expressions),
                        text::copy_strings(field_names),
                    ),
                )
            },
            LogicalPlan::Aggregate { source, group_by, aggrs, field_names, .. } => {
                let q = self.optimize_join_order(source, facts)?;
                Ok(new_aggregate_of(q, group_by, aggrs, field_names))
            },
            LogicalPlan::Sort { source, keys } => {
                let q = self.optimize_join_order(source, facts)?;
                Ok(LogicalPlan::Sort { source: Box::new(q), keys: logical::copy_sort_keys(keys) })
            },
            LogicalPlan::Limit { source, limit, offset } => {
                let q = self.optimize_join_order(source, facts)?;
                Ok(LogicalPlan::Limit { source: Box::new(q), limit: *limit, offset: *offset })
            },
            LogicalPlan::Distinct { source } => {
                let q = self.optimize_join_order(source, facts)?;
                Ok(LogicalPlan::Distinct { source: Box::new(q) })
            },
            LogicalPlan::SetOp { left, right, op, all } => {
                let l = self.optimize_join_order(left, facts)?;
                let r = self.optimize_join_order(right, facts)?;
                Ok(LogicalPlan::SetOp { left: Box::new(l), right: Box::new(r), op: *op, all: *all })
            },
            LogicalPlan::Scan { .. } => Ok(p.copy()),
            LogicalPlan::IndexScan { .. } => Ok(p.copy()),
            LogicalPlan::FullTextScan { .. } => Ok(p.copy()),
        }
    }
}

// ---------------------------------------------------------------- well-formedness

/// Moving predicates down keeps a plan well-formed.
pub proof fn pushed_is_well_formed(
    p: PlanV,
    es: Seq<ExprV>,
    cols: Set<Seq<char>>,
    o: Optimizer,
    known: Seq<(QuestionV, AnswerV)>,
)
    requires
        logical::well_formed(p),
    ensures
        pushed(p, es, cols, o, known) matches Ok(q) ==> logical::well_formed(q),
    decreases p,
{
    match p {
        PlanV::Filter { source, predicate } => {
            pushed_is_well_formed(*source, es + conjuncts(predicate), cols, o, known);
        },
        PlanV::Join { left, right, condition, join_type, .. } => {
            let ls = logical::plan_schema(*left);
            let rs = logical::plan_schema(*right);
            pushed_is_well_formed(
                *left,
                going_to(es, ls, rs, join_type, Side::Left, 0, Seq::empty()),
                cols,
                o,
                known,
            );
            pushed_is_well_formed(
                *right,
                going_to(es, ls, rs, join_type, Side::Right, 0, Seq::empty()),
                cols,
                o,
                known,
            );
            match pushed(
                *left,
                going_to(es, ls, rs, join_type, Side::Left, 0, Seq::empty()),
                cols,
                o,
                known,
            ) {
                Ok(l) => {
                    match pushed(
                        *right,
                        going_to(es, ls, rs, join_type, Side::Right, 0, Seq::empty()),
                        cols,
                        o,
                        known,
                    ) {
                        Ok(r) => {
                            assert(logical::well_formed(logical::join_of(l, r, condition, join_type)));
                        },
                        Err(_) => {},
                    }
                },
                Err(_) => {},
            }
        },
        PlanV::Projection { source, expressions, field_names, .. } => {
            pushed_is_well_formed(*source, Seq::empty(), cols, o, known);
            match pushed(*source, Seq::empty(), cols, o, known) {
                Ok(q) => {
                    assert(logical::well_formed(logical::projection_of(q, expressions, field_names)));
                },
                Err(_) => {},
            }
        },
        PlanV::Aggregate { source, group_by, aggrs, field_names, .. } => {
            pushed_is_well_formed(*source, Seq::empty(), cols, o, known);
            match pushed(*source, Seq::empty(), cols, o, known) {
                Ok(q) => {
                    assert(logical::well_formed(logical::aggregate_of(q, group_by, aggrs, field_names)));
                },
                Err(_) => {},
            }
        },
        PlanV::Sort { source, .. } => {
            pushed_is_well_formed(*source, es, cols, o, known);
        },
        PlanV::Distinct { source } => {
            pushed_is_well_formed(*source, es, cols, o, known);
        },
        PlanV::Limit { source, limit, offset } => {
            pushed_is_well_formed(*source, Seq::empty(), cols, o, known);
            match pushed(*source, Seq::empty(), cols, o, known) {
                Ok(q) => {
                    assert(logical::well_formed(PlanV::Limit { source: Box::new(q), limit, offset }));
                },
                Err(_) => {},
            }
        },
        PlanV::SetOp { left, right, op, all } => {
            pushed_is_well_formed(*left, Seq::empty(), cols, o, known);
            pushed_is_well_formed(*right, Seq::empty(), cols, o, known);
            match pushed(*left, Seq::empty(), cols, o, known) {
                Ok(l) => {
                    match pushed(*right, Seq::empty(), cols, o, known) {
                        Ok(r) => {
                            assert(logical::well_formed(
                                PlanV::SetOp { left: Box::new(l), right: Box::new(r), op, all },
                            ));
                        },
                        Err(_) => {},
                    }
                },
                Err(_) => {},
            }
        },
        PlanV::Scan { table_name, schema, .. } => {
            lemma_best_path(table_name, schema, conjunction_of(es), o.stats_of(table_name), cols, known);
        },
        PlanV::IndexScan { table_name, schema, .. } => {
            lemma_best_path(table_name, schema, conjunction_of(es), o.stats_of(table_name), cols, known);
        },
        PlanV::FullTextScan { table_name, schema, .. } => {
            lemma_best_path(table_name, schema, conjunction_of(es), o.stats_of(table_name), cols, known);
        },
    }
}

/// Whether a plan reads a table, and gives rows of a schema.
pub open spec fn reads(p: PlanV, table: Seq<char>, s: SchemaV) -> bool {
    match p {
        PlanV::Scan { table_name, schema, .. } => table_name == table && schema == s,
        PlanV::IndexScan { table_name, schema, .. } => table_name == table && schema == s,
        PlanV::FullTextScan { table_name, schema, .. } => table_name == table && schema == s,
        _ => false,
    }
}

/// The cheapest way to read a table reads that table.
pub proof fn best_path_reads_the_table(
    table: Seq<char>,
    s: SchemaV,
    e: ExprV,
    t: Option<TableStatistics>,
    cols: Set<Seq<char>>,
    known: Seq<(QuestionV, AnswerV)>,
)
    ensures
        best_path(table, s, e, t, cols, known) matches Ok(p) ==> reads(p, table, s),
{
    match cost::scan_cost(s, t, None, cols, known) {
        Err(_) => {},
        Ok(full) => {
            let scan = PathV { plan: PlanV::Scan { table_name: table, schema: s, range: None }, cost: full };
            match better(scan, key_path(table, s, e, t, cols, known)) {
                Err(_) => {},
                Ok(b) => {
                    lemma_best_index(table, s, e, t, cols, 0, b, known);
                },
            }
        },
    }
}

proof fn lemma_best_index(
    table: Seq<char>,
    s: SchemaV,
    e: ExprV,
    t: Option<TableStatistics>,
    cols: Set<Seq<char>>,
    i: int,
    best: PathV,
    known: Seq<(QuestionV, AnswerV)>,
)
    requires
        reads(best.plan, table, s),
    ensures
        best_index_from(table, s, e, t, cols, i, best, known) matches Ok(p) ==> reads(p.plan, table, s),
    decreases s.indexes.len() - i,
{
    if i < s.indexes.len() {
        match better(best, index_path(table, s, s.indexes[i], e, t, cols, known)) {
            Err(_) => {},
            Ok(b) => {
                lemma_best_index(table, s, e, t, cols, i + 1, b, known);
            },
        }
    }
}

proof fn lemma_best_path(
    table: Seq<char>,
    s: SchemaV,
    e: ExprV,
    t: Option<TableStatistics>,
    cols: Set<Seq<char>>,
    known: Seq<(QuestionV, AnswerV)>,
)
    ensures
        best_path(table, s, e, t, cols, known) matches Ok(p) ==> logical::well_formed(p) && logical::well_formed(
            PlanV::Filter { source: Box::new(p), predicate: e },
        ),
{
    best_path_reads_the_table(table, s, e, t, cols, known);
    match best_path(table, s, e, t, cols, known) {
        Ok(p) => {
            assert(logical::well_formed(p));
        },
        Err(_) => {},
    }
}

/// Reordering joins keeps a plan well-formed.
pub proof fn reordered_is_well_formed(p: PlanV, o: Optimizer, known: Seq<(QuestionV, AnswerV)>)
    requires
        logical::well_formed(p),
    ensures
        reordered(p, o, known) matches Ok(q) ==> logical::well_formed(q),
    decreases p,
{
    match p {
        PlanV::Join { left, right, condition, join_type, .. } => {
            reordered_is_well_formed(*left, o, known);
            reordered_is_well_formed(*right, o, known);
            match reordered(*left, o, known) {
                Ok(l) => {
                    match reordered(*right, o, known) {
                        Ok(r) => {
                            assert(logical::well_formed(logical::join_of(l, r, condition, join_type)));
                            assert(logical::well_formed(logical::join_of(r, l, swapped(condition), join_type)));
                        },
                        Err(_) => {},
                    }
                },
                Err(_) => {},
            }
        },
        PlanV::Filter { source, .. } => reordered_is_well_formed(*source, o, known),
        PlanV::Projection { source, .. } => reordered_is_well_formed(*source, o, known),
        PlanV::Aggregate { source, .. } => reordered_is_well_formed(*source, o, known),
        PlanV::Sort { source, .. } => reordered_is_well_formed(*source, o, known),
        PlanV::Limit { source, .. } => reordered_is_well_formed(*source, o, known),
        PlanV::Distinct { source } => reordered_is_well_formed(*source, o, known),
        PlanV::SetOp { left, right, .. } => {
            reordered_is_well_formed(*left, o, known);
            reordered_is_well_formed(*right, o, known);
        },
        _ => {},
    }
}

// ---------------------------------------------------------------- sorts

/// The name under which a projection, from position `i` on, passes a column on.
pub open spec fn passed_on(es: Seq<ExprV>, names: Seq<Seq<char>>, key: Seq<char>, i: int) -> Option<Seq<char>>
    decreases es.len() - i,
{
    if i >= es.len() {
        None
    } else {
        match es[i] {
            ExprV::Column(name, _) => if text::names_match(name, key) {
                Some(names[i])
            } else {
                passed_on(es, names, key, i + 1)
            },
            _ => passed_on(es, names, key, i + 1),
        }
    }
}

/// The column an index with a name sorts by, from position `i` on.
pub open spec fn index_key_from(indexes: Seq<IndexV>, name: Seq<char>, i: int) -> Option<Seq<char>>
    decreases indexes.len() - i,
{
    if i >= indexes.len() {
        None
    } else if indexes[i].name == name {
        if indexes[i].columns.len() > 0 {
            Some(indexes[i].columns[0])
        } else {
            None
        }
    } else {
        index_key_from(indexes, name, i + 1)
    }
}

/// The column by which the rows of a plan come sorted, where one is known.
pub open spec fn sort_key(p: PlanV) -> Option<Seq<char>>
    decreases p,
{
    match p {
        PlanV::Scan { schema, .. } => match schema::primary_key_position(schema) {
            Some(i) => Some(schema.columns[i as int].name),
            None => None,
        },
        PlanV::IndexScan { schema, index_name, .. } => index_key_from(schema.indexes, index_name, 0),
        PlanV::Filter { source, .. } => sort_key(*source),
        PlanV::Limit { source, .. } => sort_key(*source),
        PlanV::Distinct { source } => sort_key(*source),
        PlanV::Projection { source, expressions, field_names, .. } => match sort_key(*source) {
            None => None,
            Some(key) => passed_on(expressions, field_names, key, 0),
        },
        _ => None,
    }
}

/// The first index, from position `i` on, that sorts by a column.
pub open spec fn index_on_from(indexes: Seq<IndexV>, col: Seq<char>, i: int) -> Option<Seq<char>>
    decreases indexes.len() - i,
{
    if i >= indexes.len() {
        None
    } else if indexes[i].columns.len() > 0 && text::names_match(indexes[i].columns[0], col) {
        Some(indexes[i].name)
    } else {
        index_on_from(indexes, col, i + 1)
    }
}

/// The column that a projection, from position `i` on, passes on under a name.
pub open spec fn passed_from(es: Seq<ExprV>, names: Seq<Seq<char>>, col: Seq<char>, i: int) -> Option<Seq<char>>
    decreases es.len() - i,
{
    if i >= es.len() {
        None
    } else if names[i] == col && es[i] is Column {
        Some(es[i]->Column_0)
    } else {
        passed_from(es, names, col, i + 1)
    }
}

/// The plan with its unbounded scan read through an index on a column, where there is one.
pub open spec fn promoted(p: PlanV, col: Seq<char>) -> Option<PlanV>
    decreases p,
{
    match p {
        PlanV::Scan { table_name, schema, range } => if range is Some {
            None
        } else {
            match index_on_from(schema.indexes, col, 0) {
                None => None,
                Some(index) => Some(PlanV::IndexScan { table_name, index_name: index, schema, range: None }),
            }
        },
        PlanV::Filter { source, predicate } => match promoted(*source, col) {
            None => None,
            Some(q) => Some(PlanV::Filter { source: Box::new(q), predicate }),
        },
        PlanV::Limit { source, limit, offset } => match promoted(*source, col) {
            None => None,
            Some(q) => Some(PlanV::Limit { source: Box::new(q), limit, offset }),
        },
        PlanV::Distinct { source } => match promoted(*source, col) {
            None => None,
            Some(q) => Some(PlanV::Distinct { source: Box::new(q) }),
        },
        PlanV::Projection { source, expressions, field_names, schema } => match passed_from(
            expressions,
            field_names,
            col,
            0,
        ) {
            None => None,
            Some(inner) => match promoted(*source, inner) {
                None => None,
                Some(q) => Some(PlanV::Projection { source: Box::new(q), expressions, field_names, schema }),
            },
        },
        _ => None,
    }
}

/// A plan sorted by some keys. A single ascending column needs no sort where the plan is
/// sorted by it already, or can be read through an index on it.
pub open spec fn sorted_plan(q: PlanV, keys: Seq<(ExprV, bool)>) -> PlanV {
    let sort = PlanV::Sort { source: Box::new(q), keys };
    if keys.len() == 1 && keys[0].1 {
        match keys[0].0 {
            ExprV::Column(col, _) => if sort_key(q) is Some && text::names_match(sort_key(q)->0, col) {
                q
            } else {
                match promoted(q, col) {
                    Some(r) => r,
                    None => sort,
                }
            },
            _ => sort,
        }
    } else {
        sort
    }
}

/// The source of an aggregation: read through an index on its grouping column, where it
/// groups by one column and there is such an index.
pub open spec fn grouped_source(q: PlanV, group_by: Seq<ExprV>) -> PlanV {
    if group_by.len() == 1 {
        match group_by[0] {
            ExprV::Column(col, _) => match promoted(q, col) {
                Some(r) => r,
                None => q,
            },
            _ => q,
        }
    } else {
        q
    }
}

/// The plan without the sorts it does not need.
pub open spec fn unsorted(p: PlanV) -> PlanV
    decreases p,
{
    match p {
        PlanV::Sort { source, keys } => sorted_plan(unsorted(*source), keys),
        PlanV::Filter { source, predicate } => PlanV::Filter { source: Box::new(unsorted(*source)), predicate },
        PlanV::Projection { source, expressions, field_names, schema } => PlanV::Projection {
            source: Box::new(unsorted(*source)),
            expressions,
            field_names,
            schema,
        },
        PlanV::Join { left, right, condition, join_type, schema } => PlanV::Join {
            left: Box::new(unsorted(*left)),
            right: Box::new(unsorted(*right)),
            condition,
            join_type,
            schema,
        },
        PlanV::Aggregate { source, group_by, aggrs, field_names, schema } => PlanV::Aggregate {
            source: Box::new(grouped_source(unsorted(*source), group_by)),
            group_by,
            aggrs,
            field_names,
            schema,
        },
        PlanV::Limit { source, limit, offset } => PlanV::Limit { source: Box::new(unsorted(*source)), limit, offset },
        PlanV::Distinct { source } => PlanV::Distinct { source: Box::new(unsorted(*source)) },
        PlanV::SetOp { left, right, op, all } => PlanV::SetOp {
            left: Box::new(unsorted(*left)),
            right: Box::new(unsorted(*right)),
            op,
            all,
        },
        _ => p,
    }
}

/// Reading through an index keeps a plan well-formed and its schema.
pub proof fn promoted_keeps_schema(p: PlanV, col: Seq<char>)
    ensures
        promoted(p, col) matches Some(q) ==> {
            &&& logical::plan_schema(q) == logical::plan_schema(p)
            &&& logical::well_formed(p) ==> logical::well_formed(q)
        },
    decreases p,
{
    match p {
        PlanV::Filter { source, .. } => promoted_keeps_schema(*source, col),
        PlanV::Limit { source, .. } => promoted_keeps_schema(*source, col),
        PlanV::Distinct { source } => promoted_keeps_schema(*source, col),
        PlanV::Projection { source, expressions, field_names, .. } => {
            match passed_from(expressions, field_names, col, 0) {
                Some(inner) => promoted_keeps_schema(*source, inner),
                None => {},
            }
        },
        _ => {},
    }
}

/// Removing sorts keeps a plan well-formed and its schema.
pub proof fn unsorted_keeps_schema(p: PlanV)
    ensures
        logical::plan_schema(unsorted(p)) == logical::plan_schema(p),
        logical::well_formed(p) ==> logical::well_formed(unsorted(p)),
    decreases p,
{
    match p {
        PlanV::Sort { source, keys } => {
            unsorted_keeps_schema(*source);
            let q = unsorted(*source);
            if keys.len() == 1 {
                match keys[0].0 {
                    ExprV::Column(col, _) => promoted_keeps_schema(q, col),
                    _ => {},
                }
            }
            let sort = PlanV::Sort { source: Box::new(q), keys };
            assert(logical::plan_schema(sort) == logical::plan_schema(q));
            assert(logical::well_formed(sort) == logical::well_formed(q));
        },
        PlanV::Filter { source, .. } => unsorted_keeps_schema(*source),
        PlanV::Projection { source, .. } => unsorted_keeps_schema(*source),
        PlanV::Join { left, right, .. } => {
            unsorted_keeps_schema(*left);
            unsorted_keeps_schema(*right);
        },
        PlanV::Aggregate { source, group_by, .. } => {
            unsorted_keeps_schema(*source);
            if group_by.len() == 1 {
                match group_by[0] {
                    ExprV::Column(col, _) => promoted_keeps_schema(unsorted(*source), col),
                    _ => {},
                }
            }
        },
        PlanV::Limit { source, .. } => unsorted_keeps_schema(*source),
        PlanV::Distinct { source } => unsorted_keeps_schema(*source),
        PlanV::SetOp { left, right, .. } => {
            unsorted_keeps_schema(*left);
            unsorted_keeps_schema(*right);
        },
        _ => {},
    }
}

impl Optimizer {
    /// The column by which the rows of a plan come sorted, where one is known.
    pub fn get_plan_sort_key(p: &LogicalPlan) -> (out: Option<String>)
        requires
            logical::well_formed(p@),
        ensures
            schema::opt_text(out) == sort_key(p@),
        decreases p,
    {
        match p {
            LogicalPlan::Scan { schema, .. } => match schema.primary_key_index() {
                Some(i) => Some(schema.columns[i].name.clone()),
                None => None,
            },
            LogicalPlan::IndexScan { schema, index_name, .. } => {
                for i in 0..schema.indexes.len()
                    invariant
                        index_key_from(schema@.indexes, index_name@, 0) == index_key_from(
                            schema@.indexes,
                            index_name@,
                            i as int,
                        ),
                        sort_key(p@) == index_key_from(schema@.indexes, index_name@, 0),
                {
                    if text::same_text(schema.indexes[i].name.as_str(), index_name.as_str()) {
                        if schema.indexes[i].columns.len() > 0 {
                            return Some(schema.indexes[i].columns[0].clone());
                        }
                        return None;
                    }
                }
                None
            },
            LogicalPlan::Filter { source, .. } => Self::get_plan_sort_key(source),
            LogicalPlan::Limit { source, .. } => Self::get_plan_sort_key(source),
            LogicalPlan::Distinct { source } => Self::get_plan_sort_key(source),
            LogicalPlan::Projection { source, expressions, field_names, .. } => {
                assert(expr::exprs_view(expressions@).len() == expressions@.len());
                match Self::get_plan_sort_key(source) {
                    None => None,
                    Some(key) => name_passed_on(expressions, field_names, key.as_str()),
                }
            },
            _ => None,
        }
    }

    /// The plan with its unbounded scan read through an index on a column.
    pub fn try_promote_to_index_scan(p: &LogicalPlan, col: &str) -> (out: Option<LogicalPlan>)
        requires
            logical::well_formed(p@),
        ensures
            match out {
                Some(q) => promoted(p@, col@) == Some(q@),
                None => promoted(p@, col@) is None,
            },
        decreases p,
    {
        match p {
            LogicalPlan::Scan { table_name, schema, range } => {
                if range.is_some() {
                    return None;
                }
                for i in 0..schema.indexes.len()
                    invariant
                        index_on_from(schema@.indexes, col@, 0) == index_on_from(schema@.indexes, col@, i as int),
                        p@ == (PlanV::Scan { table_name: table_name@, schema: schema@, range: None }),
                {
                    let index = &schema.indexes[i];
                    if index.columns.len() > 0 && text::column_names_match(index.columns[0].as_str(), col) {
                        return Some(
                            LogicalPlan::IndexScan {
                                table_name: table_name.clone(),
                                index_name: index.name.clone(),
                                schema: schema.clone(),
                                range: None,
                            },
                        );
                    }
                }
                None
            },
            LogicalPlan::Filter { source, predicate } => match Self::try_promote_to_index_scan(source, col) {
                None => None,
                Some(q) => Some(LogicalPlan::Filter { source: Box::new(q), predicate: predicate.copy() }),
            },
            LogicalPlan::Limit { source, limit, offset } => match Self::try_promote_to_index_scan(source, col) {
                None => None,
                Some(q) => Some(LogicalPlan::Limit { source: Box::new(q), limit: *limit, offset: *offset }),
            },
            LogicalPlan::Distinct { source } => match Self::try_promote_to_index_scan(source, col) {
                None => None,
                Some(q) => Some(LogicalPlan::Distinct { source: Box::new(q) }),
            },
            LogicalPlan::Projection { source, expressions, field_names, schema } => {
                assert(expr::exprs_view(expressions@).len() == expressions@.len());
                match column_passed_from(expressions, field_names, col) {
                    None => None,
                    Some(inner) => match Self::try_promote_to_index_scan(source, inner.as_str()) {
                        None => None,
                        Some(q) => Some(
                            LogicalPlan::Projection {
                                source: Box::new(q),
                                expressions: expr::copy_exprs(expressions),
                                field_names: text::copy_strings(field_names),
                                schema: schema.clone(),
                            },
                        ),
                    },
                }
            },
            _ => None,
        }
    }

    /// A plan sorted by some keys, without the sort where it is not needed.
    fn sort_plan(q: LogicalPlan, keys: &Vec<(Expr, bool)>) -> (out: LogicalPlan)
        requires
            logical::well_formed(q@),
        ensures
            out@ == sorted_plan(q@, logical::sort_keys_view(keys@)),
    {
        assert(logical::sort_keys_view(keys@).len() == keys@.len());
        if keys.len() == 1 && keys[0].1 {
            assert(logical::sort_keys_view(keys@)[0] == (keys@[0].0@, keys@[0].1));
            if let Expr::Column(col, _) = &keys[0].0 {
                if let Some(key) = Self::get_plan_sort_key(&q) {
                    if text::column_names_match(key.as_str(), col.as_str()) {
                        return q;
                    }
                }
                if let Some(r) = Self::try_promote_to_index_scan(&q, col.as_str()) {
                    return r;
                }
            }
        }
        LogicalPlan::Sort { source: Box::new(q), keys: logical::copy_sort_keys(keys) }
    }

    /// The source of an aggregation, read through an index where that groups it.
    fn group_source(q: LogicalPlan, group_by: &Vec<Expr>) -> (out: LogicalPlan)
        requires
            logical::well_formed(q@),
        ensures
            out@ == grouped_source(q@, expr::exprs_view(group_by@)),
    {
        assert(expr::exprs_view(group_by@).len() == group_by@.len());
        if group_by.len() == 1 {
            assert(expr::exprs_view(group_by@)[0] == group_by@[0]@);
            if let Expr::Column(col, _) = &group_by[0] {
                if let Some(r) = Self::try_promote_to_index_scan(&q, col.as_str()) {
                    return r;
                }
            }
        }
        q
    }

    /// The plan without the sorts it does not need.
    pub fn eliminate_sorts(&self, p: &LogicalPlan) -> (out: LogicalPlan)
        requires
            logical::well_formed(p@),
        ensures
            out@ == unsorted(p@),
        decreases p,
    {
        match p {
            LogicalPlan::Sort { source, keys } => {
                let q = self.eliminate_sorts(source);
                proof {
                    unsorted_keeps_schema(source@);
                }
                Self::sort_plan(q, keys)
            },
            LogicalPlan::Filter { source, predicate } => LogicalPlan::Filter {
                source: Box::new(self.eliminate_sorts(source)),
                predicate: predicate.copy(),
            },
            LogicalPlan::Projection { source, expressions, field_names, schema } => LogicalPlan::Projection {
                source: Box::new(self.eliminate_sorts(source)),
                expressions: expr::copy_exprs(expressions),
                field_names: text::copy_strings(field_names),
                schema: schema.clone(),
            },
            LogicalPlan::Join { left, right, condition, join_type, schema } => LogicalPlan::Join {
                left: Box::new(self.eliminate_sorts(left)),
                right: Box::new(self.eliminate_sorts(right)),
                condition: condition.copy(),
                join_type: *join_type,
                schema: schema.clone(),
            },
            LogicalPlan::Aggregate { source, group_by, aggrs, field_names, schema } => {
                let q = self.eliminate_sorts(source);
                proof {
                    unsorted_keeps_schema(source@);
                }
                LogicalPlan::Aggregate {
                    source: Box::new(Self::group_source(q, group_by)),
                    group_by: expr::copy_exprs(group_by),
                    aggrs: logical::copy_aggrs(aggrs),
                    field_names: text::copy_strings(field_names),
                    schema: schema.clone(),
                }
            },
            LogicalPlan::Limit { source, limit, offset } => LogicalPlan::Limit {
                source: Box::new(self.eliminate_sorts(source)),
                limit: *limit,
                offset: *offset,
            },
            LogicalPlan::Distinct { source } => LogicalPlan::Distinct {
                source: Box::new(self.eliminate_sorts(source)),
            },
            LogicalPlan::SetOp { left, right, op, all } => LogicalPlan::SetOp {
                left: Box::new(self.eliminate_sorts(left)),
                right: Box::new(self.eliminate_sorts(right)),
                op: *op,
                all: *all,
            },
            LogicalPlan::Scan { .. } => p.copy(),
            LogicalPlan::IndexScan { .. } => p.copy(),
            LogicalPlan::FullTextScan { .. } => p.copy(),
        }
    }

    /// The optimized plan: predicates moved down, joins reordered, sorts removed.
    pub fn optimize(&self, p: &LogicalPlan, facts: &Facts) -> (out: Result<LogicalPlan, SqlError>)
        requires
            logical::well_formed(p@),
        ensures
            logical::plan_result(out) == optimized(p@, *self, facts@),
            out matches Ok(q) ==> logical::well_formed(q@),
    {
        let mut cols = ColumnSet::new();
        p.collect_columns(&mut cols);
        assert(cols@ =~= logical::plan_columns(p@));
        let none: Vec<Expr> = Vec::new();
        assert(expr::exprs_view(none@) =~= Seq::empty());
        let q = self.push_down_predicate(p, &none, &cols, facts)?;
        proof {
            pushed_is_well_formed(p@, Seq::empty(), cols@, *self, facts@);
        }
        let r = self.optimize_join_order(&q, facts)?;
        proof {
            reordered_is_well_formed(q@, *self, facts@);
            unsorted_keeps_schema(r@);
        }
        Ok(self.eliminate_sorts(&r))
    }
}

/// The optimized plan: predicates moved down, joins reordered, sorts removed.
pub open spec fn optimized(p: PlanV, o: Optimizer, known: Seq<(QuestionV, AnswerV)>) -> Result<PlanV, ErrorV> {
    match pushed(p, Seq::empty(), logical::plan_columns(p), o, known) {
        Err(x) => Err(x),
        Ok(q) => match reordered(q, o, known) {
            Err(x) => Err(x),
            Ok(r) => Ok(unsorted(r)),
        },
    }
}

/// The name under which a projection passes a column on.
fn name_passed_on(es: &Vec<Expr>, names: &Vec<String>, key: &str) -> (out: Option<String>)
    requires
        es@.len() <= names@.len(),
    ensures
        schema::opt_text(out) == passed_on(expr::exprs_view(es@), text::views(names@), key@, 0),
{
    let ghost ev = expr::exprs_view(es@);
    let ghost nv = text::views(names@);
    for i in 0..es.len()
        invariant
            es@.len() <= names@.len(),
            ev == expr::exprs_view(es@),
            nv == text::views(names@),
            passed_on(ev, nv, key@, 0) == passed_on(ev, nv, key@, i as int),
    {
        if let Expr::Column(name, _) = &es[i] {
            if text::column_names_match(name.as_str(), key) {
                return Some(names[i].clone());
            }
        }
    }
    None
}

/// The column that a projection passes on under a name.
fn column_passed_from(es: &Vec<Expr>, names: &Vec<String>, col: &str) -> (out: Option<String>)
    requires
        es@.len() <= names@.len(),
    ensures
        schema::opt_text(out) == passed_from(expr::exprs_view(es@), text::views(names@), col@, 0),
{
    let ghost ev = expr::exprs_view(es@);
    let ghost nv = text::views(names@);
    for i in 0..es.len()
        invariant
            es@.len() <= names@.len(),
            ev == expr::exprs_view(es@),
            nv == text::views(names@),
            passed_from(ev, nv, col@, 0) == passed_from(ev, nv, col@, i as int),
    {
        if text::same_text(names[i].as_str(), col) {
            if let Expr::Column(name, _) = &es[i] {
                return Some(name.clone());
            }
        }
    }
    None
}

} // verus!
