//! Logical plans: relational operations on tables.

use crate::expr;
use crate::expr::{ColumnSet, Expr, ExprV, Operator};
use crate::facts;
use crate::facts::{ErrorKind, ErrorV, SqlError};
use crate::params::Params;
use crate::schema;
use crate::schema::{Column, ColumnV, Schema, SchemaV};
use crate::text;
use crate::value::{DataType, DbKey, DbValue, KeyV, ValueV};
use vstd::prelude::*;
use vstd::string::*;

verus! {

/// How two sides of a join are combined.
#[derive(Clone, Copy, Debug, PartialEq, Eq, Structural)]
pub enum JoinType {
    Inner,
    Left,
    Cross,
}

/// The set operations.
#[derive(Clone, Copy, Debug, PartialEq, Eq, Structural)]
pub enum SetOpType {
    Union,
    Intersect,
    Except,
}

/// A bound of a key range: a key, or a parameter that will be bound to one.
#[derive(Debug, PartialEq)]
pub enum PlanKey {
    Value(DbKey),
    Parameter(String),
}

/// The model of a bound.
#[verifier::ext_equal]
pub enum PlanKeyV {
    Value(KeyV),
    Parameter(Seq<char>),
}

impl View for PlanKey {
    type V = PlanKeyV;

    open spec fn view(&self) -> PlanKeyV {
        match self {
            PlanKey::Value(k) => PlanKeyV::Value(k@),
            PlanKey::Parameter(name) => PlanKeyV::Parameter(name@),
        }
    }
}

impl Clone for PlanKey {
    fn clone(&self) -> (out: Self)
        ensures
            out@ == self@,
    {
        match self {
            PlanKey::Value(k) => PlanKey::Value(k.clone()),
            PlanKey::Parameter(name) => PlanKey::Parameter(name.clone()),
        }
    }
}

/// What a full-text scan looks for: a query to be matched, or tokens that all occur.
#[derive(Debug, PartialEq)]
pub enum FtsQuery {
    Match(String),
    AllTokens(Vec<String>),
}

/// The model of what a full-text scan looks for.
#[verifier::ext_equal]
pub enum FtsQueryV {
    Match(Seq<char>),
    AllTokens(Seq<Seq<char>>),
}

impl View for FtsQuery {
    type V = FtsQueryV;

    open spec fn view(&self) -> FtsQueryV {
        match self {
            FtsQuery::Match(q) => FtsQueryV::Match(q@),
            FtsQuery::AllTokens(ts) => FtsQueryV::AllTokens(text::views(ts@)),
        }
    }
}

impl Clone for FtsQuery {
    fn clone(&self) -> (out: Self)
        ensures
            out@ == self@,
    {
        match self {
            FtsQuery::Match(q) => FtsQuery::Match(q.clone()),
            FtsQuery::AllTokens(ts) => FtsQuery::AllTokens(text::copy_strings(ts)),
        }
    }
}

/// The aggregate functions.
///
/// `distinct` says that equal inputs count once. It has no effect on the smallest and the
/// largest value.
#[derive(Debug, PartialEq)]
pub enum AggregateExpr {
    Count { expr: Expr, distinct: bool },
    Sum { expr: Expr, distinct: bool },
    Min { expr: Expr, distinct: bool },
    Max { expr: Expr, distinct: bool },
    Avg { expr: Expr, distinct: bool },
}

/// The model of an aggregate function.
#[verifier::ext_equal]
pub enum AggregateV {
    Count { expr: ExprV, distinct: bool },
    Sum { expr: ExprV, distinct: bool },
    Min { expr: ExprV, distinct: bool },
    Max { expr: ExprV, distinct: bool },
    Avg { expr: ExprV, distinct: bool },
}

/// A logical plan.
#[derive(Debug, PartialEq)]
pub enum LogicalPlan {
    Scan { table_name: String, schema: Schema, range: Option<(PlanKey, PlanKey)> },
    IndexScan {
        table_name: String,
        index_name: String,
        schema: Schema,
        range: Option<(PlanKey, PlanKey)>,
    },
    FullTextScan { table_name: String, index_name: String, schema: Schema, query: FtsQuery },
    Filter { source: Box<LogicalPlan>, predicate: Expr },
    Projection {
        source: Box<LogicalPlan>,
        expressions: Vec<Expr>,
        field_names: Vec<String>,
        schema: Schema,
    },
    Join {
        left: Box<LogicalPlan>,
        right: Box<LogicalPlan>,
        condition: Expr,
        join_type: JoinType,
        schema: Schema,
    },
    Aggregate {
        source: Box<LogicalPlan>,
        group_by: Vec<Expr>,
        aggrs: Vec<AggregateExpr>,
        field_names: Vec<String>,
        schema: Schema,
    },
    /// Sorted by the keys in turn; `true` is ascending.
    Sort { source: Box<LogicalPlan>, keys: Vec<(Expr, bool)> },
    Limit { source: Box<LogicalPlan>, limit: Option<usize>, offset: usize },
    SetOp { left: Box<LogicalPlan>, right: Box<LogicalPlan>, op: SetOpType, all: bool },
    Distinct { source: Box<LogicalPlan> },
}

/// The model of a key range.
pub open spec fn range_view(r: Option<(PlanKey, PlanKey)>) -> Option<(PlanKeyV, PlanKeyV)> {
    match r {
        Some(b) => Some((b.0@, b.1@)),
        None => None,
    }
}

/// The model of a logical plan.
#[verifier::ext_equal]
pub enum PlanV {
    Scan { table_name: Seq<char>, schema: SchemaV, range: Option<(PlanKeyV, PlanKeyV)> },
    IndexScan {
        table_name: Seq<char>,
        index_name: Seq<char>,
        schema: SchemaV,
        range: Option<(PlanKeyV, PlanKeyV)>,
    },
    FullTextScan { table_name: Seq<char>, index_name: Seq<char>, schema: SchemaV, query: FtsQueryV },
    Filter { source: Box<PlanV>, predicate: ExprV },
    Projection {
        source: Box<PlanV>,
        expressions: Seq<ExprV>,
        field_names: Seq<Seq<char>>,
        schema: SchemaV,
    },
    Join {
        left: Box<PlanV>,
        right: Box<PlanV>,
        condition: ExprV,
        join_type: JoinType,
        schema: SchemaV,
    },
    Aggregate {
        source: Box<PlanV>,
        group_by: Seq<ExprV>,
        aggrs: Seq<AggregateV>,
        field_names: Seq<Seq<char>>,
        schema: SchemaV,
    },
    Sort { source: Box<PlanV>, keys: Seq<(ExprV, bool)> },
    Limit { source: Box<PlanV>, limit: Option<usize>, offset: usize },
    SetOp { left: Box<PlanV>, right: Box<PlanV>, op: SetOpType, all: bool },
    Distinct { source: Box<PlanV> },
}

impl AggregateExpr {
    /// The model of the aggregate function.
    pub open spec fn view(&self) -> AggregateV
        decreases self,
    {
        match self {
            AggregateExpr::Count { expr, distinct } => AggregateV::Count { expr: expr.view(), distinct: *distinct },
            AggregateExpr::Sum { expr, distinct } => AggregateV::Sum { expr: expr.view(), distinct: *distinct },
            AggregateExpr::Min { expr, distinct } => AggregateV::Min { expr: expr.view(), distinct: *distinct },
            AggregateExpr::Max { expr, distinct } => AggregateV::Max { expr: expr.view(), distinct: *distinct },
            AggregateExpr::Avg { expr, distinct } => AggregateV::Avg { expr: expr.view(), distinct: *distinct },
        }
    }
}

/// The models of a sequence of aggregate functions.
pub open spec fn aggrs_view(s: Seq<AggregateExpr>) -> Seq<AggregateV>
    decreases s,
{
    Seq::new(
        s.len(),
        |i: int|
            if 0 <= i < s.len() {
                s[i].view()
            } else {
                arbitrary()
            },
    )
}

/// The models of a sequence of sort keys.
pub open spec fn sort_keys_view(s: Seq<(Expr, bool)>) -> Seq<(ExprV, bool)>
    decreases s,
{
    Seq::new(
        s.len(),
        |i: int|
            if 0 <= i < s.len() {
                (s[i].0.view(), s[i].1)
            } else {
                arbitrary()
            },
    )
}

impl LogicalPlan {
    /// The model of the plan.
    pub open spec fn view(&self) -> PlanV
        decreases self,
    {
        match self {
            LogicalPlan::Scan { table_name, schema, range } => PlanV::Scan {
                table_name: table_name@,
                schema: schema@,
                range: range_view(*range),
            },
            LogicalPlan::IndexScan { table_name, index_name, schema, range } => PlanV::IndexScan {
                table_name: table_name@,
                index_name: index_name@,
                schema: schema@,
                range: range_view(*range),
            },
            LogicalPlan::FullTextScan { table_name, index_name, schema, query } => PlanV::FullTextScan {
                table_name: table_name@,
                index_name: index_name@,
                schema: schema@,
                query: query@,
            },
            LogicalPlan::Filter { source, predicate } => PlanV::Filter {
                source: Box::new(source.view()),
                predicate: predicate.view(),
            },
            LogicalPlan::Projection { source, expressions, field_names, schema } => PlanV::Projection {
                source: Box::new(source.view()),
                expressions: expr::exprs_view(expressions@),
                field_names: text::views(field_names@),
                schema: schema@,
            },
            LogicalPlan::Join { left, right, condition, join_type, schema } => PlanV::Join {
                left: Box::new(left.view()),
                right: Box::new(right.view()),
                condition: condition.view(),
                join_type: *join_type,
                schema: schema@,
            },
            LogicalPlan::Aggregate { source, group_by, aggrs, field_names, schema } => PlanV::Aggregate {
                source: Box::new(source.view()),
                group_by: expr::exprs_view(group_by@),
                aggrs: aggrs_view(aggrs@),
                field_names: text::views(field_names@),
                schema: schema@,
            },
            LogicalPlan::Sort { source, keys } => PlanV::Sort {
                source: Box::new(source.view()),
                keys: sort_keys_view(keys@),
            },
            LogicalPlan::Limit { source, limit, offset } => PlanV::Limit {
                source: Box::new(source.view()),
                limit: *limit,
                offset: *offset,
            },
            LogicalPlan::SetOp { left, right, op, all } => PlanV::SetOp {
                left: Box::new(left.view()),
                right: Box::new(right.view()),
                op: *op,
                all: *all,
            },
            LogicalPlan::Distinct { source } => PlanV::Distinct { source: Box::new(source.view()) },
        }
    }
}

/// The model of an outcome that is a plan.
pub open spec fn plan_result(r: Result<LogicalPlan, SqlError>) -> Result<PlanV, ErrorV> {
    match r {
        Ok(p) => Ok(p@),
        Err(e) => Err(e@),
    }
}

// ---------------------------------------------------------------- copies

/// A copy of a key range.
pub fn copy_range(r: &Option<(PlanKey, PlanKey)>) -> (out: Option<(PlanKey, PlanKey)>)
    ensures
        range_view(out) == range_view(*r),
{
    match r {
        Some((a, b)) => Some((a.clone(), b.clone())),
        None => None,
    }
}

impl AggregateExpr {
    /// A copy of the aggregate function.
    pub fn copy(&self) -> (out: AggregateExpr)
        ensures
            out@ == self@,
        decreases self,
    {
        match self {
            AggregateExpr::Count { expr, distinct } => AggregateExpr::Count {
                expr: expr.copy(),
                distinct: *distinct,
            },
            AggregateExpr::Sum { expr, distinct } => AggregateExpr::Sum { expr: expr.copy(), distinct: *distinct },
            AggregateExpr::Min { expr, distinct } => AggregateExpr::Min { expr: expr.copy(), distinct: *distinct },
            AggregateExpr::Max { expr, distinct } => AggregateExpr::Max { expr: expr.copy(), distinct: *distinct },
            AggregateExpr::Avg { expr, distinct } => AggregateExpr::Avg { expr: expr.copy(), distinct: *distinct },
        }
    }
}

/// A copy of a list of aggregate functions.
pub fn copy_aggrs(s: &Vec<AggregateExpr>) -> (out: Vec<AggregateExpr>)
    ensures
        aggrs_view(out@) == aggrs_view(s@),
    decreases s,
{
    let mut out: Vec<AggregateExpr> = Vec::new();
    for i in 0..s.len()
        invariant
            out@.len() == i,
            forall|j: int| 0 <= j < i ==> (#[trigger] out@[j])@ == s@[j]@,
            decreases_to!(s => s@),
    {
        out.push(s[i].copy());
    }
    assert(aggrs_view(out@) =~= aggrs_view(s@));
    out
}

/// A copy of a list of sort keys.
pub fn copy_sort_keys(s: &Vec<(Expr, bool)>) -> (out: Vec<(Expr, bool)>)
    ensures
        sort_keys_view(out@) == sort_keys_view(s@),
    decreases s,
{
    let mut out: Vec<(Expr, bool)> = Vec::new();
    for i in 0..s.len()
        invariant
            out@.len() == i,
            forall|j: int| 0 <= j < i ==> (#[trigger] out@[j]).0@ == s@[j].0@ && out@[j].1 == s@[j].1,
            decreases_to!(s => s@),
    {
        assert(decreases_to!(s@ => s@[i as int]));
        out.push((s[i].0.copy(), s[i].1));
    }
    assert(sort_keys_view(out@) =~= sort_keys_view(s@));
    out
}

impl LogicalPlan {
    /// A copy of the plan.
    pub fn copy(&self) -> (out: LogicalPlan)
        ensures
            out@ == self@,
        decreases self,
    {
        match self {
            LogicalPlan::Scan { table_name, schema, range } => LogicalPlan::Scan {
                table_name: table_name.clone(),
                schema: schema.clone(),
                range: copy_range(range),
            },
            LogicalPlan::IndexScan { table_name, index_name, schema, range } => LogicalPlan::IndexScan {
                table_name: table_name.clone(),
                index_name: index_name.clone(),
                schema: schema.clone(),
                range: copy_range(range),
            },
            LogicalPlan::FullTextScan { table_name, index_name, schema, query } => LogicalPlan::FullTextScan {
                table_name: table_name.clone(),
                index_name: index_name.clone(),
                schema: schema.clone(),
                query: query.clone(),
            },
            LogicalPlan::Filter { source, predicate } => LogicalPlan::Filter {
                source: Box::new(source.copy()),
                predicate: predicate.copy(),
            },
            LogicalPlan::Projection { source, expressions, field_names, schema } => LogicalPlan::Projection {
                source: Box::new(source.copy()),
                expressions: expr::copy_exprs(expressions),
                field_names: text::copy_strings(field_names),
                schema: schema.clone(),
            },
            LogicalPlan::Join { left, right, condition, join_type, schema } => LogicalPlan::Join {
                left: Box::new(left.copy()),
                right: Box::new(right.copy()),
                condition: condition.copy(),
                join_type: *join_type,
                schema: schema.clone(),
            },
            LogicalPlan::Aggregate { source, group_by, aggrs, field_names, schema } => LogicalPlan::Aggregate {
                source: Box::new(source.copy()),
                group_by: expr::copy_exprs(group_by),
                aggrs: copy_aggrs(aggrs),
                field_names: text::copy_strings(field_names),
                schema: schema.clone(),
            },
            LogicalPlan::Sort { source, keys } => LogicalPlan::Sort {
                source: Box::new(source.copy()),
                keys: copy_sort_keys(keys),
            },
            LogicalPlan::Limit { source, limit, offset } => LogicalPlan::Limit {
                source: Box::new(source.copy()),
                limit: *limit,
                offset: *offset,
            },
            LogicalPlan::SetOp { left, right, op, all } => LogicalPlan::SetOp {
                left: Box::new(left.copy()),
                right: Box::new(right.copy()),
                op: *op,
                all: *all,
            },
            LogicalPlan::Distinct { source } => LogicalPlan::Distinct { source: Box::new(source.copy()) },
        }
    }
}

impl Clone for LogicalPlan {
    fn clone(&self) -> (out: Self)
        ensures
            out@ == self@,
    {
        self.copy()
    }
}

// ---------------------------------------------------------------- columns

/// The argument of an aggregate function.
pub open spec fn aggr_arg(a: AggregateV) -> ExprV {
    match a {
        AggregateV::Count { expr, .. } => expr,
        AggregateV::Sum { expr, .. } => expr,
        AggregateV::Min { expr, .. } => expr,
        AggregateV::Max { expr, .. } => expr,
        AggregateV::Avg { expr, .. } => expr,
    }
}

/// The aggregate function with another argument.
pub open spec fn with_arg(a: AggregateV, e: ExprV) -> AggregateV {
    match a {
        AggregateV::Count { distinct, .. } => AggregateV::Count { expr: e, distinct },
        AggregateV::Sum { distinct, .. } => AggregateV::Sum { expr: e, distinct },
        AggregateV::Min { distinct, .. } => AggregateV::Min { expr: e, distinct },
        AggregateV::Max { distinct, .. } => AggregateV::Max { expr: e, distinct },
        AggregateV::Avg { distinct, .. } => AggregateV::Avg { expr: e, distinct },
    }
}

impl AggregateExpr {
    /// The argument of the aggregate function.
    pub fn arg(&self) -> (out: &Expr)
        ensures
            out@ == aggr_arg(self@),
            decreases_to!(self => out),
    {
        match self {
            AggregateExpr::Count { expr, .. } => expr,
            AggregateExpr::Sum { expr, .. } => expr,
            AggregateExpr::Min { expr, .. } => expr,
            AggregateExpr::Max { expr, .. } => expr,
            AggregateExpr::Avg { expr, .. } => expr,
        }
    }

    /// The aggregate function with another argument.
    pub fn replace_arg(&self, e: Expr) -> (out: AggregateExpr)
        ensures
            out@ == with_arg(self@, e@),
    {
        match self {
            AggregateExpr::Count { distinct, .. } => AggregateExpr::Count { expr: e, distinct: *distinct },
            AggregateExpr::Sum { distinct, .. } => AggregateExpr::Sum { expr: e, distinct: *distinct },
            AggregateExpr::Min { distinct, .. } => AggregateExpr::Min { expr: e, distinct: *distinct },
            AggregateExpr::Max { distinct, .. } => AggregateExpr::Max { expr: e, distinct: *distinct },
            AggregateExpr::Avg { distinct, .. } => AggregateExpr::Avg { expr: e, distinct: *distinct },
        }
    }
}

/// The names of the columns a plan refers to in its expressions.
pub open spec fn plan_columns(p: PlanV) -> Set<Seq<char>>
    decreases p,
{
    match p {
        PlanV::Scan { .. } => Set::empty(),
        PlanV::IndexScan { .. } => Set::empty(),
        PlanV::FullTextScan { .. } => Set::empty(),
        PlanV::Filter { source, predicate } => expr::expr_columns(predicate) + plan_columns(*source),
        PlanV::Projection { source, expressions, .. } => expr::exprs_columns(expressions) + plan_columns(*source),
        PlanV::Join { left, right, condition, .. } => expr::expr_columns(condition) + plan_columns(*left)
            + plan_columns(*right),
        PlanV::Aggregate { source, group_by, aggrs, .. } => expr::exprs_columns(group_by) + aggrs_columns(aggrs)
            + plan_columns(*source),
        PlanV::Sort { source, keys } => sort_keys_columns(keys) + plan_columns(*source),
        PlanV::Limit { source, .. } => plan_columns(*source),
        PlanV::SetOp { left, right, .. } => plan_columns(*left) + plan_columns(*right),
        PlanV::Distinct { source } => plan_columns(*source),
    }
}

/// The names of the columns that aggregate functions refer to.
pub open spec fn aggrs_columns(s: Seq<AggregateV>) -> Set<Seq<char>>
    decreases s,
{
    if s.len() == 0 {
        Set::empty()
    } else {
        aggrs_columns(s.drop_last()) + (match s.last() {
            AggregateV::Count { expr, .. } => expr::expr_columns(expr),
            AggregateV::Sum { expr, .. } => expr::expr_columns(expr),
            AggregateV::Min { expr, .. } => expr::expr_columns(expr),
            AggregateV::Max { expr, .. } => expr::expr_columns(expr),
            AggregateV::Avg { expr, .. } => expr::expr_columns(expr),
        })
    }
}

/// The names of the columns that sort keys refer to.
pub open spec fn sort_keys_columns(s: Seq<(ExprV, bool)>) -> Set<Seq<char>>
    decreases s,
{
    if s.len() == 0 {
        Set::empty()
    } else {
        sort_keys_columns(s.drop_last()) + expr::expr_columns(s.last().0)
    }
}

/// Adds the names of the columns that aggregate functions refer to.
pub fn collect_aggrs_columns(s: &Vec<AggregateExpr>, columns: &mut ColumnSet)
    ensures
        expr::adds(*old(columns), *final(columns), aggrs_columns(aggrs_view(s@))),
    decreases s,
{
    let ghost v = aggrs_view(s@);
    for i in 0..s.len()
        invariant
            v == aggrs_view(s@),
            expr::adds(*old(columns), *columns, aggrs_columns(v.take(i as int))),
            decreases_to!(s => s@),
    {
        assert(decreases_to!(s@ => s@[i as int]));
        s[i].arg().collect_columns(columns);
        assert(v.take(i + 1).drop_last() =~= v.take(i as int));
    }
    assert(v.take(s@.len() as int) =~= v);
}

/// Adds the names of the columns that sort keys refer to.
pub fn collect_sort_keys_columns(s: &Vec<(Expr, bool)>, columns: &mut ColumnSet)
    ensures
        expr::adds(*old(columns), *final(columns), sort_keys_columns(sort_keys_view(s@))),
    decreases s,
{
    let ghost v = sort_keys_view(s@);
    for i in 0..s.len()
        invariant
            v == sort_keys_view(s@),
            expr::adds(*old(columns), *columns, sort_keys_columns(v.take(i as int))),
            decreases_to!(s => s@),
    {
        assert(decreases_to!(s@ => s@[i as int]));
        s[i].0.collect_columns(columns);
        assert(v.take(i + 1).drop_last() =~= v.take(i as int));
    }
    assert(v.take(s@.len() as int) =~= v);
}

impl LogicalPlan {
    /// Adds the names of the columns the plan refers to.
    pub fn collect_columns(&self, columns: &mut ColumnSet)
        ensures
            expr::adds(*old(columns), *final(columns), plan_columns(self@)),
        decreases self,
    {
        match self {
            LogicalPlan::Scan { .. } => {},
            LogicalPlan::IndexScan { .. } => {},
            LogicalPlan::FullTextScan { .. } => {},
            LogicalPlan::Filter { source, predicate } => {
                predicate.collect_columns(columns);
                source.collect_columns(columns);
            },
            LogicalPlan::Projection { source, expressions, .. } => {
                expr::collect_list_columns(expressions, columns);
                source.collect_columns(columns);
            },
            LogicalPlan::Join { left, right, condition, .. } => {
                condition.collect_columns(columns);
                left.collect_columns(columns);
                right.collect_columns(columns);
            },
            LogicalPlan::Aggregate { source, group_by, aggrs, .. } => {
                expr::collect_list_columns(group_by, columns);
                collect_aggrs_columns(aggrs, columns);
                source.collect_columns(columns);
            },
            LogicalPlan::Sort { source, keys } => {
                collect_sort_keys_columns(keys, columns);
                source.collect_columns(columns);
            },
            LogicalPlan::Limit { source, .. } => {
                source.collect_columns(columns);
            },
            LogicalPlan::SetOp { left, right, .. } => {
                left.collect_columns(columns);
                right.collect_columns(columns);
            },
            LogicalPlan::Distinct { source } => {
                source.collect_columns(columns);
            },
        }
    }
}

// ---------------------------------------------------------------- parameters

/// The bound with its parameter replaced by its value, which must be an integer or a
/// text.
pub open spec fn substituted_key(k: PlanKeyV, ps: Map<Seq<char>, ValueV>) -> Result<PlanKeyV, ErrorV> {
    match k {
        PlanKeyV::Value(_) => Ok(k),
        PlanKeyV::Parameter(name) => if !ps.contains_key(name) {
            Err(facts::named_error(ErrorKind::UnboundParameter, name))
        } else {
            match ps[name] {
                ValueV::Int(i) => Ok(PlanKeyV::Value(KeyV::Int(i))),
                ValueV::String(s) => Ok(PlanKeyV::Value(KeyV::String(s))),
                _ => Err(facts::named_error(ErrorKind::KeyParameterType, name)),
            }
        },
    }
}

/// The key range with its parameters replaced by their values.
pub open spec fn substituted_range(r: Option<(PlanKeyV, PlanKeyV)>, ps: Map<Seq<char>, ValueV>) -> Result<
    Option<(PlanKeyV, PlanKeyV)>,
    ErrorV,
> {
    match r {
        None => Ok(None),
        Some((start, end)) => match substituted_key(start, ps) {
            Err(x) => Err(x),
            Ok(a) => match substituted_key(end, ps) {
                Err(x) => Err(x),
                Ok(b) => Ok(Some((a, b))),
            },
        },
    }
}

/// The plan with every parameter replaced by its value.
pub open spec fn substituted_plan(p: PlanV, ps: Map<Seq<char>, ValueV>) -> Result<PlanV, ErrorV>
    decreases p,
{
    match p {
        PlanV::Scan { table_name, schema, range } => match substituted_range(range, ps) {
            Err(x) => Err(x),
            Ok(r) => Ok(PlanV::Scan { table_name, schema, range: r }),
        },
        PlanV::IndexScan { table_name, index_name, schema, range } => match substituted_range(range, ps) {
            Err(x) => Err(x),
            Ok(r) => Ok(PlanV::IndexScan { table_name, index_name, schema, range: r }),
        },
        PlanV::FullTextScan { .. } => Ok(p),
        PlanV::Filter { source, predicate } => match substituted_plan(*source, ps) {
            Err(x) => Err(x),
            Ok(s) => match expr::substituted(predicate, ps) {
                Err(x) => Err(x),
                Ok(e) => Ok(PlanV::Filter { source: Box::new(s), predicate: e }),
            },
        },
        PlanV::Projection { source, expressions, field_names, schema } => match substituted_plan(*source, ps) {
            Err(x) => Err(x),
            Ok(s) => match facts::collected(expr::substituted_each(expressions, ps), 0, Seq::empty()) {
                Err(x) => Err(x),
                Ok(es) => Ok(PlanV::Projection { source: Box::new(s), expressions: es, field_names, schema }),
            },
        },
        PlanV::Join { left, right, condition, join_type, schema } => match substituted_plan(*left, ps) {
            Err(x) => Err(x),
            Ok(l) => match substituted_plan(*right, ps) {
                Err(x) => Err(x),
                Ok(r) => match expr::substituted(condition, ps) {
                    Err(x) => Err(x),
                    Ok(c) => Ok(
                        PlanV::Join { left: Box::new(l), right: Box::new(r), condition: c, join_type, schema },
                    ),
                },
            },
        },
        PlanV::Aggregate { source, group_by, aggrs, field_names, schema } => match substituted_plan(*source, ps) {
            Err(x) => Err(x),
            Ok(s) => match facts::collected(expr::substituted_each(group_by, ps), 0, Seq::empty()) {
                Err(x) => Err(x),
                Ok(g) => match facts::collected(substituted_aggrs(aggrs, ps), 0, Seq::empty()) {
                    Err(x) => Err(x),
                    Ok(a) => Ok(
                        PlanV::Aggregate { source: Box::new(s), group_by: g, aggrs: a, field_names, schema },
                    ),
                },
            },
        },
        PlanV::Sort { source, keys } => match substituted_plan(*source, ps) {
            Err(x) => Err(x),
            Ok(s) => match facts::collected(substituted_keys(keys, ps), 0, Seq::empty()) {
                Err(x) => Err(x),
                Ok(k) => Ok(PlanV::Sort { source: Box::new(s), keys: k }),
            },
        },
        PlanV::Limit { source, limit, offset } => match substituted_plan(*source, ps) {
            Err(x) => Err(x),
            Ok(s) => Ok(PlanV::Limit { source: Box::new(s), limit, offset }),
        },
        PlanV::SetOp { left, right, op, all } => match substituted_plan(*left, ps) {
            Err(x) => Err(x),
            Ok(l) => match substituted_plan(*right, ps) {
                Err(x) => Err(x),
                Ok(r) => Ok(PlanV::SetOp { left: Box::new(l), right: Box::new(r), op, all }),
            },
        },
        PlanV::Distinct { source } => match substituted_plan(*source, ps) {
            Err(x) => Err(x),
            Ok(s) => Ok(PlanV::Distinct { source: Box::new(s) }),
        },
    }
}

/// The outcome of replacing the parameters of an aggregate function.
pub open spec fn substituted_aggr(a: AggregateV, ps: Map<Seq<char>, ValueV>) -> Result<AggregateV, ErrorV>
    decreases a,
{
    let r = match a {
        AggregateV::Count { expr, .. } => expr::substituted(expr, ps),
        AggregateV::Sum { expr, .. } => expr::substituted(expr, ps),
        AggregateV::Min { expr, .. } => expr::substituted(expr, ps),
        AggregateV::Max { expr, .. } => expr::substituted(expr, ps),
        AggregateV::Avg { expr, .. } => expr::substituted(expr, ps),
    };
    match r {
        Err(x) => Err(x),
        Ok(e) => Ok(with_arg(a, e)),
    }
}

/// The outcomes of replacing the parameters of aggregate functions.
pub open spec fn substituted_aggrs(s: Seq<AggregateV>, ps: Map<Seq<char>, ValueV>) -> Seq<
    Result<AggregateV, ErrorV>,
>
    decreases s,
{
    Seq::new(
        s.len(),
        |i: int|
            if 0 <= i < s.len() {
                substituted_aggr(s[i], ps)
            } else {
                arbitrary()
            },
    )
}

/// The outcomes of replacing the parameters of sort keys.
pub open spec fn substituted_keys(s: Seq<(ExprV, bool)>, ps: Map<Seq<char>, ValueV>) -> Seq<
    Result<(ExprV, bool), ErrorV>,
>
    decreases s,
{
    Seq::new(
        s.len(),
        |i: int|
            if 0 <= i < s.len() {
                match expr::substituted(s[i].0, ps) {
                    Ok(e) => Ok((e, s[i].1)),
                    Err(x) => Err(x),
                }
            } else {
                arbitrary()
            },
    )
}

impl PlanKey {
    /// The bound with its parameter replaced by its value.
    pub fn with_params(&self, ps: &Params) -> (out: Result<PlanKey, SqlError>)
        ensures
            match out {
                Ok(k) => substituted_key(self@, ps@) == Ok::<PlanKeyV, ErrorV>(k@),
                Err(e) => substituted_key(self@, ps@) == Err::<PlanKeyV, ErrorV>(e@),
            },
    {
        match self {
            PlanKey::Value(k) => Ok(PlanKey::Value(k.clone())),
            PlanKey::Parameter(name) => match ps.get(name.as_str()) {
                None => Err(SqlError::named(ErrorKind::UnboundParameter, name.as_str())),
                Some(DbValue::Int(i)) => Ok(PlanKey::Value(DbKey::Int(*i))),
                Some(DbValue::String(s)) => Ok(PlanKey::Value(DbKey::String(s.clone()))),
                Some(_) => Err(SqlError::named(ErrorKind::KeyParameterType, name.as_str())),
            },
        }
    }
}

/// The key range with its parameters replaced by their values.
fn range_with_params(r: &Option<(PlanKey, PlanKey)>, ps: &Params) -> (out: Result<
    Option<(PlanKey, PlanKey)>,
    SqlError,
>)
    ensures
        match out {
            Ok(k) => substituted_range(range_view(*r), ps@) == Ok::<Option<(PlanKeyV, PlanKeyV)>, ErrorV>(
                range_view(k),
            ),
            Err(e) => substituted_range(range_view(*r), ps@) == Err::<Option<(PlanKeyV, PlanKeyV)>, ErrorV>(e@),
        },
{
    match r {
        None => Ok(None),
        Some((start, end)) => {
            let a = start.with_params(ps)?;
            let b = end.with_params(ps)?;
            Ok(Some((a, b)))
        },
    }
}

/// The aggregate functions with every parameter replaced by its value.
pub fn aggrs_with_params(s: &Vec<AggregateExpr>, ps: &Params) -> (out: Result<Vec<AggregateExpr>, SqlError>)
    ensures
        match out {
            Ok(k) => facts::collected(substituted_aggrs(aggrs_view(s@), ps@), 0, Seq::empty()) == Ok::<
                Seq<AggregateV>,
                ErrorV,
            >(aggrs_view(k@)),
            Err(e) => facts::collected(substituted_aggrs(aggrs_view(s@), ps@), 0, Seq::empty()) == Err::<
                Seq<AggregateV>,
                ErrorV,
            >(e@),
        },
    decreases s,
{
    let mut out: Vec<AggregateExpr> = Vec::new();
    let ghost rs = substituted_aggrs(aggrs_view(s@), ps@);
    assert(aggrs_view(out@) =~= Seq::empty());
    for i in 0..s.len()
        invariant
            rs == substituted_aggrs(aggrs_view(s@), ps@),
            facts::collected(rs, 0, Seq::empty()) == facts::collected(rs, i as int, aggrs_view(out@)),
            decreases_to!(s => s@),
    {
        let ghost before = aggrs_view(out@);
        assert(decreases_to!(s@ => s@[i as int]));
        let e = s[i].arg().with_params(ps)?;
        let a = s[i].replace_arg(e);
        out.push(a);
        assert(aggrs_view(out@) =~= before.push(a@));
    }
    Ok(out)
}

/// The sort keys with every parameter replaced by its value.
pub fn sort_keys_with_params(s: &Vec<(Expr, bool)>, ps: &Params) -> (out: Result<Vec<(Expr, bool)>, SqlError>)
    ensures
        match out {
            Ok(k) => facts::collected(substituted_keys(sort_keys_view(s@), ps@), 0, Seq::empty()) == Ok::<
                Seq<(ExprV, bool)>,
                ErrorV,
            >(sort_keys_view(k@)),
            Err(e) => facts::collected(substituted_keys(sort_keys_view(s@), ps@), 0, Seq::empty()) == Err::<
                Seq<(ExprV, bool)>,
                ErrorV,
            >(e@),
        },
    decreases s,
{
    let mut out: Vec<(Expr, bool)> = Vec::new();
    let ghost rs = substituted_keys(sort_keys_view(s@), ps@);
    assert(sort_keys_view(out@) =~= Seq::empty());
    for i in 0..s.len()
        invariant
            rs == substituted_keys(sort_keys_view(s@), ps@),
            facts::collected(rs, 0, Seq::empty()) == facts::collected(rs, i as int, sort_keys_view(out@)),
            decreases_to!(s => s@),
    {
        let ghost before = sort_keys_view(out@);
        assert(decreases_to!(s@ => s@[i as int]));
        let e = s[i].0.with_params(ps)?;
        out.push((e, s[i].1));
        assert(sort_keys_view(out@) =~= before.push((e@, s@[i as int].1)));
    }
    Ok(out)
}

impl LogicalPlan {
    /// The plan with every parameter replaced by its value.
    pub fn with_params(&self, ps: &Params) -> (out: Result<LogicalPlan, SqlError>)
        ensures
            plan_result(out) == substituted_plan(self@, ps@),
        decreases self,
    {
        match self {
            LogicalPlan::Scan { table_name, schema, range } => {
                let range = range_with_params(range, ps)?;
                Ok(LogicalPlan::Scan { table_name: table_name.clone(), schema: schema.clone(), range })
            },
            LogicalPlan::IndexScan { table_name, index_name, schema, range } => {
                let range = range_with_params(range, ps)?;
                Ok(
                    LogicalPlan::IndexScan {
                        table_name: table_name.clone(),
                        index_name: index_name.clone(),
                        schema: schema.clone(),
                        range,
                    },
                )
            },
            LogicalPlan::FullTextScan { .. } => Ok(self.copy()),
            LogicalPlan::Filter { source, predicate } => {
                let source = source.with_params(ps)?;
                let predicate = predicate.with_params(ps)?;
                Ok(LogicalPlan::Filter { source: Box::new(source), predicate })
            },
            LogicalPlan::Projection { source, expressions, field_names, schema } => {
                let source = source.with_params(ps)?;
                let expressions = expr::list_with_params(expressions, ps)?;
                Ok(
                    LogicalPlan::Projection {
                        source: Box::new(source),
                        expressions,
                        field_names: text::copy_strings(field_names),
                        schema: schema.clone(),
                    },
                )
            },
            LogicalPlan::Join { left, right, condition, join_type, schema } => {
                let left = left.with_params(ps)?;
                let right = right.with_params(ps)?;
                let condition = condition.with_params(ps)?;
                Ok(
                    LogicalPlan::Join {
                        left: Box::new(left),
                        right: Box::new(right),
                        condition,
                        join_type: *join_type,
                        schema: schema.clone(),
                    },
                )
            },
            LogicalPlan::Aggregate { source, group_by, aggrs, field_names, schema } => {
                let source = source.with_params(ps)?;
                let group_by = expr::list_with_params(group_by, ps)?;
                let aggrs = aggrs_with_params(aggrs, ps)?;
                Ok(
                    LogicalPlan::Aggregate {
                        source: Box::new(source),
                        group_by,
                        aggrs,
                        field_names: text::copy_strings(field_names),
                        schema: schema.clone(),
                    },
                )
            },
            LogicalPlan::Sort { source, keys } => {
                let source = source.with_params(ps)?;
                let keys = sort_keys_with_params(keys, ps)?;
                Ok(LogicalPlan::Sort { source: Box::new(source), keys })
            },
            LogicalPlan::Limit { source, limit, offset } => {
                let source = source.with_params(ps)?;
                Ok(LogicalPlan::Limit { source: Box::new(source), limit: *limit, offset: *offset })
            },
            LogicalPlan::SetOp { left, right, op, all } => {
                let left = left.with_params(ps)?;
                let right = right.with_params(ps)?;
                Ok(LogicalPlan::SetOp { left: Box::new(left), right: Box::new(right), op: *op, all: *all })
            },
            LogicalPlan::Distinct { source } => {
                let source = source.with_params(ps)?;
                Ok(LogicalPlan::Distinct { source: Box::new(source) })
            },
        }
    }

    /// Replaces every parameter by its value. On an error the plan stays as it was.
    pub fn substitute_params(&mut self, ps: &Params) -> (out: Result<(), SqlError>)
        ensures
            match out {
                Ok(_) => substituted_plan(old(self)@, ps@) == Ok::<PlanV, ErrorV>(final(self)@),
                Err(e) => substituted_plan(old(self)@, ps@) == Err::<PlanV, ErrorV>(e@) && final(self)@
                    == old(self)@,
            },
    {
        match self.with_params(ps) {
            Ok(p) => {
                *self = p;
                Ok(())
            },
            Err(e) => Err(e),
        }
    }
}

// ---------------------------------------------------------------- schemas

/// The schema of the rows a plan gives.
pub open spec fn plan_schema(p: PlanV) -> SchemaV
    decreases p,
{
    match p {
        PlanV::Scan { schema, .. } => schema,
        PlanV::IndexScan { schema, .. } => schema,
        PlanV::FullTextScan { schema, .. } => schema,
        PlanV::Filter { source, .. } => plan_schema(*source),
        PlanV::Limit { source, .. } => plan_schema(*source),
        PlanV::Distinct { source } => plan_schema(*source),
        PlanV::Sort { source, .. } => plan_schema(*source),
        PlanV::Projection { schema, .. } => schema,
        PlanV::Join { schema, .. } => schema,
        PlanV::Aggregate { schema, .. } => schema,
        PlanV::SetOp { left, .. } => plan_schema(*left),
    }
}

/// The type of the column that `name` denotes, or `otherwise` where there is none.
pub open spec fn column_type(s: SchemaV, name: Seq<char>, otherwise: DataType) -> DataType {
    match schema::column_position(s.columns, name) {
        Some(i) => s.columns[i].data_type,
        None => otherwise,
    }
}

/// The type of a value.
pub open spec fn value_type(v: ValueV) -> DataType {
    match v {
        ValueV::Int(_) => DataType::Int,
        ValueV::Float(_) => DataType::Float,
        ValueV::String(_) => DataType::String,
        ValueV::Bytes(_) => DataType::Bytes,
        ValueV::Bool(_) => DataType::Bool,
        ValueV::Null => DataType::Null,
        ValueV::Date(_) => DataType::Date,
        ValueV::Time(_) => DataType::Time,
        ValueV::Timestamp(_) => DataType::Timestamp,
        ValueV::Decimal(_) => DataType::Decimal,
    }
}

/// The type an expression is taken to have. A parameter has none before it is bound.
pub open spec fn expr_type(e: ExprV, s: SchemaV) -> DataType
    decreases e,
{
    match e {
        ExprV::Literal(v) => value_type(v),
        ExprV::Column(name, _) => column_type(s, name, DataType::String),
        ExprV::BinaryOp { left, op, .. } => match op {
            Operator::Add => expr_type(*left, s),
            Operator::Sub => expr_type(*left, s),
            Operator::Mul => expr_type(*left, s),
            Operator::Div => expr_type(*left, s),
            _ => DataType::Int,
        },
        ExprV::Case { results, else_result, .. } => if results.len() > 0 {
            expr_type(results[0], s)
        } else {
            match else_result {
                Some(x) => expr_type(*x, s),
                None => DataType::Int,
            }
        },
        ExprV::Function { name, args } => {
            let upper = text::uppercased(name);
            if upper == "LENGTH"@ {
                DataType::Int
            } else if upper == "COALESCE"@ {
                if args.len() > 0 {
                    expr_type(args[0], s)
                } else {
                    DataType::Int
                }
            } else {
                DataType::String
            }
        },
        ExprV::Not(_) => DataType::Int,
        ExprV::IsNull(_) => DataType::Int,
        ExprV::InList { .. } => DataType::Int,
        ExprV::InSubquery { .. } => DataType::Int,
        ExprV::Exists { .. } => DataType::Int,
        ExprV::Match { .. } => DataType::Bool,
        ExprV::Parameter(_) => DataType::Null,
        ExprV::ScalarSubquery(_) => DataType::String,
        ExprV::Cast { target_type, .. } => target_type,
    }
}

/// The columns of a projection: as many as there are both expressions and names.
pub open spec fn projected_columns(es: Seq<ExprV>, names: Seq<Seq<char>>, s: SchemaV) -> Seq<ColumnV> {
    Seq::new(
        if es.len() < names.len() {
            es.len()
        } else {
            names.len()
        },
        |i: int| schema::plain_column(names[i], expr_type(es[i], s)),
    )
}

/// A projection of a plan.
pub open spec fn projection_of(source: PlanV, es: Seq<ExprV>, names: Seq<Seq<char>>) -> PlanV {
    PlanV::Projection {
        source: Box::new(source),
        expressions: es,
        field_names: names,
        schema: schema::schema_of(projected_columns(es, names, plan_schema(source))),
    }
}

/// A join of two plans: the columns of the left side, then those of the right.
pub open spec fn join_of(left: PlanV, right: PlanV, condition: ExprV, join_type: JoinType) -> PlanV {
    PlanV::Join {
        left: Box::new(left),
        right: Box::new(right),
        condition,
        join_type,
        schema: schema::schema_of(plan_schema(left).columns + plan_schema(right).columns),
    }
}

/// The type of a grouping expression.
pub open spec fn group_type(e: ExprV, s: SchemaV) -> DataType {
    match e {
        ExprV::Column(name, _) => column_type(s, name, DataType::String),
        _ => DataType::String,
    }
}

/// The type of an aggregate function: a count is an integer, an average a float, and
/// the others are of the type of their column.
pub open spec fn aggregate_type(a: AggregateV, s: SchemaV) -> DataType {
    match a {
        AggregateV::Count { .. } => DataType::Int,
        AggregateV::Avg { .. } => DataType::Float,
        _ => match aggr_arg(a) {
            ExprV::Column(name, _) => column_type(s, name, DataType::Float),
            _ => DataType::Float,
        },
    }
}

/// The columns of an aggregation: the grouping expressions, then the functions.
pub open spec fn aggregate_columns(
    group_by: Seq<ExprV>,
    aggrs: Seq<AggregateV>,
    names: Seq<Seq<char>>,
    s: SchemaV,
) -> Seq<ColumnV> {
    Seq::new(
        group_by.len() + aggrs.len(),
        |i: int|
            if i < group_by.len() {
                schema::plain_column(names[i], group_type(group_by[i], s))
            } else {
                schema::plain_column(names[i], aggregate_type(aggrs[i - group_by.len()], s))
            },
    )
}

/// An aggregation of a plan.
pub open spec fn aggregate_of(
    source: PlanV,
    group_by: Seq<ExprV>,
    aggrs: Seq<AggregateV>,
    names: Seq<Seq<char>>,
) -> PlanV {
    PlanV::Aggregate {
        source: Box::new(source),
        group_by,
        aggrs,
        field_names: names,
        schema: schema::schema_of(aggregate_columns(group_by, aggrs, names, plan_schema(source))),
    }
}

/// Whether every projection and aggregation of a plan has a name for each of its
/// columns.
pub open spec fn well_formed(p: PlanV) -> bool
    decreases p,
{
    match p {
        PlanV::Scan { .. } => true,
        PlanV::IndexScan { .. } => true,
        PlanV::FullTextScan { .. } => true,
        PlanV::Filter { source, .. } => well_formed(*source),
        PlanV::Limit { source, .. } => well_formed(*source),
        PlanV::Distinct { source } => well_formed(*source),
        PlanV::Sort { source, .. } => well_formed(*source),
        PlanV::Projection { source, expressions, field_names, .. } => well_formed(*source) && expressions.len()
            <= field_names.len(),
        PlanV::Join { left, right, .. } => well_formed(*left) && well_formed(*right),
        PlanV::Aggregate { source, group_by, aggrs, field_names, .. } => well_formed(*source) && group_by.len()
            + aggrs.len() <= field_names.len(),
        PlanV::SetOp { left, right, .. } => well_formed(*left) && well_formed(*right),
    }
}

/// The type of the column that `name` denotes, or `otherwise` where there is none.
fn type_of_column(s: &Schema, name: &str, otherwise: DataType) -> (out: DataType)
    ensures
        out == column_type(s@, name@, otherwise),
{
    match s.column_index(name) {
        Some(i) => s.columns[i].data_type,
        None => otherwise,
    }
}

/// The type an expression is taken to have.
pub fn infer_expr_type(e: &Expr, s: &Schema) -> (out: DataType)
    ensures
        out == expr_type(e@, s@),
    decreases e,
{
    match e {
        Expr::Literal(v) => match v {
            DbValue::Int(_) => DataType::Int,
            DbValue::Float(_) => DataType::Float,
            DbValue::String(_) => DataType::String,
            DbValue::Bytes(_) => DataType::Bytes,
            DbValue::Bool(_) => DataType::Bool,
            DbValue::Null => DataType::Null,
            DbValue::Date(_) => DataType::Date,
            DbValue::Time(_) => DataType::Time,
            DbValue::Timestamp(_) => DataType::Timestamp,
            DbValue::Decimal(_) => DataType::Decimal,
        },
        Expr::Column(name, _) => type_of_column(s, name.as_str(), DataType::String),
        Expr::BinaryOp { left, op, .. } => match op {
            Operator::Add | Operator::Sub | Operator::Mul | Operator::Div => infer_expr_type(left, s),
            _ => DataType::Int,
        },
        Expr::Case { results, else_result, .. } => {
            assert(expr::exprs_view(results@).len() == results@.len());
            assert(expr::opt_expr_view(*else_result) is Some == else_result is Some);
            if results.len() > 0 {
                assert(expr::exprs_view(results@)[0] == results@[0]@);
                assert(decreases_to!(results@ => results@[0]));
                return infer_expr_type(&results[0], s);
            }
            match else_result {
                Some(x) => infer_expr_type(x, s),
                None => DataType::Int,
            }
        },
        Expr::Function { name, args } => {
            let upper = text::to_uppercase(name.as_str());
            assert(expr::exprs_view(args@).len() == args@.len());
            if text::same_text(upper.as_str(), "LENGTH") {
                DataType::Int
            } else if text::same_text(upper.as_str(), "COALESCE") {
                if args.len() > 0 {
                    assert(expr::exprs_view(args@)[0] == args@[0]@);
                    assert(decreases_to!(args@ => args@[0]));
                    infer_expr_type(&args[0], s)
                } else {
                    DataType::Int
                }
            } else {
                DataType::String
            }
        },
        Expr::Not(_) => DataType::Int,
        Expr::IsNull(_) => DataType::Int,
        Expr::InList { .. } => DataType::Int,
        Expr::InSubquery { .. } => DataType::Int,
        Expr::Exists { .. } => DataType::Int,
        Expr::Match { .. } => DataType::Bool,
        Expr::Parameter(_) => DataType::Null,
        Expr::ScalarSubquery(_) => DataType::String,
        Expr::Cast { target_type, .. } => *target_type,
    }
}

impl LogicalPlan {
    /// The schema of the rows the plan gives.
    pub fn schema(&self) -> (out: Schema)
        ensures
            out@ == plan_schema(self@),
        decreases self,
    {
        match self {
            LogicalPlan::Scan { schema, .. } => schema.clone(),
            LogicalPlan::IndexScan { schema, .. } => schema.clone(),
            LogicalPlan::FullTextScan { schema, .. } => schema.clone(),
            LogicalPlan::Filter { source, .. } => source.schema(),
            LogicalPlan::Limit { source, .. } => source.schema(),
            LogicalPlan::Distinct { source } => source.schema(),
            LogicalPlan::Sort { source, .. } => source.schema(),
            LogicalPlan::Projection { schema, .. } => schema.clone(),
            LogicalPlan::Join { schema, .. } => schema.clone(),
            LogicalPlan::Aggregate { schema, .. } => schema.clone(),
            LogicalPlan::SetOp { left, .. } => left.schema(),
        }
    }

    /// Whether every projection and aggregation has a name for each of its columns.
    pub fn is_well_formed(&self) -> (out: bool)
        ensures
            out == well_formed(self@),
        decreases self,
    {
        match self {
            LogicalPlan::Scan { .. } => true,
            LogicalPlan::IndexScan { .. } => true,
            LogicalPlan::FullTextScan { .. } => true,
            LogicalPlan::Filter { source, .. } => source.is_well_formed(),
            LogicalPlan::Limit { source, .. } => source.is_well_formed(),
            LogicalPlan::Distinct { source } => source.is_well_formed(),
            LogicalPlan::Sort { source, .. } => source.is_well_formed(),
            LogicalPlan::Projection { source, expressions, field_names, .. } => {
                assert(expr::exprs_view(expressions@).len() == expressions@.len());
                source.is_well_formed() && expressions.len() <= field_names.len()
            },
            LogicalPlan::Join { left, right, .. } => left.is_well_formed() && right.is_well_formed(),
            LogicalPlan::Aggregate { source, group_by, aggrs, field_names, .. } => {
                assert(expr::exprs_view(group_by@).len() == group_by@.len());
                assert(aggrs_view(aggrs@).len() == aggrs@.len());
                source.is_well_formed() && group_by.len() <= field_names.len() && aggrs.len()
                    <= field_names.len() - group_by.len()
            },
            LogicalPlan::SetOp { left, right, .. } => left.is_well_formed() && right.is_well_formed(),
        }
    }

    /// A projection of a plan.
    pub fn new_projection(source: LogicalPlan, expressions: Vec<Expr>, field_names: Vec<String>) -> (out:
        LogicalPlan)
        ensures
            out@ == projection_of(source@, expr::exprs_view(expressions@), text::views(field_names@)),
    {
        let source_schema = source.schema();
        let n: usize = if expressions.len() < field_names.len() {
            expressions.len()
        } else {
            field_names.len()
        };
        let mut cols: Vec<Column> = Vec::new();
        for i in 0..n
            invariant
                n <= expressions@.len(),
                n <= field_names@.len(),
                cols@.len() == i,
                forall|j: int|
                    0 <= j < i ==> (#[trigger] cols@[j])@ == schema::plain_column(
                        field_names@[j]@,
                        expr_type(expressions@[j]@, source_schema@),
                    ),
        {
            let dt = infer_expr_type(&expressions[i], &source_schema);
            cols.push(Column::plain(field_names[i].as_str(), dt));
        }
        assert(schema::columns_view(cols@) =~= projected_columns(
            expr::exprs_view(expressions@),
            text::views(field_names@),
            source_schema@,
        ));
        let schema = Schema::new(cols);
        LogicalPlan::Projection { source: Box::new(source), expressions, field_names, schema }
    }

    /// A join of two plans.
    pub fn new_join(left: LogicalPlan, right: LogicalPlan, condition: Expr, join_type: JoinType) -> (out:
        LogicalPlan)
        ensures
            out@ == join_of(left@, right@, condition@, join_type),
    {
        let l = left.schema();
        let r = right.schema();
        let ghost lv = l@;
        let ghost rv = r@;
        let mut cols = l.columns;
        let mut more = r.columns;
        cols.append(&mut more);
        assert(schema::columns_view(cols@) =~= lv.columns + rv.columns);
        let schema = Schema::new(cols);
        LogicalPlan::Join { left: Box::new(left), right: Box::new(right), condition, join_type, schema }
    }

    /// An aggregation of a plan, with a name for each grouping expression and function.
    pub fn new_aggregate(
        source: LogicalPlan,
        group_by: Vec<Expr>,
        aggrs: Vec<AggregateExpr>,
        field_names: Vec<String>,
    ) -> (out: LogicalPlan)
        requires
            group_by@.len() + aggrs@.len() <= field_names@.len(),
        ensures
            out@ == aggregate_of(
                source@,
                expr::exprs_view(group_by@),
                aggrs_view(aggrs@),
                text::views(field_names@),
            ),
    {
        let source_schema = source.schema();
        let mut cols: Vec<Column> = Vec::new();
        let n = group_by.len();
        let names = field_names.len();
        for i in 0..n
            invariant
                n == group_by@.len(),
                n <= field_names@.len(),
                cols@.len() == i,
                forall|j: int|
                    0 <= j < i ==> (#[trigger] cols@[j])@ == schema::plain_column(
                        field_names@[j]@,
                        group_type(group_by@[j]@, source_schema@),
                    ),
        {
            let dt = match &group_by[i] {
                Expr::Column(name, _) => type_of_column(&source_schema, name.as_str(), DataType::String),
                _ => DataType::String,
            };
            cols.push(Column::plain(field_names[i].as_str(), dt));
        }
        for i in 0..aggrs.len()
            invariant
                n == group_by@.len(),
                names == field_names@.len(),
                n + aggrs@.len() <= names,
                cols@.len() == n + i,
                forall|j: int|
                    0 <= j < n ==> (#[trigger] cols@[j])@ == schema::plain_column(
                        field_names@[j]@,
                        group_type(group_by@[j]@, source_schema@),
                    ),
                forall|j: int|
                    n <= j < n + i ==> (#[trigger] cols@[j])@ == schema::plain_column(
                        field_names@[j]@,
                        aggregate_type(aggrs@[j - n]@, source_schema@),
                    ),
        {
            let dt = match &aggrs[i] {
                AggregateExpr::Count { .. } => DataType::Int,
                AggregateExpr::Avg { .. } => DataType::Float,
                other => match other.arg() {
                    Expr::Column(name, _) => type_of_column(&source_schema, name.as_str(), DataType::Float),
                    _ => DataType::Float,
                },
            };
            cols.push(Column::plain(field_names[n + i].as_str(), dt));
        }
        assert(schema::columns_view(cols@) =~= aggregate_columns(
            expr::exprs_view(group_by@),
            aggrs_view(aggrs@),
            text::views(field_names@),
            source_schema@,
        ));
        let schema = Schema::new(cols);
        LogicalPlan::Aggregate { source: Box::new(source), group_by, aggrs, field_names, schema }
    }
}

} // verus!
