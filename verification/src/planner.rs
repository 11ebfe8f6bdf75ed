//! Planning of queries and statements.

use crate::syntax;
use crate::syntax::{
    GroupByV, GroupBy, JoinConstraint, JoinKind, JoinV, Join, LimitClause, LimitClauseV, OrderBy, OrderByV, OrderItem,
    OrderItemV, Query, QueryV, Select, SelectItem, SelectItemV, SelectV, SetNode, SetNodeV, SetOperator, SqlNode,
    SqlNodeV, SqlValue, SqlValueV, TableFactor, TableFactorV,
};
use crate::explain;
use crate::expr;
use crate::expr::{Expr, ExprV};
use crate::facts;
use crate::facts::{AnswerV, ErrorKind, ErrorV, Facts, QuestionV, SqlError};
use crate::grouping;
use crate::grouping::{Rewriting, RewritingV};
use crate::logical;
use crate::logical::{AggregateExpr, JoinType, LogicalPlan, PlanV, SetOpType};
use crate::scalar;
use crate::schema;
use crate::schema::{Column, ColumnV, Schema, SchemaV};
use crate::text;
use crate::value::{DbValue, ValueV};
use vstd::prelude::*;
use vstd::string::*;

verus! {

// ---------------------------------------------------------------- tables

/// The tables that a statement can refer to.
#[derive(Debug)]
pub struct Catalog {
    pub tables: Vec<(String, Schema)>,
}

/// The model of a list of tables.
pub open spec fn tables_view(s: Seq<(String, Schema)>) -> Seq<(Seq<char>, SchemaV)> {
    s.map_values(|e: (String, Schema)| (e.0@, e.1@))
}

/// The schema of the first table with a name, from position `i` on.
pub open spec fn table_from(tables: Seq<(Seq<char>, SchemaV)>, name: Seq<char>, i: int) -> Result<SchemaV, ErrorV>
    decreases tables.len() - i,
{
    if i >= tables.len() {
        Err(facts::named_error(ErrorKind::TableNotFound, name))
    } else if tables[i].0 == name {
        Ok(tables[i].1)
    } else {
        table_from(tables, name, i + 1)
    }
}

/// The schema of a table.
pub open spec fn table_named(tables: Seq<(Seq<char>, SchemaV)>, name: Seq<char>) -> Result<SchemaV, ErrorV> {
    table_from(tables, name, 0)
}

impl View for Catalog {
    type V = Seq<(Seq<char>, SchemaV)>;

    open spec fn view(&self) -> Seq<(Seq<char>, SchemaV)> {
        tables_view(self.tables@)
    }
}

impl Catalog {
    /// The schema of a table.
    pub fn get_table(&self, name: &str) -> (out: Result<&Schema, SqlError>)
        ensures
            match out {
                Ok(s) => table_named(self@, name@) == Ok::<SchemaV, ErrorV>(s@),
                Err(e) => table_named(self@, name@) == Err::<SchemaV, ErrorV>(e@),
            },
    {
        for i in 0..self.tables.len()
            invariant
                table_named(self@, name@) == table_from(self@, name@, i as int),
        {
            if text::same_text(self.tables[i].0.as_str(), name) {
                return Ok(&self.tables[i].1);
            }
        }
        Err(SqlError::named(ErrorKind::TableNotFound, name))
    }
}

/// A name with a qualifier before it.
pub open spec fn qualified_name(qualifier: Seq<char>, name: Seq<char>) -> Seq<char> {
    qualifier.push('.') + name
}

/// Columns with a qualifier before their names.
pub open spec fn qualified_columns(cols: Seq<ColumnV>, qualifier: Seq<char>) -> Seq<ColumnV> {
    Seq::new(cols.len(), |i: int| ColumnV { name: qualified_name(qualifier, cols[i].name), ..cols[i] })
}

/// The schema of a scan: that of the table, with a qualifier before the column names.
pub open spec fn scan_schema(s: SchemaV, qualifier: Seq<char>) -> SchemaV {
    SchemaV {
        columns: schema::numbered(qualified_columns(s.columns, qualifier)),
        indexes: s.indexes,
        locality_group_options: s.locality_group_options,
    }
}

/// The scan of a table. Its columns are qualified by its alias, or else by its name.
pub open spec fn scan_of(tables: Seq<(Seq<char>, SchemaV)>, factor: TableFactorV) -> Result<PlanV, ErrorV> {
    match factor {
        TableFactorV::Table { name, alias } => match table_named(tables, name) {
            Err(e) => Err(e),
            Ok(s) => Ok(
                PlanV::Scan {
                    table_name: name,
                    schema: scan_schema(
                        s,
                        match alias {
                            Some(a) => a,
                            None => name,
                        },
                    ),
                    range: None,
                },
            ),
        },
        TableFactorV::Other(s) => Err(facts::names_error(ErrorKind::UnsupportedTable, seq!["FROM"@, s])),
    }
}

/// A name with a qualifier before it.
fn qualify(qualifier: &str, name: &str) -> (out: String)
    ensures
        out@ == qualified_name(qualifier@, name@),
{
    let mut out = String::new();
    text::append(&mut out, qualifier);
    out.push('.');
    text::append(&mut out, name);
    assert(out@ =~= qualified_name(qualifier@, name@));
    out
}

/// The schema of a scan of a table.
fn qualify_schema(s: &Schema, qualifier: &str) -> (out: Schema)
    ensures
        out@ == scan_schema(s@, qualifier@),
{
    let mut cols: Vec<Column> = Vec::new();
    for i in 0..s.columns.len()
        invariant
            cols@.len() == i,
            forall|j: int|
                0 <= j < i ==> (#[trigger] cols@[j])@ == (ColumnV {
                    name: qualified_name(qualifier@, s.columns@[j]@.name),
                    ..s.columns@[j]@
                }),
    {
        let mut c = s.columns[i].clone();
        c.name = qualify(qualifier, s.columns[i].name.as_str());
        cols.push(c);
    }
    assert(schema::columns_view(cols@) =~= qualified_columns(s@.columns, qualifier@));
    let mut out = Schema::new_with_options(cols, schema::copy_options(&s.locality_group_options));
    out.indexes = schema::copy_indexes(&s.indexes);
    out
}

/// Two texts as names.
pub fn two_names(a: &str, b: &str) -> (out: Vec<String>)
    ensures
        text::views(out@) == seq![a@, b@],
{
    let mut out: Vec<String> = Vec::new();
    out.push(a.to_owned());
    out.push(b.to_owned());
    assert(text::views(out@) =~= seq![a@, b@]);
    out
}

// ---------------------------------------------------------------- joins and filters

/// The condition and the type of a join. A join without a condition is a cross join.
pub open spec fn join_condition(nodes: Seq<SqlNodeV>, j: JoinV, known: Seq<(QuestionV, AnswerV)>) -> Result<
    (ExprV, JoinType),
    ErrorV,
> {
    let cross = Ok((ExprV::Literal(ValueV::Int(1)), JoinType::Cross));
    match (j.kind, j.constraint) {
        (JoinKind::Inner, JoinConstraint::On(i)) => typed_join(scalar::planned(nodes, i as int, known), JoinType::Inner),
        (JoinKind::Join, JoinConstraint::On(i)) => typed_join(scalar::planned(nodes, i as int, known), JoinType::Inner),
        (JoinKind::Left, JoinConstraint::On(i)) => typed_join(scalar::planned(nodes, i as int, known), JoinType::Left),
        (JoinKind::LeftOuter, JoinConstraint::On(i)) => typed_join(
            scalar::planned(nodes, i as int, known),
            JoinType::Left,
        ),
        (JoinKind::CrossJoin, _) => cross,
        (JoinKind::Inner, JoinConstraint::Absent) => cross,
        (JoinKind::Join, JoinConstraint::Absent) => cross,
        _ => Err(facts::named_error(ErrorKind::UnsupportedJoin, j.text)),
    }
}

/// The condition of a join with its type.
pub open spec fn typed_join(r: Result<ExprV, ErrorV>, t: JoinType) -> Result<(ExprV, JoinType), ErrorV> {
    match r {
        Ok(x) => Ok((x, t)),
        Err(e) => Err(e),
    }
}

/// A plan joined with the tables from position `i` on.
pub open spec fn joined(
    tables: Seq<(Seq<char>, SchemaV)>,
    nodes: Seq<SqlNodeV>,
    plan: PlanV,
    joins: Seq<JoinV>,
    i: int,
    known: Seq<(QuestionV, AnswerV)>,
) -> Result<PlanV, ErrorV>
    decreases joins.len() - i,
{
    if i >= joins.len() {
        Ok(plan)
    } else {
        match scan_of(tables, joins[i].relation) {
            Err(e) => Err(e),
            Ok(right) => match join_condition(nodes, joins[i], known) {
                Err(e) => Err(e),
                Ok(c) => joined(tables, nodes, logical::join_of(plan, right, c.0, c.1), joins, i + 1, known),
            },
        }
    }
}

/// A plan filtered by the condition at a position, where there is one.
pub open spec fn filtered(
    nodes: Seq<SqlNodeV>,
    plan: PlanV,
    selection: Option<usize>,
    known: Seq<(QuestionV, AnswerV)>,
) -> Result<PlanV, ErrorV> {
    match selection {
        None => Ok(plan),
        Some(i) => match scalar::planned(nodes, i as int, known) {
            Err(e) => Err(e),
            Ok(predicate) => Ok(PlanV::Filter { source: Box::new(plan), predicate }),
        },
    }
}

/// The rows that a SELECT takes its items from: the first table with those joined to it,
/// filtered.
pub open spec fn source_of(
    tables: Seq<(Seq<char>, SchemaV)>,
    nodes: Seq<SqlNodeV>,
    select: SelectV,
    known: Seq<(QuestionV, AnswerV)>,
) -> Result<PlanV, ErrorV> {
    if select.from.len() == 0 {
        Err(facts::plain_error(ErrorKind::FromRequired))
    } else {
        match scan_of(tables, select.from[0].relation) {
            Err(e) => Err(e),
            Ok(first) => match joined(tables, nodes, first, select.from[0].joins, 0, known) {
                Err(e) => Err(e),
                Ok(plan) => filtered(nodes, plan, select.selection, known),
            },
        }
    }
}

// ---------------------------------------------------------------- sorting and limits

/// The outcomes of planning sort keys; ascending unless they say otherwise.
pub open spec fn planned_keys(nodes: Seq<SqlNodeV>, order: Seq<OrderItemV>, known: Seq<(QuestionV, AnswerV)>) -> Seq<
    Result<(ExprV, bool), ErrorV>,
> {
    order.map_values(
        |o: OrderItemV|
            match scalar::planned(nodes, o.expr as int, known) {
                Ok(x) => Ok(
                    (
                        x,
                        match o.asc {
                            Some(asc) => asc,
                            None => true,
                        },
                    ),
                ),
                Err(e) => Err(e),
            },
    )
}

/// A plan sorted by some keys, where there are any.
pub open spec fn sorted(
    nodes: Seq<SqlNodeV>,
    plan: PlanV,
    order: Seq<OrderItemV>,
    known: Seq<(QuestionV, AnswerV)>,
) -> Result<PlanV, ErrorV> {
    if order.len() == 0 {
        Ok(plan)
    } else {
        match facts::collected(planned_keys(nodes, order, known), 0, Seq::empty()) {
            Err(e) => Err(e),
            Ok(keys) => Ok(PlanV::Sort { source: Box::new(plan), keys }),
        }
    }
}

/// The sort keys of a query.
pub open spec fn order_items(o: OrderByV) -> Result<Seq<OrderItemV>, ErrorV> {
    match o {
        OrderByV::Expressions(s) => Ok(s),
        OrderByV::All => Err(facts::plain_error(ErrorKind::OrderByAll)),
    }
}

/// The number of rows that the literal at a position stands for.
pub open spec fn row_count(nodes: Seq<SqlNodeV>, at: int, not_literal: ErrorKind, not_number: ErrorKind) -> Result<
    usize,
    ErrorV,
> {
    if at >= nodes.len() {
        Err(facts::plain_error(ErrorKind::Malformed))
    } else {
        match nodes[at] {
            SqlNodeV::Value(SqlValueV::Number(s)) => match text::nat_value(s) {
                Some(n) if n <= usize::MAX => Ok(n as usize),
                _ => Err(facts::named_error(ErrorKind::RowCount, s)),
            },
            SqlNodeV::Value(_) => Err(facts::plain_error(not_number)),
            _ => Err(facts::plain_error(not_literal)),
        }
    }
}

/// The limit and the offset of a query.
pub open spec fn limits_of(nodes: Seq<SqlNodeV>, clause: LimitClauseV) -> Result<(Option<usize>, usize), ErrorV> {
    match clause {
        LimitClauseV::Absent => Ok((None, 0)),
        LimitClauseV::LimitOffset { limit, offset } => {
            let l: Result<Option<usize>, ErrorV> = match limit {
                None => Ok(None),
                Some(i) => match row_count(nodes, i as int, ErrorKind::LimitExpression, ErrorKind::LimitValue) {
                    Ok(n) => Ok(Some(n)),
                    Err(e) => Err(e),
                },
            };
            let o: Result<usize, ErrorV> = match offset {
                None => Ok(0),
                Some(i) => row_count(nodes, i as int, ErrorKind::OffsetExpression, ErrorKind::OffsetValue),
            };
            match l {
                Err(e) => Err(e),
                Ok(limit) => match o {
                    Err(e) => Err(e),
                    Ok(offset) => Ok((limit, offset)),
                },
            }
        },
    }
}

/// A plan with the limits of a query.
pub open spec fn limited(nodes: Seq<SqlNodeV>, plan: PlanV, clause: LimitClauseV) -> Result<PlanV, ErrorV> {
    match limits_of(nodes, clause) {
        Err(e) => Err(e),
        Ok(l) => Ok(
            if l.0 is Some || l.1 > 0 {
                PlanV::Limit { source: Box::new(plan), limit: l.0, offset: l.1 }
            } else {
                plan
            },
        ),
    }
}

// ---------------------------------------------------------------- SELECT lists

/// The columns of a projection: expressions and their names.
pub struct ProjectionV {
    pub expressions: Seq<ExprV>,
    pub names: Seq<Seq<char>>,
}

/// The name of an item without an alias: that of a column, or else its text.
pub open spec fn item_name(x: ExprV, text: Seq<char>) -> Seq<char> {
    match x {
        ExprV::Column(name, _) => name,
        _ => text,
    }
}

/// A projection with a column added.
pub open spec fn with_item(p: ProjectionV, x: ExprV, name: Seq<char>) -> ProjectionV {
    ProjectionV { expressions: p.expressions.push(x), names: p.names.push(name) }
}

/// A projection with all columns of a schema added.
pub open spec fn with_columns(p: ProjectionV, cols: Seq<ColumnV>) -> ProjectionV {
    ProjectionV {
        expressions: p.expressions + cols.map_values(|c: ColumnV| ExprV::Column(c.name, None)),
        names: p.names + cols.map_values(|c: ColumnV| c.name),
    }
}

/// A projection with the items from position `i` on. The wildcard stands for all columns.
pub open spec fn projected(
    nodes: Seq<SqlNodeV>,
    items: Seq<SelectItemV>,
    i: int,
    cols: Seq<ColumnV>,
    p: ProjectionV,
    known: Seq<(QuestionV, AnswerV)>,
) -> Result<ProjectionV, ErrorV>
    decreases items.len() - i,
{
    if i >= items.len() {
        Ok(p)
    } else {
        match items[i] {
            SelectItemV::Unnamed { expr, text } => match scalar::planned(nodes, expr as int, known) {
                Err(e) => Err(e),
                Ok(x) => projected(nodes, items, i + 1, cols, with_item(p, x, item_name(x, text)), known),
            },
            SelectItemV::Aliased { expr, alias } => match scalar::planned(nodes, expr as int, known) {
                Err(e) => Err(e),
                Ok(x) => projected(nodes, items, i + 1, cols, with_item(p, x, alias), known),
            },
            SelectItemV::Wildcard => projected(nodes, items, i + 1, cols, with_columns(p, cols), known),
            SelectItemV::Other(s) => Err(facts::named_error(ErrorKind::UnsupportedItem, s)),
        }
    }
}

/// The projection of a plan to the items of a SELECT list.
pub open spec fn projection_to(
    nodes: Seq<SqlNodeV>,
    plan: PlanV,
    items: Seq<SelectItemV>,
    known: Seq<(QuestionV, AnswerV)>,
) -> Result<PlanV, ErrorV> {
    match projected(
        nodes,
        items,
        0,
        logical::plan_schema(plan).columns,
        ProjectionV { expressions: Seq::empty(), names: Seq::empty() },
        known,
    ) {
        Err(e) => Err(e),
        Ok(p) => Ok(logical::projection_of(plan, p.expressions, p.names)),
    }
}

// ---------------------------------------------------------------- aggregation

/// The grouping expressions of a SELECT.
pub open spec fn group_ids(g: GroupByV) -> Result<Seq<usize>, ErrorV> {
    match g {
        GroupByV::Expressions { exprs, modified } => if modified {
            Err(facts::plain_error(ErrorKind::GroupByModifiers))
        } else {
            Ok(exprs)
        },
        GroupByV::All => Err(facts::plain_error(ErrorKind::GroupByAll)),
    }
}

/// The outcomes of planning the nodes at some positions.
pub open spec fn planned_each(nodes: Seq<SqlNodeV>, ids: Seq<usize>, known: Seq<(QuestionV, AnswerV)>) -> Seq<
    Result<ExprV, ErrorV>,
> {
    ids.map_values(|i: usize| scalar::planned(nodes, i as int, known))
}

/// The names of grouping expressions: that of a column, or else `group_key`.
pub open spec fn group_names(es: Seq<ExprV>) -> Seq<Seq<char>> {
    es.map_values(|x: ExprV| item_name(x, "group_key"@))
}

/// The outcome of extracting the aggregate functions of the items from position `i` on.
pub open spec fn rewritten_items(
    st: RewritingV,
    items: Seq<SelectItemV>,
    i: int,
    known: Seq<(QuestionV, AnswerV)>,
) -> Result<RewritingV, ErrorV>
    decreases items.len() - i,
{
    if i >= items.len() {
        Ok(st)
    } else {
        match items[i] {
            SelectItemV::Unnamed { expr, .. } => match grouping::rewritten(st, expr as int, known) {
                Err(e) => Err(e),
                Ok(next) => rewritten_items(next, items, i + 1, known),
            },
            SelectItemV::Aliased { expr, .. } => match grouping::rewritten(st, expr as int, known) {
                Err(e) => Err(e),
                Ok(next) => rewritten_items(next, items, i + 1, known),
            },
            SelectItemV::Wildcard => Err(facts::plain_error(ErrorKind::GroupedWildcard)),
            SelectItemV::Other(s) => Err(facts::named_error(ErrorKind::UnsupportedItem, s)),
        }
    }
}

/// The outcome of extracting the aggregate functions of a SELECT list and of the condition on
/// the groups.
pub open spec fn rewritten_select(st: RewritingV, select: SelectV, known: Seq<(QuestionV, AnswerV)>) -> Result<
    RewritingV,
    ErrorV,
> {
    match rewritten_items(st, select.projection, 0, known) {
        Err(e) => Err(e),
        Ok(next) => match select.having {
            Some(i) => grouping::rewritten(next, i as int, known),
            None => Ok(next),
        },
    }
}

/// The aggregation of a plan for a SELECT: grouped, filtered by the condition on the groups,
/// and projected to the items.
pub open spec fn aggregated(
    nodes: Seq<SqlNodeV>,
    plan: PlanV,
    select: SelectV,
    ids: Seq<usize>,
    known: Seq<(QuestionV, AnswerV)>,
) -> Result<PlanV, ErrorV> {
    match facts::collected(planned_each(nodes, ids, known), 0, Seq::empty()) {
        Err(e) => Err(e),
        Ok(groups) => match rewritten_select(
            RewritingV { nodes, aggrs: Seq::empty(), names: group_names(groups) },
            select,
            known,
        ) {
            Err(e) => Err(e),
            Ok(st) => match filtered(
                st.nodes,
                logical::aggregate_of(plan, groups, st.aggrs, st.names),
                select.having,
                known,
            ) {
                Err(e) => Err(e),
                Ok(grouped) => projection_to(st.nodes, grouped, select.projection, known),
            },
        },
    }
}

/// The plan of a SELECT, sorted by some keys. An aggregation is sorted after the projection,
/// anything else before it.
#[verifier::opaque]
pub open spec fn planned_select(
    tables: Seq<(Seq<char>, SchemaV)>,
    nodes: Seq<SqlNodeV>,
    select: SelectV,
    order: Seq<OrderItemV>,
    known: Seq<(QuestionV, AnswerV)>,
) -> Result<PlanV, ErrorV> {
    match source_of(tables, nodes, select, known) {
        Err(e) => Err(e),
        Ok(plan) => match group_ids(select.group_by) {
            Err(e) => Err(e),
            Ok(ids) => if ids.len() > 0 || grouping::items_call_aggregate(nodes, select.projection)
                || select.having is Some {
                match aggregated(nodes, plan, select, ids, known) {
                    Err(e) => Err(e),
                    Ok(q) => sorted(nodes, q, order, known),
                }
            } else {
                match sorted(nodes, plan, order, known) {
                    Err(e) => Err(e),
                    Ok(q) => projection_to(nodes, q, select.projection, known),
                }
            },
        },
    }
}

// ---------------------------------------------------------------- queries

/// Whether the two sides of a set operation agree: as many columns, of the same types. The
/// error names the first column that differs, counted from one.
pub open spec fn sides_agree(left: Seq<ColumnV>, right: Seq<ColumnV>) -> Result<(), ErrorV> {
    if left.len() != right.len() {
        Err(
            facts::names_error(
                ErrorKind::SetColumnCount,
                seq![text::int_text(left.len() as int), text::int_text(right.len() as int)],
            ),
        )
    } else {
        types_agree(left, right, 0)
    }
}

/// Whether the columns from position `i` on have the same types.
pub open spec fn types_agree(left: Seq<ColumnV>, right: Seq<ColumnV>, i: int) -> Result<(), ErrorV>
    decreases left.len() - i,
{
    if i >= left.len() {
        Ok(())
    } else if left[i].data_type != right[i].data_type {
        Err(
            facts::names_error(
                ErrorKind::SetColumnType,
                seq![
                    text::int_text(i + 1),
                    explain::data_type_name(left[i].data_type),
                    explain::data_type_name(right[i].data_type),
                ],
            ),
        )
    } else {
        types_agree(left, right, i + 1)
    }
}

/// The set operation of a set operator.
pub open spec fn set_operation(op: SetOperator) -> SetOpType {
    match op {
        SetOperator::Union => SetOpType::Union,
        SetOperator::Except => SetOpType::Except,
        SetOperator::Intersect => SetOpType::Intersect,
        SetOperator::Minus => SetOpType::Except,
    }
}

/// A set operation on two plans.
pub open spec fn combined(l: PlanV, r: PlanV, op: SetOperator, all: bool) -> Result<PlanV, ErrorV> {
    match sides_agree(logical::plan_schema(l).columns, logical::plan_schema(r).columns) {
        Err(e) => Err(e),
        Ok(_) => Ok(PlanV::SetOp { left: Box::new(l), right: Box::new(r), op: set_operation(op), all }),
    }
}

/// A plan sorted and limited as a query says.
pub open spec fn finished(
    nodes: Seq<SqlNodeV>,
    plan: PlanV,
    q: QueryV,
    known: Seq<(QuestionV, AnswerV)>,
) -> Result<PlanV, ErrorV> {
    match order_items(q.order_by) {
        Err(e) => Err(e),
        Ok(order) => match sorted(nodes, plan, order, known) {
            Err(e) => Err(e),
            Ok(p) => limited(nodes, p, q.limit),
        },
    }
}

/// The plan of a query whose body is a SELECT.
#[verifier::opaque]
pub open spec fn planned_select_query(
    tables: Seq<(Seq<char>, SchemaV)>,
    nodes: Seq<SqlNodeV>,
    select: SelectV,
    q: QueryV,
    known: Seq<(QuestionV, AnswerV)>,
) -> Result<PlanV, ErrorV> {
    match order_items(q.order_by) {
        Err(e) => Err(e),
        Ok(order) => match planned_select(tables, nodes, select, order, known) {
            Err(e) => Err(e),
            Ok(plan) => limited(
                nodes,
                if select.distinct {
                    PlanV::Distinct { source: Box::new(plan) }
                } else {
                    plan
                },
                q.limit,
            ),
        },
    }
}

/// The plan of a query whose body stands before a position.
pub open spec fn planned_query(
    tables: Seq<(Seq<char>, SchemaV)>,
    nodes: Seq<SqlNodeV>,
    sets: Seq<SetNodeV>,
    q: QueryV,
    before: int,
    known: Seq<(QuestionV, AnswerV)>,
) -> Result<PlanV, ErrorV>
    decreases before, 0int,
{
    if q.body >= before || q.body >= sets.len() {
        Err(facts::plain_error(ErrorKind::Malformed))
    } else {
        match sets[q.body as int] {
            SetNodeV::Select(select) => planned_select_query(tables, nodes, select, q, known),
            _ => match planned_set(tables, nodes, sets, q.body as int, known) {
                Err(e) => Err(e),
                Ok(plan) => finished(nodes, plan, q, known),
            },
        }
    }
}

/// The plan of the body of a query at a position.
pub open spec fn planned_set(
    tables: Seq<(Seq<char>, SchemaV)>,
    nodes: Seq<SqlNodeV>,
    sets: Seq<SetNodeV>,
    at: int,
    known: Seq<(QuestionV, AnswerV)>,
) -> Result<PlanV, ErrorV>
    decreases at, 1int,
{
    if at < 0 || at >= sets.len() {
        Err(facts::plain_error(ErrorKind::Malformed))
    } else {
        match sets[at] {
            SetNodeV::Select(select) => planned_select(tables, nodes, select, Seq::empty(), known),
            SetNodeV::Query(q) => planned_query(tables, nodes, sets, q, at, known),
            SetNodeV::SetOperation { op, all, left, right } => if left >= at || right >= at {
                Err(facts::plain_error(ErrorKind::Malformed))
            } else {
                match planned_set(tables, nodes, sets, left as int, known) {
                    Err(e) => Err(e),
                    Ok(l) => match planned_set(tables, nodes, sets, right as int, known) {
                        Err(e) => Err(e),
                        Ok(r) => combined(l, r, op, all),
                    },
                }
            },
            SetNodeV::Values(_) => Err(facts::named_error(ErrorKind::UnsupportedSet, "VALUES"@)),
            SetNodeV::Other(s) => Err(facts::named_error(ErrorKind::UnsupportedSet, s)),
        }
    }
}

/// Plans queries and statements against a catalog.
#[derive(Debug)]
pub struct LogicalPlanner {
    pub catalog: Catalog,
}

/// Plans the condition of a join.
fn plan_join_condition(nodes: &Vec<SqlNode>, j: &Join, facts: &Facts) -> (out: Result<(Expr, JoinType), SqlError>)
    ensures
        match out {
            Ok(c) => join_condition(syntax::sql_nodes_view(nodes@), j@, facts@) == Ok::<(ExprV, JoinType), ErrorV>(
                (c.0@, c.1),
            ),
            Err(e) => join_condition(syntax::sql_nodes_view(nodes@), j@, facts@) == Err::<(ExprV, JoinType), ErrorV>(
                e@,
            ),
        },
{
    match (j.kind, j.constraint) {
        (JoinKind::Inner, JoinConstraint::On(i)) => {
            let x = scalar::plan_expr(nodes, i, facts)?;
            Ok((x, JoinType::Inner))
        },
        (JoinKind::Join, JoinConstraint::On(i)) => {
            let x = scalar::plan_expr(nodes, i, facts)?;
            Ok((x, JoinType::Inner))
        },
        (JoinKind::Left, JoinConstraint::On(i)) => {
            let x = scalar::plan_expr(nodes, i, facts)?;
            Ok((x, JoinType::Left))
        },
        (JoinKind::LeftOuter, JoinConstraint::On(i)) => {
            let x = scalar::plan_expr(nodes, i, facts)?;
            Ok((x, JoinType::Left))
        },
        (JoinKind::CrossJoin, _) => Ok((Expr::Literal(DbValue::Int(1)), JoinType::Cross)),
        (JoinKind::Inner, JoinConstraint::Absent) => Ok((Expr::Literal(DbValue::Int(1)), JoinType::Cross)),
        (JoinKind::Join, JoinConstraint::Absent) => Ok((Expr::Literal(DbValue::Int(1)), JoinType::Cross)),
        _ => Err(SqlError::named(ErrorKind::UnsupportedJoin, j.text.as_str())),
    }
}

/// Filters a plan by the condition at a position, where there is one.
fn filter(nodes: &Vec<SqlNode>, plan: LogicalPlan, selection: Option<usize>, facts: &Facts) -> (out: Result<
    LogicalPlan,
    SqlError,
>)
    ensures
        logical::plan_result(out) == filtered(syntax::sql_nodes_view(nodes@), plan@, selection, facts@),
{
    match selection {
        None => Ok(plan),
        Some(i) => {
            let predicate = scalar::plan_expr(nodes, i, facts)?;
            Ok(LogicalPlan::Filter { source: Box::new(plan), predicate })
        },
    }
}

/// Sorts a plan by some keys, where there are any.
fn sort(nodes: &Vec<SqlNode>, plan: LogicalPlan, order: &Vec<OrderItem>, facts: &Facts) -> (out: Result<
    LogicalPlan,
    SqlError,
>)
    ensures
        logical::plan_result(out) == sorted(
            syntax::sql_nodes_view(nodes@),
            plan@,
            syntax::order_items_view(order@),
            facts@,
        ),
{
    if order.len() == 0 {
        return Ok(plan);
    }
    let mut keys: Vec<(Expr, bool)> = Vec::new();
    let ghost view = syntax::order_items_view(order@);
    let ghost rs = planned_keys(syntax::sql_nodes_view(nodes@), view, facts@);
    assert(logical::sort_keys_view(keys@) =~= Seq::empty());
    for i in 0..order.len()
        invariant
            view == syntax::order_items_view(order@),
            view.len() > 0,
            rs == planned_keys(syntax::sql_nodes_view(nodes@), view, facts@),
            rs.len() == order@.len(),
            facts::collected(rs, 0, Seq::empty()) == facts::collected(
                rs,
                i as int,
                logical::sort_keys_view(keys@),
            ),
    {
        let ghost before = logical::sort_keys_view(keys@);
        assert(view[i as int] == order@[i as int]@);
        let asc = match order[i].asc {
            Some(asc) => asc,
            None => true,
        };
        let x = scalar::plan_expr(nodes, order[i].expr, facts)?;
        keys.push((x, asc));
        assert(logical::sort_keys_view(keys@) =~= before.push((x@, asc)));
    }
    Ok(LogicalPlan::Sort { source: Box::new(plan), keys })
}

/// The number of rows that the literal at a position stands for.
fn count_rows(nodes: &Vec<SqlNode>, at: usize, not_literal: ErrorKind, not_number: ErrorKind) -> (out: Result<
    usize,
    SqlError,
>)
    ensures
        match out {
            Ok(n) => row_count(syntax::sql_nodes_view(nodes@), at as int, not_literal, not_number) == Ok::<
                usize,
                ErrorV,
            >(n),
            Err(e) => row_count(syntax::sql_nodes_view(nodes@), at as int, not_literal, not_number) == Err::<
                usize,
                ErrorV,
            >(e@),
        },
{
    if at >= nodes.len() {
        return Err(SqlError::plain(ErrorKind::Malformed));
    }
    assert(syntax::sql_nodes_view(nodes@)[at as int] == nodes@[at as int]@);
    match &nodes[at] {
        SqlNode::Value(v) => match v {
            SqlValue::Number(s) => match text::parse_nat(s.as_str()) {
                Ok(n) => if n <= usize::MAX as u64 {
                    Ok(n as usize)
                } else {
                    Err(SqlError::named(ErrorKind::RowCount, s.as_str()))
                },
                Err(_) => Err(SqlError::named(ErrorKind::RowCount, s.as_str())),
            },
            _ => Err(SqlError::plain(not_number)),
        },
        _ => Err(SqlError::plain(not_literal)),
    }
}

/// The limit and the offset of a query.
fn plan_limits(nodes: &Vec<SqlNode>, clause: &LimitClause) -> (out: Result<(Option<usize>, usize), SqlError>)
    ensures
        match out {
            Ok(l) => limits_of(syntax::sql_nodes_view(nodes@), clause@) == Ok::<(Option<usize>, usize), ErrorV>(l),
            Err(e) => limits_of(syntax::sql_nodes_view(nodes@), clause@) == Err::<(Option<usize>, usize), ErrorV>(
                e@,
            ),
        },
{
    match clause {
        LimitClause::Absent => Ok((None, 0)),
        LimitClause::LimitOffset { limit, offset } => {
            let l = match limit {
                None => None,
                Some(i) => {
                    let n = count_rows(nodes, *i, ErrorKind::LimitExpression, ErrorKind::LimitValue)?;
                    Some(n)
                },
            };
            let o = match offset {
                None => 0,
                Some(i) => count_rows(nodes, *i, ErrorKind::OffsetExpression, ErrorKind::OffsetValue)?,
            };
            Ok((l, o))
        },
    }
}

/// A plan with the limits of a query.
fn limit(nodes: &Vec<SqlNode>, plan: LogicalPlan, clause: &LimitClause) -> (out: Result<LogicalPlan, SqlError>)
    ensures
        logical::plan_result(out) == limited(syntax::sql_nodes_view(nodes@), plan@, clause@),
{
    let l = plan_limits(nodes, clause)?;
    if l.0.is_some() || l.1 > 0 {
        Ok(LogicalPlan::Limit { source: Box::new(plan), limit: l.0, offset: l.1 })
    } else {
        Ok(plan)
    }
}

/// The expressions and names of a projection.
#[derive(Debug)]
struct Projection {
    expressions: Vec<Expr>,
    names: Vec<String>,
}

impl Projection {
    /// The model.
    spec fn view(&self) -> ProjectionV {
        ProjectionV { expressions: expr::exprs_view(self.expressions@), names: text::views(self.names@) }
    }

    /// Adds a column.
    fn add(&mut self, x: Expr, name: String)
        ensures
            final(self)@ == with_item(old(self)@, x@, name@),
    {
        let ghost before = self@;
        let ghost added = x@;
        let ghost label = name@;
        self.expressions.push(x);
        self.names.push(name);
        assert(expr::exprs_view(self.expressions@) =~= before.expressions.push(added));
        assert(text::views(self.names@) =~= before.names.push(label));
    }

    /// Adds all columns of a schema.
    fn add_columns(&mut self, cols: &Vec<Column>)
        ensures
            final(self)@ == with_columns(old(self)@, schema::columns_view(cols@)),
    {
        let ghost before = self@;
        let ghost view = schema::columns_view(cols@);
        assert(self@.expressions =~= with_columns(before, view.take(0)).expressions);
        assert(self@.names =~= with_columns(before, view.take(0)).names);
        for i in 0..cols.len()
            invariant
                view == schema::columns_view(cols@),
                self@ == with_columns(before, view.take(i as int)),
        {
            assert(view[i as int] == cols@[i as int]@);
            let ghost so_far = self@;
            self.add(Expr::Column(cols[i].name.clone(), None), cols[i].name.clone());
            assert(view.take(i + 1) =~= view.take(i as int).push(view[i as int]));
            assert(self@.expressions =~= with_columns(before, view.take(i + 1)).expressions);
            assert(self@.names =~= with_columns(before, view.take(i + 1)).names);
        }
        assert(view.take(view.len() as int) =~= view);
    }
}

/// The name of an item without an alias.
fn name_of_item(x: &Expr, text: &str) -> (out: String)
    ensures
        out@ == item_name(x@, text@),
{
    match x {
        Expr::Column(name, _) => name.clone(),
        _ => text.to_owned(),
    }
}

/// Projects a plan to the items of a SELECT list.
fn project(nodes: &Vec<SqlNode>, plan: LogicalPlan, items: &Vec<SelectItem>, facts: &Facts) -> (out: Result<
    LogicalPlan,
    SqlError,
>)
    ensures
        logical::plan_result(out) == projection_to(
            syntax::sql_nodes_view(nodes@),
            plan@,
            syntax::select_items_view(items@),
            facts@,
        ),
{
    let source = plan.schema();
    let ghost view = syntax::select_items_view(items@);
    let ghost empty = ProjectionV { expressions: Seq::empty(), names: Seq::empty() };
    let mut p = Projection { expressions: Vec::new(), names: Vec::new() };
    assert(p@.expressions =~= empty.expressions && p@.names =~= empty.names);
    for i in 0..items.len()
        invariant
            view == syntax::select_items_view(items@),
            empty == (ProjectionV { expressions: Seq::empty(), names: Seq::empty() }),
            source@ == logical::plan_schema(plan@),
            projected(syntax::sql_nodes_view(nodes@), view, 0, source@.columns, empty, facts@) == projected(
                syntax::sql_nodes_view(nodes@),
                view,
                i as int,
                source@.columns,
                p@,
                facts@,
            ),
    {
        assert(view[i as int] == items@[i as int]@);
        match &items[i] {
            SelectItem::Unnamed { expr, text } => {
                let x = scalar::plan_expr(nodes, *expr, facts)?;
                let name = name_of_item(&x, text.as_str());
                p.add(x, name);
            },
            SelectItem::Aliased { expr, alias } => {
                let x = scalar::plan_expr(nodes, *expr, facts)?;
                p.add(x, alias.clone());
            },
            SelectItem::Wildcard => {
                p.add_columns(&source.columns);
            },
            SelectItem::Other(s) => {
                return Err(SqlError::named(ErrorKind::UnsupportedItem, s.as_str()));
            },
        }
    }
    Ok(LogicalPlan::new_projection(plan, p.expressions, p.names))
}

/// Plans the nodes at some positions.
fn plan_each(nodes: &Vec<SqlNode>, ids: &Vec<usize>, facts: &Facts) -> (out: Result<Vec<Expr>, SqlError>)
    ensures
        expr::exprs_result(out) == facts::collected(
            planned_each(syntax::sql_nodes_view(nodes@), ids@, facts@),
            0,
            Seq::empty(),
        ),
{
    let mut out: Vec<Expr> = Vec::new();
    let ghost rs = planned_each(syntax::sql_nodes_view(nodes@), ids@, facts@);
    assert(expr::exprs_view(out@) =~= Seq::empty());
    for i in 0..ids.len()
        invariant
            rs == planned_each(syntax::sql_nodes_view(nodes@), ids@, facts@),
            facts::collected(rs, 0, Seq::empty()) == facts::collected(rs, i as int, expr::exprs_view(out@)),
    {
        let ghost before = expr::exprs_view(out@);
        let x = scalar::plan_expr(nodes, ids[i], facts)?;
        out.push(x);
        assert(expr::exprs_view(out@) =~= before.push(x@));
    }
    Ok(out)
}

/// The names of grouping expressions.
fn name_groups(es: &Vec<Expr>) -> (out: Vec<String>)
    ensures
        text::views(out@) == group_names(expr::exprs_view(es@)),
{
    let mut out: Vec<String> = Vec::new();
    let ghost view = expr::exprs_view(es@);
    for i in 0..es.len()
        invariant
            view == expr::exprs_view(es@),
            view.len() == es@.len(),
            out@.len() == i,
            forall|j: int| 0 <= j < i ==> (#[trigger] out@[j])@ == item_name(view[j], "group_key"@),
    {
        assert(view[i as int] == es@[i as int]@);
        out.push(name_of_item(&es[i], "group_key"));
    }
    assert(text::views(out@) =~= group_names(view));
    out
}

/// Extracts the aggregate functions of the items from position `i` on.
fn rewrite_items(st: &mut Rewriting, items: &Vec<SelectItem>, i: usize, facts: &Facts) -> (out: Result<(), SqlError>)
    requires
        i <= items@.len(),
    ensures
        grouping::rewriting_result(out, final(st)@) == rewritten_items(
            old(st)@,
            syntax::select_items_view(items@),
            i as int,
            facts@,
        ),
    decreases items@.len() - i,
{
    if i == items.len() {
        return Ok(());
    }
    assert(syntax::select_items_view(items@)[i as int] == items@[i as int]@);
    match &items[i] {
        SelectItem::Unnamed { expr, .. } => match grouping::rewrite_having_expr(st, *expr, facts) {
            Ok(_) => rewrite_items(st, items, i + 1, facts),
            Err(e) => Err(e),
        },
        SelectItem::Aliased { expr, .. } => match grouping::rewrite_having_expr(st, *expr, facts) {
            Ok(_) => rewrite_items(st, items, i + 1, facts),
            Err(e) => Err(e),
        },
        SelectItem::Wildcard => Err(SqlError::plain(ErrorKind::GroupedWildcard)),
        SelectItem::Other(s) => Err(SqlError::named(ErrorKind::UnsupportedItem, s.as_str())),
    }
}

/// Extracts the aggregate functions of a SELECT list and of the condition on the groups.
fn rewrite_select(st: &mut Rewriting, select: &Select, facts: &Facts) -> (out: Result<(), SqlError>)
    ensures
        grouping::rewriting_result(out, final(st)@) == rewritten_select(old(st)@, select@, facts@),
{
    match rewrite_items(st, &select.projection, 0, facts) {
        Err(e) => Err(e),
        Ok(_) => match select.having {
            Some(i) => grouping::rewrite_having_expr(st, i, facts),
            None => Ok(()),
        },
    }
}

/// Extracting the aggregate functions of items adds one name for each function it adds.
proof fn items_name_functions(st: RewritingV, items: Seq<SelectItemV>, i: int, known: Seq<(QuestionV, AnswerV)>)
    ensures
        rewritten_items(st, items, i, known) matches Ok(next) ==> grouping::keeps_counts(st, next),
    decreases items.len() - i,
{
    if i < items.len() {
        match items[i] {
            SelectItemV::Unnamed { expr, .. } => {
                grouping::rewriting_names_functions(st, expr as int, known);
                if let Ok(next) = grouping::rewritten(st, expr as int, known) {
                    items_name_functions(next, items, i + 1, known);
                }
            },
            SelectItemV::Aliased { expr, .. } => {
                grouping::rewriting_names_functions(st, expr as int, known);
                if let Ok(next) = grouping::rewritten(st, expr as int, known) {
                    items_name_functions(next, items, i + 1, known);
                }
            },
            _ => {},
        }
    }
}

/// Extracting the aggregate functions of a SELECT adds one name for each function it adds.
proof fn select_names_functions(st: RewritingV, select: SelectV, known: Seq<(QuestionV, AnswerV)>)
    ensures
        rewritten_select(st, select, known) matches Ok(next) ==> grouping::keeps_counts(st, next),
{
    items_name_functions(st, select.projection, 0, known);
    if let Ok(next) = rewritten_items(st, select.projection, 0, known) {
        if let Some(i) = select.having {
            grouping::rewriting_names_functions(next, i as int, known);
        }
    }
}

/// Plans an aggregation.
fn aggregate(nodes: &Vec<SqlNode>, plan: LogicalPlan, select: &Select, ids: &Vec<usize>, facts: &Facts) -> (out: Result<
    LogicalPlan,
    SqlError,
>)
    ensures
        logical::plan_result(out) == aggregated(syntax::sql_nodes_view(nodes@), plan@, select@, ids@, facts@),
{
    let groups = plan_each(nodes, ids, facts)?;
    let names = name_groups(&groups);
    let aggrs: Vec<AggregateExpr> = Vec::new();
    let mut st = Rewriting { nodes: syntax::copy_sql_nodes(nodes), aggrs, names };
    let ghost start = RewritingV {
        nodes: syntax::sql_nodes_view(nodes@),
        aggrs: Seq::empty(),
        names: group_names(expr::exprs_view(groups@)),
    };
    assert(st@.aggrs =~= start.aggrs);
    proof {
        select_names_functions(start, select@, facts@);
        assert(expr::exprs_view(groups@).len() == groups@.len());
    }
    match rewrite_select(&mut st, select, facts) {
        Err(e) => Err(e),
        Ok(_) => {
            assert(logical::aggrs_view(st.aggrs@).len() == st.aggrs@.len());
            let grouped = LogicalPlan::new_aggregate(plan, groups, st.aggrs, st.names);
            let kept = filter(&st.nodes, grouped, select.having, facts)?;
            project(&st.nodes, kept, &select.projection, facts)
        },
    }
}

/// The sort keys of a query.
fn keys_of(o: &OrderBy) -> (out: Result<Vec<OrderItem>, SqlError>)
    ensures
        match out {
            Ok(s) => order_items(o@) == Ok::<Seq<OrderItemV>, ErrorV>(syntax::order_items_view(s@)),
            Err(e) => order_items(o@) == Err::<Seq<OrderItemV>, ErrorV>(e@),
        },
{
    match o {
        OrderBy::Expressions(s) => Ok(syntax::copy_order_items(s)),
        OrderBy::All => Err(SqlError::plain(ErrorKind::OrderByAll)),
    }
}

/// Tests that the two sides of a set operation agree.
pub fn validate_set_op_schemas(left: &Schema, right: &Schema) -> (out: Result<(), SqlError>)
    ensures
        match out {
            Ok(_) => sides_agree(left@.columns, right@.columns) is Ok,
            Err(e) => sides_agree(left@.columns, right@.columns) == Err::<(), ErrorV>(e@),
        },
{
    if left.columns.len() != right.columns.len() {
        let l = text::usize_to_text(left.columns.len());
        let r = text::usize_to_text(right.columns.len());
        return Err(SqlError::about_names(ErrorKind::SetColumnCount, two_names(l.as_str(), r.as_str())));
    }
    let n = left.columns.len();
    for i in 0..n
        invariant
            n == left.columns@.len(),
            left.columns@.len() == right.columns@.len(),
            sides_agree(left@.columns, right@.columns) == types_agree(left@.columns, right@.columns, i as int),
    {
        assert(left@.columns[i as int] == left.columns@[i as int]@);
        assert(right@.columns[i as int] == right.columns@[i as int]@);
        if left.columns[i].data_type != right.columns[i].data_type {
            let mut names: Vec<String> = Vec::new();
            names.push(text::usize_to_text(i + 1));
            names.push(explain::data_type_text(left.columns[i].data_type));
            names.push(explain::data_type_text(right.columns[i].data_type));
            assert(text::views(names@) =~= seq![
                text::int_text(i + 1),
                explain::data_type_name(left@.columns[i as int].data_type),
                explain::data_type_name(right@.columns[i as int].data_type),
            ]);
            return Err(SqlError::about_names(ErrorKind::SetColumnType, names));
        }
    }
    Ok(())
}

/// Combines two plans by a set operation.
fn combine(l: LogicalPlan, r: LogicalPlan, op: SetOperator, all: bool) -> (out: Result<LogicalPlan, SqlError>)
    ensures
        logical::plan_result(out) == combined(l@, r@, op, all),
{
    let ls = l.schema();
    let rs = r.schema();
    match validate_set_op_schemas(&ls, &rs) {
        Err(e) => Err(e),
        Ok(_) => {
            let op = match op {
                SetOperator::Union => SetOpType::Union,
                SetOperator::Except => SetOpType::Except,
                SetOperator::Intersect => SetOpType::Intersect,
                SetOperator::Minus => SetOpType::Except,
            };
            Ok(LogicalPlan::SetOp { left: Box::new(l), right: Box::new(r), op, all })
        },
    }
}

/// Sorts and limits a plan as a query says.
fn finish(nodes: &Vec<SqlNode>, plan: LogicalPlan, q: &Query, facts: &Facts) -> (out: Result<LogicalPlan, SqlError>)
    ensures
        logical::plan_result(out) == finished(syntax::sql_nodes_view(nodes@), plan@, q@, facts@),
{
    let order = keys_of(&q.order_by)?;
    let p = sort(nodes, plan, &order, facts)?;
    limit(nodes, p, &q.limit)
}

impl LogicalPlanner {
    /// A planner for a catalog.
    pub fn new(catalog: Catalog) -> (out: LogicalPlanner)
        ensures
            out.catalog == catalog,
    {
        LogicalPlanner { catalog }
    }

    /// Plans the scan of a table.
    fn plan_table_factor(&self, factor: &TableFactor) -> (out: Result<LogicalPlan, SqlError>)
        ensures
            logical::plan_result(out) == scan_of(self.catalog@, factor@),
    {
        match factor {
            TableFactor::Table { name, alias } => {
                let table = self.catalog.get_table(name.as_str())?;
                let schema = match alias {
                    Some(a) => qualify_schema(table, a.as_str()),
                    None => qualify_schema(table, name.as_str()),
                };
                Ok(LogicalPlan::Scan { table_name: name.clone(), schema, range: None })
            },
            TableFactor::Other(s) => Err(
                SqlError::about_names(ErrorKind::UnsupportedTable, two_names("FROM", s.as_str())),
            ),
        }
    }

    /// Joins a plan with some tables.
    fn plan_joins(&self, nodes: &Vec<SqlNode>, first: LogicalPlan, joins: &Vec<Join>, facts: &Facts) -> (out: Result<
        LogicalPlan,
        SqlError,
    >)
        ensures
            logical::plan_result(out) == joined(
                self.catalog@,
                syntax::sql_nodes_view(nodes@),
                first@,
                syntax::joins_view(joins@),
                0,
                facts@,
            ),
    {
        let mut plan = first;
        let ghost view = syntax::joins_view(joins@);
        for i in 0..joins.len()
            invariant
                view == syntax::joins_view(joins@),
                joined(self.catalog@, syntax::sql_nodes_view(nodes@), first@, view, 0, facts@) == joined(
                    self.catalog@,
                    syntax::sql_nodes_view(nodes@),
                    plan@,
                    view,
                    i as int,
                    facts@,
                ),
        {
            assert(view[i as int] == joins@[i as int]@);
            let right = self.plan_table_factor(&joins[i].relation)?;
            let c = plan_join_condition(nodes, &joins[i], facts)?;
            plan = LogicalPlan::new_join(plan, right, c.0, c.1);
        }
        Ok(plan)
    }

    /// Plans the rows that a SELECT takes its items from.
    fn plan_from(&self, nodes: &Vec<SqlNode>, select: &Select, facts: &Facts) -> (out: Result<LogicalPlan, SqlError>)
        ensures
            logical::plan_result(out) == source_of(self.catalog@, syntax::sql_nodes_view(nodes@), select@, facts@),
    {
        if select.from.len() == 0 {
            return Err(SqlError::plain(ErrorKind::FromRequired));
        }
        assert(select@.from[0] == select.from@[0]@);
        let first = self.plan_table_factor(&select.from[0].relation)?;
        let plan = self.plan_joins(nodes, first, &select.from[0].joins, facts)?;
        filter(nodes, plan, select.selection, facts)
    }

    /// Plans a SELECT, sorted by some keys.
    fn plan_select_internal(&self, nodes: &Vec<SqlNode>, select: &Select, order: &Vec<OrderItem>, facts: &Facts) -> (out:
        Result<LogicalPlan, SqlError>)
        ensures
            logical::plan_result(out) == planned_select(
                self.catalog@,
                syntax::sql_nodes_view(nodes@),
                select@,
                syntax::order_items_view(order@),
                facts@,
            ),
    {
        reveal(planned_select);
        let plan = self.plan_from(nodes, select, facts)?;
        match &select.group_by {
            GroupBy::All => Err(SqlError::plain(ErrorKind::GroupByAll)),
            GroupBy::Expressions { exprs, modified } => if *modified {
                Err(SqlError::plain(ErrorKind::GroupByModifiers))
            } else if exprs.len() > 0 || grouping::select_items_have_aggrs(nodes, &select.projection)
                || select.having.is_some() {
                let q = aggregate(nodes, plan, select, exprs, facts)?;
                sort(nodes, q, order, facts)
            } else {
                let q = sort(nodes, plan, order, facts)?;
                project(nodes, q, &select.projection, facts)
            },
        }
    }

    /// Plans a query whose body is a SELECT.
    fn plan_select_query(&self, nodes: &Vec<SqlNode>, select: &Select, q: &Query, facts: &Facts) -> (out: Result<
        LogicalPlan,
        SqlError,
    >)
        ensures
            logical::plan_result(out) == planned_select_query(
                self.catalog@,
                syntax::sql_nodes_view(nodes@),
                select@,
                q@,
                facts@,
            ),
    {
        reveal(planned_select_query);
        let order = keys_of(&q.order_by)?;
        let plan = self.plan_select_internal(nodes, select, &order, facts)?;
        let rows = if select.distinct {
            LogicalPlan::Distinct { source: Box::new(plan) }
        } else {
            plan
        };
        limit(nodes, rows, &q.limit)
    }

    /// Plans a query whose body stands before a position.
    pub fn plan_query(&self, nodes: &Vec<SqlNode>, sets: &Vec<SetNode>, q: &Query, before: usize, facts: &Facts) -> (out:
        Result<LogicalPlan, SqlError>)
        ensures
            logical::plan_result(out) == planned_query(
                self.catalog@,
                syntax::sql_nodes_view(nodes@),
                syntax::set_nodes_view(sets@),
                q@,
                before as int,
                facts@,
            ),
        decreases before, 0int,
    {
        if q.body >= before || q.body >= sets.len() {
            return Err(SqlError::plain(ErrorKind::Malformed));
        }
        assert(syntax::set_nodes_view(sets@)[q.body as int] == sets@[q.body as int]@);
        match &sets[q.body] {
            SetNode::Select(select) => self.plan_select_query(nodes, select, q, facts),
            _ => {
                let plan = self.plan_set_expr(nodes, sets, q.body, facts)?;
                finish(nodes, plan, q, facts)
            },
        }
    }

    /// Plans the body of a query at a position.
    fn plan_set_expr(&self, nodes: &Vec<SqlNode>, sets: &Vec<SetNode>, at: usize, facts: &Facts) -> (out: Result<
        LogicalPlan,
        SqlError,
    >)
        ensures
            logical::plan_result(out) == planned_set(
                self.catalog@,
                syntax::sql_nodes_view(nodes@),
                syntax::set_nodes_view(sets@),
                at as int,
                facts@,
            ),
        decreases at, 1int,
    {
        if at >= sets.len() {
            return Err(SqlError::plain(ErrorKind::Malformed));
        }
        assert(syntax::set_nodes_view(sets@)[at as int] == sets@[at as int]@);
        match &sets[at] {
            SetNode::Select(select) => {
                let order: Vec<OrderItem> = Vec::new();
                assert(syntax::order_items_view(order@) =~= Seq::empty());
                self.plan_select_internal(nodes, select, &order, facts)
            },
            SetNode::Query(q) => self.plan_query(nodes, sets, q, at, facts),
            SetNode::SetOperation { op, all, left, right } => {
                if *left >= at || *right >= at {
                    return Err(SqlError::plain(ErrorKind::Malformed));
                }
                let l = self.plan_set_expr(nodes, sets, *left, facts)?;
                let r = self.plan_set_expr(nodes, sets, *right, facts)?;
                combine(l, r, *op, *all)
            },
            SetNode::Values(_) => Err(SqlError::named(ErrorKind::UnsupportedSet, "VALUES")),
            SetNode::Other(s) => Err(SqlError::named(ErrorKind::UnsupportedSet, s.as_str())),
        }
    }
}

// ---------------------------------------------------------------- laws

/// A projection to items has as many names as expressions.
proof fn projected_names(
    nodes: Seq<SqlNodeV>,
    items: Seq<SelectItemV>,
    i: int,
    cols: Seq<ColumnV>,
    p: ProjectionV,
    known: Seq<(QuestionV, AnswerV)>,
)
    requires
        p.expressions.len() == p.names.len(),
    ensures
        projected(nodes, items, i, cols, p, known) matches Ok(q) ==> q.expressions.len() == q.names.len(),
    decreases items.len() - i,
{
    if i < items.len() {
        match items[i] {
            SelectItemV::Unnamed { expr, text } => {
                if let Ok(x) = scalar::planned(nodes, expr as int, known) {
                    projected_names(nodes, items, i + 1, cols, with_item(p, x, item_name(x, text)), known);
                }
            },
            SelectItemV::Aliased { expr, alias } => {
                if let Ok(x) = scalar::planned(nodes, expr as int, known) {
                    projected_names(nodes, items, i + 1, cols, with_item(p, x, alias), known);
                }
            },
            SelectItemV::Wildcard => projected_names(nodes, items, i + 1, cols, with_columns(p, cols), known),
            SelectItemV::Other(_) => {},
        }
    }
}

/// The projection of a well-formed plan is well-formed.
proof fn projection_is_well_formed(
    nodes: Seq<SqlNodeV>,
    plan: PlanV,
    items: Seq<SelectItemV>,
    known: Seq<(QuestionV, AnswerV)>,
)
    requires
        logical::well_formed(plan),
    ensures
        projection_to(nodes, plan, items, known) matches Ok(q) ==> logical::well_formed(q),
{
    projected_names(
        nodes,
        items,
        0,
        logical::plan_schema(plan).columns,
        ProjectionV { expressions: Seq::empty(), names: Seq::empty() },
        known,
    );
}

/// Joining well-formed plans gives a well-formed plan.
proof fn joined_is_well_formed(
    tables: Seq<(Seq<char>, SchemaV)>,
    nodes: Seq<SqlNodeV>,
    plan: PlanV,
    joins: Seq<JoinV>,
    i: int,
    known: Seq<(QuestionV, AnswerV)>,
)
    requires
        logical::well_formed(plan),
    ensures
        joined(tables, nodes, plan, joins, i, known) matches Ok(q) ==> logical::well_formed(q),
    decreases joins.len() - i,
{
    if i < joins.len() {
        if let Ok(right) = scan_of(tables, joins[i].relation) {
            if let Ok(c) = join_condition(nodes, joins[i], known) {
                assert(logical::well_formed(right));
                joined_is_well_formed(tables, nodes, logical::join_of(plan, right, c.0, c.1), joins, i + 1, known);
            }
        }
    }
}

/// The aggregation of a well-formed plan is well-formed.
proof fn aggregated_is_well_formed(
    nodes: Seq<SqlNodeV>,
    plan: PlanV,
    select: SelectV,
    ids: Seq<usize>,
    known: Seq<(QuestionV, AnswerV)>,
)
    requires
        logical::well_formed(plan),
    ensures
        aggregated(nodes, plan, select, ids, known) matches Ok(q) ==> logical::well_formed(q),
{
    if let Ok(groups) = facts::collected(planned_each(nodes, ids, known), 0, Seq::empty()) {
        let start = RewritingV { nodes, aggrs: Seq::empty(), names: group_names(groups) };
        select_names_functions(start, select, known);
        if let Ok(st) = rewritten_select(start, select, known) {
            let grouped = logical::aggregate_of(plan, groups, st.aggrs, st.names);
            assert(logical::well_formed(grouped));
            if let Ok(kept) = filtered(st.nodes, grouped, select.having, known) {
                assert(logical::well_formed(kept));
                projection_is_well_formed(st.nodes, kept, select.projection, known);
            }
        }
    }
}

/// The plan of a SELECT is well-formed.
proof fn select_is_well_formed(
    tables: Seq<(Seq<char>, SchemaV)>,
    nodes: Seq<SqlNodeV>,
    select: SelectV,
    order: Seq<OrderItemV>,
    known: Seq<(QuestionV, AnswerV)>,
)
    ensures
        planned_select(tables, nodes, select, order, known) matches Ok(q) ==> logical::well_formed(q),
{
    reveal(planned_select);
    if let Ok(plan) = source_of(tables, nodes, select, known) {
        if let Ok(first) = scan_of(tables, select.from[0].relation) {
            assert(logical::well_formed(first));
            joined_is_well_formed(tables, nodes, first, select.from[0].joins, 0, known);
        }
        assert(logical::well_formed(plan));
        if let Ok(ids) = group_ids(select.group_by) {
            aggregated_is_well_formed(nodes, plan, select, ids, known);
            if let Ok(q) = sorted(nodes, plan, order, known) {
                assert(logical::well_formed(q));
                projection_is_well_formed(nodes, q, select.projection, known);
            }
        }
    }
}

/// Sorting and limiting a well-formed plan gives a well-formed plan.
proof fn finishing_is_well_formed(
    nodes: Seq<SqlNodeV>,
    plan: PlanV,
    order: Seq<OrderItemV>,
    clause: LimitClauseV,
    known: Seq<(QuestionV, AnswerV)>,
)
    requires
        logical::well_formed(plan),
    ensures
        sorted(nodes, plan, order, known) matches Ok(q) ==> logical::well_formed(q),
        limited(nodes, plan, clause) matches Ok(q) ==> logical::well_formed(q),
{
}

/// Every plan of a query is well-formed: its projections and aggregations have a name for
/// each of their columns.
pub proof fn planned_query_is_well_formed(
    tables: Seq<(Seq<char>, SchemaV)>,
    nodes: Seq<SqlNodeV>,
    sets: Seq<SetNodeV>,
    q: QueryV,
    before: int,
    known: Seq<(QuestionV, AnswerV)>,
)
    ensures
        planned_query(tables, nodes, sets, q, before, known) matches Ok(p) ==> logical::well_formed(p),
    decreases before, 0int,
{
    if q.body < before && q.body < sets.len() {
        match sets[q.body as int] {
            SetNodeV::Select(select) => {
                reveal(planned_select_query);
                if let Ok(order) = order_items(q.order_by) {
                    select_is_well_formed(tables, nodes, select, order, known);
                    if let Ok(plan) = planned_select(tables, nodes, select, order, known) {
                        let rows = PlanV::Distinct { source: Box::new(plan) };
                        finishing_is_well_formed(nodes, plan, order, q.limit, known);
                        finishing_is_well_formed(nodes, rows, order, q.limit, known);
                    }
                }
            },
            _ => {
                set_is_well_formed(tables, nodes, sets, q.body as int, known);
                if let Ok(plan) = planned_set(tables, nodes, sets, q.body as int, known) {
                    if let Ok(order) = order_items(q.order_by) {
                        finishing_is_well_formed(nodes, plan, order, q.limit, known);
                        if let Ok(kept) = sorted(nodes, plan, order, known) {
                            finishing_is_well_formed(nodes, kept, order, q.limit, known);
                        }
                    }
                }
            },
        }
    }
}

/// Every plan of the body of a query is well-formed.
proof fn set_is_well_formed(
    tables: Seq<(Seq<char>, SchemaV)>,
    nodes: Seq<SqlNodeV>,
    sets: Seq<SetNodeV>,
    at: int,
    known: Seq<(QuestionV, AnswerV)>,
)
    ensures
        planned_set(tables, nodes, sets, at, known) matches Ok(p) ==> logical::well_formed(p),
    decreases at, 1int,
{
    if 0 <= at < sets.len() {
        match sets[at] {
            SetNodeV::Select(select) => select_is_well_formed(tables, nodes, select, Seq::empty(), known),
            SetNodeV::Query(q) => planned_query_is_well_formed(tables, nodes, sets, q, at, known),
            SetNodeV::SetOperation { left, right, .. } => {
                if left < at && right < at {
                    set_is_well_formed(tables, nodes, sets, left as int, known);
                    set_is_well_formed(tables, nodes, sets, right as int, known);
                }
            },
            _ => {},
        }
    }
}

} // verus!
