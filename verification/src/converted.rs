//! What the parser's trees become: statements whose nodes stand after their operands.

use crate::syntax::{
    AlterOperationV, AssignmentTargetV, AssignmentV, ColumnDefV, ColumnOptionV, FunctionArgumentV,
    FunctionArgumentsV, GroupByV, JoinConstraint, JoinKind, JoinV, LimitClauseV, ObjectNameV, OrderByV, OrderItemV,
    QueryV, SelectItemV, SelectV, SetNodeV, SqlBinaryOperatorV, SqlDataTypeV, SqlNodeV, StatementBodyV, StatementV,
    TableConstraintV, TableFactorV, TableOptionV, TableWithJoinsV, ValuesRowV,
};
use crate::tree;
use crate::tree::{
    ArgumentShapeV, ArgumentsShapeV, ConstraintShapeV, ExprShapeV, FactorShapeV, ItemShapeV, LimitShapeV,
    OperationShapeV, OptionShapeV, OrderShapeV, SetShapeV, StatementShapeV,
};
use vstd::prelude::*;

verus! {

/// How deep an expression or a body may be nested before the rest of it is left out.
pub const MAX_DEPTH: usize = 0xffff_ffff;

/// The nodes of a statement so far.
#[verifier::ext_equal]
pub struct NodesV {
    pub exprs: Seq<SqlNodeV>,
    pub sets: Seq<SetNodeV>,
}

/// The nodes with an expression after them, and its position.
pub open spec fn with_expr(b: NodesV, n: SqlNodeV) -> (NodesV, usize) {
    (NodesV { exprs: b.exprs.push(n), sets: b.sets }, b.exprs.len() as usize)
}

/// The nodes with a body after them, and its position.
pub open spec fn with_set(b: NodesV, n: SetNodeV) -> (NodesV, usize) {
    (NodesV { exprs: b.exprs, sets: b.sets.push(n) }, b.sets.len() as usize)
}

// ---------------------------------------------------------------- names and operators

/// The parts of an expression that has a place of its own.
pub open spec fn expr_parts(e: sqlparser::ast::Expr) -> Option<ExprShapeV> {
    match tree::simple_parts(e) {
        Some(x) => Some(x),
        None => match tree::test_parts(e) {
            Some(x) => Some(x),
            None => tree::subquery_parts(e),
        },
    }
}

/// The operator of an operation.
pub open spec fn operator_of(op: sqlparser::ast::BinaryOperator) -> SqlBinaryOperatorV {
    match tree::comparison_of(op) {
        Some(x) => x,
        None => tree::arithmetic_of(op),
    }
}

/// The texts of identifiers.
pub open spec fn ident_values(ids: Seq<sqlparser::ast::Ident>) -> Seq<Seq<char>> {
    ids.map_values(|i: sqlparser::ast::Ident| tree::ident_value(i))
}

/// The texts of names.
pub open spec fn name_displays(names: Seq<sqlparser::ast::ObjectName>) -> Seq<Seq<char>> {
    names.map_values(|n: sqlparser::ast::ObjectName| tree::name_display(n))
}

/// A name with its parts.
pub open spec fn named(n: sqlparser::ast::ObjectName) -> ObjectNameV {
    ObjectNameV {
        parts: tree::name_parts(n).map_values(|p: sqlparser::ast::ObjectNamePart| tree::name_part(p)),
        text: tree::name_display(n),
    }
}

/// The text of an optional name.
pub open spec fn maybe_display(o: Option<sqlparser::ast::ObjectName>) -> Option<Seq<char>> {
    match o {
        Some(n) => Some(tree::name_display(n)),
        None => None,
    }
}

/// The text of an optional identifier.
pub open spec fn maybe_ident(o: Option<sqlparser::ast::Ident>) -> Option<Seq<char>> {
    match o {
        Some(i) => Some(tree::ident_value(i)),
        None => None,
    }
}

/// A source of rows without the expressions in it.
pub open spec fn source_of(t: sqlparser::ast::TableFactor) -> TableFactorV {
    match tree::factor_parts(t) {
        FactorShapeV::Table(name, alias) => TableFactorV::Table {
            name: tree::name_display(name),
            alias: maybe_ident(alias),
        },
        _ => TableFactorV::Other(tree::factor_debug(t)),
    }
}

// ---------------------------------------------------------------- expressions and queries

/// The node of an expression without operands that can be a parameter or hold one.
pub open spec fn leaf_of(e: sqlparser::ast::Expr) -> Option<SqlNodeV> {
    match expr_parts(e) {
        Some(ExprShapeV::Identifier(i)) => Some(
            SqlNodeV::Identifier { value: tree::ident_value(i), quote: tree::ident_quote_style(i) },
        ),
        Some(ExprShapeV::Value(v)) => Some(SqlNodeV::Value(tree::value_parts(v))),
        Some(ExprShapeV::MatchAgainst(columns, v)) => Some(
            SqlNodeV::MatchAgainst { columns: name_displays(columns), value: tree::value_parts(v) },
        ),
        _ => None,
    }
}

/// The nodes with those of the expressions from `i` on added that have no operands, and all
/// positions.
pub open spec fn added_leaves(b: NodesV, es: Seq<sqlparser::ast::Expr>, i: int, acc: Seq<usize>) -> (
    NodesV,
    Seq<usize>,
)
    decreases es.len() - i,
{
    if i >= es.len() || i < 0 {
        (b, acc)
    } else {
        match leaf_of(es[i]) {
            Some(n) => {
                let (b1, at) = with_expr(b, n);
                added_leaves(b1, es, i + 1, acc.push(at))
            },
            None => added_leaves(b, es, i + 1, acc),
        }
    }
}

/// The nodes with an expression added that has no form of its own: the names and literals in it
/// first.
pub open spec fn added_other(b: NodesV, e: sqlparser::ast::Expr) -> (NodesV, usize) {
    let (b1, operands) = added_leaves(b, tree::nested_expressions(e), 0, Seq::empty());
    with_expr(b1, SqlNodeV::Other { text: tree::expr_debug(e), operands })
}

/// The nodes with an expression added, its operands first, in the order in which they are
/// written; and its position.
pub open spec fn added_expr(b: NodesV, e: sqlparser::ast::Expr, depth: nat) -> (NodesV, usize)
    decreases depth, 1int, 0int,
{
    if depth == 0 {
        added_other(b, e)
    } else {
        let d = (depth - 1) as nat;
        match expr_parts(e) {
            None => added_other(b, e),
            Some(ExprShapeV::Identifier(i)) => with_expr(
                b,
                SqlNodeV::Identifier { value: tree::ident_value(i), quote: tree::ident_quote_style(i) },
            ),
            Some(ExprShapeV::Compound(parts)) => with_expr(b, SqlNodeV::CompoundIdentifier(ident_values(parts))),
            Some(ExprShapeV::Value(v)) => with_expr(b, SqlNodeV::Value(tree::value_parts(v))),
            Some(ExprShapeV::Like(negated, x, p)) => {
                let (b1, expr) = added_expr(b, x, d);
                let (b2, pattern) = added_expr(b1, p, d);
                with_expr(b2, SqlNodeV::Like { negated, expr, pattern })
            },
            Some(ExprShapeV::Binary(l, op, r)) => {
                let (b1, left) = added_expr(b, l, d);
                let (b2, right) = added_expr(b1, r, d);
                with_expr(b2, SqlNodeV::BinaryOp { left, op: operator_of(op), right })
            },
            Some(ExprShapeV::Nested(x)) => {
                let (b1, at) = added_expr(b, x, d);
                with_expr(b1, SqlNodeV::Nested(at))
            },
            Some(ExprShapeV::Unary(op, x)) => {
                let (b1, expr) = added_expr(b, x, d);
                with_expr(b1, SqlNodeV::UnaryOp { op: tree::unary_of(op), expr })
            },
            Some(ExprShapeV::IsNull(x)) => {
                let (b1, at) = added_expr(b, x, d);
                with_expr(b1, SqlNodeV::IsNull(at))
            },
            Some(ExprShapeV::IsNotNull(x)) => {
                let (b1, at) = added_expr(b, x, d);
                with_expr(b1, SqlNodeV::IsNotNull(at))
            },
            Some(ExprShapeV::Between(x, negated, lo, hi)) => {
                let (b1, expr) = added_expr(b, x, d);
                let (b2, low) = added_expr(b1, lo, d);
                let (b3, high) = added_expr(b2, hi, d);
                with_expr(b3, SqlNodeV::Between { expr, negated, low, high })
            },
            Some(ExprShapeV::InList(x, xs, negated)) => {
                let (b1, expr) = added_expr(b, x, d);
                let (b2, list) = added_exprs(b1, xs, d, 0, Seq::empty());
                with_expr(b2, SqlNodeV::InList { expr, list, negated })
            },
            Some(ExprShapeV::Case(op, whens, other)) => {
                let (b1, operand) = added_maybe(b, op, d);
                let (b2, conditions, results) = added_whens(b1, whens, d, 0, Seq::empty(), Seq::empty());
                let (b3, else_result) = added_maybe(b2, other, d);
                with_expr(b3, SqlNodeV::Case { operand, conditions, results, else_result })
            },
            Some(ExprShapeV::Substring(x, f, c)) => {
                let (b1, expr) = added_expr(b, x, d);
                let (b2, from) = added_maybe(b1, f, d);
                let (b3, count) = added_maybe(b2, c, d);
                with_expr(b3, SqlNodeV::Substring { expr, from, count })
            },
            Some(ExprShapeV::Call(f)) => {
                let (b1, args) = added_arguments(b, f, d);
                let (b2, _) = added_leaves(b1, tree::call_expressions(f), 0, Seq::empty());
                let texts = tree::function_texts(f);
                with_expr(b2, SqlNodeV::Function { name: texts.0, text: texts.1, args })
            },
            Some(ExprShapeV::MatchAgainst(columns, v)) => with_expr(
                b,
                SqlNodeV::MatchAgainst { columns: name_displays(columns), value: tree::value_parts(v) },
            ),
            Some(ExprShapeV::Subquery(q)) => {
                let (b1, _) = added_query(b, q, d);
                with_expr(b1, SqlNodeV::Other { text: tree::expr_debug(e), operands: Seq::empty() })
            },
            Some(ExprShapeV::InSubquery(x, q)) => {
                let (b1, at) = added_expr(b, x, d);
                let (b2, _) = added_query(b1, q, d);
                with_expr(b2, SqlNodeV::Other { text: tree::expr_debug(e), operands: seq![at] })
            },
        }
    }
}

/// The nodes with an expression added that may be absent.
pub open spec fn added_maybe(b: NodesV, o: Option<sqlparser::ast::Expr>, depth: nat) -> (NodesV, Option<usize>)
    decreases depth, 2int, 0int,
{
    match o {
        Some(e) => {
            let (b1, at) = added_expr(b, e, depth);
            (b1, Some(at))
        },
        None => (b, None),
    }
}

/// The nodes with the expressions from `i` on added, and all positions.
pub open spec fn added_exprs(b: NodesV, es: Seq<sqlparser::ast::Expr>, depth: nat, i: int, acc: Seq<usize>) -> (
    NodesV,
    Seq<usize>,
)
    decreases depth, 2int, es.len() - i,
{
    if i >= es.len() || i < 0 {
        (b, acc)
    } else {
        let (b1, at) = added_expr(b, es[i], depth);
        added_exprs(b1, es, depth, i + 1, acc.push(at))
    }
}

/// The nodes with the clauses of a CASE from `i` on added: each condition, then its result.
pub open spec fn added_whens(
    b: NodesV,
    ws: Seq<sqlparser::ast::CaseWhen>,
    depth: nat,
    i: int,
    conditions: Seq<usize>,
    results: Seq<usize>,
) -> (NodesV, Seq<usize>, Seq<usize>)
    decreases depth, 2int, ws.len() - i,
{
    if i >= ws.len() || i < 0 {
        (b, conditions, results)
    } else {
        let w = tree::when_parts(ws[i]);
        let (b1, c) = added_expr(b, w.0, depth);
        let (b2, r) = added_expr(b1, w.1, depth);
        added_whens(b2, ws, depth, i + 1, conditions.push(c), results.push(r))
    }
}

/// The nodes with an argument of a call added.
pub open spec fn added_argument(b: NodesV, a: sqlparser::ast::FunctionArg, depth: nat) -> (NodesV, FunctionArgumentV)
    decreases depth, 2int, 0int,
{
    match tree::argument_parts(a) {
        ArgumentShapeV::Unnamed(e) => {
            let (b1, at) = added_expr(b, e, depth);
            (b1, FunctionArgumentV::Unnamed(at))
        },
        ArgumentShapeV::Named(e) => {
            let (b1, at) = added_expr(b, e, depth);
            (b1, FunctionArgumentV::Named(at))
        },
        ArgumentShapeV::Wildcard => (b, FunctionArgumentV::Wildcard),
        ArgumentShapeV::Other(t) => {
            let (b1, _) = added_leaves(b, tree::argument_expressions(a), 0, Seq::empty());
            (b1, FunctionArgumentV::Other(t))
        },
    }
}

/// The nodes with the arguments from `i` on added.
pub open spec fn added_argument_list(
    b: NodesV,
    list: Seq<sqlparser::ast::FunctionArg>,
    depth: nat,
    i: int,
    acc: Seq<FunctionArgumentV>,
) -> (NodesV, Seq<FunctionArgumentV>)
    decreases depth, 3int, list.len() - i,
{
    if i >= list.len() || i < 0 {
        (b, acc)
    } else {
        let (b1, a) = added_argument(b, list[i], depth);
        added_argument_list(b1, list, depth, i + 1, acc.push(a))
    }
}

/// The nodes with the arguments of a call added.
pub open spec fn added_arguments(b: NodesV, f: sqlparser::ast::Function, depth: nat) -> (NodesV, FunctionArgumentsV)
    decreases depth, 4int, 0int,
{
    match tree::function_arguments(f) {
        ArgumentsShapeV::Absent => (b, FunctionArgumentsV::Absent),
        ArgumentsShapeV::Other(t) => (b, FunctionArgumentsV::Other(t)),
        ArgumentsShapeV::List(list, distinct) => {
            let (b1, args) = added_argument_list(b, list, depth, 0, Seq::empty());
            (b1, FunctionArgumentsV::List { args, distinct })
        },
    }
}

/// The nodes with a query added: its body, its sort keys, its limit.
pub open spec fn added_query(b: NodesV, q: sqlparser::ast::Query, depth: nat) -> (NodesV, QueryV)
    decreases depth, 4int, 0int,
{
    let (b1, body) = added_set(b, tree::body_of(q), depth);
    let (b2, order_by) = added_order(b1, q, depth);
    let (b3, limit) = added_limit(b2, q, depth);
    (b3, QueryV { body, order_by, limit })
}

/// The nodes with the limit of a query added.
pub open spec fn added_limit(b: NodesV, q: sqlparser::ast::Query, depth: nat) -> (NodesV, LimitClauseV)
    decreases depth, 3int, 0int,
{
    match tree::limit_of(q) {
        LimitShapeV::Absent => (b, LimitClauseV::Absent),
        LimitShapeV::LimitOffset(l, o, by) => {
            let (b1, limit) = added_maybe(b, l, depth);
            let (b2, offset) = added_maybe(b1, o, depth);
            let (b3, _) = added_exprs(b2, by, depth, 0, Seq::empty());
            (b3, LimitClauseV::LimitOffset { limit, offset })
        },
        LimitShapeV::OffsetLimit(o, l) => {
            let (b1, offset) = added_expr(b, o, depth);
            let (b2, limit) = added_expr(b1, l, depth);
            (b2, LimitClauseV::LimitOffset { limit: Some(limit), offset: Some(offset) })
        },
    }
}

/// The nodes with the sort keys from `i` on added.
pub open spec fn added_order_items(
    b: NodesV,
    es: Seq<sqlparser::ast::OrderByExpr>,
    depth: nat,
    i: int,
    acc: Seq<OrderItemV>,
) -> (NodesV, Seq<OrderItemV>)
    decreases depth, 2int, es.len() - i,
{
    if i >= es.len() || i < 0 {
        (b, acc)
    } else {
        let o = tree::order_item_parts(es[i]);
        let (b1, expr) = added_expr(b, o.0, depth);
        added_order_items(b1, es, depth, i + 1, acc.push(OrderItemV { expr, asc: o.1 }))
    }
}

/// The nodes with the sort keys of a query added. An absent clause has no keys.
pub open spec fn added_order(b: NodesV, q: sqlparser::ast::Query, depth: nat) -> (NodesV, OrderByV)
    decreases depth, 3int, 0int,
{
    match tree::order_of(q) {
        OrderShapeV::Absent => (b, OrderByV::Expressions(Seq::empty())),
        OrderShapeV::All => (b, OrderByV::All),
        OrderShapeV::Expressions(es) => {
            let (b1, items) = added_order_items(b, es, depth, 0, Seq::empty());
            (b1, OrderByV::Expressions(items))
        },
    }
}

/// The parts of a body.
pub open spec fn set_shape(s: sqlparser::ast::SetExpr) -> SetShapeV {
    match tree::operation_parts(s) {
        Some(x) => x,
        None => tree::set_parts(s),
    }
}

/// The nodes with the body of a query added, the bodies in it first; and its position.
pub open spec fn added_set(b: NodesV, s: sqlparser::ast::SetExpr, depth: nat) -> (NodesV, usize)
    decreases depth, 1int, 0int,
{
    if depth == 0 {
        with_set(b, SetNodeV::Other("nested too deep"@))
    } else {
        let d = (depth - 1) as nat;
        match set_shape(s) {
            SetShapeV::Select(x) => {
                let (b1, select) = added_select(b, x, d);
                with_set(b1, SetNodeV::Select(select))
            },
            SetShapeV::Query(x) => {
                let (b1, query) = added_query(b, x, d);
                with_set(b1, SetNodeV::Query(query))
            },
            SetShapeV::Operation(op, all, l, r) => {
                let (b1, left) = added_set(b, l, d);
                let (b2, right) = added_set(b1, r, d);
                with_set(b2, SetNodeV::SetOperation { op, all, left, right })
            },
            SetShapeV::Values(rows) => {
                let (b1, values) = added_rows(b, rows, d, 0, Seq::empty());
                with_set(b1, SetNodeV::Values(values))
            },
            SetShapeV::Other(t) => with_set(b, SetNodeV::Other(t)),
        }
    }
}

/// The nodes with the rows of values from `i` on added.
pub open spec fn added_rows(
    b: NodesV,
    rows: Seq<sqlparser::ast::Parens<Vec<sqlparser::ast::Expr>>>,
    depth: nat,
    i: int,
    acc: Seq<ValuesRowV>,
) -> (NodesV, Seq<ValuesRowV>)
    decreases depth, 3int, rows.len() - i,
{
    if i >= rows.len() || i < 0 {
        (b, acc)
    } else {
        let (b1, exprs) = added_exprs(b, tree::row_of(rows[i]), depth, 0, Seq::empty());
        added_rows(b1, rows, depth, i + 1, acc.push(ValuesRowV { exprs }))
    }
}

/// The nodes with a source of rows added: of a subquery or a table function only the expressions.
pub open spec fn added_factor(b: NodesV, t: sqlparser::ast::TableFactor, depth: nat) -> (NodesV, TableFactorV)
    decreases depth, 5int, 0int,
{
    match tree::factor_parts(t) {
        FactorShapeV::Derived(q) => (added_query(b, q, depth).0, source_of(t)),
        FactorShapeV::TableFunction(e) => (added_expr(b, e, depth).0, source_of(t)),
        _ => (b, source_of(t)),
    }
}

/// The nodes with the condition of a join added.
pub open spec fn added_constraint(b: NodesV, c: sqlparser::ast::JoinConstraint, depth: nat) -> (NodesV, JoinConstraint)
    decreases depth, 2int, 0int,
{
    match tree::constraint_parts(c) {
        ConstraintShapeV::On(e) => {
            let (b1, at) = added_expr(b, e, depth);
            (b1, JoinConstraint::On(at))
        },
        ConstraintShapeV::Absent => (b, JoinConstraint::Absent),
        ConstraintShapeV::Other => (b, JoinConstraint::Other),
    }
}

/// The nodes with the operator of a join added: its kind and its condition.
pub open spec fn added_operator(b: NodesV, op: sqlparser::ast::JoinOperator, depth: nat) -> (
    NodesV,
    JoinKind,
    JoinConstraint,
)
    decreases depth, 3int, 0int,
{
    match tree::planned_join(op) {
        Some(k) => {
            let (b1, constraint) = added_constraint(b, k.1, depth);
            (b1, k.0, constraint)
        },
        None => match tree::other_join(op) {
            Some(c) => {
                let (b1, constraint) = added_constraint(b, c, depth);
                (b1, JoinKind::Other, constraint)
            },
            None => (b, JoinKind::Other, JoinConstraint::Absent),
        },
    }
}

/// The nodes with a joined table added: the source, then the condition.
pub open spec fn added_join(b: NodesV, j: sqlparser::ast::Join, depth: nat) -> (NodesV, JoinV)
    decreases depth, 6int, 0int,
{
    let parts = tree::join_parts(j);
    let (b1, relation) = added_factor(b, parts.0, depth);
    let (b2, kind, constraint) = added_operator(b1, parts.1, depth);
    (b2, JoinV { relation, kind, constraint, text: tree::join_debug(parts.1) })
}

/// The nodes with the joined tables from `i` on added.
pub open spec fn added_joins(b: NodesV, js: Seq<sqlparser::ast::Join>, depth: nat, i: int, acc: Seq<JoinV>) -> (
    NodesV,
    Seq<JoinV>,
)
    decreases depth, 7int, js.len() - i,
{
    if i >= js.len() || i < 0 {
        (b, acc)
    } else {
        let (b1, j) = added_join(b, js[i], depth);
        added_joins(b1, js, depth, i + 1, acc.push(j))
    }
}

/// The nodes with a table and the tables joined to it added.
pub open spec fn added_table(b: NodesV, t: sqlparser::ast::TableWithJoins, depth: nat) -> (NodesV, TableWithJoinsV)
    decreases depth, 8int, 0int,
{
    let parts = tree::table_parts(t);
    let (b1, relation) = added_factor(b, parts.0, depth);
    let (b2, joins) = added_joins(b1, parts.1, depth, 0, Seq::empty());
    (b2, TableWithJoinsV { relation, joins })
}

/// The nodes with the tables from `i` on added.
pub open spec fn added_tables(
    b: NodesV,
    ts: Seq<sqlparser::ast::TableWithJoins>,
    depth: nat,
    i: int,
    acc: Seq<TableWithJoinsV>,
) -> (NodesV, Seq<TableWithJoinsV>)
    decreases depth, 9int, ts.len() - i,
{
    if i >= ts.len() || i < 0 {
        (b, acc)
    } else {
        let (b1, t) = added_table(b, ts[i], depth);
        added_tables(b1, ts, depth, i + 1, acc.push(t))
    }
}

/// The nodes with an item of a SELECT list added.
pub open spec fn added_item(b: NodesV, s: sqlparser::ast::SelectItem, depth: nat) -> (NodesV, SelectItemV)
    decreases depth, 2int, 0int,
{
    match tree::item_parts(s) {
        ItemShapeV::Unnamed(e) => {
            let (b1, expr) = added_expr(b, e, depth);
            (b1, SelectItemV::Unnamed { expr, text: tree::expr_display(e) })
        },
        ItemShapeV::Aliased(e, alias) => {
            let (b1, expr) = added_expr(b, e, depth);
            (b1, SelectItemV::Aliased { expr, alias: tree::ident_value(alias) })
        },
        ItemShapeV::Wildcard => (b, SelectItemV::Wildcard),
        ItemShapeV::Other(t) => (b, SelectItemV::Other(t)),
    }
}

/// The nodes with the items from `i` on added.
pub open spec fn added_items(
    b: NodesV,
    items: Seq<sqlparser::ast::SelectItem>,
    depth: nat,
    i: int,
    acc: Seq<SelectItemV>,
) -> (NodesV, Seq<SelectItemV>)
    decreases depth, 3int, items.len() - i,
{
    if i >= items.len() || i < 0 {
        (b, acc)
    } else {
        let (b1, x) = added_item(b, items[i], depth);
        added_items(b1, items, depth, i + 1, acc.push(x))
    }
}

/// The nodes with the groups of a SELECT added.
pub open spec fn added_groups(b: NodesV, s: sqlparser::ast::Select, depth: nat) -> (NodesV, GroupByV)
    decreases depth, 3int, 0int,
{
    match tree::groups_of(s) {
        Some(g) => {
            let (b1, exprs) = added_exprs(b, g.0, depth, 0, Seq::empty());
            (b1, GroupByV::Expressions { exprs, modified: g.1 > 0 })
        },
        None => (b, GroupByV::All),
    }
}

/// The nodes with a SELECT added: the list, the tables, the filter, the groups, the filter of
/// groups.
pub open spec fn added_select(b: NodesV, s: sqlparser::ast::Select, depth: nat) -> (NodesV, SelectV)
    decreases depth, 10int, 0int,
{
    let lists = tree::lists_of(s);
    let filters = tree::filters_of(s);
    let (b1, projection) = added_items(b, lists.0, depth, 0, Seq::empty());
    let (b2, from) = added_tables(b1, lists.1, depth, 0, Seq::empty());
    let (b3, selection) = added_maybe(b2, filters.0, depth);
    let (b4, group_by) = added_groups(b3, s, depth);
    let (b5, having) = added_maybe(b4, filters.1, depth);
    let (b6, _) = added_maybe(b5, filters.2, depth);
    (b6, SelectV { distinct: tree::is_distinct(s), projection, from, selection, group_by, having })
}

// ---------------------------------------------------------------- statements

/// The nodes with the options of a column from `i` on added: the expressions of its defaults.
pub open spec fn added_column_options(
    b: NodesV,
    os: Seq<sqlparser::ast::ColumnOptionDef>,
    i: int,
    acc: Seq<ColumnOptionV>,
) -> (NodesV, Seq<ColumnOptionV>)
    decreases os.len() - i,
{
    if i >= os.len() || i < 0 {
        (b, acc)
    } else {
        match tree::column_option_parts(os[i]) {
            OptionShapeV::PrimaryKey => added_column_options(b, os, i + 1, acc.push(ColumnOptionV::PrimaryKey)),
            OptionShapeV::NotNull => added_column_options(b, os, i + 1, acc.push(ColumnOptionV::NotNull)),
            OptionShapeV::Default(e) => {
                let (b1, at) = added_expr(b, e, MAX_DEPTH as nat);
                added_column_options(b1, os, i + 1, acc.push(ColumnOptionV::Default(at)))
            },
            OptionShapeV::DialectSpecific(tokens) => added_column_options(
                b,
                os,
                i + 1,
                acc.push(
                    ColumnOptionV::DialectSpecific(
                        tokens.map_values(|t: sqlparser::tokenizer::Token| tree::token_text(t)),
                    ),
                ),
            ),
            OptionShapeV::Other => added_column_options(b, os, i + 1, acc.push(ColumnOptionV::Other)),
        }
    }
}

/// The type of a column.
pub open spec fn type_of(t: sqlparser::ast::DataType) -> SqlDataTypeV {
    match tree::number_type(t) {
        Some(x) => x,
        None => tree::text_type(t),
    }
}

/// The nodes with the definition of a column added.
pub open spec fn added_column(b: NodesV, c: sqlparser::ast::ColumnDef) -> (NodesV, ColumnDefV) {
    let parts = tree::column_parts(c);
    let (b1, options) = added_column_options(b, parts.2, 0, Seq::empty());
    (b1, ColumnDefV { name: tree::ident_value(parts.0), data_type: type_of(parts.1), options })
}

/// The nodes with the definitions of columns from `i` on added.
pub open spec fn added_columns(b: NodesV, cs: Seq<sqlparser::ast::ColumnDef>, i: int, acc: Seq<ColumnDefV>) -> (
    NodesV,
    Seq<ColumnDefV>,
)
    decreases cs.len() - i,
{
    if i >= cs.len() || i < 0 {
        (b, acc)
    } else {
        let (b1, c) = added_column(b, cs[i]);
        added_columns(b1, cs, i + 1, acc.push(c))
    }
}

/// The nodes with the columns of an index or a key from `i` on added.
pub open spec fn added_index_columns(b: NodesV, cs: Seq<sqlparser::ast::IndexColumn>, i: int, acc: Seq<usize>) -> (
    NodesV,
    Seq<usize>,
)
    decreases cs.len() - i,
{
    if i >= cs.len() || i < 0 {
        (b, acc)
    } else {
        let (b1, at) = added_expr(b, tree::index_column_expr(cs[i]), MAX_DEPTH as nat);
        added_index_columns(b1, cs, i + 1, acc.push(at))
    }
}

/// The nodes with the constraints of a table from `i` on added: the columns of its primary keys.
pub open spec fn added_constraints(
    b: NodesV,
    cs: Seq<sqlparser::ast::TableConstraint>,
    i: int,
    acc: Seq<TableConstraintV>,
) -> (NodesV, Seq<TableConstraintV>)
    decreases cs.len() - i,
{
    if i >= cs.len() || i < 0 {
        (b, acc)
    } else {
        match tree::primary_key_of(cs[i]) {
            Some(columns) => {
                let (b1, ids) = added_index_columns(b, columns, 0, Seq::empty());
                added_constraints(b1, cs, i + 1, acc.push(TableConstraintV::PrimaryKey(ids)))
            },
            None => added_constraints(b, cs, i + 1, acc.push(TableConstraintV::Other)),
        }
    }
}

/// The nodes with the options of a table from `i` on added: their values.
pub open spec fn added_options(b: NodesV, os: Seq<sqlparser::ast::SqlOption>, i: int, acc: Seq<TableOptionV>) -> (
    NodesV,
    Seq<TableOptionV>,
)
    decreases os.len() - i,
{
    if i >= os.len() || i < 0 {
        (b, acc)
    } else {
        match tree::option_parts(os[i]) {
            Some(o) => {
                let (b1, value) = added_expr(b, o.1, MAX_DEPTH as nat);
                added_options(
                    b1,
                    os,
                    i + 1,
                    acc.push(TableOptionV::KeyValue { key: tree::ident_value(o.0), value }),
                )
            },
            None => added_options(b, os, i + 1, acc.push(TableOptionV::Other)),
        }
    }
}

/// The nodes with the operations of an ALTER TABLE from `i` on added.
pub open spec fn added_alterations(
    b: NodesV,
    os: Seq<sqlparser::ast::AlterTableOperation>,
    i: int,
    acc: Seq<AlterOperationV>,
) -> (NodesV, Seq<AlterOperationV>)
    decreases os.len() - i,
{
    if i >= os.len() || i < 0 {
        (b, acc)
    } else {
        match tree::alteration_parts(os[i]) {
            OperationShapeV::AddColumn(c) => {
                let (b1, column) = added_column(b, c);
                added_alterations(b1, os, i + 1, acc.push(AlterOperationV::AddColumn(column)))
            },
            OperationShapeV::RenameColumn(before, after) => added_alterations(
                b,
                os,
                i + 1,
                acc.push(
                    AlterOperationV::RenameColumn {
                        old_name: tree::ident_value(before),
                        new_name: tree::ident_value(after),
                    },
                ),
            ),
            OperationShapeV::Other(t) => added_alterations(b, os, i + 1, acc.push(AlterOperationV::Other(t))),
        }
    }
}

/// The target of an assignment.
pub open spec fn target_of(o: Option<sqlparser::ast::ObjectName>) -> AssignmentTargetV {
    match o {
        Some(n) => AssignmentTargetV::Column(named(n)),
        None => AssignmentTargetV::Tuple,
    }
}

/// The nodes with the assignments from `i` on added: their values.
pub open spec fn added_assignments(
    b: NodesV,
    xs: Seq<sqlparser::ast::Assignment>,
    i: int,
    acc: Seq<AssignmentV>,
) -> (NodesV, Seq<AssignmentV>)
    decreases xs.len() - i,
{
    if i >= xs.len() || i < 0 {
        (b, acc)
    } else {
        let parts = tree::assignment_parts(xs[i]);
        let (b1, value) = added_expr(b, parts.1, MAX_DEPTH as nat);
        added_assignments(b1, xs, i + 1, acc.push(AssignmentV { target: target_of(parts.0), value }))
    }
}

/// The first sources of tables with joins.
pub open spec fn sources_of(ts: Seq<sqlparser::ast::TableWithJoins>) -> Seq<TableFactorV> {
    ts.map_values(|t: sqlparser::ast::TableWithJoins| source_of(tree::table_parts(t).0))
}

/// The nodes with a CREATE TABLE added.
pub open spec fn added_create_table(b: NodesV, t: sqlparser::ast::CreateTable) -> (NodesV, StatementBodyV) {
    let parts = tree::create_table_parts(t);
    let (b1, columns) = added_columns(b, parts.1, 0, Seq::empty());
    let (b2, constraints) = added_constraints(b1, parts.2, 0, Seq::empty());
    let (b3, options) = match tree::table_options_of(t) {
        Some(os) => added_options(b2, os, 0, Seq::empty()),
        None => (b2, Seq::empty()),
    };
    (b3, StatementBodyV::CreateTable { name: tree::name_display(parts.0), columns, constraints, options })
}

/// The nodes with an UPDATE added: the assignments, then the filter.
pub open spec fn added_update(b: NodesV, u: sqlparser::ast::Update) -> (NodesV, StatementBodyV) {
    let parts = tree::update_parts(u);
    let (b1, assignments) = added_assignments(b, parts.1, 0, Seq::empty());
    let (b2, selection) = added_maybe(b1, parts.2, MAX_DEPTH as nat);
    (b2, StatementBodyV::Update { table: source_of(parts.0), assignments, selection })
}

/// The nodes with an INSERT added.
pub open spec fn added_insert(b: NodesV, x: sqlparser::ast::Insert) -> (NodesV, StatementBodyV) {
    let parts = tree::insert_parts(x);
    let columns = parts.0.map_values(|n: sqlparser::ast::ObjectName| named(n));
    match parts.1 {
        Some(q) => {
            let (b1, query) = added_query(b, q, MAX_DEPTH as nat);
            (b1, StatementBodyV::Insert { table: tree::insert_target(x), columns, source: Some(query) })
        },
        None => (b, StatementBodyV::Insert { table: tree::insert_target(x), columns, source: None }),
    }
}

/// The nodes with a CREATE INDEX added.
pub open spec fn added_create_index(b: NodesV, c: sqlparser::ast::CreateIndex) -> (NodesV, StatementBodyV) {
    let parts = tree::create_index_parts(c);
    let (b1, columns) = added_index_columns(b, parts.2, 0, Seq::empty());
    (
        b1,
        StatementBodyV::CreateIndex {
            name: maybe_display(parts.0),
            table_name: tree::name_display(parts.1),
            columns,
            using: tree::index_method(c),
        },
    )
}

/// The nodes with a DELETE added.
pub open spec fn added_delete(b: NodesV, d: sqlparser::ast::Delete) -> (NodesV, StatementBodyV) {
    let parts = tree::delete_parts(d);
    let (b1, selection) = added_maybe(b, parts.1, MAX_DEPTH as nat);
    (b1, StatementBodyV::Delete { from: sources_of(parts.0), selection })
}

/// The nodes with what a statement says added.
pub open spec fn added_body(b: NodesV, s: sqlparser::ast::Statement) -> (NodesV, StatementBodyV) {
    match tree::statement_parts(s) {
        StatementShapeV::CreateTable(t) => added_create_table(b, t),
        StatementShapeV::Drop(kind, names) => (
            b,
            StatementBodyV::Drop { kind: tree::drop_kind(kind), names: name_displays(names) },
        ),
        StatementShapeV::CreateIndex(c) => added_create_index(b, c),
        StatementShapeV::AlterTable(name, os) => {
            let (b1, operations) = added_alterations(b, os, 0, Seq::empty());
            (b1, StatementBodyV::AlterTable { name: tree::name_display(name), operations })
        },
        StatementShapeV::Insert(i) => added_insert(b, i),
        StatementShapeV::Delete(d) => added_delete(b, d),
        StatementShapeV::Update(u) => added_update(b, u),
        StatementShapeV::Query(q) => {
            let (b1, query) = added_query(b, q, MAX_DEPTH as nat);
            (b1, StatementBodyV::Query(query))
        },
        StatementShapeV::Analyze(name) => (b, StatementBodyV::Analyze { table_name: maybe_display(name) }),
        StatementShapeV::Other(t) => (b, StatementBodyV::Other(t)),
    }
}

/// The statement that a statement explains, and how often EXPLAIN stands before it, up to `n`
/// times.
pub open spec fn explained(s: sqlparser::ast::Statement, n: nat) -> (sqlparser::ast::Statement, nat)
    decreases n,
{
    if n == 0 {
        (s, 0)
    } else {
        match tree::explained_statement(s) {
            Some(x) => {
                let inner = explained(x, (n - 1) as nat);
                (inner.0, inner.1 + 1)
            },
            None => (s, 0),
        }
    }
}

/// The statement of a tree.
pub open spec fn statement_of(s: sqlparser::ast::Statement) -> StatementV {
    let inner = explained(s, MAX_DEPTH as nat);
    let (b, body) = added_body(NodesV { exprs: Seq::empty(), sets: Seq::empty() }, inner.0);
    StatementV { body, explained: inner.1 as usize, exprs: b.exprs, sets: b.sets }
}

/// The statements of trees.
pub open spec fn statements_of(ss: Seq<sqlparser::ast::Statement>) -> Seq<StatementV> {
    ss.map_values(|s: sqlparser::ast::Statement| statement_of(s))
}

} // verus!
