//! Statements from text, by the parser of the `sqlparser` crate.
//!
//! The parser's tree is taken apart level by level. What it holds goes into the nodes of a
//! statement, operands before what they belong to.

use crate::converted;
use crate::converted::{NodesV, MAX_DEPTH};
use crate::facts;
use crate::facts::{ErrorKind, ErrorV, SqlError};
use crate::syntax;
use crate::syntax::{
    AlterOperation, Assignment, AssignmentTarget, ColumnDef, ColumnOption, FunctionArgument, FunctionArguments, GroupBy,
    Join, JoinConstraint, JoinKind, LimitClause, NamePart, ObjectName, OptionToken, OrderBy, OrderItem, Query, Select,
    SelectItem, SetNode, SqlBinaryOperator, SqlNode, Statement, StatementBody, StatementV, TableConstraint, TableFactor,
    TableOption, TableWithJoins, ValuesRow,
};
use crate::text;
use crate::tokens;
use crate::tree;
use crate::tree::{
    ArgumentShape, ArgumentsShape, ConstraintShape, ExprShape, FactorShape, ItemShape, LimitShape, OperationShape,
    OptionShape, OrderShape, SetShape, StatementShape,
};
use vstd::prelude::*;
use vstd::string::*;

verus! {

// ---------------------------------------------------------------- nodes in order

/// Whether all positions are below a bound.
pub open spec fn all_before(ids: Seq<usize>, k: int) -> bool {
    forall|i: int| 0 <= i < ids.len() ==> #[trigger] ids[i] < k
}

/// Whether a position that may be absent is below a bound.
pub open spec fn maybe_before(id: Option<usize>, k: int) -> bool {
    match id {
        Some(n) => n < k,
        None => true,
    }
}

/// Whether the operand of an argument is below a bound.
pub open spec fn argument_before(a: syntax::FunctionArgumentV, k: int) -> bool {
    match a {
        syntax::FunctionArgumentV::Unnamed(n) => n < k,
        syntax::FunctionArgumentV::Named(n) => n < k,
        _ => true,
    }
}

/// Whether the operands of a node stand before a position.
pub open spec fn node_before(n: syntax::SqlNodeV, k: int) -> bool {
    match n {
        syntax::SqlNodeV::Like { expr, pattern, .. } => expr < k && pattern < k,
        syntax::SqlNodeV::BinaryOp { left, right, .. } => left < k && right < k,
        syntax::SqlNodeV::Nested(x) => x < k,
        syntax::SqlNodeV::UnaryOp { expr, .. } => expr < k,
        syntax::SqlNodeV::IsNull(x) => x < k,
        syntax::SqlNodeV::IsNotNull(x) => x < k,
        syntax::SqlNodeV::Between { expr, low, high, .. } => expr < k && low < k && high < k,
        syntax::SqlNodeV::InList { expr, list, .. } => expr < k && all_before(list, k),
        syntax::SqlNodeV::Case { operand, conditions, results, else_result } => {
            &&& maybe_before(operand, k)
            &&& all_before(conditions, k)
            &&& all_before(results, k)
            &&& maybe_before(else_result, k)
            &&& conditions.len() == results.len()
        },
        syntax::SqlNodeV::Substring { expr, from, count } => {
            &&& expr < k
            &&& maybe_before(from, k)
            &&& maybe_before(count, k)
        },
        syntax::SqlNodeV::Function { args: syntax::FunctionArgumentsV::List { args, .. }, .. } => forall|i: int|
            0 <= i < args.len() ==> argument_before(#[trigger] args[i], k),
        syntax::SqlNodeV::Other { operands, .. } => all_before(operands, k),
        _ => true,
    }
}

/// Whether the expression of a SELECT item is below a bound.
pub open spec fn item_before(s: syntax::SelectItemV, k: int) -> bool {
    match s {
        syntax::SelectItemV::Unnamed { expr, .. } => expr < k,
        syntax::SelectItemV::Aliased { expr, .. } => expr < k,
        _ => true,
    }
}

/// Whether the conditions of joins are below a bound.
pub open spec fn joins_before(js: Seq<syntax::JoinV>, k: int) -> bool {
    forall|i: int| 0 <= i < js.len() ==> ((#[trigger] js[i]).constraint matches JoinConstraint::On(e) ==> e < k)
}

/// Whether the expressions of a SELECT are below a bound.
pub open spec fn select_before(s: syntax::SelectV, k: int) -> bool {
    &&& forall|i: int| 0 <= i < s.projection.len() ==> item_before(#[trigger] s.projection[i], k)
    &&& forall|i: int| 0 <= i < s.from.len() ==> joins_before((#[trigger] s.from[i]).joins, k)
    &&& maybe_before(s.selection, k)
    &&& (s.group_by matches syntax::GroupByV::Expressions { exprs, .. } ==> all_before(exprs, k))
    &&& maybe_before(s.having, k)
}

/// Whether the expressions of a query are below a bound and its body is below another.
pub open spec fn query_before(q: syntax::QueryV, k: int, m: int) -> bool {
    &&& q.body < m
    &&& (q.order_by matches syntax::OrderByV::Expressions(os) ==> forall|i: int|
        0 <= i < os.len() ==> (#[trigger] os[i]).expr < k)
    &&& (q.limit matches syntax::LimitClauseV::LimitOffset { limit, offset } ==> maybe_before(limit, k) && maybe_before(
        offset,
        k,
    ))
}

/// Whether the expressions of a body are below a bound and the bodies in it are below another.
pub open spec fn set_before(s: syntax::SetNodeV, k: int, m: int) -> bool {
    match s {
        syntax::SetNodeV::Select(x) => select_before(x, k),
        syntax::SetNodeV::Query(q) => query_before(q, k, m),
        syntax::SetNodeV::SetOperation { left, right, .. } => left < m && right < m,
        syntax::SetNodeV::Values(rows) => forall|i: int|
            0 <= i < rows.len() ==> all_before((#[trigger] rows[i]).exprs, k),
        syntax::SetNodeV::Other(_) => true,
    }
}

/// Whether the options of a column are below a bound.
pub open spec fn column_before(c: syntax::ColumnDefV, k: int) -> bool {
    forall|i: int| 0 <= i < c.options.len() ==> ((#[trigger] c.options[i]) matches syntax::ColumnOptionV::Default(e) ==> e
        < k)
}

/// Whether the expressions of a statement are below a bound and its bodies are below another.
pub open spec fn body_before(b: syntax::StatementBodyV, k: int, m: int) -> bool {
    match b {
        syntax::StatementBodyV::CreateTable { columns, constraints, options, .. } => {
            &&& forall|i: int| 0 <= i < columns.len() ==> column_before(#[trigger] columns[i], k)
            &&& forall|i: int|
                0 <= i < constraints.len() ==> ((#[trigger] constraints[i]) matches syntax::TableConstraintV::PrimaryKey(
                    ids,
                ) ==> all_before(ids, k))
            &&& forall|i: int|
                0 <= i < options.len() ==> ((#[trigger] options[i]) matches syntax::TableOptionV::KeyValue { value, .. }
                    ==> value < k)
        },
        syntax::StatementBodyV::CreateIndex { columns, .. } => all_before(columns, k),
        syntax::StatementBodyV::AlterTable { operations, .. } => forall|i: int|
            0 <= i < operations.len() ==> ((#[trigger] operations[i]) matches syntax::AlterOperationV::AddColumn(c)
                ==> column_before(c, k)),
        syntax::StatementBodyV::Insert { source: Some(q), .. } => query_before(q, k, m),
        syntax::StatementBodyV::Delete { selection, .. } => maybe_before(selection, k),
        syntax::StatementBodyV::Update { assignments, selection, .. } => {
            &&& forall|i: int| 0 <= i < assignments.len() ==> (#[trigger] assignments[i]).value < k
            &&& maybe_before(selection, k)
        },
        syntax::StatementBodyV::Query(q) => query_before(q, k, m),
        _ => true,
    }
}

/// Whether every node of a statement refers to nodes that stand before it, every body to
/// expressions that are there and to bodies before it, and the statement to what is there.
pub open spec fn in_order(s: StatementV) -> bool {
    &&& forall|i: int| 0 <= i < s.exprs.len() ==> node_before(#[trigger] s.exprs[i], i)
    &&& forall|i: int| 0 <= i < s.sets.len() ==> set_before(#[trigger] s.sets[i], s.exprs.len() as int, i)
    &&& body_before(s.body, s.exprs.len() as int, s.sets.len() as int)
}

// ---------------------------------------------------------------- building a statement

/// The nodes of a statement that is being built.
struct Nodes {
    exprs: Vec<SqlNode>,
    sets: Vec<SetNode>,
}

/// The model of nodes.
closed spec fn model(b: Nodes) -> NodesV {
    NodesV { exprs: syntax::sql_nodes_view(b.exprs@), sets: syntax::set_nodes_view(b.sets@) }
}

/// Whether the nodes so far are in order.
closed spec fn nodes_in_order(b: Nodes) -> bool {
    &&& forall|i: int| 0 <= i < b.exprs@.len() ==> node_before((#[trigger] b.exprs@[i])@, i)
    &&& forall|i: int| 0 <= i < b.sets@.len() ==> set_before((#[trigger] b.sets@[i])@, b.exprs@.len() as int, i)
}

/// Whether nodes were only added, and are in order.
closed spec fn grown(before: Nodes, after: Nodes) -> bool {
    &&& nodes_in_order(after)
    &&& before.exprs@.len() <= after.exprs@.len()
    &&& before.sets@.len() <= after.sets@.len()
}

/// A bound on the expressions of a body can be raised.
proof fn set_bound_grows(s: syntax::SetNodeV, k: int, k2: int, m: int)
    requires
        set_before(s, k, m),
        k <= k2,
    ensures
        set_before(s, k2, m),
{
    match s {
        syntax::SetNodeV::Select(x) => {
            assert forall|i: int| 0 <= i < x.from.len() implies joins_before((#[trigger] x.from[i]).joins, k2) by {
                assert(joins_before(x.from[i].joins, k));
            }
        },
        syntax::SetNodeV::Values(rows) => {
            assert forall|i: int| 0 <= i < rows.len() implies all_before((#[trigger] rows[i]).exprs, k2) by {
                assert(all_before(rows[i].exprs, k));
            }
        },
        _ => {},
    }
}

impl Nodes {
    /// Adds an expression after its operands.
    fn push_expr(&mut self, node: SqlNode) -> (at: usize)
        requires
            nodes_in_order(*old(self)),
            node_before(node@, old(self).exprs@.len() as int),
        ensures
            grown(*old(self), *final(self)),
            at < final(self).exprs@.len(),
            final(self).exprs@.len() == old(self).exprs@.len() + 1,
            (model(*final(self)), at) == converted::with_expr(model(*old(self)), node@),
    {
        let at = self.exprs.len();
        let ghost k = self.exprs@.len() as int;
        let ghost before = *self;
        self.exprs.push(node);
        proof {
            assert(syntax::sql_nodes_view(self.exprs@) =~= syntax::sql_nodes_view(before.exprs@).push(node@));
            assert forall|i: int| 0 <= i < self.exprs@.len() implies node_before((#[trigger] self.exprs@[i])@, i) by {
                if i < k {
                    assert(node_before(before.exprs@[i]@, i));
                }
            }
            assert forall|i: int| 0 <= i < self.sets@.len() implies set_before((#[trigger] self.sets@[i])@, k + 1, i) by {
                set_bound_grows(before.sets@[i]@, k, k + 1, i);
            }
        }
        at
    }

    /// Adds a body after those in it.
    fn push_set(&mut self, node: SetNode) -> (at: usize)
        requires
            nodes_in_order(*old(self)),
            set_before(node@, old(self).exprs@.len() as int, old(self).sets@.len() as int),
        ensures
            grown(*old(self), *final(self)),
            at < final(self).sets@.len(),
            (model(*final(self)), at) == converted::with_set(model(*old(self)), node@),
    {
        let at = self.sets.len();
        let ghost before = *self;
        self.sets.push(node);
        proof {
            assert(syntax::set_nodes_view(self.sets@) =~= syntax::set_nodes_view(before.sets@).push(node@));
            assert forall|i: int| 0 <= i < self.sets@.len() implies set_before(
                (#[trigger] self.sets@[i])@,
                self.exprs@.len() as int,
                i,
            ) by {
                if i < before.sets@.len() {
                    assert(set_before(before.sets@[i]@, before.exprs@.len() as int, i));
                }
            }
        }
        at
    }
}

/// The parts of an expression that has a place of its own.
fn open_expr<'a>(e: &'a sqlparser::ast::Expr) -> (out: Option<ExprShape<'a>>)
    ensures
        tree::shape_of(out) == converted::expr_parts(*e),
{
    match tree::open_simple(e) {
        Some(x) => Some(x),
        None => match tree::open_test(e) {
            Some(x) => Some(x),
            None => tree::open_subquery(e),
        },
    }
}

/// The operator of an operation.
fn operator(op: &sqlparser::ast::BinaryOperator) -> (out: SqlBinaryOperator)
    ensures
        out@ == converted::operator_of(*op),
{
    match tree::open_comparison(op) {
        Some(x) => x,
        None => tree::open_arithmetic(op),
    }
}

/// The texts of identifiers.
fn ident_texts(ids: &Vec<sqlparser::ast::Ident>) -> (out: Vec<String>)
    ensures
        text::views(out@) == converted::ident_values(ids@),
{
    let mut out: Vec<String> = Vec::new();
    for i in 0..ids.len()
        invariant
            out@.len() == i,
            forall|j: int| 0 <= j < i ==> (#[trigger] out@[j])@ == tree::ident_value(ids@[j]),
    {
        out.push(tree::ident_text(&ids[i]));
    }
    assert(text::views(out@) =~= converted::ident_values(ids@));
    out
}

/// The texts of names.
fn name_texts(names: &Vec<sqlparser::ast::ObjectName>) -> (out: Vec<String>)
    ensures
        text::views(out@) == converted::name_displays(names@),
{
    let mut out: Vec<String> = Vec::new();
    for i in 0..names.len()
        invariant
            out@.len() == i,
            forall|j: int| 0 <= j < i ==> (#[trigger] out@[j])@ == tree::name_display(names@[j]),
    {
        out.push(tree::write_name(&names[i]));
    }
    assert(text::views(out@) =~= converted::name_displays(names@));
    out
}

/// A name with its parts.
fn object_name(n: &sqlparser::ast::ObjectName) -> (out: ObjectName)
    ensures
        out@ == converted::named(*n),
{
    let parts = tree::open_name(n);
    let mut out: Vec<NamePart> = Vec::new();
    for i in 0..parts.len()
        invariant
            out@.len() == i,
            forall|j: int| 0 <= j < i ==> (#[trigger] out@[j])@ == tree::name_part(parts@[j]),
    {
        out.push(tree::open_name_part(&parts[i]));
    }
    assert(syntax::name_parts_view(out@) =~= parts@.map_values(
        |p: sqlparser::ast::ObjectNamePart| tree::name_part(p),
    ));
    ObjectName { parts: out, text: tree::write_name(n) }
}

/// The node of an expression without operands that can be a parameter or hold one.
fn leaf(e: &sqlparser::ast::Expr) -> (out: Option<SqlNode>)
    ensures
        match out {
            Some(n) => converted::leaf_of(*e) == Some(n@) && node_before(n@, 0),
            None => converted::leaf_of(*e) is None,
        },
{
    match open_expr(e) {
        Some(ExprShape::Identifier(i)) => Some(
            SqlNode::Identifier { value: tree::ident_text(i), quote: tree::ident_quote(i) },
        ),
        Some(ExprShape::Value(v)) => Some(SqlNode::Value(tree::open_value(v))),
        Some(ExprShape::MatchAgainst(columns, v)) => Some(
            SqlNode::MatchAgainst { columns: name_texts(columns), value: tree::open_value(v) },
        ),
        _ => None,
    }
}

/// Adds those of some expressions that have no operands.
fn add_leaves(b: &mut Nodes, es: &Vec<sqlparser::ast::Expr>) -> (out: Vec<usize>)
    requires
        nodes_in_order(*old(b)),
    ensures
        grown(*old(b), *final(b)),
        (model(*final(b)), out@) == converted::added_leaves(model(*old(b)), es@, 0, Seq::empty()),
        all_before(out@, final(b).exprs@.len() as int),
{
    let ghost before = *b;
    let mut out: Vec<usize> = Vec::new();
    assert(out@ =~= Seq::empty());
    for i in 0..es.len()
        invariant
            grown(before, *b),
            all_before(out@, b.exprs@.len() as int),
            converted::added_leaves(model(before), es@, 0, Seq::empty()) == converted::added_leaves(
                model(*b),
                es@,
                i as int,
                out@,
            ),
    {
        match leaf(&es[i]) {
            Some(n) => {
                let at = b.push_expr(n);
                out.push(at);
            },
            None => {},
        }
    }
    out
}

/// Adds an expression that has no form of its own: the names and literals in it first.
fn add_other(b: &mut Nodes, e: &sqlparser::ast::Expr) -> (at: usize)
    requires
        nodes_in_order(*old(b)),
    ensures
        grown(*old(b), *final(b)),
        (model(*final(b)), at) == converted::added_other(model(*old(b)), *e),
        at < final(b).exprs@.len(),
{
    let operands = add_leaves(b, &tree::nested_in(e));
    b.push_expr(SqlNode::Other { text: tree::describe_expr(e), operands })
}

/// Adds an expression, its operands first, in the order in which they are written.
fn add_expr(b: &mut Nodes, e: &sqlparser::ast::Expr, depth: usize) -> (at: usize)
    requires
        nodes_in_order(*old(b)),
    ensures
        grown(*old(b), *final(b)),
        (model(*final(b)), at) == converted::added_expr(model(*old(b)), *e, depth as nat),
        at < final(b).exprs@.len(),
    decreases depth, 1int,
{
    if depth == 0 {
        return add_other(b, e);
    }
    let d = depth - 1;
    match open_expr(e) {
        None => add_other(b, e),
        Some(ExprShape::Identifier(i)) => b.push_expr(
            SqlNode::Identifier { value: tree::ident_text(i), quote: tree::ident_quote(i) },
        ),
        Some(ExprShape::Compound(parts)) => b.push_expr(SqlNode::CompoundIdentifier(ident_texts(parts))),
        Some(ExprShape::Value(v)) => b.push_expr(SqlNode::Value(tree::open_value(v))),
        Some(ExprShape::Like(negated, x, p)) => {
            let expr = add_expr(b, x, d);
            let pattern = add_expr(b, p, d);
            b.push_expr(SqlNode::Like { negated, expr, pattern })
        },
        Some(ExprShape::Binary(l, op, r)) => {
            let left = add_expr(b, l, d);
            let right = add_expr(b, r, d);
            b.push_expr(SqlNode::BinaryOp { left, op: operator(op), right })
        },
        Some(ExprShape::Nested(x)) => {
            let at = add_expr(b, x, d);
            b.push_expr(SqlNode::Nested(at))
        },
        Some(ExprShape::Unary(op, x)) => {
            let expr = add_expr(b, x, d);
            b.push_expr(SqlNode::UnaryOp { op: tree::open_unary(op), expr })
        },
        Some(ExprShape::IsNull(x)) => {
            let at = add_expr(b, x, d);
            b.push_expr(SqlNode::IsNull(at))
        },
        Some(ExprShape::IsNotNull(x)) => {
            let at = add_expr(b, x, d);
            b.push_expr(SqlNode::IsNotNull(at))
        },
        Some(ExprShape::Between(x, negated, lo, hi)) => {
            let expr = add_expr(b, x, d);
            let low = add_expr(b, lo, d);
            let high = add_expr(b, hi, d);
            b.push_expr(SqlNode::Between { expr, negated, low, high })
        },
        Some(ExprShape::InList(x, xs, negated)) => {
            let expr = add_expr(b, x, d);
            let list = add_exprs(b, xs, d);
            b.push_expr(SqlNode::InList { expr, list, negated })
        },
        Some(ExprShape::Case(op, whens, other)) => {
            let operand = add_maybe(b, op, d);
            let (conditions, results) = add_whens(b, whens, d);
            let else_result = add_maybe(b, other, d);
            b.push_expr(SqlNode::Case { operand, conditions, results, else_result })
        },
        Some(ExprShape::Substring(x, f, c)) => {
            let expr = add_expr(b, x, d);
            let from = add_maybe(b, f, d);
            let count = add_maybe(b, c, d);
            b.push_expr(SqlNode::Substring { expr, from, count })
        },
        Some(ExprShape::Call(f)) => {
            let args = add_arguments(b, f, d);
            add_leaves(b, &tree::nested_in_call(f));
            let (name, text) = tree::write_function(f);
            b.push_expr(SqlNode::Function { name, text, args })
        },
        Some(ExprShape::MatchAgainst(columns, v)) => b.push_expr(
            SqlNode::MatchAgainst { columns: name_texts(columns), value: tree::open_value(v) },
        ),
        Some(ExprShape::Subquery(q)) => {
            add_query(b, q, d);
            let operands: Vec<usize> = Vec::new();
            assert(operands@ =~= Seq::empty());
            b.push_expr(SqlNode::Other { text: tree::describe_expr(e), operands })
        },
        Some(ExprShape::InSubquery(x, q)) => {
            let at = add_expr(b, x, d);
            add_query(b, q, d);
            let mut operands: Vec<usize> = Vec::new();
            operands.push(at);
            assert(operands@ =~= seq![at]);
            b.push_expr(SqlNode::Other { text: tree::describe_expr(e), operands })
        },
    }
}

/// Adds an expression that may be absent.
fn add_maybe(b: &mut Nodes, e: Option<&sqlparser::ast::Expr>, depth: usize) -> (at: Option<usize>)
    requires
        nodes_in_order(*old(b)),
    ensures
        grown(*old(b), *final(b)),
        (model(*final(b)), at) == converted::added_maybe(model(*old(b)), tree::held(e), depth as nat),
        maybe_before(at, final(b).exprs@.len() as int),
        at is Some == e is Some,
    decreases depth, 2int,
{
    match e {
        Some(x) => Some(add_expr(b, x, depth)),
        None => None,
    }
}

/// Adds expressions, the first one first.
fn add_exprs(b: &mut Nodes, es: &Vec<sqlparser::ast::Expr>, depth: usize) -> (out: Vec<usize>)
    requires
        nodes_in_order(*old(b)),
    ensures
        grown(*old(b), *final(b)),
        (model(*final(b)), out@) == converted::added_exprs(model(*old(b)), es@, depth as nat, 0, Seq::empty()),
        all_before(out@, final(b).exprs@.len() as int),
        out@.len() == es@.len(),
    decreases depth, 2int,
{
    let ghost before = *b;
    let mut out: Vec<usize> = Vec::new();
    assert(out@ =~= Seq::empty());
    for i in 0..es.len()
        invariant
            grown(before, *b),
            all_before(out@, b.exprs@.len() as int),
            out@.len() == i,
            converted::added_exprs(model(before), es@, depth as nat, 0, Seq::empty()) == converted::added_exprs(
                model(*b),
                es@,
                depth as nat,
                i as int,
                out@,
            ),
    {
        out.push(add_expr(b, &es[i], depth));
    }
    out
}

/// Adds the clauses of a CASE: each condition, then its result.
fn add_whens(b: &mut Nodes, ws: &Vec<sqlparser::ast::CaseWhen>, depth: usize) -> (out: (Vec<usize>, Vec<usize>))
    requires
        nodes_in_order(*old(b)),
    ensures
        grown(*old(b), *final(b)),
        (model(*final(b)), out.0@, out.1@) == converted::added_whens(
            model(*old(b)),
            ws@,
            depth as nat,
            0,
            Seq::empty(),
            Seq::empty(),
        ),
        all_before(out.0@, final(b).exprs@.len() as int),
        all_before(out.1@, final(b).exprs@.len() as int),
        out.0@.len() == ws@.len(),
        out.1@.len() == ws@.len(),
    decreases depth, 2int,
{
    let ghost before = *b;
    let mut conditions: Vec<usize> = Vec::new();
    let mut results: Vec<usize> = Vec::new();
    assert(conditions@ =~= Seq::empty() && results@ =~= Seq::empty());
    for i in 0..ws.len()
        invariant
            grown(before, *b),
            converted::added_whens(model(before), ws@, depth as nat, 0, Seq::empty(), Seq::empty())
                == converted::added_whens(model(*b), ws@, depth as nat, i as int, conditions@, results@),
            all_before(conditions@, b.exprs@.len() as int),
            all_before(results@, b.exprs@.len() as int),
            conditions@.len() == i,
            results@.len() == i,
    {
        let (c, r) = tree::open_when(&ws[i]);
        conditions.push(add_expr(b, c, depth));
        results.push(add_expr(b, r, depth));
    }
    (conditions, results)
}

/// Adds an argument of a call.
fn add_argument(b: &mut Nodes, a: &sqlparser::ast::FunctionArg, depth: usize) -> (out: FunctionArgument)
    requires
        nodes_in_order(*old(b)),
    ensures
        grown(*old(b), *final(b)),
        (model(*final(b)), out@) == converted::added_argument(model(*old(b)), *a, depth as nat),
        argument_before(out@, final(b).exprs@.len() as int),
    decreases depth, 2int,
{
    match tree::open_argument(a) {
        ArgumentShape::Unnamed(e) => FunctionArgument::Unnamed(add_expr(b, e, depth)),
        ArgumentShape::Named(e) => FunctionArgument::Named(add_expr(b, e, depth)),
        ArgumentShape::Wildcard => FunctionArgument::Wildcard,
        ArgumentShape::Other(t) => {
            add_leaves(b, &tree::nested_in_argument(a));
            FunctionArgument::Other(t)
        },
    }
}

/// Adds the arguments of a call.
fn add_arguments(b: &mut Nodes, f: &sqlparser::ast::Function, depth: usize) -> (out: FunctionArguments)
    requires
        nodes_in_order(*old(b)),
    ensures
        grown(*old(b), *final(b)),
        (model(*final(b)), out@) == converted::added_arguments(model(*old(b)), *f, depth as nat),
        out@ matches syntax::FunctionArgumentsV::List { args, .. } ==> forall|i: int|
            0 <= i < args.len() ==> argument_before(#[trigger] args[i], final(b).exprs@.len() as int),
    decreases depth, 3int,
{
    match tree::open_function(f) {
        ArgumentsShape::Absent => FunctionArguments::Absent,
        ArgumentsShape::Other(t) => FunctionArguments::Other(t),
        ArgumentsShape::List(list, distinct) => {
            let ghost before = *b;
            let mut args: Vec<FunctionArgument> = Vec::new();
            assert(syntax::function_arguments_view(args@) =~= Seq::empty());
            for i in 0..list.len()
                invariant
                    grown(before, *b),
                    converted::added_argument_list(model(before), list@, depth as nat, 0, Seq::empty())
                        == converted::added_argument_list(
                        model(*b),
                        list@,
                        depth as nat,
                        i as int,
                        syntax::function_arguments_view(args@),
                    ),
                    forall|j: int|
                        0 <= j < args@.len() ==> argument_before((#[trigger] args@[j])@, b.exprs@.len() as int),
            {
                let ghost so_far = args@;
                args.push(add_argument(b, &list[i], depth));
                assert(syntax::function_arguments_view(args@) =~= syntax::function_arguments_view(so_far).push(
                    args@[so_far.len() as int]@,
                ));
                assert forall|j: int| 0 <= j < args@.len() implies argument_before(
                    (#[trigger] args@[j])@,
                    b.exprs@.len() as int,
                ) by {
                    if j < so_far.len() {
                        assert(args@[j] == so_far[j]);
                    }
                }
            }
            FunctionArguments::List { args, distinct }
        },
    }
}

/// Adds a query: its body, its sort keys, its limit.
fn add_query(b: &mut Nodes, q: &sqlparser::ast::Query, depth: usize) -> (out: Query)
    requires
        nodes_in_order(*old(b)),
    ensures
        grown(*old(b), *final(b)),
        (model(*final(b)), out@) == converted::added_query(model(*old(b)), *q, depth as nat),
        query_before(out@, final(b).exprs@.len() as int, final(b).sets@.len() as int),
    decreases depth, 4int,
{
    let body = add_set(b, tree::query_body(q), depth);
    let order_by = add_order(b, q, depth);
    let limit = add_limit(b, q, depth);
    Query { body, order_by, limit }
}

/// Adds the limit of a query.
fn add_limit(b: &mut Nodes, q: &sqlparser::ast::Query, depth: usize) -> (out: LimitClause)
    requires
        nodes_in_order(*old(b)),
    ensures
        grown(*old(b), *final(b)),
        (model(*final(b)), out@) == converted::added_limit(model(*old(b)), *q, depth as nat),
        out@ matches syntax::LimitClauseV::LimitOffset { limit, offset } ==> maybe_before(
            limit,
            final(b).exprs@.len() as int,
        ) && maybe_before(offset, final(b).exprs@.len() as int),
    decreases depth, 3int,
{
    match tree::query_limit(q) {
        LimitShape::Absent => LimitClause::Absent,
        LimitShape::LimitOffset(l, o, by) => {
            let limit = add_maybe(b, l, depth);
            let offset = add_maybe(b, o, depth);
            add_exprs(b, by, depth);
            LimitClause::LimitOffset { limit, offset }
        },
        LimitShape::OffsetLimit(o, l) => {
            let offset = add_expr(b, o, depth);
            let limit = add_expr(b, l, depth);
            LimitClause::LimitOffset { limit: Some(limit), offset: Some(offset) }
        },
    }
}

/// Adds the sort keys of a query. An absent clause has no keys.
fn add_order(b: &mut Nodes, q: &sqlparser::ast::Query, depth: usize) -> (out: OrderBy)
    requires
        nodes_in_order(*old(b)),
    ensures
        grown(*old(b), *final(b)),
        (model(*final(b)), out@) == converted::added_order(model(*old(b)), *q, depth as nat),
        out@ matches syntax::OrderByV::Expressions(os) ==> forall|i: int|
            0 <= i < os.len() ==> (#[trigger] os[i]).expr < final(b).exprs@.len(),
    decreases depth, 2int,
{
    let mut items: Vec<OrderItem> = Vec::new();
    assert(syntax::order_items_view(items@) =~= Seq::empty());
    match tree::query_order(q) {
        OrderShape::Absent => OrderBy::Expressions(items),
        OrderShape::All => OrderBy::All,
        OrderShape::Expressions(es) => {
            let ghost before = *b;
            for i in 0..es.len()
                invariant
                    grown(before, *b),
                    forall|j: int| 0 <= j < items@.len() ==> (#[trigger] items@[j]).expr < b.exprs@.len(),
                    converted::added_order_items(model(before), es@, depth as nat, 0, Seq::empty())
                        == converted::added_order_items(
                        model(*b),
                        es@,
                        depth as nat,
                        i as int,
                        syntax::order_items_view(items@),
                    ),
            {
                let (e, asc) = tree::open_order_item(&es[i]);
                let expr = add_expr(b, e, depth);
                let ghost so_far = syntax::order_items_view(items@);
                items.push(OrderItem { expr, asc });
                assert(syntax::order_items_view(items@) =~= so_far.push(syntax::OrderItemV { expr, asc }));
            }
            OrderBy::Expressions(items)
        },
    }
}

/// Adds the body of a query, the bodies in it first.
fn add_set(b: &mut Nodes, s: &sqlparser::ast::SetExpr, depth: usize) -> (at: usize)
    requires
        nodes_in_order(*old(b)),
    ensures
        grown(*old(b), *final(b)),
        (model(*final(b)), at) == converted::added_set(model(*old(b)), *s, depth as nat),
        at < final(b).sets@.len(),
    decreases depth, 1int,
{
    if depth == 0 {
        return b.push_set(SetNode::Other("nested too deep".to_string()));
    }
    let d = depth - 1;
    let shape = match tree::open_operation(s) {
        Some(x) => x,
        None => tree::open_set(s),
    };
    match shape {
        SetShape::Select(x) => {
            let select = add_select(b, x, d);
            b.push_set(SetNode::Select(select))
        },
        SetShape::Query(x) => {
            let query = add_query(b, x, d);
            b.push_set(SetNode::Query(query))
        },
        SetShape::Operation(op, all, l, r) => {
            let left = add_set(b, l, d);
            let right = add_set(b, r, d);
            b.push_set(SetNode::SetOperation { op, all, left, right })
        },
        SetShape::Values(rows) => {
            let rows = add_rows(b, rows, d);
            b.push_set(SetNode::Values(rows))
        },
        SetShape::Other(t) => b.push_set(SetNode::Other(t)),
    }
}

/// Adds rows of values.
fn add_rows(
    b: &mut Nodes,
    rows: &Vec<sqlparser::ast::Parens<Vec<sqlparser::ast::Expr>>>,
    depth: usize,
) -> (out: Vec<ValuesRow>)
    requires
        nodes_in_order(*old(b)),
    ensures
        grown(*old(b), *final(b)),
        (model(*final(b)), syntax::values_rows_view(out@)) == converted::added_rows(model(*old(b)), rows@, depth as nat, 0, Seq::empty()),
        out@.len() == rows@.len(),
        forall|i: int|
            0 <= i < out@.len() ==> all_before((#[trigger] out@[i]).exprs@, final(b).exprs@.len() as int),
    decreases depth, 3int,
{
    let ghost before = *b;
    let mut out: Vec<ValuesRow> = Vec::new();
    assert(syntax::values_rows_view(out@) =~= Seq::empty());
    for i in 0..rows.len()
        invariant
            grown(before, *b),
            converted::added_rows(model(before), rows@, depth as nat, 0, Seq::empty()) == converted::added_rows(
                model(*b),
                rows@,
                depth as nat,
                i as int,
                syntax::values_rows_view(out@),
            ),
            out@.len() == i,
            forall|j: int| 0 <= j < out@.len() ==> all_before((#[trigger] out@[j]).exprs@, b.exprs@.len() as int),
    {
        let ghost so_far = out@;
        out.push(ValuesRow { exprs: add_exprs(b, tree::open_row(&rows[i]), depth) });
        assert(syntax::values_rows_view(out@) =~= syntax::values_rows_view(so_far).push(out@[so_far.len() as int]@));
        assert forall|j: int| 0 <= j < out@.len() implies all_before(
            (#[trigger] out@[j]).exprs@,
            b.exprs@.len() as int,
        ) by {
            if j < so_far.len() {
                assert(out@[j] == so_far[j]);
            }
        }
    }
    out
}

/// Adds a source of rows: of a subquery or a table function only the expressions.
fn add_factor(b: &mut Nodes, t: &sqlparser::ast::TableFactor, depth: usize) -> (out: TableFactor)
    requires
        nodes_in_order(*old(b)),
    ensures
        grown(*old(b), *final(b)),
        (model(*final(b)), out@) == converted::added_factor(model(*old(b)), *t, depth as nat),
    decreases depth, 5int,
{
    match tree::open_factor(t) {
        FactorShape::Table(name, alias) => {
            let alias = match alias {
                Some(a) => Some(tree::ident_text(a)),
                None => None,
            };
            TableFactor::Table { name: tree::write_name(name), alias }
        },
        FactorShape::Derived(q) => {
            add_query(b, q, depth);
            TableFactor::Other(tree::describe_factor(t))
        },
        FactorShape::TableFunction(e) => {
            add_expr(b, e, depth);
            TableFactor::Other(tree::describe_factor(t))
        },
        FactorShape::Other => TableFactor::Other(tree::describe_factor(t)),
    }
}

/// Adds the condition of a join.
fn add_constraint(b: &mut Nodes, c: &sqlparser::ast::JoinConstraint, depth: usize) -> (out: JoinConstraint)
    requires
        nodes_in_order(*old(b)),
    ensures
        grown(*old(b), *final(b)),
        (model(*final(b)), out) == converted::added_constraint(model(*old(b)), *c, depth as nat),
        out matches JoinConstraint::On(e) ==> e < final(b).exprs@.len(),
    decreases depth, 2int,
{
    match tree::open_constraint(c) {
        ConstraintShape::On(e) => JoinConstraint::On(add_expr(b, e, depth)),
        ConstraintShape::Absent => JoinConstraint::Absent,
        ConstraintShape::Other => JoinConstraint::Other,
    }
}

/// Adds the operator of a join: its kind and its condition.
fn add_operator(b: &mut Nodes, op: &sqlparser::ast::JoinOperator, depth: usize) -> (out: (JoinKind, JoinConstraint))
    requires
        nodes_in_order(*old(b)),
    ensures
        grown(*old(b), *final(b)),
        (model(*final(b)), out.0, out.1) == converted::added_operator(model(*old(b)), *op, depth as nat),
        out.1 matches JoinConstraint::On(e) ==> e < final(b).exprs@.len(),
    decreases depth, 3int,
{
    match tree::open_planned_join(op) {
        Some((kind, c)) => {
            let constraint = add_constraint(b, c, depth);
            (kind, constraint)
        },
        None => match tree::open_other_join(op) {
            Some(c) => {
                let constraint = add_constraint(b, c, depth);
                (JoinKind::Other, constraint)
            },
            None => (JoinKind::Other, JoinConstraint::Absent),
        },
    }
}

/// Adds a joined table: the source, then the condition.
fn add_join(b: &mut Nodes, j: &sqlparser::ast::Join, depth: usize) -> (out: Join)
    requires
        nodes_in_order(*old(b)),
    ensures
        grown(*old(b), *final(b)),
        (model(*final(b)), out@) == converted::added_join(model(*old(b)), *j, depth as nat),
        out.constraint matches JoinConstraint::On(e) ==> e < final(b).exprs@.len(),
    decreases depth, 6int,
{
    let (factor, op) = tree::open_join(j);
    let relation = add_factor(b, factor, depth);
    let (kind, constraint) = add_operator(b, op, depth);
    Join { relation, kind, constraint, text: tree::describe_join(op) }
}

/// Adds a table and the tables joined to it.
fn add_table(b: &mut Nodes, t: &sqlparser::ast::TableWithJoins, depth: usize) -> (out: TableWithJoins)
    requires
        nodes_in_order(*old(b)),
    ensures
        grown(*old(b), *final(b)),
        (model(*final(b)), out@) == converted::added_table(model(*old(b)), *t, depth as nat),
        joins_before(out@.joins, final(b).exprs@.len() as int),
    decreases depth, 7int,
{
    let (factor, js) = tree::open_table(t);
    let relation = add_factor(b, factor, depth);
    let ghost before = *b;
    let mut joins: Vec<Join> = Vec::new();
    assert(syntax::joins_view(joins@) =~= Seq::empty());
    for i in 0..js.len()
        invariant
            grown(before, *b),
            converted::added_joins(model(before), js@, depth as nat, 0, Seq::empty()) == converted::added_joins(
                model(*b),
                js@,
                depth as nat,
                i as int,
                syntax::joins_view(joins@),
            ),
            forall|j: int|
                0 <= j < joins@.len() ==> ((#[trigger] joins@[j]).constraint matches JoinConstraint::On(e) ==> e
                    < b.exprs@.len()),
    {
        let ghost so_far = joins@;
        joins.push(add_join(b, &js[i], depth));
        assert(syntax::joins_view(joins@) =~= syntax::joins_view(so_far).push(joins@[so_far.len() as int]@));
        assert forall|j: int| 0 <= j < joins@.len() implies ((#[trigger] joins@[j]).constraint matches JoinConstraint::On(
            e,
        ) ==> e < b.exprs@.len()) by {
            if j < so_far.len() {
                assert(joins@[j] == so_far[j]);
            }
        }
    }
    TableWithJoins { relation, joins }
}

/// Adds an item of a SELECT list.
fn add_item(b: &mut Nodes, s: &sqlparser::ast::SelectItem, depth: usize) -> (out: SelectItem)
    requires
        nodes_in_order(*old(b)),
    ensures
        grown(*old(b), *final(b)),
        (model(*final(b)), out@) == converted::added_item(model(*old(b)), *s, depth as nat),
        item_before(out@, final(b).exprs@.len() as int),
    decreases depth, 2int,
{
    match tree::open_item(s) {
        ItemShape::Unnamed(e) => {
            let expr = add_expr(b, e, depth);
            SelectItem::Unnamed { expr, text: tree::write_expr(e) }
        },
        ItemShape::Aliased(e, alias) => {
            let expr = add_expr(b, e, depth);
            SelectItem::Aliased { expr, alias: tree::ident_text(alias) }
        },
        ItemShape::Wildcard => SelectItem::Wildcard,
        ItemShape::Other(t) => SelectItem::Other(t),
    }
}

/// Adds the items of a SELECT list.
fn add_items(b: &mut Nodes, items: &Vec<sqlparser::ast::SelectItem>, depth: usize) -> (out: Vec<SelectItem>)
    requires
        nodes_in_order(*old(b)),
    ensures
        grown(*old(b), *final(b)),
        (model(*final(b)), syntax::select_items_view(out@)) == converted::added_items(model(*old(b)), items@, depth as nat, 0, Seq::empty()),
        out@.len() == items@.len(),
        forall|i: int| 0 <= i < out@.len() ==> item_before((#[trigger] out@[i])@, final(b).exprs@.len() as int),
    decreases depth, 3int,
{
    let ghost before = *b;
    let mut out: Vec<SelectItem> = Vec::new();
    assert(syntax::select_items_view(out@) =~= Seq::empty());
    for i in 0..items.len()
        invariant
            grown(before, *b),
            converted::added_items(model(before), items@, depth as nat, 0, Seq::empty()) == converted::added_items(
                model(*b),
                items@,
                depth as nat,
                i as int,
                syntax::select_items_view(out@),
            ),
            out@.len() == i,
            forall|j: int| 0 <= j < out@.len() ==> item_before((#[trigger] out@[j])@, b.exprs@.len() as int),
    {
        let ghost so_far = out@;
        out.push(add_item(b, &items[i], depth));
        assert(syntax::select_items_view(out@) =~= syntax::select_items_view(so_far).push(out@[so_far.len() as int]@));
        assert forall|j: int| 0 <= j < out@.len() implies item_before(
            (#[trigger] out@[j])@,
            b.exprs@.len() as int,
        ) by {
            if j < so_far.len() {
                assert(out@[j] == so_far[j]);
            }
        }
    }
    out
}

/// Adds the tables of a FROM clause.
fn add_tables(b: &mut Nodes, ts: &Vec<sqlparser::ast::TableWithJoins>, depth: usize) -> (out: Vec<TableWithJoins>)
    requires
        nodes_in_order(*old(b)),
    ensures
        grown(*old(b), *final(b)),
        (model(*final(b)), syntax::table_with_joins_view(out@)) == converted::added_tables(model(*old(b)), ts@, depth as nat, 0, Seq::empty()),
        out@.len() == ts@.len(),
        forall|i: int|
            0 <= i < out@.len() ==> joins_before((#[trigger] out@[i])@.joins, final(b).exprs@.len() as int),
    decreases depth, 8int,
{
    let ghost before = *b;
    let mut out: Vec<TableWithJoins> = Vec::new();
    assert(syntax::table_with_joins_view(out@) =~= Seq::empty());
    for i in 0..ts.len()
        invariant
            grown(before, *b),
            converted::added_tables(model(before), ts@, depth as nat, 0, Seq::empty()) == converted::added_tables(
                model(*b),
                ts@,
                depth as nat,
                i as int,
                syntax::table_with_joins_view(out@),
            ),
            out@.len() == i,
            forall|j: int| 0 <= j < out@.len() ==> joins_before((#[trigger] out@[j])@.joins, b.exprs@.len() as int),
    {
        let ghost so_far = out@;
        let ghost k = b.exprs@.len() as int;
        out.push(add_table(b, &ts[i], depth));
        assert(syntax::table_with_joins_view(out@) =~= syntax::table_with_joins_view(so_far).push(
            out@[so_far.len() as int]@,
        ));
        assert forall|j: int| 0 <= j < out@.len() implies joins_before(
            (#[trigger] out@[j])@.joins,
            b.exprs@.len() as int,
        ) by {
            if j < so_far.len() {
                assert(out@[j] == so_far[j]);
                assert(joins_before(so_far[j]@.joins, k));
            }
        }
    }
    out
}

/// Adds the groups of a SELECT.
fn add_groups(b: &mut Nodes, s: &sqlparser::ast::Select, depth: usize) -> (out: GroupBy)
    requires
        nodes_in_order(*old(b)),
    ensures
        grown(*old(b), *final(b)),
        (model(*final(b)), out@) == converted::added_groups(model(*old(b)), *s, depth as nat),
        out@ matches syntax::GroupByV::Expressions { exprs, .. } ==> all_before(exprs, final(b).exprs@.len() as int),
    decreases depth, 3int,
{
    match tree::select_groups(s) {
        Some((es, modifiers)) => {
            let exprs = add_exprs(b, es, depth);
            GroupBy::Expressions { exprs, modified: modifiers > 0 }
        },
        None => GroupBy::All,
    }
}

/// Adds a SELECT: the list, the tables, the filter, the groups, the filter of groups.
fn add_select(b: &mut Nodes, s: &sqlparser::ast::Select, depth: usize) -> (out: Select)
    requires
        nodes_in_order(*old(b)),
    ensures
        grown(*old(b), *final(b)),
        (model(*final(b)), out@) == converted::added_select(model(*old(b)), *s, depth as nat),
        select_before(out@, final(b).exprs@.len() as int),
    decreases depth, 9int,
{
    let (items, tables) = tree::select_lists(s);
    let (w, h, q) = tree::select_filters(s);
    let projection = add_items(b, items, depth);
    let ghost k1 = b.exprs@.len() as int;
    let from = add_tables(b, tables, depth);
    let ghost k2 = b.exprs@.len() as int;
    let selection = add_maybe(b, w, depth);
    let group_by = add_groups(b, s, depth);
    let having = add_maybe(b, h, depth);
    add_maybe(b, q, depth);
    let out = Select { distinct: tree::select_distinct(s), projection, from, selection, group_by, having };
    proof {
        let k = b.exprs@.len() as int;
        assert forall|i: int| 0 <= i < out@.projection.len() implies item_before(#[trigger] out@.projection[i], k) by {
            assert(item_before(projection@[i]@, k1));
        }
        assert forall|i: int| 0 <= i < out@.from.len() implies joins_before((#[trigger] out@.from[i]).joins, k) by {
            assert(joins_before(from@[i]@.joins, k2));
        }
    }
    out
}

/// Adds the options of a column: the expressions of its defaults.
fn add_column_options(b: &mut Nodes, os: &Vec<sqlparser::ast::ColumnOptionDef>) -> (out: Vec<ColumnOption>)
    requires
        nodes_in_order(*old(b)),
    ensures
        grown(*old(b), *final(b)),
        (model(*final(b)), syntax::column_options_view(out@)) == converted::added_column_options(model(*old(b)), os@, 0, Seq::empty()),
        out@.len() == os@.len(),
        forall|i: int|
            0 <= i < out@.len() ==> ((#[trigger] out@[i])@ matches syntax::ColumnOptionV::Default(e) ==> e
                < final(b).exprs@.len()),
{
    let ghost before = *b;
    let mut out: Vec<ColumnOption> = Vec::new();
    assert(syntax::column_options_view(out@) =~= Seq::empty());
    for i in 0..os.len()
        invariant
            grown(before, *b),
            converted::added_column_options(model(before), os@, 0, Seq::empty()) == converted::added_column_options(
                model(*b),
                os@,
                i as int,
                syntax::column_options_view(out@),
            ),
            out@.len() == i,
            forall|j: int|
                0 <= j < out@.len() ==> ((#[trigger] out@[j])@ matches syntax::ColumnOptionV::Default(e) ==> e
                    < b.exprs@.len()),
    {
        let option = match tree::open_column_option(&os[i]) {
            OptionShape::PrimaryKey => ColumnOption::PrimaryKey,
            OptionShape::NotNull => ColumnOption::NotNull,
            OptionShape::Default(e) => ColumnOption::Default(add_expr(b, e, MAX_DEPTH)),
            OptionShape::DialectSpecific(tokens) => ColumnOption::DialectSpecific(option_tokens(tokens)),
            OptionShape::Other => ColumnOption::Other,
        };
        let ghost so_far = out@;
        out.push(option);
        assert(syntax::column_options_view(out@) =~= syntax::column_options_view(so_far).push(out@[so_far.len() as int]@));
        assert forall|j: int| 0 <= j < out@.len() implies ((#[trigger] out@[j])@ matches syntax::ColumnOptionV::Default(
            e,
        ) ==> e < b.exprs@.len()) by {
            if j < so_far.len() {
                assert(out@[j] == so_far[j]);
            }
        }
    }
    out
}

/// The words of an option that is special to a dialect.
fn option_tokens(tokens: &Vec<sqlparser::tokenizer::Token>) -> (out: Vec<OptionToken>)
    ensures
        syntax::option_tokens_view(out@) == tokens@.map_values(
            |t: sqlparser::tokenizer::Token| tree::token_text(t),
        ),
{
    let mut out: Vec<OptionToken> = Vec::new();
    for i in 0..tokens.len()
        invariant
            out@.len() == i,
            forall|j: int| 0 <= j < i ==> (#[trigger] out@[j])@ == tree::token_text(tokens@[j]),
    {
        out.push(tree::open_token(&tokens[i]));
    }
    assert(syntax::option_tokens_view(out@) =~= tokens@.map_values(
        |t: sqlparser::tokenizer::Token| tree::token_text(t),
    ));
    out
}

/// Adds the definition of a column.
fn add_column(b: &mut Nodes, c: &sqlparser::ast::ColumnDef) -> (out: ColumnDef)
    requires
        nodes_in_order(*old(b)),
    ensures
        grown(*old(b), *final(b)),
        (model(*final(b)), out@) == converted::added_column(model(*old(b)), *c),
        column_before(out@, final(b).exprs@.len() as int),
{
    let (name, ty, os) = tree::open_column(c);
    let options = add_column_options(b, os);
    let data_type = match tree::open_number_type(ty) {
        Some(t) => t,
        None => tree::open_text_type(ty),
    };
    ColumnDef { name: tree::ident_text(name), data_type, options }
}

/// Adds the definitions of columns.
fn add_columns(b: &mut Nodes, cs: &Vec<sqlparser::ast::ColumnDef>) -> (out: Vec<ColumnDef>)
    requires
        nodes_in_order(*old(b)),
    ensures
        grown(*old(b), *final(b)),
        (model(*final(b)), syntax::column_defs_view(out@)) == converted::added_columns(model(*old(b)), cs@, 0, Seq::empty()),
        out@.len() == cs@.len(),
        forall|i: int| 0 <= i < out@.len() ==> column_before((#[trigger] out@[i])@, final(b).exprs@.len() as int),
{
    let ghost before = *b;
    let mut out: Vec<ColumnDef> = Vec::new();
    assert(syntax::column_defs_view(out@) =~= Seq::empty());
    for i in 0..cs.len()
        invariant
            grown(before, *b),
            converted::added_columns(model(before), cs@, 0, Seq::empty()) == converted::added_columns(
                model(*b),
                cs@,
                i as int,
                syntax::column_defs_view(out@),
            ),
            out@.len() == i,
            forall|j: int| 0 <= j < out@.len() ==> column_before((#[trigger] out@[j])@, b.exprs@.len() as int),
    {
        let ghost so_far = out@;
        let ghost k = b.exprs@.len() as int;
        out.push(add_column(b, &cs[i]));
        assert(syntax::column_defs_view(out@) =~= syntax::column_defs_view(so_far).push(out@[so_far.len() as int]@));
        assert forall|j: int| 0 <= j < out@.len() implies column_before(
            (#[trigger] out@[j])@,
            b.exprs@.len() as int,
        ) by {
            if j < so_far.len() {
                assert(out@[j] == so_far[j]);
                assert(column_before(so_far[j]@, k));
            }
        }
    }
    out
}

/// Adds the columns of an index or a key.
fn add_index_columns(b: &mut Nodes, cs: &Vec<sqlparser::ast::IndexColumn>) -> (out: Vec<usize>)
    requires
        nodes_in_order(*old(b)),
    ensures
        grown(*old(b), *final(b)),
        (model(*final(b)), out@) == converted::added_index_columns(model(*old(b)), cs@, 0, Seq::empty()),
        all_before(out@, final(b).exprs@.len() as int),
        out@.len() == cs@.len(),
{
    let ghost before = *b;
    let mut out: Vec<usize> = Vec::new();
    assert(out@ =~= Seq::empty());
    for i in 0..cs.len()
        invariant
            grown(before, *b),
            converted::added_index_columns(model(before), cs@, 0, Seq::empty()) == converted::added_index_columns(
                model(*b),
                cs@,
                i as int,
                out@,
            ),
            all_before(out@, b.exprs@.len() as int),
            out@.len() == i,
    {
        out.push(add_expr(b, tree::open_index_column(&cs[i]), MAX_DEPTH));
    }
    out
}

/// Whether the columns of a primary key are below a bound.
pub open spec fn constraint_before(c: syntax::TableConstraintV, k: int) -> bool {
    c matches syntax::TableConstraintV::PrimaryKey(ids) ==> all_before(ids, k)
}

/// Adds the constraints of a table: the columns of its primary keys.
fn add_constraints(b: &mut Nodes, cs: &Vec<sqlparser::ast::TableConstraint>) -> (out: Vec<TableConstraint>)
    requires
        nodes_in_order(*old(b)),
    ensures
        grown(*old(b), *final(b)),
        (model(*final(b)), syntax::table_constraints_view(out@)) == converted::added_constraints(model(*old(b)), cs@, 0, Seq::empty()),
        out@.len() == cs@.len(),
        forall|i: int|
            0 <= i < out@.len() ==> constraint_before((#[trigger] out@[i])@, final(b).exprs@.len() as int),
{
    let ghost before = *b;
    let mut out: Vec<TableConstraint> = Vec::new();
    assert(syntax::table_constraints_view(out@) =~= Seq::empty());
    for i in 0..cs.len()
        invariant
            grown(before, *b),
            converted::added_constraints(model(before), cs@, 0, Seq::empty()) == converted::added_constraints(
                model(*b),
                cs@,
                i as int,
                syntax::table_constraints_view(out@),
            ),
            out@.len() == i,
            forall|j: int| 0 <= j < out@.len() ==> constraint_before((#[trigger] out@[j])@, b.exprs@.len() as int),
    {
        let ghost so_far = out@;
        let ghost k = b.exprs@.len() as int;
        let added = match tree::open_table_constraint(&cs[i]) {
            Some(columns) => TableConstraint::PrimaryKey(add_index_columns(b, columns)),
            None => TableConstraint::Other,
        };
        out.push(added);
        assert(syntax::table_constraints_view(out@) =~= syntax::table_constraints_view(so_far).push(out@[so_far.len() as int]@));
        assert forall|j: int| 0 <= j < out@.len() implies constraint_before(
            (#[trigger] out@[j])@,
            b.exprs@.len() as int,
        ) by {
            if j < so_far.len() {
                assert(out@[j] == so_far[j]);
                assert(constraint_before(so_far[j]@, k));
            }
        }
    }
    out
}

/// Whether the value of an option is below a bound.
pub open spec fn option_before(o: syntax::TableOptionV, k: int) -> bool {
    o matches syntax::TableOptionV::KeyValue { value, .. } ==> value < k
}

/// Adds the options of a table: their values.
fn add_options(b: &mut Nodes, os: &Vec<sqlparser::ast::SqlOption>) -> (out: Vec<TableOption>)
    requires
        nodes_in_order(*old(b)),
    ensures
        grown(*old(b), *final(b)),
        (model(*final(b)), syntax::table_options_view(out@)) == converted::added_options(model(*old(b)), os@, 0, Seq::empty()),
        out@.len() == os@.len(),
        forall|i: int| 0 <= i < out@.len() ==> option_before((#[trigger] out@[i])@, final(b).exprs@.len() as int),
{
    let ghost before = *b;
    let mut out: Vec<TableOption> = Vec::new();
    assert(syntax::table_options_view(out@) =~= Seq::empty());
    for i in 0..os.len()
        invariant
            grown(before, *b),
            converted::added_options(model(before), os@, 0, Seq::empty()) == converted::added_options(
                model(*b),
                os@,
                i as int,
                syntax::table_options_view(out@),
            ),
            out@.len() == i,
            forall|j: int| 0 <= j < out@.len() ==> option_before((#[trigger] out@[j])@, b.exprs@.len() as int),
    {
        let ghost so_far = out@;
        let added = match tree::open_option(&os[i]) {
            Some((key, e)) => {
                let value = add_expr(b, e, MAX_DEPTH);
                TableOption::KeyValue { key: tree::ident_text(key), value }
            },
            None => TableOption::Other,
        };
        out.push(added);
        assert(syntax::table_options_view(out@) =~= syntax::table_options_view(so_far).push(out@[so_far.len() as int]@));
        assert forall|j: int| 0 <= j < out@.len() implies option_before(
            (#[trigger] out@[j])@,
            b.exprs@.len() as int,
        ) by {
            if j < so_far.len() {
                assert(out@[j] == so_far[j]);
                assert(option_before(so_far[j]@, b.exprs@.len() as int));
            }
        }
    }
    out
}

/// Whether the column that an alteration adds is below a bound.
pub open spec fn alteration_before(o: syntax::AlterOperationV, k: int) -> bool {
    o matches syntax::AlterOperationV::AddColumn(c) ==> column_before(c, k)
}

/// Adds the operations of an ALTER TABLE.
fn add_alterations(b: &mut Nodes, os: &Vec<sqlparser::ast::AlterTableOperation>) -> (out: Vec<AlterOperation>)
    requires
        nodes_in_order(*old(b)),
    ensures
        grown(*old(b), *final(b)),
        (model(*final(b)), syntax::alter_operations_view(out@)) == converted::added_alterations(model(*old(b)), os@, 0, Seq::empty()),
        out@.len() == os@.len(),
        forall|i: int|
            0 <= i < out@.len() ==> alteration_before((#[trigger] out@[i])@, final(b).exprs@.len() as int),
{
    let ghost before = *b;
    let mut out: Vec<AlterOperation> = Vec::new();
    assert(syntax::alter_operations_view(out@) =~= Seq::empty());
    for i in 0..os.len()
        invariant
            grown(before, *b),
            converted::added_alterations(model(before), os@, 0, Seq::empty()) == converted::added_alterations(
                model(*b),
                os@,
                i as int,
                syntax::alter_operations_view(out@),
            ),
            out@.len() == i,
            forall|j: int| 0 <= j < out@.len() ==> alteration_before((#[trigger] out@[j])@, b.exprs@.len() as int),
    {
        let ghost so_far = out@;
        let ghost k = b.exprs@.len() as int;
        let added = match tree::open_alteration(&os[i]) {
            OperationShape::AddColumn(c) => AlterOperation::AddColumn(add_column(b, c)),
            OperationShape::RenameColumn(old_column, new_column) => AlterOperation::RenameColumn {
                old_name: tree::ident_text(old_column),
                new_name: tree::ident_text(new_column),
            },
            OperationShape::Other(t) => AlterOperation::Other(t),
        };
        out.push(added);
        assert(syntax::alter_operations_view(out@) =~= syntax::alter_operations_view(so_far).push(out@[so_far.len() as int]@));
        assert forall|j: int| 0 <= j < out@.len() implies alteration_before(
            (#[trigger] out@[j])@,
            b.exprs@.len() as int,
        ) by {
            if j < so_far.len() {
                assert(out@[j] == so_far[j]);
                assert(alteration_before(so_far[j]@, k));
            }
        }
    }
    out
}

/// Adds the assignments of an UPDATE: their values.
fn add_assignments(b: &mut Nodes, xs: &Vec<sqlparser::ast::Assignment>) -> (out: Vec<Assignment>)
    requires
        nodes_in_order(*old(b)),
    ensures
        grown(*old(b), *final(b)),
        (model(*final(b)), syntax::assignments_view(out@)) == converted::added_assignments(model(*old(b)), xs@, 0, Seq::empty()),
        out@.len() == xs@.len(),
        forall|i: int| 0 <= i < out@.len() ==> (#[trigger] out@[i]).value < final(b).exprs@.len(),
{
    let ghost before = *b;
    let mut out: Vec<Assignment> = Vec::new();
    assert(syntax::assignments_view(out@) =~= Seq::empty());
    for i in 0..xs.len()
        invariant
            grown(before, *b),
            converted::added_assignments(model(before), xs@, 0, Seq::empty()) == converted::added_assignments(
                model(*b),
                xs@,
                i as int,
                syntax::assignments_view(out@),
            ),
            out@.len() == i,
            forall|j: int| 0 <= j < out@.len() ==> (#[trigger] out@[j]).value < b.exprs@.len(),
    {
        let (name, e) = tree::open_assignment(&xs[i]);
        let value = add_expr(b, e, MAX_DEPTH);
        let target = match name {
            Some(n) => AssignmentTarget::Column(object_name(n)),
            None => AssignmentTarget::Tuple,
        };
        let ghost so_far = out@;
        out.push(Assignment { target, value });
        assert(syntax::assignments_view(out@) =~= syntax::assignments_view(so_far).push(out@[so_far.len() as int]@));
    }
    out
}

/// The first sources of tables with joins. What is joined to them is left out.
fn first_sources(ts: &Vec<sqlparser::ast::TableWithJoins>) -> (out: Vec<TableFactor>)
    ensures
        syntax::table_factors_view(out@) == converted::sources_of(ts@),
{
    let mut out: Vec<TableFactor> = Vec::new();
    for i in 0..ts.len()
        invariant
            out@.len() == i,
            forall|j: int| 0 <= j < i ==> (#[trigger] out@[j])@ == converted::source_of(tree::table_parts(ts@[j]).0),
    {
        let (factor, _) = tree::open_table(&ts[i]);
        out.push(source_alone(factor));
    }
    assert(syntax::table_factors_view(out@) =~= converted::sources_of(ts@));
    out
}

/// A source of rows without the expressions in it.
fn source_alone(t: &sqlparser::ast::TableFactor) -> (out: TableFactor)
    ensures
        out@ == converted::source_of(*t),
{
    match tree::open_factor(t) {
        FactorShape::Table(name, alias) => {
            let alias = match alias {
                Some(a) => Some(tree::ident_text(a)),
                None => None,
            };
            TableFactor::Table { name: tree::write_name(name), alias }
        },
        _ => TableFactor::Other(tree::describe_factor(t)),
    }
}

/// Names with their parts.
fn object_names(ns: &Vec<sqlparser::ast::ObjectName>) -> (out: Vec<ObjectName>)
    ensures
        syntax::object_names_view(out@) == ns@.map_values(|n: sqlparser::ast::ObjectName| converted::named(n)),
{
    let mut out: Vec<ObjectName> = Vec::new();
    for i in 0..ns.len()
        invariant
            out@.len() == i,
            forall|j: int| 0 <= j < i ==> (#[trigger] out@[j])@ == converted::named(ns@[j]),
    {
        out.push(object_name(&ns[i]));
    }
    assert(syntax::object_names_view(out@) =~= ns@.map_values(
        |n: sqlparser::ast::ObjectName| converted::named(n),
    ));
    out
}

/// Adds a CREATE TABLE.
fn add_create_table(b: &mut Nodes, t: &sqlparser::ast::CreateTable) -> (out: StatementBody)
    requires
        nodes_in_order(*old(b)),
    ensures
        grown(*old(b), *final(b)),
        (model(*final(b)), out@) == converted::added_create_table(model(*old(b)), *t),
        body_before(out@, final(b).exprs@.len() as int, final(b).sets@.len() as int),
{
    let (name, cs, ks) = tree::open_create_table(t);
    let columns = add_columns(b, cs);
    let ghost k1 = b.exprs@.len() as int;
    let constraints = add_constraints(b, ks);
    let ghost k2 = b.exprs@.len() as int;
    let options = match tree::open_table_options(t) {
        Some(os) => add_options(b, os),
        None => {
            let none: Vec<TableOption> = Vec::new();
            assert(syntax::table_options_view(none@) =~= Seq::empty());
            none
        },
    };
    let out = StatementBody::CreateTable { name: tree::write_name(name), columns, constraints, options };
    proof {
        let k = b.exprs@.len() as int;
        let cv = syntax::column_defs_view(columns@);
        let tv = syntax::table_constraints_view(constraints@);
        let ov = syntax::table_options_view(options@);
        assert forall|i: int| 0 <= i < cv.len() implies column_before(#[trigger] cv[i], k) by {
            assert(column_before(columns@[i]@, k1));
        }
        assert forall|i: int| 0 <= i < tv.len() implies ((#[trigger] tv[i]) matches syntax::TableConstraintV::PrimaryKey(
            ids,
        ) ==> all_before(ids, k)) by {
            assert(constraint_before(constraints@[i]@, k2));
        }
        assert forall|i: int| 0 <= i < ov.len() implies ((#[trigger] ov[i]) matches syntax::TableOptionV::KeyValue {
            value,
            ..
        } ==> value < k) by {
            assert(option_before(options@[i]@, k));
        }
    }
    out
}

/// Adds an ALTER TABLE.
fn add_alter_table(
    b: &mut Nodes,
    name: &sqlparser::ast::ObjectName,
    os: &Vec<sqlparser::ast::AlterTableOperation>,
) -> (out: StatementBody)
    requires
        nodes_in_order(*old(b)),
    ensures
        grown(*old(b), *final(b)),
        ({
            let added = converted::added_alterations(model(*old(b)), os@, 0, Seq::empty());
            model(*final(b)) == added.0 && out@ == (syntax::StatementBodyV::AlterTable {
                name: tree::name_display(*name),
                operations: added.1,
            })
        }),
        body_before(out@, final(b).exprs@.len() as int, final(b).sets@.len() as int),
{
    let operations = add_alterations(b, os);
    let out = StatementBody::AlterTable { name: tree::write_name(name), operations };
    proof {
        let k = b.exprs@.len() as int;
        let ov = syntax::alter_operations_view(operations@);
        assert forall|i: int| 0 <= i < ov.len() implies ((#[trigger] ov[i]) matches syntax::AlterOperationV::AddColumn(c)
            ==> column_before(c, k)) by {
            assert(alteration_before(operations@[i]@, k));
        }
    }
    out
}

/// Adds an UPDATE: the assignments, then the filter.
fn add_update(b: &mut Nodes, u: &sqlparser::ast::Update) -> (out: StatementBody)
    requires
        nodes_in_order(*old(b)),
    ensures
        grown(*old(b), *final(b)),
        (model(*final(b)), out@) == converted::added_update(model(*old(b)), *u),
        body_before(out@, final(b).exprs@.len() as int, final(b).sets@.len() as int),
{
    let (factor, xs, w) = tree::open_update(u);
    let assignments = add_assignments(b, xs);
    let ghost k1 = b.exprs@.len() as int;
    let selection = add_maybe(b, w, MAX_DEPTH);
    let out = StatementBody::Update { table: source_alone(factor), assignments, selection };
    proof {
        let av = syntax::assignments_view(assignments@);
        assert forall|i: int| 0 <= i < av.len() implies (#[trigger] av[i]).value < b.exprs@.len() by {
            assert(assignments@[i].value < k1);
        }
    }
    out
}

/// Adds a CREATE INDEX.
fn add_create_index(b: &mut Nodes, c: &sqlparser::ast::CreateIndex) -> (out: StatementBody)
    requires
        nodes_in_order(*old(b)),
    ensures
        grown(*old(b), *final(b)),
        (model(*final(b)), out@) == converted::added_create_index(model(*old(b)), *c),
        body_before(out@, final(b).exprs@.len() as int, final(b).sets@.len() as int),
{
    let (name, table, cs) = tree::open_create_index(c);
    let columns = add_index_columns(b, cs);
    let name = match name {
        Some(n) => Some(tree::write_name(n)),
        None => None,
    };
    StatementBody::CreateIndex {
        name,
        table_name: tree::write_name(table),
        columns,
        using: tree::open_index_method(c),
    }
}

/// Adds an INSERT.
fn add_insert(b: &mut Nodes, i: &sqlparser::ast::Insert) -> (out: StatementBody)
    requires
        nodes_in_order(*old(b)),
    ensures
        grown(*old(b), *final(b)),
        (model(*final(b)), out@) == converted::added_insert(model(*old(b)), *i),
        body_before(out@, final(b).exprs@.len() as int, final(b).sets@.len() as int),
{
    let (columns, query) = tree::open_insert(i);
    let source = match query {
        Some(q) => Some(add_query(b, q, MAX_DEPTH)),
        None => None,
    };
    StatementBody::Insert { table: tree::insert_table(i), columns: object_names(columns), source }
}

/// Adds a DELETE.
fn add_delete(b: &mut Nodes, d: &sqlparser::ast::Delete) -> (out: StatementBody)
    requires
        nodes_in_order(*old(b)),
    ensures
        grown(*old(b), *final(b)),
        (model(*final(b)), out@) == converted::added_delete(model(*old(b)), *d),
        body_before(out@, final(b).exprs@.len() as int, final(b).sets@.len() as int),
{
    let (tables, w) = tree::open_delete(d);
    let from = first_sources(tables);
    let selection = add_maybe(b, w, MAX_DEPTH);
    StatementBody::Delete { from, selection }
}

/// Adds what a statement says.
fn add_body(b: &mut Nodes, s: &sqlparser::ast::Statement) -> (out: StatementBody)
    requires
        nodes_in_order(*old(b)),
    ensures
        grown(*old(b), *final(b)),
        (model(*final(b)), out@) == converted::added_body(model(*old(b)), *s),
        body_before(out@, final(b).exprs@.len() as int, final(b).sets@.len() as int),
{
    match tree::open_statement(s) {
        StatementShape::CreateTable(t) => add_create_table(b, t),
        StatementShape::Drop(kind, names) => StatementBody::Drop {
            kind: tree::open_drop_kind(kind),
            names: name_texts(names),
        },
        StatementShape::CreateIndex(c) => add_create_index(b, c),
        StatementShape::AlterTable(name, os) => add_alter_table(b, name, os),
        StatementShape::Insert(i) => add_insert(b, i),
        StatementShape::Delete(d) => add_delete(b, d),
        StatementShape::Update(u) => add_update(b, u),
        StatementShape::Query(q) => StatementBody::Query(add_query(b, q, MAX_DEPTH)),
        StatementShape::Analyze(name) => StatementBody::Analyze {
            table_name: match name {
                Some(n) => Some(tree::write_name(n)),
                None => None,
            },
        },
        StatementShape::Other(t) => StatementBody::Other(t),
    }
}

/// A statement from the parser's tree.
fn convert_statement(s: &sqlparser::ast::Statement) -> (out: Statement)
    ensures
        in_order(out@),
        out@ == converted::statement_of(*s),
{
    let mut inner = s;
    let mut times: usize = 0;
    while times < MAX_DEPTH
        invariant_except_break
            converted::explained(*s, MAX_DEPTH as nat).0 == converted::explained(
                *inner,
                (MAX_DEPTH - times) as nat,
            ).0,
            converted::explained(*s, MAX_DEPTH as nat).1 == times + converted::explained(
                *inner,
                (MAX_DEPTH - times) as nat,
            ).1,
        invariant
            times <= MAX_DEPTH,
        ensures
            converted::explained(*s, MAX_DEPTH as nat) == (*inner, times as nat),
        decreases MAX_DEPTH - times,
    {
        match tree::explained(inner) {
            Some(x) => {
                inner = x;
                times = times + 1;
            },
            None => {
                break;
            },
        }
    }
    let mut b = Nodes { exprs: Vec::new(), sets: Vec::new() };
    assert(model(b) =~= NodesV { exprs: Seq::empty(), sets: Seq::empty() });
    let body = add_body(&mut b, inner);
    let ghost built = b;
    let out = Statement { body, explained: times, exprs: b.exprs, sets: b.sets };
    proof {
        assert forall|i: int| 0 <= i < out@.exprs.len() implies node_before(#[trigger] out@.exprs[i], i) by {
            assert(node_before(built.exprs@[i]@, i));
        }
        assert forall|i: int| 0 <= i < out@.sets.len() implies set_before(
            #[trigger] out@.sets[i],
            out@.exprs.len() as int,
            i,
        ) by {
            assert(set_before(built.sets@[i]@, built.exprs@.len() as int, i));
        }
    }
    out
}

/// The models of statements.
pub open spec fn statements_view(s: Seq<Statement>) -> Seq<StatementV> {
    s.map_values(|x: Statement| x@)
}

/// Statements from the parser's trees.
fn convert_statements(ss: &Vec<sqlparser::ast::Statement>) -> (out: Vec<Statement>)
    ensures
        statements_view(out@) == converted::statements_of(ss@),
        forall|i: int| 0 <= i < out@.len() ==> in_order((#[trigger] out@[i])@),
{
    let mut out: Vec<Statement> = Vec::new();
    for i in 0..ss.len()
        invariant
            out@.len() == i,
            forall|j: int| 0 <= j < i ==> (#[trigger] out@[j])@ == converted::statement_of(ss@[j]) && in_order(out@[j]@),
    {
        out.push(convert_statement(&ss[i]));
    }
    assert(statements_view(out@) =~= converted::statements_of(ss@));
    out
}

// ---------------------------------------------------------------- parsing

/// The statements of a text. A text that is no SQL gives the parser's words.
pub open spec fn statements_of(sql: Seq<char>) -> Result<Seq<StatementV>, ErrorV> {
    match tokens::tokens_of(sql) {
        Err(t) => Err(facts::named_error(ErrorKind::Syntax, t)),
        Ok(ts) => if tokens::breaks_off(tokens::lexemes(ts)) {
            Err(facts::named_error(ErrorKind::Syntax, "sql parser error: Expected: identifier"@))
        } else {
            match tree::parsed_trees(ts) {
                Ok(s) => Ok(converted::statements_of(s)),
                Err(t) => Err(facts::named_error(ErrorKind::Syntax, t)),
            }
        },
    }
}

/// The statements of a text.
pub fn parse_sql(sql: &str) -> (out: Result<Vec<Statement>, SqlError>)
    ensures
        match out {
            Ok(v) => statements_of(sql@) == Ok::<Seq<StatementV>, ErrorV>(statements_view(v@)),
            Err(e) => statements_of(sql@) == Err::<Seq<StatementV>, ErrorV>(e@),
        },
        out matches Ok(v) ==> forall|i: int| 0 <= i < v@.len() ==> in_order((#[trigger] v@[i])@),
{
    match tokens::tokenize(sql) {
        Err(t) => Err(SqlError::named(ErrorKind::Syntax, t.as_str())),
        Ok(ts) => {
            if tokens::break_off(&ts) {
                return Err(SqlError::named(ErrorKind::Syntax, "sql parser error: Expected: identifier"));
            }
            match tree::parse_trees(ts) {
                Ok(v) => Ok(convert_statements(&v)),
                Err(t) => Err(SqlError::named(ErrorKind::Syntax, t.as_str())),
            }
        },
    }
}

/// The one statement of some. None at all, or more than one, is an error.
pub open spec fn the_statement(s: Result<Seq<StatementV>, ErrorV>) -> Result<StatementV, ErrorV> {
    match s {
        Err(e) => Err(e),
        Ok(v) => if v.len() == 0 {
            Err(facts::plain_error(ErrorKind::NoStatement))
        } else if v.len() > 1 {
            Err(facts::plain_error(ErrorKind::ManyStatements))
        } else {
            Ok(v[0])
        },
    }
}

/// The one statement of some.
pub fn single_statement(statements: Vec<Statement>) -> (out: Result<Statement, SqlError>)
    ensures
        parse_result(out) == the_statement(Ok(statements_view(statements@))),
        out matches Ok(s) ==> statements@.len() == 1 && s == statements@[0],
{
    let mut rest = statements;
    if rest.len() == 0 {
        return Err(SqlError::plain(ErrorKind::NoStatement));
    }
    if rest.len() > 1 {
        return Err(SqlError::plain(ErrorKind::ManyStatements));
    }
    let ghost before = rest@;
    let s = rest.remove(0);
    assert(statements_view(before)[0] == before[0]@);
    Ok(s)
}

/// The first statement of some. None at all is an error.
pub open spec fn first_of(s: Result<Seq<StatementV>, ErrorV>) -> Result<StatementV, ErrorV> {
    match s {
        Err(e) => Err(e),
        Ok(v) => if v.len() == 0 {
            Err(facts::plain_error(ErrorKind::NoStatement))
        } else {
            Ok(v[0])
        },
    }
}

/// The first statement of some.
pub fn first_statement(statements: Vec<Statement>) -> (out: Result<Statement, SqlError>)
    ensures
        parse_result(out) == first_of(Ok(statements_view(statements@))),
        out matches Ok(s) ==> statements@.len() > 0 && s == statements@[0],
{
    let mut rest = statements;
    if rest.len() == 0 {
        return Err(SqlError::plain(ErrorKind::NoStatement));
    }
    let ghost before = rest@;
    let s = rest.remove(0);
    assert(statements_view(before)[0] == before[0]@);
    Ok(s)
}

/// The model of an outcome that is a statement.
pub open spec fn parse_result(r: Result<Statement, SqlError>) -> Result<StatementV, ErrorV> {
    match r {
        Ok(s) => Ok(s@),
        Err(e) => Err(e@),
    }
}

/// The one statement of a text.
pub fn parse_statement(sql: &str) -> (out: Result<Statement, SqlError>)
    ensures
        parse_result(out) == the_statement(statements_of(sql@)),
        out matches Ok(s) ==> in_order(s@),
{
    single_statement(parse_sql(sql)?)
}

} // verus!
