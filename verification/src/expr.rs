//! Scalar expressions: their columns, binding, parameters and types.

use crate::facts;
use crate::facts::{ErrorKind, ErrorV, SqlError};
use crate::logical;
use crate::logical::{LogicalPlan, PlanV};
use crate::params::Params;
use crate::schema;
use crate::schema::{Schema, SchemaV};
use crate::text;
use crate::value::{DataType, DbValue, ValueV};
use vstd::prelude::*;
use vstd::string::*;

verus! {

/// The binary operators.
#[derive(Clone, Copy, Debug, PartialEq, Eq, Structural)]
pub enum Operator {
    Eq,
    Gt,
    Lt,
    GtEq,
    LtEq,
    NotEq,
    And,
    Or,
    Like,
    Add,
    Sub,
    Mul,
    Div,
}

/// A scalar expression.
#[derive(Debug, PartialEq)]
pub enum Expr {
    /// A column by name, with its position once bound.
    Column(String, Option<usize>),
    Literal(DbValue),
    /// A parameter by name. It stays in a plan until the plan is executed; evaluating it
    /// is an error.
    Parameter(String),
    BinaryOp { left: Box<Expr>, op: Operator, right: Box<Expr> },
    Case {
        operand: Option<Box<Expr>>,
        conditions: Vec<Expr>,
        results: Vec<Expr>,
        else_result: Option<Box<Expr>>,
    },
    Function { name: String, args: Vec<Expr> },
    Not(Box<Expr>),
    IsNull(Box<Expr>),
    InList { expr: Box<Expr>, list: Vec<Expr> },
    /// A full-text match of a column against a query.
    Match { column: String, index: Option<usize>, query_str: String },
    /// A subquery whose single value stands for it. Subqueries are folded before
    /// execution; evaluating one is an error.
    ScalarSubquery(Box<LogicalPlan>),
    InSubquery { expr: Box<Expr>, subquery: Box<LogicalPlan>, negated: bool },
    Exists { subquery: Box<LogicalPlan>, negated: bool },
    Cast { expr: Box<Expr>, target_type: DataType },
}

/// The model of an expression.
#[verifier::ext_equal]
pub enum ExprV {
    Column(Seq<char>, Option<usize>),
    Literal(ValueV),
    Parameter(Seq<char>),
    BinaryOp { left: Box<ExprV>, op: Operator, right: Box<ExprV> },
    Case {
        operand: Option<Box<ExprV>>,
        conditions: Seq<ExprV>,
        results: Seq<ExprV>,
        else_result: Option<Box<ExprV>>,
    },
    Function { name: Seq<char>, args: Seq<ExprV> },
    Not(Box<ExprV>),
    IsNull(Box<ExprV>),
    InList { expr: Box<ExprV>, list: Seq<ExprV> },
    Match { column: Seq<char>, index: Option<usize>, query_str: Seq<char> },
    ScalarSubquery(Box<PlanV>),
    InSubquery { expr: Box<ExprV>, subquery: Box<PlanV>, negated: bool },
    Exists { subquery: Box<PlanV>, negated: bool },
    Cast { expr: Box<ExprV>, target_type: DataType },
}

impl Expr {
    /// The model of the expression.
    pub open spec fn view(&self) -> ExprV
        decreases self,
    {
        match self {
            Expr::Column(name, index) => ExprV::Column(name@, *index),
            Expr::Literal(v) => ExprV::Literal(v@),
            Expr::Parameter(name) => ExprV::Parameter(name@),
            Expr::BinaryOp { left, op, right } => ExprV::BinaryOp {
                left: Box::new(left.view()),
                op: *op,
                right: Box::new(right.view()),
            },
            Expr::Case { operand, conditions, results, else_result } => ExprV::Case {
                operand: opt_expr_view(*operand),
                conditions: exprs_view(conditions@),
                results: exprs_view(results@),
                else_result: opt_expr_view(*else_result),
            },
            Expr::Function { name, args } => ExprV::Function { name: name@, args: exprs_view(args@) },
            Expr::Not(e) => ExprV::Not(Box::new(e.view())),
            Expr::IsNull(e) => ExprV::IsNull(Box::new(e.view())),
            Expr::InList { expr, list } => ExprV::InList {
                expr: Box::new(expr.view()),
                list: exprs_view(list@),
            },
            Expr::Match { column, index, query_str } => ExprV::Match {
                column: column@,
                index: *index,
                query_str: query_str@,
            },
            Expr::ScalarSubquery(p) => ExprV::ScalarSubquery(Box::new(p.view())),
            Expr::InSubquery { expr, subquery, negated } => ExprV::InSubquery {
                expr: Box::new(expr.view()),
                subquery: Box::new(subquery.view()),
                negated: *negated,
            },
            Expr::Exists { subquery, negated } => ExprV::Exists {
                subquery: Box::new(subquery.view()),
                negated: *negated,
            },
            Expr::Cast { expr, target_type } => ExprV::Cast {
                expr: Box::new(expr.view()),
                target_type: *target_type,
            },
        }
    }
}

/// The models of a sequence of expressions.
pub open spec fn exprs_view(s: Seq<Expr>) -> Seq<ExprV>
    decreases s,
{
    Seq::new(
        s.len(),
        |i: int|
            if 0 <= i < s.len() {
                s[i].view()
            } else {
                arbitrary()
            },
    )
}

/// The model of an optional expression.
pub open spec fn opt_expr_view(o: Option<Box<Expr>>) -> Option<Box<ExprV>>
    decreases o,
{
    match o {
        Some(e) => Some(Box::new(e.view())),
        None => None,
    }
}

/// The model of an outcome that is an expression.
pub open spec fn expr_result(r: Result<Expr, SqlError>) -> Result<ExprV, ErrorV> {
    match r {
        Ok(e) => Ok(e@),
        Err(e) => Err(e@),
    }
}

/// The model of an outcome that is a list of expressions.
pub open spec fn exprs_result(r: Result<Vec<Expr>, SqlError>) -> Result<Seq<ExprV>, ErrorV> {
    match r {
        Ok(es) => Ok(exprs_view(es@)),
        Err(e) => Err(e@),
    }
}

/// The model of an outcome that is an optional expression.
pub open spec fn opt_expr_result(r: Result<Option<Box<Expr>>, SqlError>) -> Result<Option<Box<ExprV>>, ErrorV> {
    match r {
        Ok(o) => Ok(opt_expr_view(o)),
        Err(e) => Err(e@),
    }
}

// ---------------------------------------------------------------- copies

impl Expr {
    /// A copy of the expression.
    pub fn copy(&self) -> (out: Expr)
        ensures
            out@ == self@,
        decreases self,
    {
        match self {
            Expr::Column(name, index) => Expr::Column(name.clone(), *index),
            Expr::Literal(v) => Expr::Literal(v.clone()),
            Expr::Parameter(name) => Expr::Parameter(name.clone()),
            Expr::BinaryOp { left, op, right } => Expr::BinaryOp {
                left: Box::new(left.copy()),
                op: *op,
                right: Box::new(right.copy()),
            },
            Expr::Case { operand, conditions, results, else_result } => Expr::Case {
                operand: copy_opt_expr(operand),
                conditions: copy_exprs(conditions),
                results: copy_exprs(results),
                else_result: copy_opt_expr(else_result),
            },
            Expr::Function { name, args } => Expr::Function { name: name.clone(), args: copy_exprs(args) },
            Expr::Not(e) => Expr::Not(Box::new(e.copy())),
            Expr::IsNull(e) => Expr::IsNull(Box::new(e.copy())),
            Expr::InList { expr, list } => Expr::InList { expr: Box::new(expr.copy()), list: copy_exprs(list) },
            Expr::Match { column, index, query_str } => Expr::Match {
                column: column.clone(),
                index: *index,
                query_str: query_str.clone(),
            },
            Expr::ScalarSubquery(p) => Expr::ScalarSubquery(Box::new(p.copy())),
            Expr::InSubquery { expr, subquery, negated } => Expr::InSubquery {
                expr: Box::new(expr.copy()),
                subquery: Box::new(subquery.copy()),
                negated: *negated,
            },
            Expr::Exists { subquery, negated } => Expr::Exists {
                subquery: Box::new(subquery.copy()),
                negated: *negated,
            },
            Expr::Cast { expr, target_type } => Expr::Cast {
                expr: Box::new(expr.copy()),
                target_type: *target_type,
            },
        }
    }
}

impl Clone for Expr {
    fn clone(&self) -> (out: Self)
        ensures
            out@ == self@,
    {
        self.copy()
    }
}

/// A copy of a list of expressions.
pub fn copy_exprs(s: &Vec<Expr>) -> (out: Vec<Expr>)
    ensures
        exprs_view(out@) == exprs_view(s@),
    decreases s,
{
    let mut out: Vec<Expr> = Vec::new();
    for i in 0..s.len()
        invariant
            out@.len() == i,
            forall|j: int| 0 <= j < i ==> (#[trigger] out@[j])@ == s@[j]@,
            decreases_to!(s => s@),
    {
        out.push(s[i].copy());
    }
    assert(exprs_view(out@) =~= exprs_view(s@));
    out
}

/// A copy of an optional expression.
pub fn copy_opt_expr(o: &Option<Box<Expr>>) -> (out: Option<Box<Expr>>)
    ensures
        opt_expr_view(out) == opt_expr_view(*o),
    decreases o,
{
    match o {
        Some(e) => Some(Box::new(e.copy())),
        None => None,
    }
}

// ---------------------------------------------------------------- columns

/// A set of column names.
#[derive(Debug)]
pub struct ColumnSet {
    pub names: Vec<String>,
}

impl View for ColumnSet {
    type V = Set<Seq<char>>;

    open spec fn view(&self) -> Set<Seq<char>> {
        text::views(self.names@).to_set()
    }
}

impl ColumnSet {
    /// Whether no name is listed twice.
    pub open spec fn distinct(&self) -> bool {
        text::views(self.names@).no_duplicates()
    }

    /// No names.
    pub fn new() -> (out: ColumnSet)
        ensures
            out@ == Set::<Seq<char>>::empty(),
            out.distinct(),
    {
        let out = ColumnSet { names: Vec::new() };
        assert(out@ =~= Set::<Seq<char>>::empty());
        out
    }

    /// Whether a name is in the set.
    pub fn contains(&self, name: &str) -> (out: bool)
        ensures
            out == self@.contains(name@),
    {
        text::contains_text(&self.names, name)
    }

    /// Adds a name.
    pub fn insert(&mut self, name: &str)
        ensures
            final(self)@ == old(self)@.insert(name@),
            old(self).distinct() ==> final(self).distinct(),
    {
        let ghost before = text::views(self.names@);
        if !self.contains(name) {
            self.names.push(name.to_owned());
            proof {
                let after = text::views(self.names@);
                assert(after =~= before.push(name@));
                assert(after.to_set() =~= before.to_set().insert(name@)) by {
                    assert forall|x: Seq<char>| after.contains(x) == (before.contains(x) || x == name@) by {
                        if before.contains(x) {
                            let i = choose|i: int| 0 <= i < before.len() && before[i] == x;
                            assert(after[i] == x);
                        }
                        assert(after[before.len() as int] == name@);
                    }
                }
            }
        } else {
            assert(self@ =~= old(self)@.insert(name@));
        }
    }
}

/// The names of the columns an expression refers to.
pub open spec fn expr_columns(e: ExprV) -> Set<Seq<char>>
    decreases e,
{
    match e {
        ExprV::Column(name, _) => set![name],
        ExprV::Literal(_) => Set::empty(),
        ExprV::Parameter(_) => Set::empty(),
        ExprV::BinaryOp { left, right, .. } => expr_columns(*left) + expr_columns(*right),
        ExprV::Case { operand, conditions, results, else_result } => opt_expr_columns(operand) + exprs_columns(
            conditions,
        ) + exprs_columns(results) + opt_expr_columns(else_result),
        ExprV::Function { args, .. } => exprs_columns(args),
        ExprV::Not(inner) => expr_columns(*inner),
        ExprV::IsNull(inner) => expr_columns(*inner),
        ExprV::InList { expr, list } => expr_columns(*expr) + exprs_columns(list),
        ExprV::Match { column, .. } => set![column],
        ExprV::ScalarSubquery(p) => logical::plan_columns(*p),
        ExprV::Exists { subquery, .. } => logical::plan_columns(*subquery),
        ExprV::InSubquery { expr, subquery, .. } => expr_columns(*expr) + logical::plan_columns(*subquery),
        ExprV::Cast { expr, .. } => expr_columns(*expr),
    }
}

/// The names of the columns that some expressions refer to.
pub open spec fn exprs_columns(es: Seq<ExprV>) -> Set<Seq<char>>
    decreases es,
{
    if es.len() == 0 {
        Set::empty()
    } else {
        exprs_columns(es.drop_last()) + expr_columns(es.last())
    }
}

/// The names of the columns an optional expression refers to.
pub open spec fn opt_expr_columns(o: Option<Box<ExprV>>) -> Set<Seq<char>>
    decreases o,
{
    match o {
        Some(e) => expr_columns(*e),
        None => Set::empty(),
    }
}

/// What collecting a set of names into a column set does to it.
pub open spec fn adds(before: ColumnSet, after: ColumnSet, names: Set<Seq<char>>) -> bool {
    &&& after@ =~= before@ + names
    &&& before.distinct() ==> after.distinct()
}

impl Expr {
    /// Adds the names of the columns the expression refers to.
    pub fn collect_columns(&self, columns: &mut ColumnSet)
        ensures
            adds(*old(columns), *final(columns), expr_columns(self@)),
        decreases self,
    {
        match self {
            Expr::Column(name, _) => {
                columns.insert(name.as_str());
            },
            Expr::Literal(_) => {},
            Expr::Parameter(_) => {},
            Expr::BinaryOp { left, right, .. } => {
                left.collect_columns(columns);
                right.collect_columns(columns);
            },
            Expr::Case { operand, conditions, results, else_result } => {
                collect_opt_columns(operand, columns);
                collect_list_columns(conditions, columns);
                collect_list_columns(results, columns);
                collect_opt_columns(else_result, columns);
            },
            Expr::Function { args, .. } => {
                collect_list_columns(args, columns);
            },
            Expr::Not(inner) => {
                inner.collect_columns(columns);
            },
            Expr::IsNull(inner) => {
                inner.collect_columns(columns);
            },
            Expr::InList { expr, list } => {
                expr.collect_columns(columns);
                collect_list_columns(list, columns);
            },
            Expr::Match { column, .. } => {
                columns.insert(column.as_str());
            },
            Expr::ScalarSubquery(subquery) => {
                subquery.collect_columns(columns);
            },
            Expr::Exists { subquery, .. } => {
                subquery.collect_columns(columns);
            },
            Expr::InSubquery { expr, subquery, .. } => {
                expr.collect_columns(columns);
                subquery.collect_columns(columns);
            },
            Expr::Cast { expr, .. } => {
                expr.collect_columns(columns);
            },
        }
    }
}

/// Adds the names of the columns that some expressions refer to.
pub fn collect_list_columns(es: &Vec<Expr>, columns: &mut ColumnSet)
    ensures
        adds(*old(columns), *final(columns), exprs_columns(exprs_view(es@))),
    decreases es,
{
    let ghost v = exprs_view(es@);
    for i in 0..es.len()
        invariant
            v == exprs_view(es@),
            adds(*old(columns), *columns, exprs_columns(v.take(i as int))),
            decreases_to!(es => es@),
    {
        es[i].collect_columns(columns);
        assert(v.take(i + 1).drop_last() =~= v.take(i as int));
    }
    assert(v.take(es@.len() as int) =~= v);
}

/// Adds the names of the columns an optional expression refers to.
fn collect_opt_columns(o: &Option<Box<Expr>>, columns: &mut ColumnSet)
    ensures
        adds(*old(columns), *final(columns), opt_expr_columns(opt_expr_view(*o))),
    decreases o,
{
    match o {
        Some(e) => e.collect_columns(columns),
        None => {},
    }
}

// ---------------------------------------------------------------- binding

/// The names of the columns at some positions.
pub open spec fn names_at(cols: Seq<schema::ColumnV>, positions: Seq<usize>) -> Seq<Seq<char>> {
    positions.map_values(|i: usize| cols[i as int].name)
}

/// The position of the one column that `name` denotes; it is an error if there is none
/// or more than one.
pub open spec fn resolved(s: SchemaV, name: Seq<char>) -> Result<usize, ErrorV> {
    let found = schema::matching_columns(s.columns, name);
    if found.len() == 0 {
        Err(facts::named_error(ErrorKind::ColumnNotFound, name))
    } else if found.len() == 1 {
        Ok(found[0])
    } else {
        Err(facts::names_error(ErrorKind::AmbiguousColumn, seq![name] + names_at(s.columns, found)))
    }
}

/// The position of the one column that `name` denotes.
pub fn resolve_column(s: &Schema, name: &str) -> (out: Result<usize, SqlError>)
    ensures
        match out {
            Ok(i) => resolved(s@, name@) == Ok::<usize, ErrorV>(i) && i < s@.columns.len(),
            Err(e) => resolved(s@, name@) == Err::<usize, ErrorV>(e@),
        },
{
    let found = s.matching_column_indexes(name);
    if found.len() == 0 {
        return Err(SqlError::named(ErrorKind::ColumnNotFound, name));
    }
    if found.len() == 1 {
        return Ok(found[0]);
    }
    let mut names: Vec<String> = Vec::new();
    names.push(name.to_owned());
    for k in 0..found.len()
        invariant
            forall|j: int| 0 <= j < found@.len() ==> (#[trigger] found@[j]) < s@.columns.len(),
            names@.len() == k + 1,
            names@[0]@ == name@,
            forall|j: int| 0 <= j < k ==> (#[trigger] names@[j + 1])@ == s@.columns[found@[j] as int].name,
    {
        names.push(s.columns[found[k]].name.clone());
    }
    assert(text::views(names@) =~= seq![name@] + names_at(s@.columns, found@)) by {
        assert forall|j: int| 0 <= j < names@.len() implies text::views(names@)[j] == (seq![name@] + names_at(
            s@.columns,
            found@,
        ))[j] by {
            if j > 0 {
                assert(names@[(j - 1) + 1]@ == s@.columns[found@[j - 1] as int].name);
            }
        }
    }
    Err(SqlError::about_names(ErrorKind::AmbiguousColumn, names))
}

/// The position of a column that may be bound already.
pub open spec fn bound_index(s: SchemaV, name: Seq<char>, index: Option<usize>) -> Result<usize, ErrorV> {
    match index {
        Some(i) => Ok(i),
        None => resolved(s, name),
    }
}

/// The expression with every column bound to its position in the schema. The columns of
/// a subquery are not those of the schema and stay as they are.
pub open spec fn bound(e: ExprV, s: SchemaV) -> Result<ExprV, ErrorV>
    decreases e,
{
    match e {
        ExprV::Column(name, index) => match bound_index(s, name, index) {
            Ok(i) => Ok(ExprV::Column(name, Some(i))),
            Err(x) => Err(x),
        },
        ExprV::Literal(_) => Ok(e),
        ExprV::Parameter(_) => Ok(e),
        ExprV::BinaryOp { left, op, right } => match bound(*left, s) {
            Err(x) => Err(x),
            Ok(l) => match bound(*right, s) {
                Err(x) => Err(x),
                Ok(r) => Ok(ExprV::BinaryOp { left: Box::new(l), op, right: Box::new(r) }),
            },
        },
        ExprV::Case { operand, conditions, results, else_result } => match bound_opt(operand, s) {
            Err(x) => Err(x),
            Ok(o) => match facts::collected(bound_each(conditions, s), 0, Seq::empty()) {
                Err(x) => Err(x),
                Ok(c) => match facts::collected(bound_each(results, s), 0, Seq::empty()) {
                    Err(x) => Err(x),
                    Ok(r) => match bound_opt(else_result, s) {
                        Err(x) => Err(x),
                        Ok(l) => Ok(ExprV::Case { operand: o, conditions: c, results: r, else_result: l }),
                    },
                },
            },
        },
        ExprV::Function { name, args } => match facts::collected(bound_each(args, s), 0, Seq::empty()) {
            Err(x) => Err(x),
            Ok(a) => Ok(ExprV::Function { name, args: a }),
        },
        ExprV::Not(inner) => match bound(*inner, s) {
            Err(x) => Err(x),
            Ok(i) => Ok(ExprV::Not(Box::new(i))),
        },
        ExprV::IsNull(inner) => match bound(*inner, s) {
            Err(x) => Err(x),
            Ok(i) => Ok(ExprV::IsNull(Box::new(i))),
        },
        ExprV::InList { expr, list } => match bound(*expr, s) {
            Err(x) => Err(x),
            Ok(i) => match facts::collected(bound_each(list, s), 0, Seq::empty()) {
                Err(x) => Err(x),
                Ok(l) => Ok(ExprV::InList { expr: Box::new(i), list: l }),
            },
        },
        ExprV::Match { column, index, query_str } => match bound_index(s, column, index) {
            Ok(i) => Ok(ExprV::Match { column, index: Some(i), query_str }),
            Err(x) => Err(x),
        },
        ExprV::ScalarSubquery(_) => Ok(e),
        ExprV::Exists { .. } => Ok(e),
        ExprV::InSubquery { expr, subquery, negated } => match bound(*expr, s) {
            Err(x) => Err(x),
            Ok(i) => Ok(ExprV::InSubquery { expr: Box::new(i), subquery, negated }),
        },
        ExprV::Cast { expr, target_type } => match bound(*expr, s) {
            Err(x) => Err(x),
            Ok(i) => Ok(ExprV::Cast { expr: Box::new(i), target_type }),
        },
    }
}

/// The outcomes of binding some expressions.
pub open spec fn bound_each(es: Seq<ExprV>, s: SchemaV) -> Seq<Result<ExprV, ErrorV>>
    decreases es,
{
    Seq::new(
        es.len(),
        |i: int|
            if 0 <= i < es.len() {
                bound(es[i], s)
            } else {
                arbitrary()
            },
    )
}

/// The outcome of binding an optional expression.
pub open spec fn bound_opt(o: Option<Box<ExprV>>, s: SchemaV) -> Result<Option<Box<ExprV>>, ErrorV>
    decreases o,
{
    match o {
        None => Ok(None),
        Some(e) => match bound(*e, s) {
            Err(x) => Err(x),
            Ok(i) => Ok(Some(Box::new(i))),
        },
    }
}

impl Expr {
    /// The expression with its columns bound to their positions in `s`.
    pub fn bound_to(&self, s: &Schema) -> (out: Result<Expr, SqlError>)
        ensures
            expr_result(out) == bound(self@, s@),
        decreases self,
    {
        match self {
            Expr::Column(name, index) => match index {
                Some(i) => Ok(Expr::Column(name.clone(), Some(*i))),
                None => Ok(Expr::Column(name.clone(), Some(resolve_column(s, name.as_str())?))),
            },
            Expr::Literal(_) => Ok(self.copy()),
            Expr::Parameter(_) => Ok(self.copy()),
            Expr::BinaryOp { left, op, right } => {
                let l = left.bound_to(s)?;
                let r = right.bound_to(s)?;
                Ok(Expr::BinaryOp { left: Box::new(l), op: *op, right: Box::new(r) })
            },
            Expr::Case { operand, conditions, results, else_result } => {
                let operand = bound_opt_to(operand, s)?;
                let conditions = bound_list_to(conditions, s)?;
                let results = bound_list_to(results, s)?;
                let else_result = bound_opt_to(else_result, s)?;
                Ok(Expr::Case { operand, conditions, results, else_result })
            },
            Expr::Function { name, args } => {
                let args = bound_list_to(args, s)?;
                Ok(Expr::Function { name: name.clone(), args })
            },
            Expr::Not(inner) => {
                let e = inner.bound_to(s)?;
                Ok(Expr::Not(Box::new(e)))
            },
            Expr::IsNull(inner) => {
                let e = inner.bound_to(s)?;
                Ok(Expr::IsNull(Box::new(e)))
            },
            Expr::InList { expr, list } => {
                let e = expr.bound_to(s)?;
                let list = bound_list_to(list, s)?;
                Ok(Expr::InList { expr: Box::new(e), list })
            },
            Expr::Match { column, index, query_str } => {
                let i: usize = match index {
                    Some(i) => *i,
                    None => resolve_column(s, column.as_str())?,
                };
                Ok(Expr::Match { column: column.clone(), index: Some(i), query_str: query_str.clone() })
            },
            Expr::ScalarSubquery(_) => Ok(self.copy()),
            Expr::Exists { .. } => Ok(self.copy()),
            Expr::InSubquery { expr, subquery, negated } => {
                let e = expr.bound_to(s)?;
                Ok(Expr::InSubquery { expr: Box::new(e), subquery: Box::new(subquery.copy()), negated: *negated })
            },
            Expr::Cast { expr, target_type } => {
                let e = expr.bound_to(s)?;
                Ok(Expr::Cast { expr: Box::new(e), target_type: *target_type })
            },
        }
    }

    /// Binds the columns of the expression to their positions in `s`. On an error the
    /// expression stays as it was.
    pub fn bind_columns(&mut self, s: &Schema) -> (out: Result<(), SqlError>)
        ensures
            match out {
                Ok(_) => bound(old(self)@, s@) == Ok::<ExprV, ErrorV>(final(self)@),
                Err(e) => bound(old(self)@, s@) == Err::<ExprV, ErrorV>(e@) && final(self)@ == old(self)@,
            },
    {
        match self.bound_to(s) {
            Ok(e) => {
                *self = e;
                Ok(())
            },
            Err(e) => Err(e),
        }
    }
}

/// The expressions with their columns bound.
pub fn bound_list_to(es: &Vec<Expr>, s: &Schema) -> (out: Result<Vec<Expr>, SqlError>)
    ensures
        exprs_result(out) == facts::collected(bound_each(exprs_view(es@), s@), 0, Seq::empty()),
    decreases es,
{
    let mut out: Vec<Expr> = Vec::new();
    let ghost rs = bound_each(exprs_view(es@), s@);
    assert(exprs_view(out@) =~= Seq::empty());
    for i in 0..es.len()
        invariant
            rs == bound_each(exprs_view(es@), s@),
            facts::collected(rs, 0, Seq::empty()) == facts::collected(rs, i as int, exprs_view(out@)),
            decreases_to!(es => es@),
    {
        let ghost before = exprs_view(out@);
        let e = es[i].bound_to(s)?;
        out.push(e);
        assert(exprs_view(out@) =~= before.push(e@));
    }
    Ok(out)
}

/// The optional expression with its columns bound.
fn bound_opt_to(o: &Option<Box<Expr>>, s: &Schema) -> (out: Result<Option<Box<Expr>>, SqlError>)
    ensures
        opt_expr_result(out) == bound_opt(opt_expr_view(*o), s@),
    decreases o,
{
    match o {
        Some(e) => {
            let b = e.bound_to(s)?;
            Ok(Some(Box::new(b)))
        },
        None => Ok(None),
    }
}

// ---------------------------------------------------------------- parameters

/// The expression with every parameter replaced by its value.
pub open spec fn substituted(e: ExprV, ps: Map<Seq<char>, ValueV>) -> Result<ExprV, ErrorV>
    decreases e,
{
    match e {
        ExprV::Parameter(name) => if ps.contains_key(name) {
            Ok(ExprV::Literal(ps[name]))
        } else {
            Err(facts::named_error(ErrorKind::UnboundParameter, name))
        },
        ExprV::Column(..) => Ok(e),
        ExprV::Literal(_) => Ok(e),
        ExprV::Match { .. } => Ok(e),
        ExprV::BinaryOp { left, op, right } => match substituted(*left, ps) {
            Err(x) => Err(x),
            Ok(l) => match substituted(*right, ps) {
                Err(x) => Err(x),
                Ok(r) => Ok(ExprV::BinaryOp { left: Box::new(l), op, right: Box::new(r) }),
            },
        },
        ExprV::Case { operand, conditions, results, else_result } => match substituted_opt(operand, ps) {
            Err(x) => Err(x),
            Ok(o) => match facts::collected(substituted_each(conditions, ps), 0, Seq::empty()) {
                Err(x) => Err(x),
                Ok(c) => match facts::collected(substituted_each(results, ps), 0, Seq::empty()) {
                    Err(x) => Err(x),
                    Ok(r) => match substituted_opt(else_result, ps) {
                        Err(x) => Err(x),
                        Ok(l) => Ok(ExprV::Case { operand: o, conditions: c, results: r, else_result: l }),
                    },
                },
            },
        },
        ExprV::Function { name, args } => match facts::collected(substituted_each(args, ps), 0, Seq::empty()) {
            Err(x) => Err(x),
            Ok(a) => Ok(ExprV::Function { name, args: a }),
        },
        ExprV::Not(inner) => match substituted(*inner, ps) {
            Err(x) => Err(x),
            Ok(i) => Ok(ExprV::Not(Box::new(i))),
        },
        ExprV::IsNull(inner) => match substituted(*inner, ps) {
            Err(x) => Err(x),
            Ok(i) => Ok(ExprV::IsNull(Box::new(i))),
        },
        ExprV::InList { expr, list } => match substituted(*expr, ps) {
            Err(x) => Err(x),
            Ok(i) => match facts::collected(substituted_each(list, ps), 0, Seq::empty()) {
                Err(x) => Err(x),
                Ok(l) => Ok(ExprV::InList { expr: Box::new(i), list: l }),
            },
        },
        ExprV::ScalarSubquery(p) => match logical::substituted_plan(*p, ps) {
            Err(x) => Err(x),
            Ok(q) => Ok(ExprV::ScalarSubquery(Box::new(q))),
        },
        ExprV::Exists { subquery, negated } => match logical::substituted_plan(*subquery, ps) {
            Err(x) => Err(x),
            Ok(q) => Ok(ExprV::Exists { subquery: Box::new(q), negated }),
        },
        ExprV::InSubquery { expr, subquery, negated } => match substituted(*expr, ps) {
            Err(x) => Err(x),
            Ok(i) => match logical::substituted_plan(*subquery, ps) {
                Err(x) => Err(x),
                Ok(q) => Ok(ExprV::InSubquery { expr: Box::new(i), subquery: Box::new(q), negated }),
            },
        },
        ExprV::Cast { expr, target_type } => match substituted(*expr, ps) {
            Err(x) => Err(x),
            Ok(i) => Ok(ExprV::Cast { expr: Box::new(i), target_type }),
        },
    }
}

/// The outcomes of replacing the parameters of some expressions.
pub open spec fn substituted_each(es: Seq<ExprV>, ps: Map<Seq<char>, ValueV>) -> Seq<Result<ExprV, ErrorV>>
    decreases es,
{
    Seq::new(
        es.len(),
        |i: int|
            if 0 <= i < es.len() {
                substituted(es[i], ps)
            } else {
                arbitrary()
            },
    )
}

/// The outcome of replacing the parameters of an optional expression.
pub open spec fn substituted_opt(o: Option<Box<ExprV>>, ps: Map<Seq<char>, ValueV>) -> Result<
    Option<Box<ExprV>>,
    ErrorV,
>
    decreases o,
{
    match o {
        None => Ok(None),
        Some(e) => match substituted(*e, ps) {
            Err(x) => Err(x),
            Ok(i) => Ok(Some(Box::new(i))),
        },
    }
}

impl Expr {
    /// The expression with every parameter replaced by its value.
    pub fn with_params(&self, ps: &Params) -> (out: Result<Expr, SqlError>)
        ensures
            expr_result(out) == substituted(self@, ps@),
        decreases self,
    {
        match self {
            Expr::Parameter(name) => match ps.get(name.as_str()) {
                Some(v) => Ok(Expr::Literal(v.clone())),
                None => Err(SqlError::named(ErrorKind::UnboundParameter, name.as_str())),
            },
            Expr::Column(..) => Ok(self.copy()),
            Expr::Literal(_) => Ok(self.copy()),
            Expr::Match { .. } => Ok(self.copy()),
            Expr::BinaryOp { left, op, right } => {
                let l = left.with_params(ps)?;
                let r = right.with_params(ps)?;
                Ok(Expr::BinaryOp { left: Box::new(l), op: *op, right: Box::new(r) })
            },
            Expr::Case { operand, conditions, results, else_result } => {
                let operand = opt_with_params(operand, ps)?;
                let conditions = list_with_params(conditions, ps)?;
                let results = list_with_params(results, ps)?;
                let else_result = opt_with_params(else_result, ps)?;
                Ok(Expr::Case { operand, conditions, results, else_result })
            },
            Expr::Function { name, args } => {
                let args = list_with_params(args, ps)?;
                Ok(Expr::Function { name: name.clone(), args })
            },
            Expr::Not(inner) => {
                let e = inner.with_params(ps)?;
                Ok(Expr::Not(Box::new(e)))
            },
            Expr::IsNull(inner) => {
                let e = inner.with_params(ps)?;
                Ok(Expr::IsNull(Box::new(e)))
            },
            Expr::InList { expr, list } => {
                let e = expr.with_params(ps)?;
                let list = list_with_params(list, ps)?;
                Ok(Expr::InList { expr: Box::new(e), list })
            },
            Expr::ScalarSubquery(p) => {
                let q = p.with_params(ps)?;
                Ok(Expr::ScalarSubquery(Box::new(q)))
            },
            Expr::Exists { subquery, negated } => {
                let q = subquery.with_params(ps)?;
                Ok(Expr::Exists { subquery: Box::new(q), negated: *negated })
            },
            Expr::InSubquery { expr, subquery, negated } => {
                let e = expr.with_params(ps)?;
                let q = subquery.with_params(ps)?;
                Ok(Expr::InSubquery { expr: Box::new(e), subquery: Box::new(q), negated: *negated })
            },
            Expr::Cast { expr, target_type } => {
                let e = expr.with_params(ps)?;
                Ok(Expr::Cast { expr: Box::new(e), target_type: *target_type })
            },
        }
    }

    /// Replaces every parameter by its value. On an error the expression stays as it
    /// was.
    pub fn substitute_params(&mut self, ps: &Params) -> (out: Result<(), SqlError>)
        ensures
            match out {
                Ok(_) => substituted(old(self)@, ps@) == Ok::<ExprV, ErrorV>(final(self)@),
                Err(e) => substituted(old(self)@, ps@) == Err::<ExprV, ErrorV>(e@) && final(self)@ == old(self)@,
            },
    {
        match self.with_params(ps) {
            Ok(e) => {
                *self = e;
                Ok(())
            },
            Err(e) => Err(e),
        }
    }
}

/// The expressions with every parameter replaced by its value.
pub fn list_with_params(es: &Vec<Expr>, ps: &Params) -> (out: Result<Vec<Expr>, SqlError>)
    ensures
        exprs_result(out) == facts::collected(substituted_each(exprs_view(es@), ps@), 0, Seq::empty()),
    decreases es,
{
    let mut out: Vec<Expr> = Vec::new();
    let ghost rs = substituted_each(exprs_view(es@), ps@);
    assert(exprs_view(out@) =~= Seq::empty());
    for i in 0..es.len()
        invariant
            rs == substituted_each(exprs_view(es@), ps@),
            facts::collected(rs, 0, Seq::empty()) == facts::collected(rs, i as int, exprs_view(out@)),
            decreases_to!(es => es@),
    {
        let ghost before = exprs_view(out@);
        let e = es[i].with_params(ps)?;
        out.push(e);
        assert(exprs_view(out@) =~= before.push(e@));
    }
    Ok(out)
}

/// The optional expression with every parameter replaced by its value.
fn opt_with_params(o: &Option<Box<Expr>>, ps: &Params) -> (out: Result<Option<Box<Expr>>, SqlError>)
    ensures
        opt_expr_result(out) == substituted_opt(opt_expr_view(*o), ps@),
    decreases o,
{
    match o {
        Some(e) => {
            let b = e.with_params(ps)?;
            Ok(Some(Box::new(b)))
        },
        None => Ok(None),
    }
}

} // verus!
