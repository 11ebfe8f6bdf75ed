//! Statements, planned.

use crate::syntax;
use crate::syntax::{
    AlterOperation, AlterOperationV, Assignment, AssignmentTarget, AssignmentTargetV, AssignmentV, DropKind,
    InsertTable, InsertTableV, NamePart, NamePartV, ObjectName, ObjectNameV, Query, QueryV, SetNode, SetNodeV, SqlNode,
    SqlNodeV, Statement, StatementBody, StatementBodyV, StatementV, TableFactor, TableFactorV, ValuesRow, ValuesRowV,
};
use crate::ddl;
use crate::expr::{Expr, ExprV};
use crate::facts;
use crate::facts::{AnswerV, ErrorKind, ErrorV, Facts, QuestionV, SqlError};
use crate::logical::{LogicalPlan, PlanV};
use crate::planner;
use crate::planner::LogicalPlanner;
use crate::scalar;
use crate::schema;
use crate::schema::{Column, ColumnV, IndexType, Schema, SchemaV};
use crate::text;
use crate::value;
use crate::value::{DbValue, ValueV};
use vstd::prelude::*;
use vstd::string::*;

verus! {

/// An alteration of a table.
#[derive(Debug)]
pub enum AlterOp {
    AddColumn(Column),
    RenameColumn { old_name: String, new_name: String },
}

/// The model of an alteration.
pub enum AlterOpV {
    AddColumn(ColumnV),
    RenameColumn { old_name: Seq<char>, new_name: Seq<char> },
}

impl View for AlterOp {
    type V = AlterOpV;

    open spec fn view(&self) -> AlterOpV {
        match self {
            AlterOp::AddColumn(c) => AlterOpV::AddColumn(c@),
            AlterOp::RenameColumn { old_name, new_name } => AlterOpV::RenameColumn {
                old_name: old_name@,
                new_name: new_name@,
            },
        }
    }
}

/// A planned statement.
#[derive(Debug)]
pub enum SqlStatement {
    CreateTable { name: String, schema: Schema },
    DropTable { name: String },
    Insert { table_name: String, columns: Vec<String>, rows: Vec<Vec<DbValue>> },
    InsertSelect { table_name: String, columns: Vec<String>, query: LogicalPlan },
    Delete { table_name: String, filter: Option<Expr> },
    Update { table_name: String, assignments: Vec<(String, Expr)>, filter: Option<Expr> },
    Query(LogicalPlan),
    Explain(LogicalPlan),
    CreateIndex {
        table_name: String,
        index_name: String,
        columns: Vec<String>,
        index_type: IndexType,
        tokenizer: Option<String>,
    },
    DropIndex { table_name: String, index_name: String },
    AlterTable { table_name: String, op: AlterOp },
    Analyze { table_name: String },
}

/// The model of a planned statement.
pub enum SqlStatementV {
    CreateTable { name: Seq<char>, schema: SchemaV },
    DropTable { name: Seq<char> },
    Insert { table_name: Seq<char>, columns: Seq<Seq<char>>, rows: Seq<Seq<ValueV>> },
    InsertSelect { table_name: Seq<char>, columns: Seq<Seq<char>>, query: PlanV },
    Delete { table_name: Seq<char>, filter: Option<ExprV> },
    Update { table_name: Seq<char>, assignments: Seq<(Seq<char>, ExprV)>, filter: Option<ExprV> },
    Query(PlanV),
    Explain(PlanV),
    CreateIndex {
        table_name: Seq<char>,
        index_name: Seq<char>,
        columns: Seq<Seq<char>>,
        index_type: IndexType,
        tokenizer: Option<Seq<char>>,
    },
    DropIndex { table_name: Seq<char>, index_name: Seq<char> },
    AlterTable { table_name: Seq<char>, op: AlterOpV },
    Analyze { table_name: Seq<char> },
}

/// The models of rows of values.
pub open spec fn rows_view(s: Seq<Vec<DbValue>>) -> Seq<Seq<ValueV>> {
    s.map_values(|r: Vec<DbValue>| value::values_view(r@))
}

/// The models of assignments.
pub open spec fn assignments_model(s: Seq<(String, Expr)>) -> Seq<(Seq<char>, ExprV)> {
    s.map_values(|a: (String, Expr)| (a.0@, a.1@))
}

/// The model of an optional condition.
pub open spec fn filter_view(o: Option<Expr>) -> Option<ExprV> {
    match o {
        Some(x) => Some(x@),
        None => None,
    }
}

impl SqlStatement {
    /// The model.
    pub open spec fn view(&self) -> SqlStatementV {
        match self {
            SqlStatement::CreateTable { name, schema } => SqlStatementV::CreateTable { name: name@, schema: schema@ },
            SqlStatement::DropTable { name } => SqlStatementV::DropTable { name: name@ },
            SqlStatement::Insert { table_name, columns, rows } => SqlStatementV::Insert {
                table_name: table_name@,
                columns: text::views(columns@),
                rows: rows_view(rows@),
            },
            SqlStatement::InsertSelect { table_name, columns, query } => SqlStatementV::InsertSelect {
                table_name: table_name@,
                columns: text::views(columns@),
                query: query@,
            },
            SqlStatement::Delete { table_name, filter } => SqlStatementV::Delete {
                table_name: table_name@,
                filter: filter_view(*filter),
            },
            SqlStatement::Update { table_name, assignments, filter } => SqlStatementV::Update {
                table_name: table_name@,
                assignments: assignments_model(assignments@),
                filter: filter_view(*filter),
            },
            SqlStatement::Query(p) => SqlStatementV::Query(p@),
            SqlStatement::Explain(p) => SqlStatementV::Explain(p@),
            SqlStatement::CreateIndex { table_name, index_name, columns, index_type, tokenizer } =>
                SqlStatementV::CreateIndex {
                table_name: table_name@,
                index_name: index_name@,
                columns: text::views(columns@),
                index_type: *index_type,
                tokenizer: schema::opt_text(*tokenizer),
            },
            SqlStatement::DropIndex { table_name, index_name } => SqlStatementV::DropIndex {
                table_name: table_name@,
                index_name: index_name@,
            },
            SqlStatement::AlterTable { table_name, op } => SqlStatementV::AlterTable {
                table_name: table_name@,
                op: op@,
            },
            SqlStatement::Analyze { table_name } => SqlStatementV::Analyze { table_name: table_name@ },
        }
    }
}

/// A copy of rows of values.
fn copy_rows(s: &Vec<Vec<DbValue>>) -> (out: Vec<Vec<DbValue>>)
    ensures
        rows_view(out@) == rows_view(s@),
{
    let mut out: Vec<Vec<DbValue>> = Vec::new();
    for i in 0..s.len()
        invariant
            out@.len() == i,
            forall|j: int| 0 <= j < i ==> value::values_view((#[trigger] out@[j])@) == value::values_view(s@[j]@),
    {
        out.push(value::copy_values(&s[i]));
    }
    assert(rows_view(out@) =~= rows_view(s@));
    out
}

/// A copy of assignments.
fn copy_assignments(s: &Vec<(String, Expr)>) -> (out: Vec<(String, Expr)>)
    ensures
        assignments_model(out@) == assignments_model(s@),
{
    let mut out: Vec<(String, Expr)> = Vec::new();
    for i in 0..s.len()
        invariant
            out@.len() == i,
            forall|j: int| 0 <= j < i ==> (#[trigger] out@[j]).0@ == s@[j].0@ && out@[j].1@ == s@[j].1@,
    {
        out.push((s[i].0.clone(), s[i].1.copy()));
    }
    assert(assignments_model(out@) =~= assignments_model(s@));
    out
}

/// A copy of an optional condition.
fn copy_filter(o: &Option<Expr>) -> (out: Option<Expr>)
    ensures
        filter_view(out) == filter_view(*o),
{
    match o {
        Some(x) => Some(x.copy()),
        None => None,
    }
}

impl AlterOp {
    /// A copy.
    pub fn copy(&self) -> (out: AlterOp)
        ensures
            out@ == self@,
    {
        match self {
            AlterOp::AddColumn(c) => AlterOp::AddColumn(c.clone()),
            AlterOp::RenameColumn { old_name, new_name } => AlterOp::RenameColumn {
                old_name: old_name.clone(),
                new_name: new_name.clone(),
            },
        }
    }
}

impl SqlStatement {
    /// A copy.
    pub fn copy(&self) -> (out: SqlStatement)
        ensures
            out@ == self@,
    {
        match self {
            SqlStatement::CreateTable { name, schema } => SqlStatement::CreateTable {
                name: name.clone(),
                schema: schema.clone(),
            },
            SqlStatement::DropTable { name } => SqlStatement::DropTable { name: name.clone() },
            SqlStatement::Insert { table_name, columns, rows } => SqlStatement::Insert {
                table_name: table_name.clone(),
                columns: text::copy_strings(columns),
                rows: copy_rows(rows),
            },
            SqlStatement::InsertSelect { table_name, columns, query } => SqlStatement::InsertSelect {
                table_name: table_name.clone(),
                columns: text::copy_strings(columns),
                query: query.copy(),
            },
            SqlStatement::Delete { table_name, filter } => SqlStatement::Delete {
                table_name: table_name.clone(),
                filter: copy_filter(filter),
            },
            SqlStatement::Update { table_name, assignments, filter } => SqlStatement::Update {
                table_name: table_name.clone(),
                assignments: copy_assignments(assignments),
                filter: copy_filter(filter),
            },
            SqlStatement::Query(p) => SqlStatement::Query(p.copy()),
            SqlStatement::Explain(p) => SqlStatement::Explain(p.copy()),
            SqlStatement::CreateIndex { table_name, index_name, columns, index_type, tokenizer } =>
                SqlStatement::CreateIndex {
                table_name: table_name.clone(),
                index_name: index_name.clone(),
                columns: text::copy_strings(columns),
                index_type: *index_type,
                tokenizer: schema::copy_opt_text(tokenizer),
            },
            SqlStatement::DropIndex { table_name, index_name } => SqlStatement::DropIndex {
                table_name: table_name.clone(),
                index_name: index_name.clone(),
            },
            SqlStatement::AlterTable { table_name, op } => SqlStatement::AlterTable {
                table_name: table_name.clone(),
                op: op.copy(),
            },
            SqlStatement::Analyze { table_name } => SqlStatement::Analyze { table_name: table_name.clone() },
        }
    }
}

/// The model of an outcome that is a planned statement.
pub open spec fn statement_result(r: Result<SqlStatement, SqlError>) -> Result<SqlStatementV, ErrorV> {
    match r {
        Ok(s) => Ok(s@),
        Err(e) => Err(e@),
    }
}

// ---------------------------------------------------------------- indexes

/// Whether a schema has an index with a name.
pub open spec fn has_index(s: SchemaV, name: Seq<char>) -> bool {
    exists|i: int| 0 <= i < s.indexes.len() && #[trigger] s.indexes[i].name == name
}

/// The first table, from position `i` on, that has an index with a name.
pub open spec fn index_table(tables: Seq<(Seq<char>, SchemaV)>, name: Seq<char>, i: int) -> Result<Seq<char>, ErrorV>
    decreases tables.len() - i,
{
    if i >= tables.len() {
        Err(facts::named_error(ErrorKind::IndexNotFound, name))
    } else if has_index(tables[i].1, name) {
        Ok(tables[i].0)
    } else {
        index_table(tables, name, i + 1)
    }
}

/// The plan of a DROP.
pub open spec fn planned_drop(tables: Seq<(Seq<char>, SchemaV)>, kind: DropKind, names: Seq<Seq<char>>) -> Result<
    SqlStatementV,
    ErrorV,
> {
    if kind is Table && names.len() > 0 {
        Ok(SqlStatementV::DropTable { name: names[0] })
    } else if kind is Index && names.len() > 0 {
        match index_table(tables, names[0], 0) {
            Ok(table_name) => Ok(SqlStatementV::DropIndex { table_name, index_name: names[0] }),
            Err(e) => Err(e),
        }
    } else {
        Err(facts::plain_error(ErrorKind::UnsupportedDrop))
    }
}

/// The columns of an index.
pub open spec fn index_columns(nodes: Seq<SqlNodeV>, ids: Seq<usize>) -> Seq<Result<Seq<char>, ErrorV>> {
    ids.map_values(
        |i: usize|
            if i < nodes.len() {
                match nodes[i as int] {
                    SqlNodeV::Identifier { value, .. } => Ok(value),
                    _ => Err(facts::plain_error(ErrorKind::IndexColumn)),
                }
            } else {
                Err(facts::plain_error(ErrorKind::Malformed))
            },
    )
}

/// The plan of a CREATE INDEX. An index with a method is a full-text index, and the method
/// its tokenizer.
pub open spec fn planned_index(
    nodes: Seq<SqlNodeV>,
    name: Option<Seq<char>>,
    table_name: Seq<char>,
    columns: Seq<usize>,
    using: Option<Seq<char>>,
) -> Result<SqlStatementV, ErrorV> {
    match name {
        None => Err(facts::plain_error(ErrorKind::IndexNameRequired)),
        Some(index_name) => match facts::collected(index_columns(nodes, columns), 0, Seq::empty()) {
            Err(e) => Err(e),
            Ok(columns) => Ok(
                SqlStatementV::CreateIndex {
                    table_name,
                    index_name,
                    columns,
                    index_type: if using is Some {
                        IndexType::FullText
                    } else {
                        IndexType::BTree
                    },
                    tokenizer: using,
                },
            ),
        },
    }
}

/// The plan of an ALTER TABLE.
pub open spec fn planned_alter(
    nodes: Seq<SqlNodeV>,
    name: Seq<char>,
    operations: Seq<AlterOperationV>,
    known: Seq<(QuestionV, AnswerV)>,
) -> Result<SqlStatementV, ErrorV> {
    if operations.len() != 1 {
        Err(facts::plain_error(ErrorKind::AlterCount))
    } else {
        match operations[0] {
            AlterOperationV::AddColumn(c) => match ddl::added_column(nodes, c, known) {
                Ok(c) => Ok(SqlStatementV::AlterTable { table_name: name, op: AlterOpV::AddColumn(c) }),
                Err(e) => Err(e),
            },
            AlterOperationV::RenameColumn { old_name, new_name } => Ok(
                SqlStatementV::AlterTable { table_name: name, op: AlterOpV::RenameColumn { old_name, new_name } },
            ),
            AlterOperationV::Other(s) => Err(facts::named_error(ErrorKind::UnsupportedAlter, s)),
        }
    }
}

// ---------------------------------------------------------------- rows

/// The names of columns.
pub open spec fn column_names(cols: Seq<ColumnV>) -> Seq<Seq<char>> {
    cols.map_values(|c: ColumnV| c.name)
}

/// The outcomes of reading the column names of an INSERT.
pub open spec fn insert_names(columns: Seq<ObjectNameV>) -> Seq<Result<Seq<char>, ErrorV>> {
    columns.map_values(
        |c: ObjectNameV|
            if c.parts.len() != 1 {
                Err(facts::named_error(ErrorKind::InvalidColumnName, c.text))
            } else {
                match c.parts[0] {
                    NamePartV::Ident(s) => Ok(s),
                    NamePartV::Other => Err(facts::named_error(ErrorKind::UnsupportedColumnName, c.text)),
                }
            },
    )
}

/// The columns of an INSERT: all columns of the table where it names none.
pub open spec fn insert_columns(columns: Seq<ObjectNameV>, s: SchemaV) -> Result<Seq<Seq<char>>, ErrorV> {
    if columns.len() == 0 {
        Ok(column_names(s.columns))
    } else {
        facts::collected(insert_names(columns), 0, Seq::empty())
    }
}

/// The outcome of planning a value of an INSERT.
pub open spec fn inserted_value(nodes: Seq<SqlNodeV>, at: int, known: Seq<(QuestionV, AnswerV)>) -> Result<
    ValueV,
    ErrorV,
> {
    match scalar::planned(nodes, at, known) {
        Err(e) => Err(e),
        Ok(x) => match x {
            ExprV::Literal(v) => Ok(v),
            other => Err(facts::expr_error(ErrorKind::NotLiteral, other)),
        },
    }
}

/// The outcomes of planning the values of a row.
pub open spec fn inserted_values(nodes: Seq<SqlNodeV>, ids: Seq<usize>, known: Seq<(QuestionV, AnswerV)>) -> Seq<
    Result<ValueV, ErrorV>,
> {
    ids.map_values(|i: usize| inserted_value(nodes, i as int, known))
}

/// The outcome of planning a row of an INSERT into `n` columns.
pub open spec fn inserted_row(nodes: Seq<SqlNodeV>, row: ValuesRowV, n: nat, known: Seq<(QuestionV, AnswerV)>) -> Result<
    Seq<ValueV>,
    ErrorV,
> {
    if row.exprs.len() != n {
        Err(
            facts::names_error(
                ErrorKind::ColumnCount,
                seq![text::int_text(n as int), text::int_text(row.exprs.len() as int)],
            ),
        )
    } else {
        facts::collected(inserted_values(nodes, row.exprs, known), 0, Seq::empty())
    }
}

/// The outcomes of planning the rows of an INSERT into `n` columns.
pub open spec fn inserted_rows(nodes: Seq<SqlNodeV>, rows: Seq<ValuesRowV>, n: nat, known: Seq<(QuestionV, AnswerV)>) -> Seq<
    Result<Seq<ValueV>, ErrorV>,
> {
    rows.map_values(|r: ValuesRowV| inserted_row(nodes, r, n, known))
}

/// The plan of an INSERT whose columns are known.
pub open spec fn planned_source(
    tables: Seq<(Seq<char>, SchemaV)>,
    nodes: Seq<SqlNodeV>,
    sets: Seq<SetNodeV>,
    table_name: Seq<char>,
    columns: Seq<Seq<char>>,
    q: QueryV,
    known: Seq<(QuestionV, AnswerV)>,
) -> Result<SqlStatementV, ErrorV> {
    if q.body >= sets.len() {
        Err(facts::plain_error(ErrorKind::Malformed))
    } else {
        match sets[q.body as int] {
            SetNodeV::Values(rows) => match facts::collected(
                inserted_rows(nodes, rows, columns.len(), known),
                0,
                Seq::empty(),
            ) {
                Ok(rows) => Ok(SqlStatementV::Insert { table_name, columns, rows }),
                Err(e) => Err(e),
            },
            _ => match planner::planned_query(tables, nodes, sets, q, sets.len() as int, known) {
                Ok(query) => Ok(SqlStatementV::InsertSelect { table_name, columns, query }),
                Err(e) => Err(e),
            },
        }
    }
}

/// The plan of an INSERT.
pub open spec fn planned_insert(
    tables: Seq<(Seq<char>, SchemaV)>,
    nodes: Seq<SqlNodeV>,
    sets: Seq<SetNodeV>,
    table: InsertTableV,
    columns: Seq<ObjectNameV>,
    source: Option<QueryV>,
    known: Seq<(QuestionV, AnswerV)>,
) -> Result<SqlStatementV, ErrorV> {
    match table {
        InsertTableV::Other(s) => Err(facts::named_error(ErrorKind::InsertTable, s)),
        InsertTableV::Name(name) => match planner::table_named(tables, name) {
            Err(e) => Err(e),
            Ok(s) => match insert_columns(columns, s) {
                Err(e) => Err(e),
                Ok(columns) => match source {
                    None => Err(facts::plain_error(ErrorKind::InsertSource)),
                    Some(q) => planned_source(tables, nodes, sets, name, columns, q, known),
                },
            },
        },
    }
}

/// The name of the table of a DELETE or an UPDATE.
pub open spec fn modified_table(place: Seq<char>, t: TableFactorV) -> Result<Seq<char>, ErrorV> {
    match t {
        TableFactorV::Table { name, .. } => Ok(name),
        TableFactorV::Other(s) => Err(facts::names_error(ErrorKind::UnsupportedTable, seq![place, s])),
    }
}

/// The outcome of planning an optional condition.
pub open spec fn planned_filter(nodes: Seq<SqlNodeV>, selection: Option<usize>, known: Seq<(QuestionV, AnswerV)>) -> Result<
    Option<ExprV>,
    ErrorV,
> {
    match selection {
        None => Ok(None),
        Some(i) => match scalar::planned(nodes, i as int, known) {
            Ok(x) => Ok(Some(x)),
            Err(e) => Err(e),
        },
    }
}

/// The plan of a DELETE.
pub open spec fn planned_delete(
    nodes: Seq<SqlNodeV>,
    from: Seq<TableFactorV>,
    selection: Option<usize>,
    known: Seq<(QuestionV, AnswerV)>,
) -> Result<SqlStatementV, ErrorV> {
    if from.len() == 0 {
        Err(facts::plain_error(ErrorKind::DeleteTable))
    } else {
        match modified_table("DELETE"@, from[0]) {
            Err(e) => Err(e),
            Ok(table_name) => match planned_filter(nodes, selection, known) {
                Err(e) => Err(e),
                Ok(filter) => Ok(SqlStatementV::Delete { table_name, filter }),
            },
        }
    }
}

/// The identifiers of the parts of a name, from position `i` on, after those in `acc`.
pub open spec fn identifiers(n: ObjectNameV, i: int, acc: Seq<Seq<char>>) -> Result<Seq<Seq<char>>, ErrorV>
    decreases n.parts.len() - i,
{
    if i >= n.parts.len() {
        Ok(acc)
    } else {
        match n.parts[i] {
            NamePartV::Ident(s) => identifiers(n, i + 1, acc.push(s)),
            NamePartV::Other => Err(facts::named_error(ErrorKind::AssignmentTarget, n.text)),
        }
    }
}

/// The column that an assignment assigns to.
pub open spec fn assigned_column(t: AssignmentTargetV) -> Result<Seq<char>, ErrorV> {
    match t {
        AssignmentTargetV::Column(n) => match identifiers(n, 0, Seq::empty()) {
            Ok(parts) => Ok(text::joined(parts, '.')),
            Err(e) => Err(e),
        },
        AssignmentTargetV::Tuple => Err(facts::plain_error(ErrorKind::TupleAssignment)),
    }
}

/// The outcome of planning an assignment.
pub open spec fn planned_assignment(nodes: Seq<SqlNodeV>, a: AssignmentV, known: Seq<(QuestionV, AnswerV)>) -> Result<
    (Seq<char>, ExprV),
    ErrorV,
> {
    match assigned_column(a.target) {
        Err(e) => Err(e),
        Ok(name) => match scalar::planned(nodes, a.value as int, known) {
            Err(e) => Err(e),
            Ok(x) => Ok((name, x)),
        },
    }
}

/// The outcomes of planning assignments.
pub open spec fn planned_assignments(nodes: Seq<SqlNodeV>, s: Seq<AssignmentV>, known: Seq<(QuestionV, AnswerV)>) -> Seq<
    Result<(Seq<char>, ExprV), ErrorV>,
> {
    s.map_values(|a: AssignmentV| planned_assignment(nodes, a, known))
}

/// The plan of an UPDATE.
pub open spec fn planned_update(
    nodes: Seq<SqlNodeV>,
    table: TableFactorV,
    assignments: Seq<AssignmentV>,
    selection: Option<usize>,
    known: Seq<(QuestionV, AnswerV)>,
) -> Result<SqlStatementV, ErrorV> {
    match modified_table("UPDATE"@, table) {
        Err(e) => Err(e),
        Ok(table_name) => match facts::collected(planned_assignments(nodes, assignments, known), 0, Seq::empty()) {
            Err(e) => Err(e),
            Ok(assignments) => match planned_filter(nodes, selection, known) {
                Err(e) => Err(e),
                Ok(filter) => Ok(SqlStatementV::Update { table_name, assignments, filter }),
            },
        },
    }
}

// ---------------------------------------------------------------- statements

/// The plan of what a statement says.
pub open spec fn planned_body(
    tables: Seq<(Seq<char>, SchemaV)>,
    s: StatementV,
    known: Seq<(QuestionV, AnswerV)>,
) -> Result<SqlStatementV, ErrorV> {
    match s.body {
        StatementBodyV::CreateTable { name, columns, constraints, options } => match ddl::created_schema(
            s.exprs,
            columns,
            constraints,
            options,
            known,
        ) {
            Ok(schema) => Ok(SqlStatementV::CreateTable { name, schema }),
            Err(e) => Err(e),
        },
        StatementBodyV::Drop { kind, names } => planned_drop(tables, kind, names),
        StatementBodyV::CreateIndex { name, table_name, columns, using } => planned_index(
            s.exprs,
            name,
            table_name,
            columns,
            using,
        ),
        StatementBodyV::AlterTable { name, operations } => planned_alter(s.exprs, name, operations, known),
        StatementBodyV::Insert { table, columns, source } => planned_insert(
            tables,
            s.exprs,
            s.sets,
            table,
            columns,
            source,
            known,
        ),
        StatementBodyV::Delete { from, selection } => planned_delete(s.exprs, from, selection, known),
        StatementBodyV::Update { table, assignments, selection } => planned_update(
            s.exprs,
            table,
            assignments,
            selection,
            known,
        ),
        StatementBodyV::Query(q) => match planner::planned_query(
            tables,
            s.exprs,
            s.sets,
            q,
            s.sets.len() as int,
            known,
        ) {
            Ok(p) => Ok(SqlStatementV::Query(p)),
            Err(e) => Err(e),
        },
        StatementBodyV::Analyze { table_name } => match table_name {
            Some(table_name) => Ok(SqlStatementV::Analyze { table_name }),
            None => Err(facts::plain_error(ErrorKind::AnalyzeTable)),
        },
        StatementBodyV::Other(t) => Err(facts::named_error(ErrorKind::UnsupportedStatement, t)),
    }
}

/// The plan of a statement. Only a query can be explained.
pub open spec fn planned_statement(
    tables: Seq<(Seq<char>, SchemaV)>,
    s: StatementV,
    known: Seq<(QuestionV, AnswerV)>,
) -> Result<SqlStatementV, ErrorV> {
    match planned_body(tables, s, known) {
        Err(e) => Err(e),
        Ok(b) => if s.explained == 0 {
            Ok(b)
        } else {
            match b {
                SqlStatementV::Query(p) => if s.explained == 1 {
                    Ok(SqlStatementV::Explain(p))
                } else {
                    Err(facts::plain_error(ErrorKind::ExplainQuery))
                },
                _ => Err(facts::plain_error(ErrorKind::ExplainQuery)),
            }
        },
    }
}

/// Whether a statement changes the schema.
pub open spec fn changes_schema(s: StatementV) -> bool {
    s.explained == 0 && (s.body is CreateTable || s.body is Drop || s.body is CreateIndex || s.body is AlterTable)
}

/// Whether a schema has an index with a name.
fn schema_has_index(s: &Schema, name: &str) -> (out: bool)
    ensures
        out == has_index(s@, name@),
{
    for i in 0..s.indexes.len()
        invariant
            forall|j: int| 0 <= j < i ==> #[trigger] s@.indexes[j].name != name@,
    {
        assert(s@.indexes[i as int] == s.indexes@[i as int]@);
        if text::same_text(s.indexes[i].name.as_str(), name) {
            assert(s@.indexes[i as int].name == name@);
            return true;
        }
    }
    false
}

/// The model of an outcome that is a text.
pub open spec fn text_result(r: Result<String, SqlError>) -> Result<Seq<char>, ErrorV> {
    match r {
        Ok(s) => Ok(s@),
        Err(e) => Err(e@),
    }
}

/// The model of an outcome that is a list of texts.
pub open spec fn texts_result(r: Result<Vec<String>, SqlError>) -> Result<Seq<Seq<char>>, ErrorV> {
    match r {
        Ok(s) => Ok(text::views(s@)),
        Err(e) => Err(e@),
    }
}

/// The columns of an index.
fn plan_index_columns(nodes: &Vec<SqlNode>, ids: &Vec<usize>) -> (out: Result<Vec<String>, SqlError>)
    ensures
        texts_result(out) == facts::collected(
            index_columns(syntax::sql_nodes_view(nodes@), ids@),
            0,
            Seq::empty(),
        ),
{
    let mut out: Vec<String> = Vec::new();
    let ghost rs = index_columns(syntax::sql_nodes_view(nodes@), ids@);
    assert(text::views(out@) =~= Seq::empty());
    for i in 0..ids.len()
        invariant
            rs == index_columns(syntax::sql_nodes_view(nodes@), ids@),
            facts::collected(rs, 0, Seq::empty()) == facts::collected(rs, i as int, text::views(out@)),
    {
        let ghost before = text::views(out@);
        let at = ids[i];
        if at >= nodes.len() {
            return Err(SqlError::plain(ErrorKind::Malformed));
        }
        assert(syntax::sql_nodes_view(nodes@)[at as int] == nodes@[at as int]@);
        match &nodes[at] {
            SqlNode::Identifier { value, .. } => {
                out.push(value.clone());
                assert(text::views(out@) =~= before.push(value@));
            },
            _ => {
                return Err(SqlError::plain(ErrorKind::IndexColumn));
            },
        }
    }
    Ok(out)
}

/// The names of columns.
fn names_of_columns(cols: &Vec<Column>) -> (out: Vec<String>)
    ensures
        text::views(out@) == column_names(schema::columns_view(cols@)),
{
    let mut out: Vec<String> = Vec::new();
    for i in 0..cols.len()
        invariant
            out@.len() == i,
            forall|j: int| 0 <= j < i ==> (#[trigger] out@[j])@ == cols@[j]@.name,
    {
        out.push(cols[i].name.clone());
    }
    assert(text::views(out@) =~= column_names(schema::columns_view(cols@)));
    out
}

/// The column names of an INSERT.
fn plan_insert_columns(columns: &Vec<ObjectName>, s: &Schema) -> (out: Result<Vec<String>, SqlError>)
    ensures
        texts_result(out) == insert_columns(syntax::object_names_view(columns@), s@),
{
    if columns.len() == 0 {
        return Ok(names_of_columns(&s.columns));
    }
    let mut out: Vec<String> = Vec::new();
    let ghost view = syntax::object_names_view(columns@);
    let ghost rs = insert_names(view);
    assert(text::views(out@) =~= Seq::empty());
    for i in 0..columns.len()
        invariant
            view == syntax::object_names_view(columns@),
            view.len() > 0,
            rs == insert_names(view),
            facts::collected(rs, 0, Seq::empty()) == facts::collected(rs, i as int, text::views(out@)),
    {
        let ghost before = text::views(out@);
        assert(view[i as int] == columns@[i as int]@);
        if columns[i].parts.len() != 1 {
            return Err(SqlError::named(ErrorKind::InvalidColumnName, columns[i].text.as_str()));
        }
        assert(view[i as int].parts[0] == columns@[i as int].parts@[0]@);
        match &columns[i].parts[0] {
            NamePart::Ident(s) => {
                out.push(s.clone());
                assert(text::views(out@) =~= before.push(s@));
            },
            NamePart::Other => {
                return Err(SqlError::named(ErrorKind::UnsupportedColumnName, columns[i].text.as_str()));
            },
        }
    }
    Ok(out)
}

/// Plans a row of an INSERT.
fn plan_row(nodes: &Vec<SqlNode>, row: &ValuesRow, n: usize, facts: &Facts) -> (out: Result<Vec<DbValue>, SqlError>)
    ensures
        match out {
            Ok(vs) => inserted_row(syntax::sql_nodes_view(nodes@), row@, n as nat, facts@) == Ok::<
                Seq<ValueV>,
                ErrorV,
            >(value::values_view(vs@)),
            Err(e) => inserted_row(syntax::sql_nodes_view(nodes@), row@, n as nat, facts@) == Err::<
                Seq<ValueV>,
                ErrorV,
            >(e@),
        },
{
    if row.exprs.len() != n {
        let expected = text::usize_to_text(n);
        let found = text::usize_to_text(row.exprs.len());
        return Err(
            SqlError::about_names(ErrorKind::ColumnCount, planner::two_names(expected.as_str(), found.as_str())),
        );
    }
    let mut out: Vec<DbValue> = Vec::new();
    let ghost rs = inserted_values(syntax::sql_nodes_view(nodes@), row.exprs@, facts@);
    assert(value::values_view(out@) =~= Seq::empty());
    for i in 0..row.exprs.len()
        invariant
            rs == inserted_values(syntax::sql_nodes_view(nodes@), row.exprs@, facts@),
            row.exprs@.len() == n,
            facts::collected(rs, 0, Seq::empty()) == facts::collected(rs, i as int, value::values_view(out@)),
    {
        let ghost before = value::values_view(out@);
        assert(rs[i as int] == inserted_value(syntax::sql_nodes_view(nodes@), row.exprs@[i as int] as int, facts@));
        let x = scalar::plan_expr(nodes, row.exprs[i], facts)?;
        match x {
            Expr::Literal(v) => {
                let ghost added = v@;
                out.push(v);
                assert(value::values_view(out@) =~= before.push(added));
            },
            other => {
                return Err(SqlError::about_expr(ErrorKind::NotLiteral, other));
            },
        }
    }
    Ok(out)
}

/// Plans the rows of an INSERT.
fn plan_rows(nodes: &Vec<SqlNode>, rows: &Vec<ValuesRow>, n: usize, facts: &Facts) -> (out: Result<
    Vec<Vec<DbValue>>,
    SqlError,
>)
    ensures
        match out {
            Ok(rs) => facts::collected(
                inserted_rows(syntax::sql_nodes_view(nodes@), syntax::values_rows_view(rows@), n as nat, facts@),
                0,
                Seq::empty(),
            ) == Ok::<Seq<Seq<ValueV>>, ErrorV>(rows_view(rs@)),
            Err(e) => facts::collected(
                inserted_rows(syntax::sql_nodes_view(nodes@), syntax::values_rows_view(rows@), n as nat, facts@),
                0,
                Seq::empty(),
            ) == Err::<Seq<Seq<ValueV>>, ErrorV>(e@),
        },
{
    let mut out: Vec<Vec<DbValue>> = Vec::new();
    let ghost view = syntax::values_rows_view(rows@);
    let ghost rs = inserted_rows(syntax::sql_nodes_view(nodes@), view, n as nat, facts@);
    assert(rows_view(out@) =~= Seq::empty());
    for i in 0..rows.len()
        invariant
            view == syntax::values_rows_view(rows@),
            rs == inserted_rows(syntax::sql_nodes_view(nodes@), view, n as nat, facts@),
            facts::collected(rs, 0, Seq::empty()) == facts::collected(rs, i as int, rows_view(out@)),
    {
        let ghost before = rows_view(out@);
        assert(view[i as int] == rows@[i as int]@);
        let r = plan_row(nodes, &rows[i], n, facts)?;
        let ghost added = value::values_view(r@);
        out.push(r);
        assert(rows_view(out@) =~= before.push(added));
    }
    Ok(out)
}

/// The name of the table of a DELETE or an UPDATE.
fn plan_modified_table(place: &str, t: &TableFactor) -> (out: Result<String, SqlError>)
    ensures
        text_result(out) == modified_table(place@, t@),
{
    match t {
        TableFactor::Table { name, .. } => Ok(name.clone()),
        TableFactor::Other(s) => Err(
            SqlError::about_names(ErrorKind::UnsupportedTable, planner::two_names(place, s.as_str())),
        ),
    }
}

/// Plans an optional condition.
fn plan_filter(nodes: &Vec<SqlNode>, selection: Option<usize>, facts: &Facts) -> (out: Result<Option<Expr>, SqlError>)
    ensures
        match out {
            Ok(f) => planned_filter(syntax::sql_nodes_view(nodes@), selection, facts@) == Ok::<
                Option<ExprV>,
                ErrorV,
            >(filter_view(f)),
            Err(e) => planned_filter(syntax::sql_nodes_view(nodes@), selection, facts@) == Err::<
                Option<ExprV>,
                ErrorV,
            >(e@),
        },
{
    match selection {
        None => Ok(None),
        Some(i) => {
            let x = scalar::plan_expr(nodes, i, facts)?;
            Ok(Some(x))
        },
    }
}

/// The column that an assignment assigns to.
fn plan_target(t: &AssignmentTarget) -> (out: Result<String, SqlError>)
    ensures
        text_result(out) == assigned_column(t@),
{
    match t {
        AssignmentTarget::Column(n) => {
            let mut parts: Vec<String> = Vec::new();
            assert(text::views(parts@) =~= Seq::empty());
            for i in 0..n.parts.len()
                invariant
                    t@ == AssignmentTargetV::Column(n@),
                    identifiers(n@, 0, Seq::empty()) == identifiers(n@, i as int, text::views(parts@)),
            {
                let ghost before = text::views(parts@);
                assert(n@.parts[i as int] == n.parts@[i as int]@);
                match &n.parts[i] {
                    NamePart::Ident(s) => {
                        parts.push(s.clone());
                        assert(text::views(parts@) =~= before.push(s@));
                    },
                    NamePart::Other => {
                        return Err(SqlError::named(ErrorKind::AssignmentTarget, n.text.as_str()));
                    },
                }
            }
            Ok(text::join(&parts, '.'))
        },
        AssignmentTarget::Tuple => Err(SqlError::plain(ErrorKind::TupleAssignment)),
    }
}

/// Plans assignments.
fn plan_assignments(nodes: &Vec<SqlNode>, s: &Vec<Assignment>, facts: &Facts) -> (out: Result<
    Vec<(String, Expr)>,
    SqlError,
>)
    ensures
        match out {
            Ok(a) => facts::collected(
                planned_assignments(syntax::sql_nodes_view(nodes@), syntax::assignments_view(s@), facts@),
                0,
                Seq::empty(),
            ) == Ok::<Seq<(Seq<char>, ExprV)>, ErrorV>(assignments_model(a@)),
            Err(e) => facts::collected(
                planned_assignments(syntax::sql_nodes_view(nodes@), syntax::assignments_view(s@), facts@),
                0,
                Seq::empty(),
            ) == Err::<Seq<(Seq<char>, ExprV)>, ErrorV>(e@),
        },
{
    let mut out: Vec<(String, Expr)> = Vec::new();
    let ghost view = syntax::assignments_view(s@);
    let ghost rs = planned_assignments(syntax::sql_nodes_view(nodes@), view, facts@);
    assert(assignments_model(out@) =~= Seq::empty());
    for i in 0..s.len()
        invariant
            view == syntax::assignments_view(s@),
            rs == planned_assignments(syntax::sql_nodes_view(nodes@), view, facts@),
            facts::collected(rs, 0, Seq::empty()) == facts::collected(rs, i as int, assignments_model(out@)),
    {
        let ghost before = assignments_model(out@);
        assert(view[i as int] == s@[i as int]@);
        let name = plan_target(&s[i].target)?;
        let x = scalar::plan_expr(nodes, s[i].value, facts)?;
        let ghost added = (name@, x@);
        out.push((name, x));
        assert(assignments_model(out@) =~= before.push(added));
    }
    Ok(out)
}

impl LogicalPlanner {
    /// Plans a DROP.
    fn plan_drop(&self, kind: DropKind, names: &Vec<String>) -> (out: Result<SqlStatement, SqlError>)
        ensures
            statement_result(out) == planned_drop(self.catalog@, kind, text::views(names@)),
    {
        if names.len() == 0 {
            return Err(SqlError::plain(ErrorKind::UnsupportedDrop));
        }
        assert(text::views(names@)[0] == names@[0]@);
        match kind {
            DropKind::Table => Ok(SqlStatement::DropTable { name: names[0].clone() }),
            DropKind::Index => {
                let ghost tables = self.catalog@;
                let ghost name = names@[0]@;
                for i in 0..self.catalog.tables.len()
                    invariant
                        tables == self.catalog@,
                        names@.len() > 0,
                        name == names@[0]@,
                        text::views(names@)[0] == name,
                        kind is Index,
                        index_table(tables, name, 0) == index_table(tables, name, i as int),
                {
                    assert(tables[i as int] == (
                        self.catalog.tables@[i as int].0@,
                        self.catalog.tables@[i as int].1@,
                    ));
                    if schema_has_index(&self.catalog.tables[i].1, names[0].as_str()) {
                        return Ok(
                            SqlStatement::DropIndex {
                                table_name: self.catalog.tables[i].0.clone(),
                                index_name: names[0].clone(),
                            },
                        );
                    }
                }
                Err(SqlError::named(ErrorKind::IndexNotFound, names[0].as_str()))
            },
            DropKind::Other => Err(SqlError::plain(ErrorKind::UnsupportedDrop)),
        }
    }

    /// Plans an INSERT.
    fn plan_insert(
        &self,
        s: &Statement,
        table: &InsertTable,
        columns: &Vec<ObjectName>,
        source: &Option<Query>,
        facts: &Facts,
    ) -> (out: Result<SqlStatement, SqlError>)
        ensures
            statement_result(out) == planned_insert(
                self.catalog@,
                s@.exprs,
                s@.sets,
                table@,
                syntax::object_names_view(columns@),
                syntax::maybe_query_view(*source),
                facts@,
            ),
    {
        let name = match table {
            InsertTable::Other(t) => {
                return Err(SqlError::named(ErrorKind::InsertTable, t.as_str()));
            },
            InsertTable::Name(name) => name,
        };
        let schema = self.catalog.get_table(name.as_str())?;
        let columns = plan_insert_columns(columns, schema)?;
        match source {
            None => Err(SqlError::plain(ErrorKind::InsertSource)),
            Some(q) => {
                if q.body >= s.sets.len() {
                    return Err(SqlError::plain(ErrorKind::Malformed));
                }
                assert(s@.sets[q.body as int] == s.sets@[q.body as int]@);
                assert(text::views(columns@).len() == columns@.len());
                match &s.sets[q.body] {
                    SetNode::Values(rows) => {
                        let rows = plan_rows(&s.exprs, rows, columns.len(), facts)?;
                        Ok(SqlStatement::Insert { table_name: name.clone(), columns, rows })
                    },
                    _ => {
                        let query = self.plan_query(&s.exprs, &s.sets, q, s.sets.len(), facts)?;
                        Ok(SqlStatement::InsertSelect { table_name: name.clone(), columns, query })
                    },
                }
            },
        }
    }

    /// Plans an ALTER TABLE.
    fn plan_alter(&self, nodes: &Vec<SqlNode>, name: &String, operations: &Vec<AlterOperation>, facts: &Facts) -> (out:
        Result<SqlStatement, SqlError>)
        ensures
            statement_result(out) == planned_alter(
                syntax::sql_nodes_view(nodes@),
                name@,
                syntax::alter_operations_view(operations@),
                facts@,
            ),
    {
        if operations.len() != 1 {
            return Err(SqlError::plain(ErrorKind::AlterCount));
        }
        assert(syntax::alter_operations_view(operations@)[0] == operations@[0]@);
        match &operations[0] {
            AlterOperation::AddColumn(c) => {
                let c = ddl::column_def_to_column(nodes, c, facts)?;
                Ok(SqlStatement::AlterTable { table_name: name.clone(), op: AlterOp::AddColumn(c) })
            },
            AlterOperation::RenameColumn { old_name, new_name } => Ok(
                SqlStatement::AlterTable {
                    table_name: name.clone(),
                    op: AlterOp::RenameColumn { old_name: old_name.clone(), new_name: new_name.clone() },
                },
            ),
            AlterOperation::Other(s) => Err(SqlError::named(ErrorKind::UnsupportedAlter, s.as_str())),
        }
    }

    /// Plans what a statement says.
    fn plan_body(&self, s: &Statement, facts: &Facts) -> (out: Result<SqlStatement, SqlError>)
        ensures
            statement_result(out) == planned_body(self.catalog@, s@, facts@),
    {
        match &s.body {
            StatementBody::CreateTable { name, columns, constraints, options } => {
                let schema = ddl::plan_schema(&s.exprs, columns, constraints, options, facts)?;
                Ok(SqlStatement::CreateTable { name: name.clone(), schema })
            },
            StatementBody::Drop { kind, names } => self.plan_drop(*kind, names),
            StatementBody::CreateIndex { name, table_name, columns, using } => match name {
                None => Err(SqlError::plain(ErrorKind::IndexNameRequired)),
                Some(index_name) => {
                    let columns = plan_index_columns(&s.exprs, columns)?;
                    let index_type = if using.is_some() {
                        IndexType::FullText
                    } else {
                        IndexType::BTree
                    };
                    Ok(
                        SqlStatement::CreateIndex {
                            table_name: table_name.clone(),
                            index_name: index_name.clone(),
                            columns,
                            index_type,
                            tokenizer: schema::copy_opt_text(using),
                        },
                    )
                },
            },
            StatementBody::AlterTable { name, operations } => self.plan_alter(&s.exprs, name, operations, facts),
            StatementBody::Insert { table, columns, source } => self.plan_insert(s, table, columns, source, facts),
            StatementBody::Delete { from, selection } => {
                if from.len() == 0 {
                    return Err(SqlError::plain(ErrorKind::DeleteTable));
                }
                assert(syntax::table_factors_view(from@)[0] == from@[0]@);
                let table_name = plan_modified_table("DELETE", &from[0])?;
                let filter = plan_filter(&s.exprs, *selection, facts)?;
                Ok(SqlStatement::Delete { table_name, filter })
            },
            StatementBody::Update { table, assignments, selection } => {
                let table_name = plan_modified_table("UPDATE", table)?;
                let assignments = plan_assignments(&s.exprs, assignments, facts)?;
                let filter = plan_filter(&s.exprs, *selection, facts)?;
                Ok(SqlStatement::Update { table_name, assignments, filter })
            },
            StatementBody::Query(q) => {
                let p = self.plan_query(&s.exprs, &s.sets, q, s.sets.len(), facts)?;
                Ok(SqlStatement::Query(p))
            },
            StatementBody::Analyze { table_name } => match table_name {
                Some(table_name) => Ok(SqlStatement::Analyze { table_name: table_name.clone() }),
                None => Err(SqlError::plain(ErrorKind::AnalyzeTable)),
            },
            StatementBody::Other(t) => Err(SqlError::named(ErrorKind::UnsupportedStatement, t.as_str())),
        }
    }

    /// Plans a statement.
    pub fn plan(&self, statement: &Statement, facts: &Facts) -> (out: Result<SqlStatement, SqlError>)
        ensures
            statement_result(out) == planned_statement(self.catalog@, statement@, facts@),
    {
        let b = self.plan_body(statement, facts)?;
        if statement.explained == 0 {
            return Ok(b);
        }
        match b {
            SqlStatement::Query(p) => if statement.explained == 1 {
                Ok(SqlStatement::Explain(p))
            } else {
                Err(SqlError::plain(ErrorKind::ExplainQuery))
            },
            _ => Err(SqlError::plain(ErrorKind::ExplainQuery)),
        }
    }
}

/// Whether a statement changes the schema.
pub fn is_ddl_statement(s: &Statement) -> (out: bool)
    ensures
        out == changes_schema(s@),
{
    s.explained == 0 && match &s.body {
        StatementBody::CreateTable { .. } => true,
        StatementBody::Drop { .. } => true,
        StatementBody::CreateIndex { .. } => true,
        StatementBody::AlterTable { .. } => true,
        _ => false,
    }
}

} // verus!
