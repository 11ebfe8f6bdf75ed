//! Carrying a statement out: which operation of the database comes next, given what the last
//! one brought.
//!
//! An execution starts with `Event::Started`. Each step takes an event and gives the next action;
//! what the action brings is the next event. An error leaves the execution as it was, so that a
//! step can be taken again once an open question is answered.

use crate::engine;
use crate::engine::{ExecutionResult, Snapshot};
use crate::execute;
use crate::execute::{ExplainPhysical, ExplainPhysicalV, ExplainV, QueryStep, QueryStepV};
use crate::explain;
use crate::expr::{Expr, ExprV};
use crate::facts;
use crate::facts::{AnswerV, ErrorKind, ErrorV, Facts, QuestionV, SqlError};
use crate::logical::{LogicalPlan, PlanV};
use crate::modify;
use crate::modify::SequenceStep;
use crate::params::Params;
use crate::physical;
use crate::physical::{PhysicalPlan, PhysicalV};
use crate::point_get;
use crate::point_get::{PointGetPlan, PointGetV};
use crate::schema;
use crate::schema::{IndexType, Row, Schema, SchemaV};
use crate::statement;
use crate::statement::{AlterOp, AlterOpV, SqlStatement, SqlStatementV};
use crate::subquery;
use crate::subquery::{FoldStop, FoldStopV, SubqueryResult, SubqueryResultV};
use crate::text;
use crate::value;
use crate::value::{DbKey, DbValue, KeyV, Order, ValueV};
use vstd::prelude::*;
use vstd::string::*;

verus! {

// ---------------------------------------------------------------- actions and events

/// A statement that one operation of the database carries out.
#[derive(Clone, Copy, Debug, PartialEq, Eq, Structural)]
pub enum Change {
    CreateTable,
    DropTable,
    CreateIndex,
    DropIndex,
    AlterTable,
    Analyze,
}

/// What the database is to do next.
#[derive(Debug)]
pub enum Action {
    CreateTable { name: String, schema: Schema },
    DropTable { name: String },
    CreateIndex {
        table_name: String,
        index_name: String,
        columns: Vec<String>,
        index_type: IndexType,
        tokenizer: Option<String>,
    },
    DropIndex { table_name: String, index_name: String },
    AlterTable { table_name: String, op: AlterOp },
    Analyze { table_name: String },
    /// The schema of a table is asked for.
    GetTable { table_name: String },
    /// All rows of a subquery are asked for.
    Collect(PhysicalPlan),
    /// The row with a key is asked for; these are the columns that have to be read.
    Lookup { table_name: String, key: DbKey, columns: Vec<String> },
    /// The text of a plan is asked for.
    Describe(PhysicalPlan),
    /// A plan is to be opened, and its first row is asked for.
    Open(PhysicalPlan),
    /// The next row of the open plan is asked for.
    NextRow,
    /// The next value of the sequence of a table is asked for.
    NextSequence { table_name: String },
    /// The sequence of a table is to pass a value.
    PassSequence { table_name: String, value: i64 },
    /// It is asked whether there is a row with a key.
    Check { table_name: String, key: DbKey },
    Put { table_name: String, key: DbKey, row: Row },
    Delete { table_name: String, key: DbKey },
    /// The statement is done.
    Finish(ExecutionResult),
    /// The statement is done but for the rows of a plan, which are handed out as they are read.
    Stream(PhysicalPlan),
}

/// The model of a result.
#[verifier::ext_equal]
pub enum ResultV {
    Changed(Change),
    Insert { count: int },
    Delete { count: int },
    Update { count: int },
    Select { schema: SchemaV, rows: Seq<Seq<ValueV>> },
}

/// The model of an action.
#[verifier::ext_equal]
pub enum ActionV {
    CreateTable { name: Seq<char>, schema: SchemaV },
    DropTable { name: Seq<char> },
    CreateIndex {
        table_name: Seq<char>,
        index_name: Seq<char>,
        columns: Seq<Seq<char>>,
        index_type: IndexType,
        tokenizer: Option<Seq<char>>,
    },
    DropIndex { table_name: Seq<char>, index_name: Seq<char> },
    AlterTable { table_name: Seq<char>, op: AlterOpV },
    Analyze { table_name: Seq<char> },
    GetTable { table_name: Seq<char> },
    Collect(PhysicalV),
    Lookup { table_name: Seq<char>, key: KeyV, needed: Set<Seq<char>> },
    Describe(PhysicalV),
    Open(PhysicalV),
    NextRow,
    NextSequence { table_name: Seq<char> },
    PassSequence { table_name: Seq<char>, value: i64 },
    Check { table_name: Seq<char>, key: KeyV },
    Put { table_name: Seq<char>, key: KeyV, row: Seq<ValueV> },
    Delete { table_name: Seq<char>, key: KeyV },
    Finish(ResultV),
    Stream(PhysicalV),
}

impl ExecutionResult {
    /// The model.
    pub open spec fn view(&self) -> ResultV {
        match self {
            ExecutionResult::CreateTable => ResultV::Changed(Change::CreateTable),
            ExecutionResult::DropTable => ResultV::Changed(Change::DropTable),
            ExecutionResult::CreateIndex => ResultV::Changed(Change::CreateIndex),
            ExecutionResult::DropIndex => ResultV::Changed(Change::DropIndex),
            ExecutionResult::AlterTable => ResultV::Changed(Change::AlterTable),
            ExecutionResult::Analyze => ResultV::Changed(Change::Analyze),
            ExecutionResult::Insert { count } => ResultV::Insert { count: *count as int },
            ExecutionResult::Delete { count } => ResultV::Delete { count: *count as int },
            ExecutionResult::Update { count } => ResultV::Update { count: *count as int },
            ExecutionResult::Select { schema, rows } => ResultV::Select {
                schema: schema@,
                rows: subquery::rows_model(rows@),
            },
        }
    }
}

impl Action {
    /// The model.
    pub open spec fn view(&self) -> ActionV {
        match self {
            Action::CreateTable { name, schema } => ActionV::CreateTable { name: name@, schema: schema@ },
            Action::DropTable { name } => ActionV::DropTable { name: name@ },
            Action::CreateIndex { table_name, index_name, columns, index_type, tokenizer } => ActionV::CreateIndex {
                table_name: table_name@,
                index_name: index_name@,
                columns: text::views(columns@),
                index_type: *index_type,
                tokenizer: schema::opt_text(*tokenizer),
            },
            Action::DropIndex { table_name, index_name } => ActionV::DropIndex {
                table_name: table_name@,
                index_name: index_name@,
            },
            Action::AlterTable { table_name, op } => ActionV::AlterTable { table_name: table_name@, op: op@ },
            Action::Analyze { table_name } => ActionV::Analyze { table_name: table_name@ },
            Action::GetTable { table_name } => ActionV::GetTable { table_name: table_name@ },
            Action::Collect(p) => ActionV::Collect(p@),
            Action::Lookup { table_name, key, columns } => ActionV::Lookup {
                table_name: table_name@,
                key: key@,
                needed: text::views(columns@).to_set(),
            },
            Action::Describe(p) => ActionV::Describe(p@),
            Action::Open(p) => ActionV::Open(p@),
            Action::NextRow => ActionV::NextRow,
            Action::NextSequence { table_name } => ActionV::NextSequence { table_name: table_name@ },
            Action::PassSequence { table_name, value } => ActionV::PassSequence {
                table_name: table_name@,
                value: *value,
            },
            Action::Check { table_name, key } => ActionV::Check { table_name: table_name@, key: key@ },
            Action::Put { table_name, key, row } => ActionV::Put { table_name: table_name@, key: key@, row: row@ },
            Action::Delete { table_name, key } => ActionV::Delete { table_name: table_name@, key: key@ },
            Action::Finish(r) => ActionV::Finish(r@),
            Action::Stream(p) => ActionV::Stream(p@),
        }
    }
}

/// What the last action brought.
#[derive(Debug)]
pub enum Event {
    /// Nothing was done yet.
    Started,
    /// The action was carried out.
    Done,
    /// The schema of the table.
    Table(Schema),
    /// The rows of the subquery.
    Collected(SubqueryResult),
    /// The row with the key, if there is one; or a row of the open plan, if there is one more.
    Row(Option<Row>),
    /// The text of the plan.
    Described(String),
    /// The next value of the sequence.
    Sequence(i64),
    /// Whether there is a row with the key.
    Taken(bool),
}

/// The model of an event.
pub enum EventV {
    Started,
    Done,
    Table(SchemaV),
    Collected(SubqueryResultV),
    Row(Option<Seq<ValueV>>),
    Described(Seq<char>),
    Sequence(i64),
    Taken(bool),
}

impl Event {
    /// The model.
    pub open spec fn view(&self) -> EventV {
        match self {
            Event::Started => EventV::Started,
            Event::Done => EventV::Done,
            Event::Table(s) => EventV::Table(s@),
            Event::Collected(r) => EventV::Collected(r@),
            Event::Row(r) => EventV::Row(point_get::opt_row(*r)),
            Event::Described(t) => EventV::Described(t@),
            Event::Sequence(v) => EventV::Sequence(*v),
            Event::Taken(b) => EventV::Taken(*b),
        }
    }
}

// ---------------------------------------------------------------- executions

/// What an execution waits for.
#[derive(Debug)]
enum Stage {
    /// To be started.
    Starting,
    /// A change of the schema, or of statistics.
    Changing(Change),
    /// The schema of the table.
    Table,
    /// The rows of a subquery.
    Subquery,
    /// The row of a lookup.
    Lookup(PointGetPlan),
    /// The text of a plan.
    Describing { logical: String, optimized: String },
    /// A row.
    Reading,
    /// The next value of the sequence, for a column of the row to be inserted.
    Sequence { row: Row, at: usize },
    /// The sequence to pass the value of a column of the row to be inserted.
    Passing { row: Row, at: usize },
    /// Whether the key of the row to be inserted is taken.
    Checking { row: Row, key: DbKey },
    /// The old row to be deleted, so that the new one can be put under its key.
    Moving { row: Row, key: DbKey },
    /// A row to be written.
    Writing,
    /// Nothing more.
    Finished,
}

/// The model of what an execution waits for.
#[verifier::ext_equal]
pub enum StageV {
    Starting,
    Changing(Change),
    Table,
    Subquery,
    Lookup(PointGetV),
    Describing { logical: Seq<char>, optimized: Seq<char> },
    Reading,
    Sequence { row: Seq<ValueV>, at: int },
    Passing { row: Seq<ValueV>, at: int },
    Checking { row: Seq<ValueV>, key: KeyV },
    Moving { row: Seq<ValueV>, key: KeyV },
    Writing,
    Finished,
}

impl Stage {
    /// The model.
    closed spec fn view(&self) -> StageV {
        match self {
            Stage::Starting => StageV::Starting,
            Stage::Changing(c) => StageV::Changing(*c),
            Stage::Table => StageV::Table,
            Stage::Subquery => StageV::Subquery,
            Stage::Lookup(g) => StageV::Lookup(g@),
            Stage::Describing { logical, optimized } => StageV::Describing {
                logical: logical@,
                optimized: optimized@,
            },
            Stage::Reading => StageV::Reading,
            Stage::Sequence { row, at } => StageV::Sequence { row: row@, at: *at as int },
            Stage::Passing { row, at } => StageV::Passing { row: row@, at: *at as int },
            Stage::Checking { row, key } => StageV::Checking { row: row@, key: key@ },
            Stage::Moving { row, key } => StageV::Moving { row: row@, key: key@ },
            Stage::Writing => StageV::Writing,
            Stage::Finished => StageV::Finished,
        }
    }
}

/// The execution of a statement.
#[derive(Debug)]
pub struct Execution {
    statement: SqlStatement,
    streaming: bool,
    /// The schema of the table that is changed, once it is known.
    table: Option<Schema>,
    /// The schema of the rows that are read, once it is known.
    columns: Option<Schema>,
    results: Vec<SubqueryResult>,
    assignments: Vec<(String, Expr)>,
    rows: Vec<Row>,
    next: usize,
    count: usize,
    stage: Stage,
}

/// The model of an execution: the statement; whether rows are handed out as they are read; the
/// schemas of the table that is changed and of the rows that are read; the results of
/// subqueries; the assignments of an UPDATE; the rows that were read; how many rows of an INSERT
/// were taken up; how many rows were written; and what it waits for.
#[verifier::ext_equal]
pub struct ExecutionV {
    pub statement: SqlStatementV,
    pub streaming: bool,
    pub table: Option<SchemaV>,
    pub columns: Option<SchemaV>,
    pub results: Seq<SubqueryResultV>,
    pub assignments: Seq<(Seq<char>, ExprV)>,
    pub rows: Seq<Seq<ValueV>>,
    pub next: int,
    pub count: int,
    pub stage: StageV,
}

/// The model of an optional schema.
pub open spec fn opt_schema(o: Option<Schema>) -> Option<SchemaV> {
    match o {
        Some(s) => Some(s@),
        None => None,
    }
}

impl Execution {
    /// The model.
    pub closed spec fn view(&self) -> ExecutionV {
        ExecutionV {
            statement: self.statement@,
            streaming: self.streaming,
            table: opt_schema(self.table),
            columns: opt_schema(self.columns),
            results: subquery::results_view(self.results@),
            assignments: statement::assignments_model(self.assignments@),
            rows: subquery::rows_model(self.rows@),
            next: self.next as int,
            count: self.count as int,
            stage: self.stage@,
        }
    }

    /// Whether the plans of the statement have a name for each of their columns.
    pub open spec fn well_formed(&self) -> bool {
        engine::plans_well_formed(self@.statement)
    }
}

/// The outcome of a step.
pub type StepV = Result<(ExecutionV, ActionV), ErrorV>;

/// The model of an outcome of a step that changed an execution.
pub open spec fn outcome(x: ExecutionV, out: Result<Action, SqlError>) -> StepV {
    match out {
        Ok(a) => Ok((x, a@)),
        Err(e) => Err(e@),
    }
}

/// An execution that waits for something else.
pub open spec fn waiting(x: ExecutionV, stage: StageV) -> ExecutionV {
    ExecutionV { stage, ..x }
}

/// The table that a statement changes.
pub open spec fn target(s: SqlStatementV) -> Seq<char> {
    match s {
        SqlStatementV::Insert { table_name, .. } => table_name,
        SqlStatementV::InsertSelect { table_name, .. } => table_name,
        SqlStatementV::Delete { table_name, .. } => table_name,
        SqlStatementV::Update { table_name, .. } => table_name,
        _ => Seq::empty(),
    }
}

/// The end of an execution.
pub open spec fn finished(x: ExecutionV, r: ResultV) -> StepV {
    Ok((waiting(x, StageV::Finished), ActionV::Finish(r)))
}

/// An event that an execution does not wait for.
pub open spec fn unexpected() -> StepV {
    Err(facts::plain_error(ErrorKind::UnexpectedEvent))
}

// ---------------------------------------------------------------- the order of operations

/// What a statement that one operation carries out asks for.
pub open spec fn changed(x: ExecutionV) -> Option<(Change, ActionV)> {
    match x.statement {
        SqlStatementV::CreateTable { name, schema } => Some(
            (Change::CreateTable, ActionV::CreateTable { name, schema }),
        ),
        SqlStatementV::DropTable { name } => Some((Change::DropTable, ActionV::DropTable { name })),
        SqlStatementV::CreateIndex { table_name, index_name, columns, index_type, tokenizer } => Some(
            (
                Change::CreateIndex,
                ActionV::CreateIndex { table_name, index_name, columns, index_type, tokenizer },
            ),
        ),
        SqlStatementV::DropIndex { table_name, index_name } => Some(
            (Change::DropIndex, ActionV::DropIndex { table_name, index_name }),
        ),
        SqlStatementV::AlterTable { table_name, op } => Some(
            (Change::AlterTable, ActionV::AlterTable { table_name, op }),
        ),
        SqlStatementV::Analyze { table_name } => Some((Change::Analyze, ActionV::Analyze { table_name })),
        _ => None,
    }
}

/// A subquery is run by its compiled plan: all its rows are asked for.
pub open spec fn collected(x: ExecutionV, c: Result<PhysicalV, ErrorV>) -> StepV {
    match c {
        Err(e) => Err(e),
        Ok(c) => Ok((waiting(x, StageV::Subquery), ActionV::Collect(c))),
    }
}

/// A subquery is run: its plan is optimized and compiled, and all its rows are asked for.
#[verifier::opaque]
pub open spec fn collecting(
    x: ExecutionV,
    q: PlanV,
    db: Snapshot,
    ps: Map<Seq<char>, ValueV>,
    known: Seq<(QuestionV, AnswerV)>,
) -> StepV {
    collected(x, execute::subquery_plan(q, db, ps, known))
}

/// The rows of a plan are read.
pub open spec fn opening(x: ExecutionV, c: PhysicalV) -> StepV {
    Ok(
        (
            ExecutionV { columns: Some(physical::physical_schema(c)), stage: StageV::Reading, ..x },
            ActionV::Open(c),
        ),
    )
}

/// The schema of the table that a statement changes is asked for.
pub open spec fn asking_table(x: ExecutionV) -> StepV {
    Ok((waiting(x, StageV::Table), ActionV::GetTable { table_name: target(x.statement) }))
}

/// A row is about to be inserted, its automatically increasing columns from `from` on: they ask
/// the sequence of the table for values, or report theirs to it. Then its key is looked for.
#[verifier::opaque]
pub open spec fn inserting(x: ExecutionV, s: SchemaV, row: Seq<ValueV>, from: int) -> StepV {
    let table_name = target(x.statement);
    match modify::sequence_step(s.columns, row, from) {
        SequenceStep::Next(i) => Ok(
            (waiting(x, StageV::Sequence { row, at: i as int }), ActionV::NextSequence { table_name }),
        ),
        SequenceStep::Report(i, v) => Ok(
            (waiting(x, StageV::Passing { row, at: i as int }), ActionV::PassSequence { table_name, value: v }),
        ),
        SequenceStep::Done => match modify::primary_key(s, row) {
            Err(e) => Err(e),
            Ok(key) => Ok((waiting(x, StageV::Checking { row, key }), ActionV::Check { table_name, key })),
        },
    }
}

/// Some values are about to be inserted into some columns. Fewer values than columns are an
/// error.
pub open spec fn aligning(x: ExecutionV, s: SchemaV, columns: Seq<Seq<char>>, values: Seq<ValueV>) -> StepV {
    if values.len() < columns.len() {
        Err(facts::plain_error(ErrorKind::RowLength))
    } else {
        match modify::aligned_row(s, columns, values) {
            Err(e) => Err(e),
            Ok(row) => inserting(x, s, row, 0),
        }
    }
}

/// The next row of an INSERT with values is taken up; where there is none, the INSERT is done.
#[verifier::opaque]
pub open spec fn next_values(x: ExecutionV, s: SchemaV) -> StepV {
    match x.statement {
        SqlStatementV::Insert { columns, rows, .. } => if x.next < rows.len() {
            aligning(ExecutionV { next: x.next + 1, ..x }, s, columns, rows[x.next])
        } else {
            finished(x, ResultV::Insert { count: x.count })
        },
        _ => unexpected(),
    }
}

/// What a query does next, by its step: run a subquery, fetch a row by its key, or read its rows.
pub open spec fn queried(
    x: ExecutionV,
    step: Result<QueryStepV, ErrorV>,
    db: Snapshot,
    ps: Map<Seq<char>, ValueV>,
    known: Seq<(QuestionV, AnswerV)>,
) -> StepV {
    match step {
        Err(e) => Err(e),
        Ok(QueryStepV::Subquery(q)) => collecting(x, q, db, ps, known),
        Ok(QueryStepV::Lookup(g)) => Ok(
            (
                waiting(x, StageV::Lookup(g)),
                ActionV::Lookup { table_name: g.table_name, key: g.key, needed: point_get::lookup_columns(g) },
            ),
        ),
        Ok(QueryStepV::Rows(c)) => if x.streaming {
            Ok((waiting(x, StageV::Finished), ActionV::Stream(c)))
        } else {
            opening(x, c)
        },
    }
}

/// What a query does next.
#[verifier::opaque]
pub open spec fn querying(
    x: ExecutionV,
    p: PlanV,
    db: Snapshot,
    ps: Map<Seq<char>, ValueV>,
    known: Seq<(QuestionV, AnswerV)>,
) -> StepV {
    queried(x, execute::query_step(p, x.results, ps), db, ps, known)
}

/// What an EXPLAIN does with what it shows: the text of a lookup is known, that of any other plan
/// is asked for.
pub open spec fn shown(x: ExecutionV, v: Result<ExplainV, ErrorV>) -> StepV {
    match v {
        Err(e) => Err(e),
        Ok(v) => match v.physical {
            ExplainPhysicalV::Lookup(t) => finished(x, explained_result(v.logical, v.optimized, t)),
            ExplainPhysicalV::Rows(c) => Ok(
                (
                    waiting(x, StageV::Describing { logical: v.logical, optimized: v.optimized }),
                    ActionV::Describe(c),
                ),
            ),
        },
    }
}

/// What an EXPLAIN does.
#[verifier::opaque]
pub open spec fn explaining(
    x: ExecutionV,
    p: PlanV,
    db: Snapshot,
    ps: Map<Seq<char>, ValueV>,
    known: Seq<(QuestionV, AnswerV)>,
) -> StepV {
    shown(x, execute::explained(p, db, ps, known))
}

/// The result of an EXPLAIN.
pub open spec fn explained_result(logical: Seq<char>, optimized: Seq<char>, physical: Seq<char>) -> ResultV {
    ResultV::Select {
        schema: execute::explain_schema(),
        rows: seq![seq![ValueV::String(explain::explanation(logical, optimized, physical))]],
    }
}

/// What an INSERT of the rows of a query does with the query folded: once its subqueries were run,
/// the table is asked for.
pub open spec fn sourced<T>(
    x: ExecutionV,
    folded: Result<T, FoldStopV>,
    db: Snapshot,
    ps: Map<Seq<char>, ValueV>,
    known: Seq<(QuestionV, AnswerV)>,
) -> StepV {
    match folded {
        Err(FoldStopV::Run(q)) => collecting(x, q, db, ps, known),
        Err(FoldStopV::Failed(e)) => Err(e),
        Ok(_) => asking_table(x),
    }
}

/// What an INSERT of the rows of a query does with the table known: the rows are read, which must
/// have as many columns as the INSERT names.
pub open spec fn selected(
    x: ExecutionV,
    named: nat,
    step: Result<QueryStepV, ErrorV>,
    db: Snapshot,
    ps: Map<Seq<char>, ValueV>,
    known: Seq<(QuestionV, AnswerV)>,
) -> StepV {
    match step {
        Err(e) => Err(e),
        Ok(QueryStepV::Subquery(q)) => collecting(x, q, db, ps, known),
        Ok(QueryStepV::Lookup(_)) => unexpected(),
        Ok(QueryStepV::Rows(c)) => match modify::columns_agree(named, physical::physical_schema(c).columns.len()) {
            Err(e) => Err(e),
            Ok(_) => opening(x, c),
        },
    }
}

/// What an INSERT of the rows of a query does next: its subqueries come first, then the table,
/// then the rows.
#[verifier::opaque]
pub open spec fn selecting(
    x: ExecutionV,
    columns: Seq<Seq<char>>,
    query: PlanV,
    db: Snapshot,
    ps: Map<Seq<char>, ValueV>,
    known: Seq<(QuestionV, AnswerV)>,
) -> StepV {
    match x.table {
        None => sourced(x, subquery::folded_plan(query, x.results, 0), db, ps, known),
        Some(_) => selected(x, columns.len(), execute::source_step(query, x.results, ps), db, ps, known),
    }
}

/// What a DELETE does with the step by which its rows are found: the subqueries of its condition
/// come first, then the rows.
pub open spec fn deleted(
    x: ExecutionV,
    step: Result<QueryStepV, ErrorV>,
    db: Snapshot,
    ps: Map<Seq<char>, ValueV>,
    known: Seq<(QuestionV, AnswerV)>,
) -> StepV {
    match step {
        Err(e) => Err(e),
        Ok(QueryStepV::Subquery(q)) => collecting(x, q, db, ps, known),
        Ok(QueryStepV::Lookup(_)) => unexpected(),
        Ok(QueryStepV::Rows(c)) => opening(x, c),
    }
}

/// What a DELETE does next.
#[verifier::opaque]
pub open spec fn deleting(
    x: ExecutionV,
    s: SchemaV,
    filter: Option<ExprV>,
    db: Snapshot,
    ps: Map<Seq<char>, ValueV>,
    known: Seq<(QuestionV, AnswerV)>,
) -> StepV {
    deleted(
        x,
        execute::change_step(target(x.statement), s, filter, x.results, db, ps, known),
        db,
        ps,
        known,
    )
}

/// How many results of subqueries a condition used.
pub open spec fn results_used(filter: Option<ExprV>, results: Seq<SubqueryResultV>) -> int {
    match execute::folded_filter(filter, results) {
        Ok(f) => f.1,
        Err(_) => 0,
    }
}

/// What an UPDATE does with the step by which its rows are found, and with its assignments folded:
/// the subqueries of its condition come first, then those of its assignments, then the rows.
pub open spec fn changing(
    x: ExecutionV,
    step: Result<QueryStepV, ErrorV>,
    folded: Result<Seq<(Seq<char>, ExprV)>, FoldStopV>,
    db: Snapshot,
    ps: Map<Seq<char>, ValueV>,
    known: Seq<(QuestionV, AnswerV)>,
) -> StepV {
    match step {
        Err(e) => Err(e),
        Ok(QueryStepV::Subquery(q)) => collecting(x, q, db, ps, known),
        Ok(QueryStepV::Lookup(_)) => unexpected(),
        Ok(QueryStepV::Rows(c)) => match folded {
            Err(FoldStopV::Run(q)) => collecting(x, q, db, ps, known),
            Err(FoldStopV::Failed(e)) => Err(e),
            Ok(bound) => opening(ExecutionV { assignments: bound, ..x }, c),
        },
    }
}

/// What an UPDATE does next.
#[verifier::opaque]
pub open spec fn updating(
    x: ExecutionV,
    s: SchemaV,
    assignments: Seq<(Seq<char>, ExprV)>,
    filter: Option<ExprV>,
    db: Snapshot,
    ps: Map<Seq<char>, ValueV>,
    known: Seq<(QuestionV, AnswerV)>,
) -> StepV {
    changing(
        x,
        execute::change_step(target(x.statement), s, filter, x.results, db, ps, known),
        execute::folded_assignments(
            assignments,
            0,
            Seq::empty(),
            x.results,
            results_used(filter, x.results),
            ps,
        ),
        db,
        ps,
        known,
    )
}

/// What a statement does next before it has rows.
#[verifier::opaque]
pub open spec fn advanced(
    x: ExecutionV,
    db: Snapshot,
    ps: Map<Seq<char>, ValueV>,
    known: Seq<(QuestionV, AnswerV)>,
) -> StepV {
    match x.statement {
        SqlStatementV::Query(p) => querying(x, p, db, ps, known),
        SqlStatementV::Explain(p) => explaining(x, p, db, ps, known),
        SqlStatementV::InsertSelect { columns, query, .. } => selecting(x, columns, query, db, ps, known),
        SqlStatementV::Insert { .. } => match x.table {
            None => asking_table(x),
            Some(s) => next_values(x, s),
        },
        SqlStatementV::Delete { filter, .. } => match x.table {
            None => asking_table(x),
            Some(s) => deleting(x, s, filter, db, ps, known),
        },
        SqlStatementV::Update { assignments, filter, .. } => match x.table {
            None => asking_table(x),
            Some(s) => updating(x, s, assignments, filter, db, ps, known),
        },
        _ => match changed(x) {
            Some(c) => Ok((waiting(x, StageV::Changing(c.0)), c.1)),
            None => unexpected(),
        },
    }
}

/// The result of a statement whose rows were all read.
#[verifier::opaque]
pub open spec fn drained(x: ExecutionV) -> StepV {
    match x.statement {
        SqlStatementV::Query(_) => match x.columns {
            Some(schema) => finished(
                ExecutionV { rows: Seq::empty(), ..x },
                ResultV::Select { schema, rows: x.rows },
            ),
            None => unexpected(),
        },
        SqlStatementV::InsertSelect { .. } => finished(x, ResultV::Insert { count: x.count }),
        SqlStatementV::Delete { .. } => finished(x, ResultV::Delete { count: x.count }),
        SqlStatementV::Update { .. } => finished(x, ResultV::Update { count: x.count }),
        _ => unexpected(),
    }
}

/// What is done with a row: a query keeps it, an INSERT inserts it, a DELETE deletes it, and an
/// UPDATE writes what becomes of it, in its place or under its new key.
#[verifier::opaque]
pub open spec fn taken_up(x: ExecutionV, row: Seq<ValueV>, known: Seq<(QuestionV, AnswerV)>) -> StepV {
    match (x.statement, x.table) {
        (SqlStatementV::Query(_), _) => Ok((ExecutionV { rows: x.rows.push(row), ..x }, ActionV::NextRow)),
        (SqlStatementV::InsertSelect { columns, .. }, Some(s)) => aligning(x, s, columns, row),
        (SqlStatementV::Delete { table_name, .. }, Some(s)) => match modify::primary_key(s, row) {
            Err(e) => Err(e),
            Ok(key) => Ok((waiting(x, StageV::Writing), ActionV::Delete { table_name, key })),
        },
        (SqlStatementV::Update { table_name, .. }, Some(s)) => if row.len() < s.columns.len() {
            Err(facts::plain_error(ErrorKind::RowLength))
        } else {
            match modify::updated(s, row, x.assignments, known) {
                Err(e) => Err(e),
                Ok(u) => if value::key_order(u.old_key, u.new_key) != Order::Equal {
                    Ok(
                        (
                            waiting(x, StageV::Moving { row: u.row, key: u.new_key }),
                            ActionV::Delete { table_name, key: u.old_key },
                        ),
                    )
                } else {
                    Ok((waiting(x, StageV::Writing), ActionV::Put { table_name, key: u.new_key, row: u.row }))
                },
            }
        },
        _ => unexpected(),
    }
}

/// A number one larger, or the largest there is.
pub open spec fn one_more(n: int) -> int {
    if n < usize::MAX {
        n + 1
    } else {
        n
    }
}

/// A row was written: it counts, and the next one follows.
#[verifier::opaque]
pub open spec fn written(x: ExecutionV) -> StepV {
    let y = ExecutionV { count: one_more(x.count), ..x };
    match (x.statement, x.table) {
        (SqlStatementV::Insert { .. }, Some(s)) => next_values(y, s),
        (SqlStatementV::Insert { .. }, None) => unexpected(),
        _ => Ok((waiting(y, StageV::Reading), ActionV::NextRow)),
    }
}

/// The result of a lookup.
#[verifier::opaque]
pub open spec fn looked_up(
    x: ExecutionV,
    g: PointGetV,
    row: Option<Seq<ValueV>>,
    ps: Map<Seq<char>, ValueV>,
    known: Seq<(QuestionV, AnswerV)>,
) -> StepV {
    match point_get::found_row(g, row, ps, known) {
        Err(e) => Err(e),
        Ok(r) => finished(
            x,
            ResultV::Select {
                schema: point_get::lookup_schema(g),
                rows: match r {
                    Some(v) => seq![v],
                    None => Seq::empty(),
                },
            },
        ),
    }
}

/// The value of a column that increases automatically is set, and the row goes on.
#[verifier::opaque]
pub open spec fn numbered(x: ExecutionV, row: Seq<ValueV>, at: int, v: i64) -> StepV {
    match x.table {
        Some(s) => if at < row.len() {
            inserting(x, s, row.update(at, ValueV::Int(v)), at + 1)
        } else {
            unexpected()
        },
        None => unexpected(),
    }
}

/// The value of a column that increases automatically was reported, and the row goes on.
#[verifier::opaque]
pub open spec fn passed(x: ExecutionV, row: Seq<ValueV>, at: int) -> StepV {
    match x.table {
        Some(s) => if at < row.len() {
            inserting(x, s, row, at + 1)
        } else {
            unexpected()
        },
        None => unexpected(),
    }
}

/// A row is put under its key.
pub open spec fn putting(x: ExecutionV, row: Seq<ValueV>, key: KeyV) -> StepV {
    Ok((waiting(x, StageV::Writing), ActionV::Put { table_name: target(x.statement), key, row }))
}

/// The step of an execution on an event.
pub open spec fn stepped(
    x: ExecutionV,
    e: EventV,
    db: Snapshot,
    ps: Map<Seq<char>, ValueV>,
    known: Seq<(QuestionV, AnswerV)>,
) -> StepV {
    match (x.stage, e) {
        (StageV::Starting, EventV::Started) => advanced(x, db, ps, known),
        (StageV::Changing(c), EventV::Done) => finished(x, ResultV::Changed(c)),
        (StageV::Table, EventV::Table(s)) => advanced(ExecutionV { table: Some(s), ..x }, db, ps, known),
        (StageV::Subquery, EventV::Collected(r)) => advanced(
            ExecutionV { results: x.results.push(r), ..x },
            db,
            ps,
            known,
        ),
        (StageV::Lookup(g), EventV::Row(r)) => looked_up(x, g, r, ps, known),
        (StageV::Describing { logical, optimized }, EventV::Described(t)) => finished(
            x,
            explained_result(logical, optimized, t),
        ),
        (StageV::Reading, EventV::Row(None)) => drained(x),
        (StageV::Reading, EventV::Row(Some(r))) => taken_up(x, r, known),
        (StageV::Sequence { row, at }, EventV::Sequence(v)) => numbered(x, row, at, v),
        (StageV::Passing { row, at }, EventV::Done) => passed(x, row, at),
        (StageV::Checking { row, key }, EventV::Taken(b)) => match modify::insertion(b) {
            Err(e) => Err(e),
            Ok(_) => putting(x, row, key),
        },
        (StageV::Moving { row, key }, EventV::Done) => putting(x, row, key),
        (StageV::Writing, EventV::Done) => written(x),
        _ => unexpected(),
    }
}

// ---------------------------------------------------------------- steps

/// The error of an event that an execution does not wait for.
fn not_expected() -> (out: SqlError)
    ensures
        Err::<(ExecutionV, ActionV), ErrorV>(out@) == unexpected(),
{
    SqlError::plain(ErrorKind::UnexpectedEvent)
}

impl Execution {
    /// The execution of a planned statement.
    pub fn new(statement: SqlStatement, streaming: bool) -> (out: Execution)
        requires
            engine::plans_well_formed(statement@),
        ensures
            out.well_formed(),
            coherent(out@),
            out@ == (ExecutionV {
                statement: statement@,
                streaming,
                table: None,
                columns: None,
                results: Seq::empty(),
                assignments: Seq::empty(),
                rows: Seq::empty(),
                next: 0,
                count: 0,
                stage: StageV::Starting,
            }),
    {
        let out = Execution {
            statement,
            streaming,
            table: None,
            columns: None,
            results: Vec::new(),
            assignments: Vec::new(),
            rows: Vec::new(),
            next: 0,
            count: 0,
            stage: Stage::Starting,
        };
        assert(out@.results =~= Seq::empty());
        assert(out@.assignments =~= Seq::empty());
        assert(out@.rows =~= Seq::empty());
        out
    }

    /// The name of the table that the statement changes.
    fn target_name(&self) -> (out: String)
        ensures
            out@ == target(self@.statement),
    {
        match &self.statement {
            SqlStatement::Insert { table_name, .. } => table_name.clone(),
            SqlStatement::InsertSelect { table_name, .. } => table_name.clone(),
            SqlStatement::Delete { table_name, .. } => table_name.clone(),
            SqlStatement::Update { table_name, .. } => table_name.clone(),
            _ => {
                let out = String::new();
                assert(out@ =~= Seq::empty());
                out
            },
        }
    }

    /// Ends the execution.
    fn finish(&mut self, r: ExecutionResult) -> (out: Result<Action, SqlError>)
        ensures
            outcome(final(self)@, out) == finished(old(self)@, r@),
            out is Ok,
    {
        self.stage = Stage::Finished;
        Ok(Action::Finish(r))
    }

    /// Runs a subquery.
    fn collect(&mut self, q: &LogicalPlan, db: &Snapshot, ps: &Params, facts: &Facts) -> (out: Result<Action, SqlError>)
        ensures
            outcome(final(self)@, out) == collecting(old(self)@, q@, *db, ps@, facts@),
            out is Err ==> final(self)@ == old(self)@,
            final(self)@.statement == old(self)@.statement,
    {
        proof {
            reveal(collecting);
        }
        let c = execute::plan_subquery(q, db, ps, facts)?;
        self.stage = Stage::Subquery;
        Ok(Action::Collect(c))
    }

    /// Reads the rows of a plan.
    fn open(&mut self, c: PhysicalPlan) -> (out: Result<Action, SqlError>)
        ensures
            outcome(final(self)@, out) == opening(old(self)@, c@),
            out is Ok,
    {
        self.columns = Some(c.schema());
        self.stage = Stage::Reading;
        Ok(Action::Open(c))
    }

    /// Asks for the schema of the table that the statement changes.
    fn ask_table(&mut self) -> (out: Result<Action, SqlError>)
        ensures
            outcome(final(self)@, out) == asking_table(old(self)@),
            out is Ok,
    {
        let table_name = self.target_name();
        self.stage = Stage::Table;
        Ok(Action::GetTable { table_name })
    }

    /// Goes on with a row to be inserted, from a column on.
    fn insert_row(&mut self, s: &Schema, row: Row, from: usize) -> (out: Result<Action, SqlError>)
        ensures
            outcome(final(self)@, out) == inserting(old(self)@, s@, row@, from as int),
            out is Err ==> final(self)@ == old(self)@,
            final(self)@.statement == old(self)@.statement,
    {
        proof {
            reveal(inserting);
        }
        let table_name = self.target_name();
        match modify::next_sequence_step(s, &row, from) {
            SequenceStep::Next(i) => {
                self.stage = Stage::Sequence { row, at: i };
                Ok(Action::NextSequence { table_name })
            },
            SequenceStep::Report(i, v) => {
                self.stage = Stage::Passing { row, at: i };
                Ok(Action::PassSequence { table_name, value: v })
            },
            SequenceStep::Done => {
                let key = modify::extract_primary_key(s, &row)?;
                self.stage = Stage::Checking { row, key: key.clone() };
                Ok(Action::Check { table_name, key })
            },
        }
    }

    /// Takes up values to be inserted into some columns.
    fn align(&mut self, s: &Schema, columns: &Vec<String>, values: &Vec<DbValue>) -> (out: Result<Action, SqlError>)
        ensures
            outcome(final(self)@, out) == aligning(
                old(self)@,
                s@,
                text::views(columns@),
                value::values_view(values@),
            ),
            out is Err ==> final(self)@ == old(self)@,
            final(self)@.statement == old(self)@.statement,
    {
        assert(text::views(columns@).len() == columns@.len());
        assert(value::values_view(values@).len() == values@.len());
        if values.len() < columns.len() {
            return Err(SqlError::plain(ErrorKind::RowLength));
        }
        let row = modify::align_row(s, columns, values)?;
        self.insert_row(s, row, 0)
    }

    /// Takes up the next row of an INSERT with values.
    fn insert_next(&mut self, s: &Schema) -> (out: Result<Action, SqlError>)
        ensures
            outcome(final(self)@, out) == next_values(old(self)@, s@),
            out is Err ==> final(self)@ == old(self)@,
            final(self)@.statement == old(self)@.statement,
    {
        proof {
            reveal(next_values);
        }
        let (columns, values) = match &self.statement {
            SqlStatement::Insert { columns, rows, .. } => {
                assert(statement::rows_view(rows@).len() == rows@.len());
                if self.next >= rows.len() {
                    return self.finish(ExecutionResult::Insert { count: self.count });
                }
                assert(statement::rows_view(rows@)[self.next as int] == value::values_view(rows@[self.next as int]@));
                (text::copy_strings(columns), value::copy_values(&rows[self.next]))
            },
            _ => {
                return Err(not_expected());
            },
        };
        let before = self.next;
        self.next = before + 1;
        match self.align(s, &columns, &values) {
            Ok(a) => Ok(a),
            Err(e) => {
                self.next = before;
                Err(e)
            },
        }
    }

    /// What a query does next.
    fn query(&mut self, db: &Snapshot, ps: &Params, facts: &Facts) -> (out: Result<Action, SqlError>)
        requires
            old(self).well_formed(),
            old(self)@.statement is Query,
        ensures
            old(self)@.statement matches SqlStatementV::Query(p) && outcome(final(self)@, out) == querying(
                old(self)@,
                p,
                *db,
                ps@,
                facts@,
            ),
            out is Err ==> final(self)@ == old(self)@,
            final(self)@.statement == old(self)@.statement,
    {
        proof {
            reveal(querying);
        }
        let step = match &self.statement {
            SqlStatement::Query(p) => execute::next_query_step(p, &self.results, ps)?,
            _ => {
                return Err(not_expected());
            },
        };
        match step {
            QueryStep::Subquery(q) => self.collect(&q, db, ps, facts),
            QueryStep::Lookup(g) => {
                let columns = g.needed_columns();
                let action = Action::Lookup {
                    table_name: g.table_name.clone(),
                    key: g.key.clone(),
                    columns: columns.names,
                };
                self.stage = Stage::Lookup(g);
                Ok(action)
            },
            QueryStep::Rows(c) => if self.streaming {
                self.stage = Stage::Finished;
                Ok(Action::Stream(c))
            } else {
                self.open(c)
            },
        }
    }

    /// What an EXPLAIN does.
    fn explain(&mut self, db: &Snapshot, ps: &Params, facts: &Facts) -> (out: Result<Action, SqlError>)
        requires
            old(self).well_formed(),
            old(self)@.statement is Explain,
        ensures
            old(self)@.statement matches SqlStatementV::Explain(p) && outcome(final(self)@, out) == explaining(
                old(self)@,
                p,
                *db,
                ps@,
                facts@,
            ),
            out is Err ==> final(self)@ == old(self)@,
            final(self)@.statement == old(self)@.statement,
    {
        proof {
            reveal(explaining);
        }
        let x = match &self.statement {
            SqlStatement::Explain(p) => execute::explain_plan(p, db, ps, facts)?,
            _ => {
                return Err(not_expected());
            },
        };
        match x.physical {
            ExplainPhysical::Lookup(t) => {
                let r = explain_rows(&x.logical, &x.optimized, &t);
                self.finish(r)
            },
            ExplainPhysical::Rows(c) => {
                self.stage = Stage::Describing { logical: x.logical, optimized: x.optimized };
                Ok(Action::Describe(c))
            },
        }
    }

    /// What an INSERT of the rows of a query does next.
    fn select(&mut self, db: &Snapshot, ps: &Params, facts: &Facts) -> (out: Result<Action, SqlError>)
        requires
            old(self).well_formed(),
            old(self)@.statement is InsertSelect,
        ensures
            old(self)@.statement matches SqlStatementV::InsertSelect { columns, query, .. } && outcome(
                final(self)@,
                out,
            ) == selecting(old(self)@, columns, query, *db, ps@, facts@),
            out is Err ==> final(self)@ == old(self)@,
            final(self)@.statement == old(self)@.statement,
    {
        proof {
            reveal(selecting);
        }
        let (step, named) = match &self.statement {
            SqlStatement::InsertSelect { columns, query, .. } => {
                assert(text::views(columns@).len() == columns@.len());
                if self.table.is_none() {
                    match subquery::fold_subqueries(query, &self.results) {
                        Err(FoldStop::Run(q)) => {
                            return self.collect(&q, db, ps, facts);
                        },
                        Err(FoldStop::Failed(e)) => {
                            return Err(e);
                        },
                        Ok(_) => {
                            return self.ask_table();
                        },
                    }
                }
                (execute::next_source_step(query, &self.results, ps)?, columns.len())
            },
            _ => {
                return Err(not_expected());
            },
        };
        match step {
            QueryStep::Subquery(q) => self.collect(&q, db, ps, facts),
            QueryStep::Lookup(_) => Err(not_expected()),
            QueryStep::Rows(c) => {
                let s = c.schema();
                assert(s@.columns.len() == s.columns@.len());
                modify::check_select_columns(named, s.columns.len())?;
                self.open(c)
            },
        }
    }

    /// What a DELETE does next.
    fn delete(&mut self, db: &Snapshot, ps: &Params, facts: &Facts) -> (out: Result<Action, SqlError>)
        requires
            old(self)@.table is Some,
            old(self)@.statement is Delete,
        ensures
            old(self)@.statement matches SqlStatementV::Delete { filter, .. } && outcome(final(self)@, out) == deleting(
                old(self)@,
                old(self)@.table->0,
                filter,
                *db,
                ps@,
                facts@,
            ),
            out is Err ==> final(self)@ == old(self)@,
            final(self)@.statement == old(self)@.statement,
    {
        proof {
            reveal(deleting);
        }
        let step = match (&self.statement, &self.table) {
            (SqlStatement::Delete { table_name, filter }, Some(s)) => execute::next_change_step(
                table_name.as_str(),
                s,
                filter,
                &self.results,
                db,
                ps,
                facts,
            )?,
            _ => {
                return Err(not_expected());
            },
        };
        match step {
            QueryStep::Subquery(q) => self.collect(&q, db, ps, facts),
            QueryStep::Lookup(_) => Err(not_expected()),
            QueryStep::Rows(c) => self.open(c),
        }
    }

    /// The assignments of an UPDATE without subqueries.
    fn fold_changes(&self, ps: &Params) -> (out: Result<Vec<(String, Expr)>, FoldStop>)
        requires
            self@.statement is Update,
        ensures
            self@.statement matches SqlStatementV::Update { assignments, filter, .. } && (match out {
                Ok(v) => execute::folded_assignments(
                    assignments,
                    0,
                    Seq::empty(),
                    self@.results,
                    results_used(filter, self@.results),
                    ps@,
                ) == Ok::<Seq<(Seq<char>, ExprV)>, FoldStopV>(statement::assignments_model(v@)),
                Err(stop) => execute::folded_assignments(
                    assignments,
                    0,
                    Seq::empty(),
                    self@.results,
                    results_used(filter, self@.results),
                    ps@,
                ) == Err::<Seq<(Seq<char>, ExprV)>, FoldStopV>(stop@),
            }),
    {
        match &self.statement {
            SqlStatement::Update { assignments, filter, .. } => {
                let used: usize = match execute::fold_filter(filter, &self.results) {
                    Ok(f) => f.1,
                    Err(_) => 0,
                };
                execute::fold_assignments(assignments, &self.results, used, ps)
            },
            _ => Err(FoldStop::Failed(not_expected())),
        }
    }

    /// What an UPDATE does next.
    fn change(&mut self, db: &Snapshot, ps: &Params, facts: &Facts) -> (out: Result<Action, SqlError>)
        requires
            old(self)@.table is Some,
            old(self)@.statement is Update,
        ensures
            old(self)@.statement matches SqlStatementV::Update { assignments, filter, .. } && outcome(
                final(self)@,
                out,
            ) == updating(old(self)@, old(self)@.table->0, assignments, filter, *db, ps@, facts@),
            out is Err ==> final(self)@ == old(self)@,
            final(self)@.statement == old(self)@.statement,
    {
        proof {
            reveal(updating);
        }
        let step = match (&self.statement, &self.table) {
            (SqlStatement::Update { table_name, filter, .. }, Some(s)) => execute::next_change_step(
                table_name.as_str(),
                s,
                filter,
                &self.results,
                db,
                ps,
                facts,
            )?,
            _ => {
                return Err(not_expected());
            },
        };
        match step {
            QueryStep::Subquery(q) => self.collect(&q, db, ps, facts),
            QueryStep::Lookup(_) => Err(not_expected()),
            QueryStep::Rows(c) => match self.fold_changes(ps) {
                Err(FoldStop::Run(q)) => self.collect(&q, db, ps, facts),
                Err(FoldStop::Failed(e)) => Err(e),
                Ok(bound) => {
                    self.assignments = bound;
                    self.open(c)
                },
            },
        }
    }

    /// Asks for the one operation that carries the statement out.
    fn alter(&mut self) -> (out: Result<Action, SqlError>)
        ensures
            outcome(final(self)@, out) == (match changed(old(self)@) {
                Some(c) => Ok((waiting(old(self)@, StageV::Changing(c.0)), c.1)),
                None => unexpected(),
            }),
            out is Err ==> final(self)@ == old(self)@,
    {
        let (kind, action) = match &self.statement {
            SqlStatement::CreateTable { name, schema } => (
                Change::CreateTable,
                Action::CreateTable { name: name.clone(), schema: schema.clone() },
            ),
            SqlStatement::DropTable { name } => (Change::DropTable, Action::DropTable { name: name.clone() }),
            SqlStatement::CreateIndex { table_name, index_name, columns, index_type, tokenizer } => (
                Change::CreateIndex,
                Action::CreateIndex {
                    table_name: table_name.clone(),
                    index_name: index_name.clone(),
                    columns: text::copy_strings(columns),
                    index_type: *index_type,
                    tokenizer: schema::copy_opt_text(tokenizer),
                },
            ),
            SqlStatement::DropIndex { table_name, index_name } => (
                Change::DropIndex,
                Action::DropIndex { table_name: table_name.clone(), index_name: index_name.clone() },
            ),
            SqlStatement::AlterTable { table_name, op } => (
                Change::AlterTable,
                Action::AlterTable { table_name: table_name.clone(), op: op.copy() },
            ),
            SqlStatement::Analyze { table_name } => (
                Change::Analyze,
                Action::Analyze { table_name: table_name.clone() },
            ),
            _ => {
                return Err(not_expected());
            },
        };
        self.stage = Stage::Changing(kind);
        Ok(action)
    }

    /// What the statement does next before it has rows.
    fn advance(&mut self, db: &Snapshot, ps: &Params, facts: &Facts) -> (out: Result<Action, SqlError>)
        requires
            old(self).well_formed(),
        ensures
            outcome(final(self)@, out) == advanced(old(self)@, *db, ps@, facts@),
            out is Err ==> final(self)@ == old(self)@,
            final(self).well_formed(),
    {
        proof {
            reveal(advanced);
        }
        match &self.statement {
            SqlStatement::Query(_) => self.query(db, ps, facts),
            SqlStatement::Explain(_) => self.explain(db, ps, facts),
            SqlStatement::InsertSelect { .. } => self.select(db, ps, facts),
            SqlStatement::Insert { .. } => match &self.table {
                None => self.ask_table(),
                Some(s) => {
                    let s = s.clone();
                    self.insert_next(&s)
                },
            },
            SqlStatement::Delete { .. } => if self.table.is_none() {
                self.ask_table()
            } else {
                self.delete(db, ps, facts)
            },
            SqlStatement::Update { .. } => if self.table.is_none() {
                self.ask_table()
            } else {
                self.change(db, ps, facts)
            },
            _ => self.alter(),
        }
    }

    /// What a query or a change does once all rows were read.
    fn drain(&mut self) -> (out: Result<Action, SqlError>)
        ensures
            outcome(final(self)@, out) == drained(old(self)@),
            out is Err ==> final(self)@ == old(self)@,
            final(self)@.statement == old(self)@.statement,
    {
        proof {
            reveal(drained);
        }
        match &self.statement {
            SqlStatement::Query(_) => match &self.columns {
                Some(s) => {
                    let schema = s.clone();
                    let mut rows: Vec<Row> = Vec::new();
                    std::mem::swap(&mut rows, &mut self.rows);
                    assert(subquery::rows_model(self.rows@) =~= Seq::empty());
                    self.finish(ExecutionResult::Select { schema, rows })
                },
                None => Err(not_expected()),
            },
            SqlStatement::InsertSelect { .. } => {
                let count = self.count;
                self.finish(ExecutionResult::Insert { count })
            },
            SqlStatement::Delete { .. } => {
                let count = self.count;
                self.finish(ExecutionResult::Delete { count })
            },
            SqlStatement::Update { .. } => {
                let count = self.count;
                self.finish(ExecutionResult::Update { count })
            },
            _ => Err(not_expected()),
        }
    }

    /// Writes what an UPDATE makes of a row.
    fn update(&mut self, row: &Row, facts: &Facts) -> (out: Result<Action, SqlError>)
        requires
            old(self)@.statement is Update,
        ensures
            outcome(final(self)@, out) == taken_up(old(self)@, row@, facts@),
            out is Err ==> final(self)@ == old(self)@,
            final(self)@.statement == old(self)@.statement,
    {
        proof {
            reveal(taken_up);
        }
        let table_name = self.target_name();
        let u = match &self.table {
            None => {
                return Err(not_expected());
            },
            Some(s) => {
                assert(s@.columns.len() == s.columns@.len());
                assert(row@.len() == row.values@.len());
                if row.values.len() < s.columns.len() {
                    return Err(SqlError::plain(ErrorKind::RowLength));
                }
                modify::update_row(s, row, &self.assignments, facts)?
            },
        };
        if u.moved {
            self.stage = Stage::Moving { row: u.row, key: u.new_key };
            Ok(Action::Delete { table_name, key: u.old_key })
        } else {
            self.stage = Stage::Writing;
            Ok(Action::Put { table_name, key: u.new_key, row: u.row })
        }
    }

    /// What is done with a row.
    fn take_up(&mut self, row: &Row, facts: &Facts) -> (out: Result<Action, SqlError>)
        ensures
            outcome(final(self)@, out) == taken_up(old(self)@, row@, facts@),
            out is Err ==> final(self)@ == old(self)@,
            final(self)@.statement == old(self)@.statement,
    {
        proof {
            reveal(taken_up);
        }
        match (&self.statement, &self.table) {
            (SqlStatement::Query(_), _) => {
                let ghost before = subquery::rows_model(self.rows@);
                self.rows.push(row.copy());
                assert(subquery::rows_model(self.rows@) =~= before.push(row@));
                Ok(Action::NextRow)
            },
            (SqlStatement::InsertSelect { columns, .. }, Some(s)) => {
                let columns = text::copy_strings(columns);
                let s = s.clone();
                self.align(&s, &columns, &row.values)
            },
            (SqlStatement::Delete { table_name, .. }, Some(s)) => {
                let key = modify::extract_primary_key(s, row)?;
                let table_name = table_name.clone();
                self.stage = Stage::Writing;
                Ok(Action::Delete { table_name, key })
            },
            (SqlStatement::Update { .. }, Some(_)) => self.update(row, facts),
            _ => Err(not_expected()),
        }
    }

    /// Counts a row that was written, and goes on.
    fn count_written(&mut self) -> (out: Result<Action, SqlError>)
        ensures
            outcome(final(self)@, out) == written(old(self)@),
            out is Err ==> final(self)@ == old(self)@,
            final(self)@.statement == old(self)@.statement,
    {
        proof {
            reveal(written);
        }
        let before = self.count;
        match (&self.statement, &self.table) {
            (SqlStatement::Insert { .. }, Some(s)) => {
                let s = s.clone();
                self.count = next_count(before);
                match self.insert_next(&s) {
                    Ok(a) => Ok(a),
                    Err(e) => {
                        self.count = before;
                        Err(e)
                    },
                }
            },
            (SqlStatement::Insert { .. }, None) => Err(not_expected()),
            _ => {
                self.count = next_count(before);
                self.stage = Stage::Reading;
                Ok(Action::NextRow)
            },
        }
    }

    /// Goes on with the schema of the table.
    fn learn_table(&mut self, s: &Schema, db: &Snapshot, ps: &Params, facts: &Facts) -> (out: Result<Action, SqlError>)
        requires
            old(self).well_formed(),
        ensures
            outcome(final(self)@, out) == advanced(ExecutionV { table: Some(s@), ..old(self)@ }, *db, ps@, facts@),
            out is Err ==> final(self)@ == old(self)@,
            final(self).well_formed(),
    {
        let before = match &self.table {
            Some(t) => Some(t.clone()),
            None => None,
        };
        self.table = Some(s.clone());
        assert(self@ == (ExecutionV { table: Some(s@), ..old(self)@ }));
        match self.advance(db, ps, facts) {
            Ok(a) => Ok(a),
            Err(e) => {
                self.table = before;
                Err(e)
            },
        }
    }

    /// Goes on with the rows of a subquery.
    fn learn_rows(&mut self, r: &SubqueryResult, db: &Snapshot, ps: &Params, facts: &Facts) -> (out: Result<
        Action,
        SqlError,
    >)
        requires
            old(self).well_formed(),
        ensures
            outcome(final(self)@, out) == advanced(
                ExecutionV { results: old(self)@.results.push(r@), ..old(self)@ },
                *db,
                ps@,
                facts@,
            ),
            out is Err ==> final(self)@ == old(self)@,
            final(self).well_formed(),
    {
        let ghost before = subquery::results_view(self.results@);
        self.results.push(r.copy());
        assert(subquery::results_view(self.results@) =~= before.push(r@));
        assert(self@ == (ExecutionV { results: before.push(r@), ..old(self)@ }));
        match self.advance(db, ps, facts) {
            Ok(a) => Ok(a),
            Err(e) => {
                let ghost after = subquery::results_view(self.results@);
                self.results.pop();
                assert(subquery::results_view(self.results@) =~= after.drop_last());
                assert(after.drop_last() =~= before);
                Err(e)
            },
        }
    }

    /// Ends a lookup.
    fn finish_lookup(&mut self, row: &Option<Row>, ps: &Params, facts: &Facts) -> (out: Result<Action, SqlError>)
        requires
            old(self)@.stage is Lookup,
        ensures
            old(self)@.stage matches StageV::Lookup(g) && outcome(final(self)@, out) == looked_up(
                old(self)@,
                g,
                point_get::opt_row(*row),
                ps@,
                facts@,
            ),
            out is Err ==> final(self)@ == old(self)@,
            final(self)@.statement == old(self)@.statement,
    {
        proof {
            reveal(looked_up);
        }
        let given = match row {
            Some(r) => Some(r.copy()),
            None => None,
        };
        let r = match &self.stage {
            Stage::Lookup(g) => {
                let found = g.finish(given, ps, facts)?;
                lookup_rows(g, found)
            },
            _ => {
                return Err(not_expected());
            },
        };
        self.finish(r)
    }

    /// Sets the value of a column that increases automatically, and goes on with the row.
    fn number(&mut self, row: Row, at: usize, v: i64) -> (out: Result<Action, SqlError>)
        ensures
            outcome(final(self)@, out) == numbered(old(self)@, row@, at as int, v),
            out is Err ==> final(self)@ == old(self)@,
            final(self)@.statement == old(self)@.statement,
    {
        proof {
            reveal(numbered);
        }
        match &self.table {
            Some(s) => {
                let s = s.clone();
                let n = row.values.len();
                assert(row@.len() == row.values@.len());
                if at >= n {
                    return Err(not_expected());
                }
                let mut row = row;
                modify::set_value(&mut row, at, DbValue::Int(v));
                self.insert_row(&s, row, at + 1)
            },
            None => Err(not_expected()),
        }
    }

    /// Goes on with a row whose value was reported to the sequence.
    fn pass(&mut self, row: Row, at: usize) -> (out: Result<Action, SqlError>)
        ensures
            outcome(final(self)@, out) == passed(old(self)@, row@, at as int),
            out is Err ==> final(self)@ == old(self)@,
            final(self)@.statement == old(self)@.statement,
    {
        proof {
            reveal(passed);
        }
        match &self.table {
            Some(s) => {
                let s = s.clone();
                let n = row.values.len();
                assert(row@.len() == row.values@.len());
                if at >= n {
                    return Err(not_expected());
                }
                self.insert_row(&s, row, at + 1)
            },
            None => Err(not_expected()),
        }
    }

    /// Takes the next step: what the last action brought is told, and the next action is given.
    /// An error leaves the execution as it was.
    #[verifier::rlimit(40)]
    pub fn step(&mut self, event: &Event, db: &Snapshot, ps: &Params, facts: &Facts) -> (out: Result<Action, SqlError>)
        requires
            old(self).well_formed(),
        ensures
            outcome(final(self)@, out) == stepped(old(self)@, event@, *db, ps@, facts@),
            out is Err ==> final(self)@ == old(self)@,
            final(self).well_formed(),
            coherent(old(self)@) ==> coherent(final(self)@),
    {
        proof {
            if coherent(self@) {
                steps_stay_coherent(self@, event@, *db, ps@, facts@);
            }
        }
        match (&self.stage, event) {
            (Stage::Starting, Event::Started) => self.advance(db, ps, facts),
            (Stage::Changing(c), Event::Done) => {
                let r = changed_result(*c);
                self.finish(r)
            },
            (Stage::Table, Event::Table(s)) => self.learn_table(s, db, ps, facts),
            (Stage::Subquery, Event::Collected(r)) => self.learn_rows(r, db, ps, facts),
            (Stage::Lookup(_), Event::Row(r)) => self.finish_lookup(r, ps, facts),
            (Stage::Describing { logical, optimized }, Event::Described(t)) => {
                let r = explain_rows(logical, optimized, t);
                self.finish(r)
            },
            (Stage::Reading, Event::Row(None)) => self.drain(),
            (Stage::Reading, Event::Row(Some(r))) => self.take_up(r, facts),
            (Stage::Sequence { row, at }, Event::Sequence(v)) => {
                let (row, at) = (row.copy(), *at);
                self.number(row, at, *v)
            },
            (Stage::Passing { row, at }, Event::Done) => {
                let (row, at) = (row.copy(), *at);
                self.pass(row, at)
            },
            (Stage::Checking { row, key }, Event::Taken(b)) => {
                modify::check_insert(*b)?;
                let (row, key) = (row.copy(), key.clone());
                self.put(row, key)
            },
            (Stage::Moving { row, key }, Event::Done) => {
                let (row, key) = (row.copy(), key.clone());
                self.put(row, key)
            },
            (Stage::Writing, Event::Done) => self.count_written(),
            _ => Err(not_expected()),
        }
    }

    /// Puts a row under its key.
    fn put(&mut self, row: Row, key: DbKey) -> (out: Result<Action, SqlError>)
        ensures
            outcome(final(self)@, out) == putting(old(self)@, row@, key@),
            out is Ok,
    {
        let table_name = self.target_name();
        self.stage = Stage::Writing;
        Ok(Action::Put { table_name, key, row })
    }
}

/// A number one larger, or the largest there is.
fn next_count(n: usize) -> (out: usize)
    ensures
        out == one_more(n as int),
{
    if n < usize::MAX {
        n + 1
    } else {
        n
    }
}

/// The result of a change of the schema, or of statistics.
fn changed_result(c: Change) -> (out: ExecutionResult)
    ensures
        out@ == ResultV::Changed(c),
{
    match c {
        Change::CreateTable => ExecutionResult::CreateTable,
        Change::DropTable => ExecutionResult::DropTable,
        Change::CreateIndex => ExecutionResult::CreateIndex,
        Change::DropIndex => ExecutionResult::DropIndex,
        Change::AlterTable => ExecutionResult::AlterTable,
        Change::Analyze => ExecutionResult::Analyze,
    }
}

/// The result of a lookup.
fn lookup_rows(g: &PointGetPlan, row: Option<Row>) -> (out: ExecutionResult)
    ensures
        out@ == (ResultV::Select {
            schema: point_get::lookup_schema(g@),
            rows: match row {
                Some(r) => seq![r@],
                None => Seq::empty(),
            },
        }),
{
    let ghost given = point_get::opt_row(row);
    let out = execute::lookup_result(g, row);
    proof {
        if let ExecutionResult::Select { rows, .. } = &out {
            match given {
                Some(r) => assert(subquery::rows_model(rows@) =~= seq![r]),
                None => assert(subquery::rows_model(rows@) =~= Seq::empty()),
            }
        }
    }
    out
}

/// The result of an EXPLAIN.
fn explain_rows(logical: &String, optimized: &String, physical: &String) -> (out: ExecutionResult)
    ensures
        out@ == explained_result(logical@, optimized@, physical@),
{
    let out = execute::explain_result(logical.as_str(), optimized.as_str(), physical.as_str());
    proof {
        if let ExecutionResult::Select { rows, .. } = &out {
            assert(subquery::rows_model(rows@) =~= seq![
                seq![ValueV::String(explain::explanation(logical@, optimized@, physical@))],
            ]);
        }
    }
    out
}

// ---------------------------------------------------------------- laws

/// Whether a statement inserts rows.
pub open spec fn inserts(s: SqlStatementV) -> bool {
    s is Insert || s is InsertSelect
}

/// Whether a statement writes rows.
pub open spec fn writes(s: SqlStatementV) -> bool {
    inserts(s) || s is Delete || s is Update
}

/// Whether what an execution waits for fits its statement, and a row that waits to be put has
/// the key it waits with.
pub open spec fn coherent(x: ExecutionV) -> bool {
    match x.stage {
        StageV::Changing(c) => changed(x) matches Some(k) && k.0 == c,
        StageV::Lookup(_) => x.statement is Query,
        StageV::Describing { .. } => x.statement is Explain,
        StageV::Sequence { .. } => inserts(x.statement),
        StageV::Passing { .. } => inserts(x.statement),
        StageV::Checking { row, key } => {
            &&& inserts(x.statement)
            &&& x.table matches Some(s)
            &&& modify::primary_key(s, row) == Ok::<KeyV, ErrorV>(key)
        },
        StageV::Moving { row, key } => {
            &&& x.statement is Update
            &&& x.table matches Some(s)
            &&& modify::primary_key(s, row) == Ok::<KeyV, ErrorV>(key)
        },
        StageV::Writing => writes(x.statement),
        _ => true,
    }
}

/// Whether an action fits the execution that gave it: rows are written only by the statements
/// that write, to their table, under their own keys, and a result tells how many were written.
pub open spec fn fitting(y: ExecutionV, a: ActionV) -> bool {
    match a {
        ActionV::Put { table_name, key, row } => {
            &&& writes(y.statement)
            &&& table_name == target(y.statement)
            &&& y.stage is Writing
            &&& y.table matches Some(s)
            &&& modify::primary_key(s, row) == Ok::<KeyV, ErrorV>(key)
        },
        ActionV::Delete { table_name, .. } => {
            &&& y.statement is Delete || y.statement is Update
            &&& table_name == target(y.statement)
        },
        ActionV::Check { table_name, .. } => inserts(y.statement) && table_name == target(y.statement),
        ActionV::NextSequence { table_name } => inserts(y.statement) && table_name == target(y.statement),
        ActionV::PassSequence { table_name, .. } => inserts(y.statement) && table_name == target(y.statement),
        ActionV::Finish(r) => {
            &&& y.stage is Finished
            &&& match r {
                ResultV::Changed(c) => changed(y) matches Some(k) && k.0 == c,
                ResultV::Insert { count } => inserts(y.statement) && count == y.count,
                ResultV::Delete { count } => y.statement is Delete && count == y.count,
                ResultV::Update { count } => y.statement is Update && count == y.count,
                ResultV::Select { .. } => y.statement is Query || y.statement is Explain,
            }
        },
        ActionV::Stream(_) => y.stage is Finished && y.streaming && y.statement is Query,
        ActionV::GetTable { table_name } => writes(y.statement) && table_name == target(y.statement),
        ActionV::CreateTable { .. } => changed(y) matches Some(k) && k.1 == a,
        ActionV::DropTable { .. } => changed(y) matches Some(k) && k.1 == a,
        ActionV::CreateIndex { .. } => changed(y) matches Some(k) && k.1 == a,
        ActionV::DropIndex { .. } => changed(y) matches Some(k) && k.1 == a,
        ActionV::AlterTable { .. } => changed(y) matches Some(k) && k.1 == a,
        ActionV::Analyze { .. } => changed(y) matches Some(k) && k.1 == a,
        _ => true,
    }
}

/// Whether a step keeps the statement of an execution, counts nothing, and is coherent.
spec fn keeps(x: ExecutionV, out: StepV) -> bool {
    out matches Ok(r) ==> {
        &&& r.0.statement == x.statement
        &&& r.0.streaming == x.streaming
        &&& r.0.count == x.count
        &&& coherent(r.0)
        &&& fitting(r.0, r.1)
    }
}

/// Whether a step puts no row.
spec fn puts_nothing(out: StepV) -> bool {
    out matches Ok(r) ==> r.1 !is Put
}

proof fn inserting_keeps(x: ExecutionV, s: SchemaV, row: Seq<ValueV>, from: int)
    requires
        inserts(x.statement),
        x.table == Some(s),
    ensures
        keeps(x, inserting(x, s, row, from)),
        puts_nothing(inserting(x, s, row, from)),
{
    reveal(inserting);
}

proof fn next_values_keeps(x: ExecutionV, s: SchemaV)
    requires
        x.table == Some(s),
    ensures
        keeps(x, next_values(x, s)),
        puts_nothing(next_values(x, s)),
{
    reveal(next_values);
    if let SqlStatementV::Insert { columns, rows, .. } = x.statement {
        if x.next < rows.len() {
            if let Ok(row) = modify::aligned_row(s, columns, rows[x.next]) {
                inserting_keeps(ExecutionV { next: x.next + 1, ..x }, s, row, 0);
            }
        }
    }
}

proof fn collecting_keeps(
    x: ExecutionV,
    q: PlanV,
    db: Snapshot,
    ps: Map<Seq<char>, ValueV>,
    known: Seq<(QuestionV, AnswerV)>,
)
    ensures
        keeps(x, collecting(x, q, db, ps, known)),
        puts_nothing(collecting(x, q, db, ps, known)),
{
    reveal(collecting);
}

proof fn queried_keeps(
    x: ExecutionV,
    step: Result<QueryStepV, ErrorV>,
    db: Snapshot,
    ps: Map<Seq<char>, ValueV>,
    known: Seq<(QuestionV, AnswerV)>,
)
    requires
        x.statement is Query,
    ensures
        keeps(x, queried(x, step, db, ps, known)),
        puts_nothing(queried(x, step, db, ps, known)),
{
    if let Ok(QueryStepV::Subquery(q)) = step {
        collecting_keeps(x, q, db, ps, known);
    }
}

proof fn sourced_keeps<T>(
    x: ExecutionV,
    folded: Result<T, FoldStopV>,
    db: Snapshot,
    ps: Map<Seq<char>, ValueV>,
    known: Seq<(QuestionV, AnswerV)>,
)
    requires
        x.statement is InsertSelect,
    ensures
        keeps(x, sourced(x, folded, db, ps, known)),
        puts_nothing(sourced(x, folded, db, ps, known)),
{
    if let Err(FoldStopV::Run(q)) = folded {
        collecting_keeps(x, q, db, ps, known);
    }
}

proof fn selected_keeps(
    x: ExecutionV,
    named: nat,
    step: Result<QueryStepV, ErrorV>,
    db: Snapshot,
    ps: Map<Seq<char>, ValueV>,
    known: Seq<(QuestionV, AnswerV)>,
)
    ensures
        keeps(x, selected(x, named, step, db, ps, known)),
        puts_nothing(selected(x, named, step, db, ps, known)),
{
    if let Ok(QueryStepV::Subquery(q)) = step {
        collecting_keeps(x, q, db, ps, known);
    }
}

proof fn deleted_keeps(
    x: ExecutionV,
    step: Result<QueryStepV, ErrorV>,
    db: Snapshot,
    ps: Map<Seq<char>, ValueV>,
    known: Seq<(QuestionV, AnswerV)>,
)
    ensures
        keeps(x, deleted(x, step, db, ps, known)),
        puts_nothing(deleted(x, step, db, ps, known)),
{
    if let Ok(QueryStepV::Subquery(q)) = step {
        collecting_keeps(x, q, db, ps, known);
    }
}

proof fn changing_keeps(
    x: ExecutionV,
    step: Result<QueryStepV, ErrorV>,
    folded: Result<Seq<(Seq<char>, ExprV)>, FoldStopV>,
    db: Snapshot,
    ps: Map<Seq<char>, ValueV>,
    known: Seq<(QuestionV, AnswerV)>,
)
    ensures
        keeps(x, changing(x, step, folded, db, ps, known)),
        puts_nothing(changing(x, step, folded, db, ps, known)),
{
    if let Ok(QueryStepV::Subquery(q)) = step {
        collecting_keeps(x, q, db, ps, known);
    }
    if let Err(FoldStopV::Run(q)) = folded {
        collecting_keeps(x, q, db, ps, known);
    }
}

proof fn shown_keeps(x: ExecutionV, v: Result<ExplainV, ErrorV>)
    requires
        x.statement is Explain,
    ensures
        keeps(x, shown(x, v)),
        puts_nothing(shown(x, v)),
{
}

proof fn query_keeps(x: ExecutionV, db: Snapshot, ps: Map<Seq<char>, ValueV>, known: Seq<(QuestionV, AnswerV)>)
    requires
        x.statement is Query,
    ensures
        keeps(x, advanced(x, db, ps, known)),
        puts_nothing(advanced(x, db, ps, known)),
{
    reveal(advanced);
    reveal(querying);
    if let SqlStatementV::Query(p) = x.statement {
        queried_keeps(x, execute::query_step(p, x.results, ps), db, ps, known);
    }
}

proof fn explain_keeps(x: ExecutionV, db: Snapshot, ps: Map<Seq<char>, ValueV>, known: Seq<(QuestionV, AnswerV)>)
    requires
        x.statement is Explain,
    ensures
        keeps(x, advanced(x, db, ps, known)),
        puts_nothing(advanced(x, db, ps, known)),
{
    reveal(advanced);
    reveal(explaining);
    if let SqlStatementV::Explain(p) = x.statement {
        shown_keeps(x, execute::explained(p, db, ps, known));
    }
}

proof fn select_keeps(x: ExecutionV, db: Snapshot, ps: Map<Seq<char>, ValueV>, known: Seq<(QuestionV, AnswerV)>)
    requires
        x.statement is InsertSelect,
    ensures
        keeps(x, advanced(x, db, ps, known)),
        puts_nothing(advanced(x, db, ps, known)),
{
    reveal(advanced);
    reveal(selecting);
    if let SqlStatementV::InsertSelect { columns, query, .. } = x.statement {
        sourced_keeps(x, subquery::folded_plan(query, x.results, 0), db, ps, known);
        selected_keeps(x, columns.len(), execute::source_step(query, x.results, ps), db, ps, known);
    }
}

proof fn delete_keeps(x: ExecutionV, db: Snapshot, ps: Map<Seq<char>, ValueV>, known: Seq<(QuestionV, AnswerV)>)
    requires
        x.statement is Delete,
    ensures
        keeps(x, advanced(x, db, ps, known)),
        puts_nothing(advanced(x, db, ps, known)),
{
    reveal(advanced);
    reveal(deleting);
    if let (SqlStatementV::Delete { filter, .. }, Some(s)) = (x.statement, x.table) {
        deleted_keeps(
            x,
            execute::change_step(target(x.statement), s, filter, x.results, db, ps, known),
            db,
            ps,
            known,
        );
    }
}

proof fn update_keeps(x: ExecutionV, db: Snapshot, ps: Map<Seq<char>, ValueV>, known: Seq<(QuestionV, AnswerV)>)
    requires
        x.statement is Update,
    ensures
        keeps(x, advanced(x, db, ps, known)),
        puts_nothing(advanced(x, db, ps, known)),
{
    reveal(advanced);
    reveal(updating);
    if let (SqlStatementV::Update { assignments, filter, .. }, Some(s)) = (x.statement, x.table) {
        changing_keeps(
            x,
            execute::change_step(target(x.statement), s, filter, x.results, db, ps, known),
            execute::folded_assignments(
                assignments,
                0,
                Seq::empty(),
                x.results,
                results_used(filter, x.results),
                ps,
            ),
            db,
            ps,
            known,
        );
    }
}

proof fn advanced_keeps(x: ExecutionV, db: Snapshot, ps: Map<Seq<char>, ValueV>, known: Seq<(QuestionV, AnswerV)>)
    ensures
        keeps(x, advanced(x, db, ps, known)),
        puts_nothing(advanced(x, db, ps, known)),
{
    if x.statement is Delete {
        delete_keeps(x, db, ps, known);
    } else if x.statement is Update {
        update_keeps(x, db, ps, known);
    } else if x.statement is Query {
        query_keeps(x, db, ps, known);
    } else if x.statement is Explain {
        explain_keeps(x, db, ps, known);
    } else if x.statement is InsertSelect {
        select_keeps(x, db, ps, known);
    } else {
        reveal(advanced);
        if let Some(s) = x.table {
            next_values_keeps(x, s);
        }
    }
}

proof fn taken_up_keeps(x: ExecutionV, row: Seq<ValueV>, known: Seq<(QuestionV, AnswerV)>)
    requires
        x.stage is Reading,
    ensures
        keeps(x, taken_up(x, row, known)),
        inserts(x.statement) ==> puts_nothing(taken_up(x, row, known)),
{
    reveal(taken_up);
    match (x.statement, x.table) {
        (SqlStatementV::InsertSelect { columns, .. }, Some(s)) => {
            if let Ok(r) = modify::aligned_row(s, columns, row) {
                inserting_keeps(x, s, r, 0);
            }
        },
        _ => {},
    }
}

proof fn written_keeps(x: ExecutionV)
    requires
        x.stage is Writing,
        coherent(x),
    ensures
        keeps(ExecutionV { count: one_more(x.count), ..x }, written(x)),
        puts_nothing(written(x)),
{
    reveal(written);
    if let Some(s) = x.table {
        next_values_keeps(ExecutionV { count: one_more(x.count), ..x }, s);
    }
}

/// What a step does, where it is coherent before.
proof fn step_keeps(
    x: ExecutionV,
    e: EventV,
    db: Snapshot,
    ps: Map<Seq<char>, ValueV>,
    known: Seq<(QuestionV, AnswerV)>,
)
    requires
        coherent(x),
    ensures
        x.stage !is Writing ==> keeps(x, stepped(x, e, db, ps, known)),
        x.stage is Writing ==> keeps(ExecutionV { count: one_more(x.count), ..x }, stepped(x, e, db, ps, known)),
        inserts(x.statement) && !(x.stage is Checking && e == EventV::Taken(false)) ==> puts_nothing(
            stepped(x, e, db, ps, known),
        ),
{
    match (x.stage, e) {
        (StageV::Starting, EventV::Started) => advanced_keeps(x, db, ps, known),
        (StageV::Table, EventV::Table(s)) => advanced_keeps(ExecutionV { table: Some(s), ..x }, db, ps, known),
        (StageV::Subquery, EventV::Collected(r)) => advanced_keeps(
            ExecutionV { results: x.results.push(r), ..x },
            db,
            ps,
            known,
        ),
        (StageV::Lookup(g), EventV::Row(r)) => {
            reveal(looked_up);
        },
        (StageV::Reading, EventV::Row(None)) => {
            reveal(drained);
        },
        (StageV::Reading, EventV::Row(Some(r))) => taken_up_keeps(x, r, known),
        (StageV::Sequence { row, at }, EventV::Sequence(v)) => {
            reveal(numbered);
            if let Some(s) = x.table {
                inserting_keeps(x, s, row.update(at, ValueV::Int(v)), at + 1);
            }
        },
        (StageV::Passing { row, at }, EventV::Done) => {
            reveal(passed);
            if let Some(s) = x.table {
                inserting_keeps(x, s, row, at + 1);
            }
        },
        (StageV::Writing, EventV::Done) => written_keeps(x),
        _ => {},
    }
}

/// Steps keep an execution coherent, and the statement it carries out. Each action fits: rows
/// are written only by INSERT, DELETE and UPDATE, only to their table, and a row that is put is
/// put under its primary key.
pub proof fn steps_stay_coherent(
    x: ExecutionV,
    e: EventV,
    db: Snapshot,
    ps: Map<Seq<char>, ValueV>,
    known: Seq<(QuestionV, AnswerV)>,
)
    requires
        coherent(x),
    ensures
        stepped(x, e, db, ps, known) matches Ok(r) ==> r.0.statement == x.statement && coherent(r.0) && fitting(
            r.0,
            r.1,
        ),
{
    step_keeps(x, e, db, ps, known);
}

/// An INSERT puts a row only after it was told that the key of the row is free.
pub proof fn only_free_keys_are_inserted(
    x: ExecutionV,
    e: EventV,
    db: Snapshot,
    ps: Map<Seq<char>, ValueV>,
    known: Seq<(QuestionV, AnswerV)>,
)
    requires
        coherent(x),
        inserts(x.statement),
        stepped(x, e, db, ps, known) matches Ok(r) && r.1 is Put,
    ensures
        e == EventV::Taken(false),
        x.stage matches StageV::Checking { row, key } && stepped(x, e, db, ps, known)->Ok_0.1 == (ActionV::Put {
            table_name: target(x.statement),
            key,
            row,
        }),
{
    step_keeps(x, e, db, ps, known);
}

/// A row whose key is taken is not inserted: the step is an error.
pub proof fn taken_keys_are_refused(
    x: ExecutionV,
    db: Snapshot,
    ps: Map<Seq<char>, ValueV>,
    known: Seq<(QuestionV, AnswerV)>,
)
    requires
        x.stage is Checking,
    ensures
        stepped(x, EventV::Taken(true), db, ps, known) == Err::<(ExecutionV, ActionV), ErrorV>(
            facts::plain_error(ErrorKind::DuplicateKey),
        ),
{
}

/// Each row that was written counts once, and nothing else does; the result of an INSERT, a
/// DELETE or an UPDATE tells the count.
pub proof fn written_rows_are_counted(
    x: ExecutionV,
    e: EventV,
    db: Snapshot,
    ps: Map<Seq<char>, ValueV>,
    known: Seq<(QuestionV, AnswerV)>,
)
    requires
        coherent(x),
    ensures
        stepped(x, e, db, ps, known) matches Ok(r) ==> r.0.count == (if x.stage is Writing {
            one_more(x.count)
        } else {
            x.count
        }),
        stepped(x, e, db, ps, known) matches Ok(r) ==> match r.1 {
            ActionV::Finish(ResultV::Insert { count }) => count == r.0.count,
            ActionV::Finish(ResultV::Delete { count }) => count == r.0.count,
            ActionV::Finish(ResultV::Update { count }) => count == r.0.count,
            _ => true,
        },
{
    step_keeps(x, e, db, ps, known);
}

/// A row whose key an UPDATE changes is deleted under its old key, and then put under its new
/// one; the deletion alone does not count.
pub proof fn moved_rows_are_put_again(
    x: ExecutionV,
    row: Seq<ValueV>,
    u: modify::UpdateV,
    s: SchemaV,
    db: Snapshot,
    ps: Map<Seq<char>, ValueV>,
    known: Seq<(QuestionV, AnswerV)>,
)
    requires
        x.statement is Update,
        x.stage is Reading,
        x.table == Some(s),
        row.len() >= s.columns.len(),
        modify::updated(s, row, x.assignments, known) == Ok::<modify::UpdateV, ErrorV>(u),
        value::key_order(u.old_key, u.new_key) != Order::Equal,
    ensures
        ({
            let y = waiting(x, StageV::Moving { row: u.row, key: u.new_key });
            &&& stepped(x, EventV::Row(Some(row)), db, ps, known) == Ok::<(ExecutionV, ActionV), ErrorV>(
                (y, ActionV::Delete { table_name: target(x.statement), key: u.old_key }),
            )
            &&& stepped(y, EventV::Done, db, ps, known) == Ok::<(ExecutionV, ActionV), ErrorV>(
                (
                    waiting(x, StageV::Writing),
                    ActionV::Put { table_name: target(x.statement), key: u.new_key, row: u.row },
                ),
            )
        }),
{
    reveal(taken_up);
}

/// The rows of a query come back in the order in which they were read, all of them.
pub proof fn rows_come_back_in_order(
    x: ExecutionV,
    row: Seq<ValueV>,
    db: Snapshot,
    ps: Map<Seq<char>, ValueV>,
    known: Seq<(QuestionV, AnswerV)>,
)
    requires
        x.statement is Query,
        x.stage is Reading,
        x.columns is Some,
    ensures
        stepped(x, EventV::Row(Some(row)), db, ps, known) == Ok::<(ExecutionV, ActionV), ErrorV>(
            (ExecutionV { rows: x.rows.push(row), ..x }, ActionV::NextRow),
        ),
        stepped(x, EventV::Row(None), db, ps, known) matches Ok(r) && r.1 == ActionV::Finish(
            ResultV::Select { schema: x.columns->0, rows: x.rows },
        ),
{
    reveal(taken_up);
    reveal(drained);
}

/// An execution that is finished takes no more steps.
pub proof fn finished_executions_stay_finished(
    x: ExecutionV,
    e: EventV,
    db: Snapshot,
    ps: Map<Seq<char>, ValueV>,
    known: Seq<(QuestionV, AnswerV)>,
)
    requires
        x.stage is Finished,
    ensures
        stepped(x, e, db, ps, known) == unexpected(),
{
}

} // verus!
