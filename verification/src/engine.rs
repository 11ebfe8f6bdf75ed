//! The engine: statements from text to what is to be done, with the caches on the way.

use crate::cache;
use crate::cache::LruCache;
use crate::facts;
use crate::facts::{AnswerV, ErrorKind, ErrorV, Facts, QuestionV, SqlError};
use crate::logical;
use crate::optimizer;
use crate::optimizer::Optimizer;
use crate::parameters;
use crate::params::Params;
use crate::parse;
use crate::physical::PhysicalPlan;
use crate::planner;
use crate::planner::LogicalPlanner;
use crate::preprocess;
use crate::schema::{Row, Schema, SchemaV};
use crate::statement;
use crate::statement::{SqlStatement, SqlStatementV};
use crate::syntax::{Statement, StatementV};
use crate::value::ValueV;
use vstd::prelude::*;
use vstd::string::*;

verus! {

/// How many parsed statements the engine keeps.
pub const PARSE_CACHE_CAPACITY: usize = 1024;

/// How many plans the engine keeps.
pub const PLAN_CACHE_CAPACITY: usize = 1024;

/// What the engine goes by: the tables, their statistics, and the version of the schema.
#[derive(Debug)]
pub struct Snapshot {
    pub planner: LogicalPlanner,
    pub optimizer: Optimizer,
    pub version: u64,
}

/// What is kept of a prepared statement: its plan, or the statement itself where it cannot be
/// planned before its parameters are bound.
#[derive(Debug)]
pub enum PreparedPlan {
    Planned(SqlStatement),
    Ast(Statement),
}

/// The model of what is kept of a prepared statement.
pub enum PreparedPlanV {
    Planned(SqlStatementV),
    Ast(StatementV),
}

impl PreparedPlan {
    /// The model.
    pub open spec fn view(&self) -> PreparedPlanV {
        match self {
            PreparedPlan::Planned(s) => PreparedPlanV::Planned(s@),
            PreparedPlan::Ast(s) => PreparedPlanV::Ast(s@),
        }
    }

    /// A copy.
    pub fn copy(&self) -> (out: PreparedPlan)
        ensures
            out@ == self@,
    {
        match self {
            PreparedPlan::Planned(s) => PreparedPlan::Planned(s.copy()),
            PreparedPlan::Ast(s) => PreparedPlan::Ast(s.copy()),
        }
    }
}

/// A statement that can be executed many times. Its plan belongs to a version of the schema.
#[derive(Debug)]
pub struct PreparedStatement {
    plan: PreparedPlan,
    sql: String,
    catalog_version: u64,
}

/// The model of a prepared statement.
pub struct PreparedV {
    pub plan: PreparedPlanV,
    pub sql: Seq<char>,
    pub catalog_version: u64,
}

impl PreparedStatement {
    #[verifier::type_invariant]
    spec fn plan_is_well_formed(self) -> bool {
        self.plan@ matches PreparedPlanV::Planned(p) ==> plans_well_formed(p)
    }

    /// The model.
    pub closed spec fn view(&self) -> PreparedV {
        PreparedV { plan: self.plan@, sql: self.sql@, catalog_version: self.catalog_version }
    }

    /// The text it was prepared from.
    pub fn sql(&self) -> (out: &str)
        ensures
            out@ == self@.sql,
    {
        self.sql.as_str()
    }

    /// The version of the schema it was planned against.
    pub fn catalog_version(&self) -> (out: u64)
        ensures
            out == self@.catalog_version,
    {
        self.catalog_version
    }

    /// Whether it was planned.
    pub fn is_planned(&self) -> (out: bool)
        ensures
            out == (self@.plan is Planned),
    {
        match self.plan {
            PreparedPlan::Planned(_) => true,
            PreparedPlan::Ast(_) => false,
        }
    }
}

/// What a statement did.
#[derive(Debug)]
pub enum ExecutionResult {
    CreateTable,
    DropTable,
    CreateIndex,
    DropIndex,
    AlterTable,
    Insert { count: usize },
    Delete { count: usize },
    Update { count: usize },
    Select { schema: Schema, rows: Vec<Row> },
    Analyze,
}

/// What a statement did, or a plan whose rows are still to be read.
#[derive(Debug)]
pub enum ExecutionStreamingResult {
    Complete(ExecutionResult),
    Streaming { schema: Schema, operator: PhysicalPlan },
}

// ---------------------------------------------------------------- planning

/// A planned statement with its query optimized, where it has one.
pub open spec fn optimized_statement(s: SqlStatementV, o: Optimizer, known: Seq<(QuestionV, AnswerV)>) -> Result<
    SqlStatementV,
    ErrorV,
> {
    match s {
        SqlStatementV::Query(p) => match optimizer::optimized(p, o, known) {
            Ok(q) => Ok(SqlStatementV::Query(q)),
            Err(e) => Err(e),
        },
        SqlStatementV::InsertSelect { table_name, columns, query } => match optimizer::optimized(query, o, known) {
            Ok(q) => Ok(SqlStatementV::InsertSelect { table_name, columns, query: q }),
            Err(e) => Err(e),
        },
        _ => Ok(s),
    }
}

/// A statement, planned and optimized.
pub open spec fn ready_statement(s: StatementV, db: Snapshot, known: Seq<(QuestionV, AnswerV)>) -> Result<
    SqlStatementV,
    ErrorV,
> {
    match statement::planned_statement(db.planner.catalog@, s, known) {
        Ok(p) => optimized_statement(p, db.optimizer, known),
        Err(e) => Err(e),
    }
}

/// Whether the plans in a planned statement have a name for each of their columns.
pub open spec fn plans_well_formed(s: SqlStatementV) -> bool {
    match s {
        SqlStatementV::Query(p) => logical::well_formed(p),
        SqlStatementV::Explain(p) => logical::well_formed(p),
        SqlStatementV::InsertSelect { query, .. } => logical::well_formed(query),
        _ => true,
    }
}

/// The plans in a planned statement have a name for each of their columns.
pub proof fn planned_statement_is_well_formed(
    tables: Seq<(Seq<char>, SchemaV)>,
    s: StatementV,
    known: Seq<(QuestionV, AnswerV)>,
)
    ensures
        statement::planned_statement(tables, s, known) matches Ok(p) ==> plans_well_formed(p),
{
    match s.body {
        crate::syntax::StatementBodyV::Query(q) => {
            planner::planned_query_is_well_formed(tables, s.exprs, s.sets, q, s.sets.len() as int, known);
        },
        crate::syntax::StatementBodyV::Insert { source: Some(q), .. } => {
            planner::planned_query_is_well_formed(tables, s.exprs, s.sets, q, s.sets.len() as int, known);
        },
        _ => {},
    }
}

/// Optimizes the query of a planned statement, where it has one.
pub fn optimize_statement(s: SqlStatement, o: &Optimizer, facts: &Facts) -> (out: Result<SqlStatement, SqlError>)
    requires
        plans_well_formed(s@),
    ensures
        statement::statement_result(out) == optimized_statement(s@, *o, facts@),
        out matches Ok(p) ==> plans_well_formed(p@),
{
    match s {
        SqlStatement::Query(p) => Ok(SqlStatement::Query(o.optimize(&p, facts)?)),
        SqlStatement::InsertSelect { table_name, columns, query } => {
            let q = o.optimize(&query, facts)?;
            Ok(SqlStatement::InsertSelect { table_name, columns, query: q })
        },
        other => Ok(other),
    }
}

/// Plans and optimizes a statement.
pub fn plan_statement(s: &Statement, db: &Snapshot, facts: &Facts) -> (out: Result<SqlStatement, SqlError>)
    ensures
        statement::statement_result(out) == ready_statement(s@, *db, facts@),
        out matches Ok(p) ==> plans_well_formed(p@),
{
    let planned = db.planner.plan(s, facts)?;
    proof {
        planned_statement_is_well_formed(db.planner.catalog@, s@, facts@);
    }
    optimize_statement(planned, &db.optimizer, facts)
}

/// What is kept of a prepared statement. One that cannot be planned is kept as it is, unless
/// a question is open.
pub open spec fn prepared_plan(s: StatementV, db: Snapshot, known: Seq<(QuestionV, AnswerV)>) -> Result<
    PreparedPlanV,
    ErrorV,
> {
    match statement::planned_statement(db.planner.catalog@, s, known) {
        Err(e) => if e.kind == ErrorKind::Pending {
            Err(e)
        } else {
            Ok(PreparedPlanV::Ast(s))
        },
        Ok(p) => match optimized_statement(p, db.optimizer, known) {
            Ok(q) => Ok(PreparedPlanV::Planned(q)),
            Err(e) => Err(e),
        },
    }
}

/// The model of an outcome that is kept of a prepared statement.
pub open spec fn plan_outcome(r: Result<PreparedPlan, SqlError>) -> Result<PreparedPlanV, ErrorV> {
    match r {
        Ok(p) => Ok(p@),
        Err(e) => Err(e@),
    }
}

/// Plans a statement with its parameters left open, where that can be done.
pub fn plan_prepared(s: Statement, db: &Snapshot, facts: &Facts) -> (out: Result<PreparedPlan, SqlError>)
    ensures
        plan_outcome(out) == prepared_plan(s@, *db, facts@),
        out matches Ok(PreparedPlan::Planned(p)) ==> plans_well_formed(p@),
{
    match db.planner.plan(&s, facts) {
        Err(e) => match e.kind {
            ErrorKind::Pending => Err(e),
            _ => Ok(PreparedPlan::Ast(s)),
        },
        Ok(p) => {
            proof {
                planned_statement_is_well_formed(db.planner.catalog@, s@, facts@);
            }
            Ok(PreparedPlan::Planned(optimize_statement(p, &db.optimizer, facts)?))
        },
    }
}

/// A statement with its parameters bound, planned and optimized.
pub open spec fn executed_statement(
    s: StatementV,
    ps: Map<Seq<char>, ValueV>,
    db: Snapshot,
    known: Seq<(QuestionV, AnswerV)>,
) -> Result<SqlStatementV, ErrorV> {
    match parameters::bound_statement(s, ps, known) {
        Ok(b) => ready_statement(b, db, known),
        Err(e) => Err(e),
    }
}

/// Binds the parameters of a statement, then plans and optimizes it.
pub fn execute_statement(s: Statement, ps: &Params, db: &Snapshot, facts: &Facts) -> (out: Result<
    SqlStatement,
    SqlError,
>)
    ensures
        statement::statement_result(out) == executed_statement(s@, ps@, *db, facts@),
        out matches Ok(p) ==> plans_well_formed(p@),
{
    let mut bound = s;
    parameters::bind_statement(&mut bound, ps, facts)?;
    plan_statement(&bound, db, facts)
}

// ---------------------------------------------------------------- the caches

/// The engine: the statements it parsed and the plans it made.
#[derive(Debug)]
pub struct SqlEngine {
    parse_cache: LruCache<Statement>,
    plan_cache: LruCache<(PreparedPlan, u64)>,
}

/// Whether every statement in the cache is the one its text parses to.
pub open spec fn parses_hold(s: Seq<(Seq<char>, Statement)>) -> bool {
    forall|i: int|
        0 <= i < s.len() ==> parse::the_statement(parse::statements_of((#[trigger] s[i]).0)) == Ok::<StatementV, ErrorV>(
            s[i].1@,
        )
}

/// Whether every plan in the cache has a name for each of its columns.
pub open spec fn plans_hold(s: Seq<(Seq<char>, (PreparedPlan, u64))>) -> bool {
    forall|i: int|
        0 <= i < s.len() ==> ((#[trigger] s[i]).1.0@ matches PreparedPlanV::Planned(p) ==> plans_well_formed(p))
}

/// The entries of the parse cache after a text was looked up and, where it was not there,
/// parsed: what was parsed is the most recent entry, and a text that does not parse to one
/// statement leaves nothing behind.
pub open spec fn parses_after(
    before: Seq<(Seq<char>, Statement)>,
    after: Seq<(Seq<char>, Statement)>,
    key: Seq<char>,
) -> bool {
    match cache::cached(before, key) {
        Some(_) => after == cache::touched(before, key),
        None => match parse::the_statement(parse::statements_of(key)) {
            Ok(s) => after.len() > 0 && after.last().1@ == s && after == cache::stored(
                before,
                key,
                after.last().1,
                PARSE_CACHE_CAPACITY as int,
            ),
            Err(_) => after == before,
        },
    }
}

/// The plan that the cache has for a text, where it belongs to a version of the schema.
pub open spec fn fresh_plan(s: Seq<(Seq<char>, (PreparedPlan, u64))>, key: Seq<char>, version: u64) -> Option<
    PreparedPlanV,
> {
    match cache::cached(s, key) {
        Some(e) => if e.1 == version {
            Some(e.0@)
        } else {
            None
        },
        None => None,
    }
}

/// The entries of the plan cache after a plan was looked up and, where it was not there, made:
/// what was made is the most recent entry.
pub open spec fn plans_after(
    before: Seq<(Seq<char>, (PreparedPlan, u64))>,
    after: Seq<(Seq<char>, (PreparedPlan, u64))>,
    key: Seq<char>,
    version: u64,
    made: Option<PreparedPlanV>,
    limit: int,
) -> bool {
    let asked = cache::touched(before, key);
    match made {
        None => after == asked,
        Some(p) => {
            &&& after.len() > 0
            &&& after == cache::stored(asked, key, after.last().1, limit)
            &&& after.last().1.0@ == p
            &&& after.last().1.1 == version
        },
    }
}

/// An error of parsing a text, as preparing it reports it.
pub open spec fn prepare_error(e: ErrorV) -> ErrorV {
    if e.kind == ErrorKind::ManyStatements {
        facts::plain_error(ErrorKind::ManyPrepared)
    } else {
        e
    }
}

/// An error of parsing a text, as preparing it reports it.
fn to_prepare_error(e: SqlError) -> (out: SqlError)
    ensures
        out@ == prepare_error(e@),
{
    match e.kind {
        ErrorKind::ManyStatements => SqlError::plain(ErrorKind::ManyPrepared),
        _ => e,
    }
}

impl SqlEngine {
    /// The statements in the parse cache, the least recently used first.
    pub closed spec fn parses(&self) -> Seq<(Seq<char>, Statement)> {
        self.parse_cache@
    }

    /// The plans in the plan cache, the least recently used first.
    pub closed spec fn plans(&self) -> Seq<(Seq<char>, (PreparedPlan, u64))> {
        self.plan_cache@
    }

    /// Whether the caches are within their capacities and hold what belongs to their texts.
    pub closed spec fn well_formed(&self) -> bool {
        &&& self.parse_cache.well_formed()
        &&& self.parse_cache.limit() == PARSE_CACHE_CAPACITY
        &&& self.plan_cache.well_formed()
        &&& self.plan_cache.limit() == PLAN_CACHE_CAPACITY
        &&& parses_hold(self.parse_cache@)
        &&& plans_hold(self.plan_cache@)
    }

    /// The caches of an engine never hold more than they may, no text twice, and no statement
    /// under a text that it does not come from.
    pub proof fn caches_are_bounded(&self)
        requires
            self.well_formed(),
        ensures
            self.parses().len() <= PARSE_CACHE_CAPACITY,
            self.plans().len() <= PLAN_CACHE_CAPACITY,
            cache::distinct(self.parses()),
            cache::distinct(self.plans()),
            parses_hold(self.parses()),
            plans_hold(self.plans()),
    {
    }

    /// An engine with empty caches.
    pub fn new() -> (out: SqlEngine)
        ensures
            out.well_formed(),
            out.parses().len() == 0,
            out.plans().len() == 0,
    {
        SqlEngine {
            parse_cache: LruCache::new(PARSE_CACHE_CAPACITY),
            plan_cache: LruCache::new(PLAN_CACHE_CAPACITY),
        }
    }

    /// How many plans the cache holds.
    pub fn plan_cache_len(&self) -> (out: usize)
        ensures
            out == self.plans().len(),
    {
        self.plan_cache.len()
    }

    /// Whether the cache holds no plan.
    pub fn plan_cache_is_empty(&self) -> (out: bool)
        ensures
            out == (self.plans().len() == 0),
    {
        self.plan_cache.is_empty()
    }

    /// The one statement of a text, from the cache where it is there.
    pub fn cached_parse(&mut self, preprocessed: &str) -> (out: Result<Statement, SqlError>)
        requires
            old(self).well_formed(),
        ensures
            final(self).well_formed(),
            parse::parse_result(out) == parse::the_statement(parse::statements_of(preprocessed@)),
            final(self).plans() == old(self).plans(),
            parses_after(old(self).parses(), final(self).parses(), preprocessed@),
    {
        let ghost before = self.parse_cache@;
        let ghost key = preprocessed@;
        proof {
            cache::position_is_first(before, key, 0);
        }
        if self.parse_cache.touch(preprocessed) {
            proof {
                entries_come_from(before, self.parse_cache@, key);
            }
            return Ok(self.parse_cache.latest().copy());
        }
        let s = parse::parse_statement(preprocessed)?;
        let kept = s.copy();
        self.parse_cache.insert(preprocessed.to_owned(), kept);
        proof {
            stored_come_from(before, key, kept, PARSE_CACHE_CAPACITY as int);
        }
        Ok(s)
    }

    /// Prepares a statement: parses it and, where that can be done, plans it. A plan for the
    /// same text and version of the schema is taken from the cache.
    pub fn prepare(&mut self, sql: &str, db: &Snapshot, facts: &Facts) -> (out: Result<PreparedStatement, SqlError>)
        requires
            old(self).well_formed(),
        ensures
            final(self).well_formed(),
            final(self).parses() == old(self).parses(),
            out matches Ok(p) ==> p@.sql == sql@ && p@.catalog_version == db.version,
            match fresh_plan(old(self).plans(), preprocess::preprocessed(sql@), db.version) {
                Some(plan) => {
                    &&& out matches Ok(p)
                    &&& p@.plan == plan
                    &&& plans_after(
                        old(self).plans(),
                        final(self).plans(),
                        preprocess::preprocessed(sql@),
                        db.version,
                        None,
                        PLAN_CACHE_CAPACITY as int,
                    )
                },
                None => match parse::the_statement(parse::statements_of(preprocess::preprocessed(sql@))) {
                    Err(e) => {
                        &&& out matches Err(x)
                        &&& x@ == prepare_error(e)
                        &&& plans_after(
                            old(self).plans(),
                            final(self).plans(),
                            preprocess::preprocessed(sql@),
                            db.version,
                            None,
                            PLAN_CACHE_CAPACITY as int,
                        )
                    },
                    Ok(s) => match prepared_plan(s, *db, facts@) {
                        Err(e) => {
                            &&& out matches Err(x)
                            &&& x@ == e
                            &&& plans_after(
                                old(self).plans(),
                                final(self).plans(),
                                preprocess::preprocessed(sql@),
                                db.version,
                                None,
                                PLAN_CACHE_CAPACITY as int,
                            )
                        },
                        Ok(plan) => {
                            &&& out matches Ok(p)
                            &&& p@.plan == plan
                            &&& plans_after(
                                old(self).plans(),
                                final(self).plans(),
                                preprocess::preprocessed(sql@),
                                db.version,
                                Some(plan),
                                PLAN_CACHE_CAPACITY as int,
                            )
                        },
                    },
                },
            },
    {
        let preprocessed = preprocess::preprocess_sql(sql);
        if let Some(plan) = self.look_up(preprocessed.as_str(), db.version) {
            return Ok(PreparedStatement { plan, sql: sql.to_owned(), catalog_version: db.version });
        }
        let s = match parse::parse_statement(preprocessed.as_str()) {
            Ok(s) => s,
            Err(e) => {
                return Err(to_prepare_error(e));
            },
        };
        let plan = plan_prepared(s, db, facts)?;
        self.keep(preprocessed, &plan, db.version);
        Ok(PreparedStatement { plan, sql: sql.to_owned(), catalog_version: db.version })
    }
}

/// What the entries hold is not changed by asking for one.
proof fn entries_come_from(before: Seq<(Seq<char>, Statement)>, after: Seq<(Seq<char>, Statement)>, key: Seq<char>)
    requires
        parses_hold(before),
        after == cache::touched(before, key),
        cache::position_from(before, key, 0) is Some,
    ensures
        parses_hold(after),
        after.len() > 0,
        parse::the_statement(parse::statements_of(key)) == Ok::<StatementV, ErrorV>(after.last().1@),
{
    cache::position_is_first(before, key, 0);
    let p = cache::position_from(before, key, 0)->0;
    assert(before[p].0 == key);
    assert forall|i: int| 0 <= i < after.len() implies parse::the_statement(
        parse::statements_of((#[trigger] after[i]).0),
    ) == Ok::<StatementV, ErrorV>(after[i].1@) by {
        if i < p {
            assert(after[i] == before[i]);
        } else if i < before.len() - 1 {
            assert(after[i] == before[i + 1]);
        } else {
            assert(after[i] == before[p]);
        }
    }
    assert(after.last() == before[p]);
}

/// What the entries hold is not changed by storing what belongs to its text.
proof fn stored_come_from(before: Seq<(Seq<char>, Statement)>, key: Seq<char>, s: Statement, limit: int)
    requires
        parses_hold(before),
        cache::position_from(before, key, 0) is None,
        parse::the_statement(parse::statements_of(key)) == Ok::<StatementV, ErrorV>(s@),
        0 < limit,
    ensures
        parses_hold(cache::stored(before, key, s, limit)),
        cache::stored(before, key, s, limit).len() > 0,
        cache::stored(before, key, s, limit).last().1 == s,
{
    let t = before.push((key, s));
    let after = cache::stored(before, key, s, limit);
    assert forall|i: int| 0 <= i < after.len() implies parse::the_statement(
        parse::statements_of((#[trigger] after[i]).0),
    ) == Ok::<StatementV, ErrorV>(after[i].1@) by {
        let j = if t.len() > limit { i + 1 } else { i };
        assert(after[i] == t[j]);
        if j < before.len() {
            assert(t[j] == before[j]);
        }
    }
}

/// Storing a plan keeps the others, and what is known of them.
proof fn plans_come_from(before: Seq<(Seq<char>, (PreparedPlan, u64))>, key: Seq<char>, v: (PreparedPlan, u64), limit: int)
    requires
        plans_hold(before),
        v.0@ matches PreparedPlanV::Planned(p) ==> plans_well_formed(p),
        0 < limit,
    ensures
        plans_hold(cache::stored(before, key, v, limit)),
        cache::stored(before, key, v, limit).len() > 0,
        cache::stored(before, key, v, limit).last().1 == v,
{
    cache::position_is_first(before, key, 0);
    let w = cache::without(before, key);
    let t = w.push((key, v));
    let after = cache::stored(before, key, v, limit);
    assert forall|i: int| 0 <= i < after.len() implies ((#[trigger] after[i]).1.0@ matches PreparedPlanV::Planned(p)
        ==> plans_well_formed(p)) by {
        let j = if t.len() > limit { i + 1 } else { i };
        assert(after[i] == t[j]);
        if j < w.len() {
            match cache::position_from(before, key, 0) {
                Some(p) => {
                    let j2 = if j >= p { j + 1 } else { j };
                    assert(t[j] == before[j2]);
                },
                None => {
                    assert(t[j] == before[j]);
                },
            }
        }
    }
}

/// Asking for a plan keeps all plans, and what is known of them.
proof fn touched_plans_hold(before: Seq<(Seq<char>, (PreparedPlan, u64))>, key: Seq<char>)
    requires
        plans_hold(before),
    ensures
        plans_hold(cache::touched(before, key)),
{
    cache::position_is_first(before, key, 0);
    if let Some(p) = cache::position_from(before, key, 0) {
        let after = cache::touched(before, key);
        assert forall|i: int| 0 <= i < after.len() implies ((#[trigger] after[i]).1.0@ matches PreparedPlanV::Planned(q)
            ==> plans_well_formed(q)) by {
            if i < p {
                assert(after[i] == before[i]);
            } else if i < before.len() - 1 {
                assert(after[i] == before[i + 1]);
            } else {
                assert(after[i] == before[p]);
            }
        }
    }
}

impl SqlEngine {
    /// Asks the cache for the plan of a text. One for another version of the schema is left
    /// where it is.
    fn look_up(&mut self, key: &str, version: u64) -> (out: Option<PreparedPlan>)
        requires
            old(self).well_formed(),
        ensures
            final(self).well_formed(),
            final(self).parses() == old(self).parses(),
            final(self).plans() == cache::touched(old(self).plans(), key@),
            match out {
                Some(p) => fresh_plan(old(self).plans(), key@, version) == Some(p@),
                None => fresh_plan(old(self).plans(), key@, version) is None,
            },
            out matches Some(PreparedPlan::Planned(p)) ==> plans_well_formed(p@),
    {
        proof {
            touched_plans_hold(self.plan_cache@, key@);
        }
        if self.plan_cache.touch(key) {
            let e = self.plan_cache.latest();
            if e.1 == version {
                assert(self.plan_cache@[self.plan_cache@.len() - 1].1 == *e);
                return Some(e.0.copy());
            }
        }
        None
    }

    /// Keeps a plan for a text and a version of the schema.
    fn keep(&mut self, key: String, plan: &PreparedPlan, version: u64)
        requires
            old(self).well_formed(),
            plan@ matches PreparedPlanV::Planned(p) ==> plans_well_formed(p),
        ensures
            final(self).well_formed(),
            final(self).parses() == old(self).parses(),
            final(self).plans().len() > 0,
            final(self).plans() == cache::stored(
                old(self).plans(),
                key@,
                final(self).plans().last().1,
                PLAN_CACHE_CAPACITY as int,
            ),
            final(self).plans().last().1.0@ == plan@,
            final(self).plans().last().1.1 == version,
    {
        let entry = (plan.copy(), version);
        proof {
            plans_come_from(self.plan_cache@, key@, entry, PLAN_CACHE_CAPACITY as int);
        }
        self.plan_cache.insert(key, entry);
    }

    /// A plan to be used in place of that of a prepared statement, where it was planned against
    /// another version of the schema. It comes from the cache where it is there.
    pub fn refreshed_plan(&mut self, prepared: &PreparedStatement, db: &Snapshot, facts: &Facts) -> (out: Result<
        Option<PreparedPlan>,
        SqlError,
    >)
        requires
            old(self).well_formed(),
        ensures
            final(self).well_formed(),
            final(self).parses() == old(self).parses(),
            out matches Ok(Some(PreparedPlan::Planned(p))) ==> plans_well_formed(p@),
            plans_refreshed(old(self).plans(), final(self).plans(), prepared@, *db, facts@),
            match out {
                Ok(None) => !is_stale(prepared@, *db),
                Ok(Some(p)) => is_stale(prepared@, *db) && plan_used(prepared@, old(self).plans(), *db, facts@) == Ok::<
                    PreparedPlanV,
                    ErrorV,
                >(p@),
                Err(e) => is_stale(prepared@, *db) && plan_used(prepared@, old(self).plans(), *db, facts@) == Err::<
                    PreparedPlanV,
                    ErrorV,
                >(e@),
            },
    {
        if !prepared.is_planned() || prepared.catalog_version == db.version {
            return Ok(None);
        }
        let preprocessed = preprocess::preprocess_sql(prepared.sql.as_str());
        if let Some(plan) = self.look_up(preprocessed.as_str(), db.version) {
            return Ok(Some(plan));
        }
        let s = parse::first_statement(parse::parse_sql(preprocessed.as_str())?)?;
        let plan = plan_prepared(s, db, facts)?;
        self.keep(preprocessed, &plan, db.version);
        Ok(Some(plan))
    }

    /// Whether a text is one statement that changes the schema.
    pub fn is_ddl(&mut self, sql: &str) -> (out: bool)
        requires
            old(self).well_formed(),
        ensures
            final(self).well_formed(),
            final(self).plans() == old(self).plans(),
            parses_after(old(self).parses(), final(self).parses(), preprocess::preprocessed(sql@)),
            out == (parse::the_statement(parse::statements_of(preprocess::preprocessed(sql@))) matches Ok(s)
                && statement::changes_schema(s)),
    {
        let preprocessed = preprocess::preprocess_sql(sql);
        match self.cached_parse(preprocessed.as_str()) {
            Ok(s) => statement::is_ddl_statement(&s),
            Err(_) => false,
        }
    }

    /// The statement of a text, ready to be carried out with these parameters.
    pub fn execute_with_params(&mut self, sql: &str, ps: &Params, db: &Snapshot, facts: &Facts) -> (out: Result<
        SqlStatement,
        SqlError,
    >)
        requires
            old(self).well_formed(),
        ensures
            final(self).well_formed(),
            final(self).plans() == old(self).plans(),
            parses_after(old(self).parses(), final(self).parses(), preprocess::preprocessed(sql@)),
            statement::statement_result(out) == executed(sql@, ps@, *db, facts@),
            out matches Ok(p) ==> plans_well_formed(p@),
    {
        let preprocessed = preprocess::preprocess_sql(sql);
        let s = self.cached_parse(preprocessed.as_str())?;
        execute_statement(s, ps, db, facts)
    }

    /// The statement of a text without parameters, ready to be carried out.
    pub fn execute(&mut self, sql: &str, db: &Snapshot, facts: &Facts) -> (out: Result<SqlStatement, SqlError>)
        requires
            old(self).well_formed(),
        ensures
            final(self).well_formed(),
            final(self).plans() == old(self).plans(),
            parses_after(old(self).parses(), final(self).parses(), preprocess::preprocessed(sql@)),
            statement::statement_result(out) == executed(sql@, Map::empty(), *db, facts@),
            out matches Ok(p) ==> plans_well_formed(p@),
    {
        let none = Params::new();
        self.execute_with_params(sql, &none, db, facts)
    }

    /// The statement of a text, ready to be carried out with these parameters; the rows of a
    /// query are then handed out as they are read.
    pub fn execute_streaming(&mut self, sql: &str, ps: &Params, db: &Snapshot, facts: &Facts) -> (out: Result<
        SqlStatement,
        SqlError,
    >)
        requires
            old(self).well_formed(),
        ensures
            final(self).well_formed(),
            final(self).plans() == old(self).plans(),
            parses_after(old(self).parses(), final(self).parses(), preprocess::preprocessed(sql@)),
            statement::statement_result(out) == executed(sql@, ps@, *db, facts@),
            out matches Ok(p) ==> plans_well_formed(p@),
    {
        self.execute_with_params(sql, ps, db, facts)
    }
}

/// The plan that a prepared statement has against a version of the schema other than its own.
pub open spec fn refreshed(prepared: PreparedV, db: Snapshot, known: Seq<(QuestionV, AnswerV)>) -> Result<
    PreparedPlanV,
    ErrorV,
> {
    match parse::first_of(parse::statements_of(preprocess::preprocessed(prepared.sql))) {
        Err(e) => Err(e),
        Ok(s) => prepared_plan(s, db, known),
    }
}

/// The statement of a text with its parameters bound, planned and optimized.
pub open spec fn executed(
    sql: Seq<char>,
    ps: Map<Seq<char>, ValueV>,
    db: Snapshot,
    known: Seq<(QuestionV, AnswerV)>,
) -> Result<SqlStatementV, ErrorV> {
    match parse::the_statement(parse::statements_of(preprocess::preprocessed(sql))) {
        Err(e) => Err(e),
        Ok(s) => executed_statement(s, ps, db, known),
    }
}

/// Whether a prepared statement was planned against another version of the schema.
pub open spec fn is_stale(prepared: PreparedV, db: Snapshot) -> bool {
    prepared.plan is Planned && prepared.catalog_version != db.version
}

/// The entries of the plan cache after a prepared statement was executed: it is looked up, and
/// planned anew, only where it is stale.
pub open spec fn plans_refreshed(
    before: Seq<(Seq<char>, (PreparedPlan, u64))>,
    after: Seq<(Seq<char>, (PreparedPlan, u64))>,
    prepared: PreparedV,
    db: Snapshot,
    known: Seq<(QuestionV, AnswerV)>,
) -> bool {
    if !is_stale(prepared, db) {
        after == before
    } else {
        let key = preprocess::preprocessed(prepared.sql);
        let made = match fresh_plan(before, key, db.version) {
            Some(_) => None,
            None => match refreshed(prepared, db, known) {
                Ok(p) => Some(p),
                Err(_) => None,
            },
        };
        plans_after(before, after, key, db.version, made, PLAN_CACHE_CAPACITY as int)
    }
}

/// The plan that a prepared statement is executed by: its own, or one for the version of the
/// schema where that is another.
pub open spec fn plan_used(
    prepared: PreparedV,
    plans: Seq<(Seq<char>, (PreparedPlan, u64))>,
    db: Snapshot,
    known: Seq<(QuestionV, AnswerV)>,
) -> Result<PreparedPlanV, ErrorV> {
    if is_stale(prepared, db) {
        match fresh_plan(plans, preprocess::preprocessed(prepared.sql), db.version) {
            Some(p) => Ok(p),
            None => refreshed(prepared, db, known),
        }
    } else {
        Ok(prepared.plan)
    }
}

/// What a plan gives with these parameters: a planned statement is taken as it is, any other
/// is bound and planned.
pub open spec fn plan_executed(
    p: Result<PreparedPlanV, ErrorV>,
    ps: Map<Seq<char>, ValueV>,
    db: Snapshot,
    known: Seq<(QuestionV, AnswerV)>,
) -> Result<SqlStatementV, ErrorV> {
    match p {
        Err(e) => Err(e),
        Ok(PreparedPlanV::Planned(s)) => Ok(s),
        Ok(PreparedPlanV::Ast(s)) => executed_statement(s, ps, db, known),
    }
}

/// What a plan gives with these parameters.
fn execute_plan(p: &PreparedPlan, ps: &Params, db: &Snapshot, facts: &Facts) -> (out: Result<SqlStatement, SqlError>)
    requires
        p@ matches PreparedPlanV::Planned(s) ==> plans_well_formed(s),
    ensures
        statement::statement_result(out) == plan_executed(Ok(p@), ps@, *db, facts@),
        out matches Ok(s) ==> plans_well_formed(s@),
{
    match p {
        PreparedPlan::Planned(s) => Ok(s.copy()),
        PreparedPlan::Ast(s) => execute_statement(s.copy(), ps, db, facts),
    }
}

impl SqlEngine {
    /// The statement that was prepared, ready to be carried out with these parameters. Where it
    /// was planned against another version of the schema, it is planned again.
    pub fn execute_prepared(&mut self, prepared: &PreparedStatement, ps: &Params, db: &Snapshot, facts: &Facts) -> (out:
        Result<SqlStatement, SqlError>)
        requires
            old(self).well_formed(),
        ensures
            final(self).well_formed(),
            final(self).parses() == old(self).parses(),
            plans_refreshed(old(self).plans(), final(self).plans(), prepared@, *db, facts@),
            statement::statement_result(out) == plan_executed(
                plan_used(prepared@, old(self).plans(), *db, facts@),
                ps@,
                *db,
                facts@,
            ),
            out matches Ok(s) ==> plans_well_formed(s@),
    {
        proof {
            use_type_invariant(prepared);
        }
        match self.refreshed_plan(prepared, db, facts)? {
            Some(p) => execute_plan(&p, ps, db, facts),
            None => execute_plan(&prepared.plan, ps, db, facts),
        }
    }

    /// The statement that was prepared, ready to be carried out with these parameters; the rows
    /// of a query are then handed out as they are read.
    pub fn execute_prepared_streaming(
        &mut self,
        prepared: &PreparedStatement,
        ps: &Params,
        db: &Snapshot,
        facts: &Facts,
    ) -> (out: Result<SqlStatement, SqlError>)
        requires
            old(self).well_formed(),
        ensures
            final(self).well_formed(),
            final(self).parses() == old(self).parses(),
            plans_refreshed(old(self).plans(), final(self).plans(), prepared@, *db, facts@),
            statement::statement_result(out) == plan_executed(
                plan_used(prepared@, old(self).plans(), *db, facts@),
                ps@,
                *db,
                facts@,
            ),
            out matches Ok(s) ==> plans_well_formed(s@),
    {
        self.execute_prepared(prepared, ps, db, facts)
    }
}

/// Only a text of exactly one statement is executed: any other is refused, and is none that
/// changes the schema.
pub proof fn other_than_one_statement_is_refused(
    sql: Seq<char>,
    statements: Seq<StatementV>,
    ps: Map<Seq<char>, ValueV>,
    db: Snapshot,
    known: Seq<(QuestionV, AnswerV)>,
)
    requires
        parse::statements_of(preprocess::preprocessed(sql)) == Ok::<Seq<StatementV>, ErrorV>(statements),
        statements.len() != 1,
    ensures
        executed(sql, ps, db, known) is Err,
        parse::the_statement(parse::statements_of(preprocess::preprocessed(sql))) is Err,
{
}

/// A plan that was made and kept is found under its text as long as the schema has the same
/// version, and under no other version.
pub proof fn kept_plan_is_found_again(
    before: Seq<(Seq<char>, (PreparedPlan, u64))>,
    after: Seq<(Seq<char>, (PreparedPlan, u64))>,
    key: Seq<char>,
    version: u64,
    plan: PreparedPlanV,
    later: u64,
)
    requires
        cache::distinct(before),
        before.len() <= PLAN_CACHE_CAPACITY,
        plans_after(before, after, key, version, Some(plan), PLAN_CACHE_CAPACITY as int),
    ensures
        fresh_plan(after, key, later) == (if later == version {
            Some(plan)
        } else {
            None
        }),
{
    let asked = cache::touched(before, key);
    cache::touching_keeps_entries(before, key);
    cache::stored_is_cached(asked, key, after.last().1, PLAN_CACHE_CAPACITY as int);
}

/// A statement that was prepared against the version of the schema it is executed under gives
/// the plan it was prepared with, whatever the cache holds.
pub proof fn current_plan_is_kept(
    prepared: PreparedV,
    plans: Seq<(Seq<char>, (PreparedPlan, u64))>,
    db: Snapshot,
    known: Seq<(QuestionV, AnswerV)>,
)
    requires
        prepared.catalog_version == db.version,
    ensures
        plan_used(prepared, plans, db, known) == Ok::<PreparedPlanV, ErrorV>(prepared.plan),
{
}

/// Executing a statement that was prepared is executing its text, where its parameters were
/// bound before it was planned.
pub proof fn bound_late_is_executed(
    sql: Seq<char>,
    s: StatementV,
    plans: Seq<(Seq<char>, (PreparedPlan, u64))>,
    version: u64,
    ps: Map<Seq<char>, ValueV>,
    db: Snapshot,
    known: Seq<(QuestionV, AnswerV)>,
)
    requires
        parse::the_statement(parse::statements_of(preprocess::preprocessed(sql))) == Ok::<StatementV, ErrorV>(s),
    ensures
        plan_executed(
            plan_used(PreparedV { plan: PreparedPlanV::Ast(s), sql, catalog_version: version }, plans, db, known),
            ps,
            db,
            known,
        ) == executed(sql, ps, db, known),
{
}

} // verus!
