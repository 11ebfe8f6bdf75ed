//! The engine: its caches, and what it makes of a statement.

use dtdb_sql::cache::LruCache;
use dtdb_sql::cost::TableStatistics;
use dtdb_sql::engine::{Snapshot, SqlEngine, PLAN_CACHE_CAPACITY};
use dtdb_sql::explain::format_logical_plan;
use dtdb_sql::facts::{Answer, Facts, FloatOp, Question, SqlError};
use dtdb_sql::optimizer::Optimizer;
use dtdb_sql::params::Params;
use dtdb_sql::parse::{parse_sql, parse_statement, single_statement};
use dtdb_sql::planner::{Catalog, LogicalPlanner};
use dtdb_sql::preprocess::preprocess_sql;
use dtdb_sql::schema::{Column, IndexDefinition, IndexType, Schema};
use dtdb_sql::statement::SqlStatement;
use dtdb_sql::value::{DataType, DbValue, Decimal};

/// Answers a question about floats.
fn answer(q: &Question) -> Answer {
    let of = |bits: u64| f64::from_bits(bits);
    match q {
        Question::FloatArithmetic { op, left, right } => {
            let (l, r) = (of(*left), of(*right));
            let x = match op {
                FloatOp::Add => l + r,
                FloatOp::Sub => l - r,
                FloatOp::Mul => l * r,
                FloatOp::Div => l / r,
            };
            Answer::Float(x.to_bits())
        }
        Question::FloatOfInt(i) => Answer::Float((*i as f64).to_bits()),
        Question::IntOfFloat(f) => Answer::Int(of(*f) as i64),
        Question::FloatRounded(f) => Answer::Float(of(*f).round().to_bits()),
        Question::FloatText(f) => Answer::Text(of(*f).to_string()),
        Question::FloatShown(f) => Answer::Text(format!("{:?}", of(*f))),
        Question::FloatParsed(s) => {
            Answer::ParsedFloat(s.parse::<f64>().map(|f| f.to_bits()).map_err(|e| e.to_string()))
        }
        Question::DecimalOfFloat(f) => Answer::Decimal(
            rust_decimal::prelude::FromPrimitive::from_f64(of(*f))
                .and_then(|d: rust_decimal::Decimal| {
                    Decimal::signed(d.mantissa(), d.is_sign_negative(), d.scale())
                }),
        ),
        Question::FloatOfDecimal(d) => {
            let mut x = rust_decimal::Decimal::from_i128_with_scale(d.mantissa(), d.scale());
            x.set_sign_negative(d.is_negative());
            Answer::OptionalFloat(rust_decimal::prelude::ToPrimitive::to_f64(&x).map(f64::to_bits))
        }
        Question::FloatOfNat(n) => Answer::Float((*n as f64).to_bits()),
        Question::NatOfFloat(f) => Answer::Count(of(*f) as u64),
        other => panic!("unexpected question: {:?}", other),
    }
}

/// Runs a computation, answering its questions.
fn solve<T>(f: impl Fn(&Facts) -> Result<T, SqlError>) -> Result<T, String> {
    let mut facts = Facts::new();
    loop {
        match f(&facts) {
            Ok(x) => return Ok(x),
            Err(e) => match &e.question {
                Some(q) => {
                    let a = answer(q);
                    facts.record(q.clone(), a);
                }
                None => return Err(text_of(&e)),
            },
        }
    }
}

/// The text of an error.
fn text_of(e: &SqlError) -> String {
    let mut facts = Facts::new();
    loop {
        match e.message(&facts) {
            Ok(t) => return t,
            Err(p) => match &p.question {
                Some(q) => {
                    let a = answer(q);
                    facts.record(q.clone(), a);
                }
                None => panic!("no text for {:?}", e),
            },
        }
    }
}

fn key(name: &str, t: DataType) -> Column {
    let mut c = Column::plain(name, t);
    c.is_primary_key = true;
    c.is_nullable = false;
    c
}

fn catalog() -> Catalog {
    let mut t = Schema::new(vec![
        key("id", DataType::Int),
        Column::plain("name", DataType::String),
        Column::plain("age", DataType::Int),
    ]);
    t.indexes.push(IndexDefinition {
        name: "idx_age".to_string(),
        columns: vec!["age".to_string()],
        index_type: IndexType::BTree,
        tokenizer: None,
    });
    let u = Schema::new(vec![key("id", DataType::Int), Column::plain("tid", DataType::Int)]);
    Catalog { tables: vec![("t".to_string(), t), ("u".to_string(), u)] }
}

fn db(version: u64) -> Snapshot {
    let none: Vec<(String, TableStatistics)> = Vec::new();
    Snapshot { planner: LogicalPlanner::new(catalog()), optimizer: Optimizer::new(none), version }
}

/// The same tables without the index on `age`.
fn db_without_index(version: u64) -> Snapshot {
    let mut tables = catalog();
    tables.tables[0].1.indexes.clear();
    let none: Vec<(String, TableStatistics)> = Vec::new();
    Snapshot { planner: LogicalPlanner::new(tables), optimizer: Optimizer::new(none), version }
}

/// Runs a step of the engine, answering its questions.
fn solve_with<T>(
    engine: &mut SqlEngine,
    f: impl Fn(&mut SqlEngine, &Facts) -> Result<T, SqlError>,
) -> Result<T, String> {
    let mut facts = Facts::new();
    loop {
        match f(engine, &facts) {
            Ok(x) => return Ok(x),
            Err(e) => match &e.question {
                Some(q) => {
                    let a = answer(q);
                    facts.record(q.clone(), a);
                }
                None => return Err(text_of(&e)),
            },
        }
    }
}

fn shown(s: &SqlStatement) -> String {
    match s {
        SqlStatement::Query(p) => solve(|f| format_logical_plan(p, f)).unwrap(),
        other => panic!("no query: {:?}", other),
    }
}

fn params(name: &str, v: DbValue) -> Params {
    let mut ps = Params::new();
    ps.insert(name, v);
    ps
}

#[test]
fn a_prepared_plan_is_kept_for_its_version() {
    let mut engine = SqlEngine::new();
    assert!(engine.plan_cache_is_empty());
    let sql = "SELECT id FROM t WHERE id = :k";
    let first = solve_with(&mut engine, |e, f| e.prepare(sql, &db(1), f)).unwrap();
    assert!(first.is_planned());
    assert_eq!((first.sql(), first.catalog_version()), (sql, 1));
    assert_eq!(engine.plan_cache_len(), 1);
    solve_with(&mut engine, |e, f| e.prepare(sql, &db(1), f)).unwrap();
    assert_eq!(engine.plan_cache_len(), 1);
    let second = solve_with(&mut engine, |e, f| e.prepare(sql, &db(2), f)).unwrap();
    assert_eq!(second.catalog_version(), 2);
    assert_eq!(engine.plan_cache_len(), 1);
    solve_with(&mut engine, |e, f| e.prepare("SELECT name FROM t", &db(2), f)).unwrap();
    assert_eq!(engine.plan_cache_len(), 2);
}

#[test]
fn a_stale_plan_is_made_anew() {
    let mut engine = SqlEngine::new();
    let sql = "SELECT id FROM t WHERE age = 3";
    let prepared = solve_with(&mut engine, |e, f| e.prepare(sql, &db_without_index(1), f)).unwrap();
    let none = Params::new();
    let same = solve_with(&mut engine, |e, f| e.execute_prepared(&prepared, &none, &db_without_index(1), f)).unwrap();
    assert!(shown(&same).contains("- Scan: table=t, range=all"));
    // The version is what counts: the plan is kept as long as it stays.
    let kept = solve_with(&mut engine, |e, f| e.execute_prepared(&prepared, &none, &db(1), f)).unwrap();
    assert!(shown(&kept).contains("- Scan: table=t, range=all"));
    let anew = solve_with(&mut engine, |e, f| e.execute_prepared(&prepared, &none, &db(2), f)).unwrap();
    assert!(shown(&anew).contains("- IndexScan: table=t, index=idx_age, range=[Value(Int(3)), Value(Int(3))]"));
    assert!(solve_with(&mut engine, |e, f| e.refreshed_plan(&prepared, &db(1), f)).unwrap().is_none());
    assert!(solve_with(&mut engine, |e, f| e.refreshed_plan(&prepared, &db(2), f)).unwrap().is_some());
    let streamed =
        solve_with(&mut engine, |e, f| e.execute_prepared_streaming(&prepared, &none, &db(2), f)).unwrap();
    assert_eq!(shown(&streamed), shown(&anew));
}

#[test]
fn what_cannot_be_planned_is_prepared_all_the_same() {
    let mut engine = SqlEngine::new();
    let prepared = solve_with(&mut engine, |e, f| e.prepare("SELECT id FROM missing", &db(1), f)).unwrap();
    assert!(!prepared.is_planned());
    let none = Params::new();
    assert_eq!(
        solve_with(&mut engine, |e, f| e.execute_prepared(&prepared, &none, &db(1), f)).unwrap_err(),
        "Table 'missing' not found"
    );
    let insert = "INSERT INTO t (id, name) VALUES (:i, :n)";
    let prepared = solve_with(&mut engine, |e, f| e.prepare(insert, &db(1), f)).unwrap();
    assert!(!prepared.is_planned());
    let mut ps = params("i", DbValue::Int(7));
    ps.insert("n", DbValue::string("x"));
    match solve_with(&mut engine, |e, f| e.execute_prepared(&prepared, &ps, &db(1), f)).unwrap() {
        SqlStatement::Insert { rows, .. } => {
            assert_eq!(rows, vec![vec![DbValue::Int(7), DbValue::string("x")]]);
        }
        other => panic!("{:?}", other),
    }
}

#[test]
fn the_plan_cache_is_bounded() {
    let mut cache: LruCache<u64> = LruCache::new(2);
    cache.insert("a".to_string(), 1);
    cache.insert("b".to_string(), 2);
    assert!(cache.touch("a"));
    assert_eq!(*cache.latest(), 1);
    cache.insert("c".to_string(), 3);
    assert_eq!(cache.len(), 2);
    assert!(!cache.touch("b"));
    assert!(cache.touch("a"));
    assert!(cache.touch("c"));
    cache.insert("a".to_string(), 4);
    assert_eq!((cache.len(), *cache.latest()), (2, 4));
    assert!(!cache.is_empty());
    assert_eq!(PLAN_CACHE_CAPACITY, 1024);
}

#[test]
fn statements_that_change_the_schema_are_known() {
    let mut engine = SqlEngine::new();
    assert!(engine.is_ddl("CREATE TABLE n (id INT PRIMARY KEY)"));
    assert!(engine.is_ddl("DROP TABLE t"));
    assert!(engine.is_ddl("CREATE INDEX i ON t (age)"));
    assert!(engine.is_ddl("CREATE FULLTEXT INDEX i ON t (name)"));
    assert!(engine.is_ddl("ALTER TABLE t ADD COLUMN z INT"));
    assert!(!engine.is_ddl("SELECT id FROM t"));
    assert!(!engine.is_ddl("INSERT INTO t VALUES (1)"));
    assert!(!engine.is_ddl("DROP TABLE t; DROP TABLE u"));
    assert!(!engine.is_ddl("DROP"));
}

#[test]
fn only_one_statement_is_executed() {
    let mut engine = SqlEngine::new();
    let run = |engine: &mut SqlEngine, sql: &str| solve_with(engine, |e, f| e.execute(sql, &db(1), f));
    assert_eq!(
        run(&mut engine, "DELETE FROM t; DELETE FROM u").unwrap_err(),
        "Multiple SQL statements in a single execute() call are not allowed. \
         Use DuctTapeDbClient::run_in_transaction() or the Transaction RPC \
         to execute multiple statements within a single transaction."
    );
    assert_eq!(run(&mut engine, "").unwrap_err(), "No SQL statements found");
    assert!(run(&mut engine, "DELETE FROM t;").is_ok());
    assert_eq!(
        solve_with(&mut engine, |e, f| e.prepare("SELECT id FROM t; SELECT id FROM u", &db(1), f)).unwrap_err(),
        "Multiple SQL statements in a single prepare() call are not allowed."
    );
    assert!(single_statement(parse_sql("SELECT 1; SELECT 2").unwrap()).is_err());
    assert_eq!(parse_sql("SELECT 1; SELECT 2").unwrap().len(), 2);
    assert!(parse_statement("SELECT 1").is_ok());
}

#[test]
fn parameters_are_bound() {
    let mut engine = SqlEngine::new();
    let sql = "SELECT id FROM t WHERE id = :k";
    let ps = params("k", DbValue::Int(5));
    let s = solve_with(&mut engine, |e, f| e.execute_with_params(sql, &ps, &db(1), f)).unwrap();
    assert_eq!(
        shown(&s),
        "- Projection: fields=[\"id\"]\n  \
         - Filter: condition=BinaryOp { left: Column(\"id\", None), op: Eq, right: Literal(Int(5)) }\n    \
         - Scan: table=t, range=[Value(Int(5)), Value(Int(5))]\n"
    );
    let streamed = solve_with(&mut engine, |e, f| e.execute_streaming(sql, &ps, &db(1), f)).unwrap();
    assert_eq!(shown(&streamed), shown(&s));
    assert_eq!(
        solve_with(&mut engine, |e, f| e.execute(sql, &db(1), f)).unwrap_err(),
        "Unbound parameter: :k"
    );
}

#[test]
fn full_text_indexes_are_rewritten() {
    assert_eq!(
        preprocess_sql("create fulltext index ft on docs (body) using trigram"),
        "CREATE INDEX ft ON docs USING trigram (body)"
    );
    assert_eq!(
        preprocess_sql("  CREATE FULLTEXT INDEX ft ON docs ( body )  "),
        "CREATE INDEX ft ON docs USING simple (body)"
    );
    assert_eq!(preprocess_sql("CREATE FULLTEXT INDEX ft"), "CREATE FULLTEXT INDEX ft");
    assert_eq!(preprocess_sql(" SELECT 1 "), " SELECT 1 ");
}

#[test]
fn preprocessing_twice_is_preprocessing_once() {
    for sql in ["CREATE FULLTEXT INDEX ft ON docs (body) USING trigram", " SELECT 1 ", "CREATE FULLTEXT INDEX ft", ""] {
        let once = preprocess_sql(sql);
        assert_eq!(preprocess_sql(&once), once);
    }
}
