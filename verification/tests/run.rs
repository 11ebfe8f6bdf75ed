//! Carrying a statement out, action by action.

use dtdb_sql::cost::TableStatistics;
use dtdb_sql::engine::{ExecutionResult, Snapshot, SqlEngine};
use dtdb_sql::expr::Expr;
use dtdb_sql::facts::{Answer, ErrorKind, Facts, FloatOp, Question, SqlError};
use dtdb_sql::optimizer::Optimizer;
use dtdb_sql::params::Params;
use dtdb_sql::physical::PhysicalPlan;
use dtdb_sql::planner::{Catalog, LogicalPlanner};
use dtdb_sql::run::{Action, Event, Execution};
use dtdb_sql::schema::{Column, IndexDefinition, IndexType, Row, Schema};
use dtdb_sql::statement::SqlStatement;
use dtdb_sql::subquery::SubqueryResult;
use dtdb_sql::value::{DataType, DbKey, DbValue, Decimal};

/// Answers a question about floats.
fn answer(q: &Question) -> Answer {
    let of = |bits: u64| f64::from_bits(bits);
    match q {
        Question::FloatArithmetic { op, left, right } => {
            let (l, r) = (of(*left), of(*right));
            let x = match op {
                FloatOp::Add => l + r,
                FloatOp::Sub => l - r,
                FloatOp::Mul => l * r,
                FloatOp::Div => l / r,
            };
            Answer::Float(x.to_bits())
        }
        Question::FloatOfInt(i) => Answer::Float((*i as f64).to_bits()),
        Question::IntOfFloat(f) => Answer::Int(of(*f) as i64),
        Question::FloatRounded(f) => Answer::Float(of(*f).round().to_bits()),
        Question::FloatText(f) => Answer::Text(of(*f).to_string()),
        Question::FloatShown(f) => Answer::Text(format!("{:?}", of(*f))),
        Question::FloatParsed(s) => {
            Answer::ParsedFloat(s.parse::<f64>().map(|f| f.to_bits()).map_err(|e| e.to_string()))
        }
        Question::DecimalOfFloat(f) => Answer::Decimal(
            rust_decimal::prelude::FromPrimitive::from_f64(of(*f))
                .and_then(|d: rust_decimal::Decimal| {
                    Decimal::signed(d.mantissa(), d.is_sign_negative(), d.scale())
                }),
        ),
        Question::FloatOfDecimal(d) => {
            let mut x = rust_decimal::Decimal::from_i128_with_scale(d.mantissa(), d.scale());
            x.set_sign_negative(d.is_negative());
            Answer::OptionalFloat(rust_decimal::prelude::ToPrimitive::to_f64(&x).map(f64::to_bits))
        }
        Question::FloatOfNat(n) => Answer::Float((*n as f64).to_bits()),
        Question::NatOfFloat(f) => Answer::Count(of(*f) as u64),
        other => panic!("unexpected question: {:?}", other),
    }
}

/// The text of an error.
fn text_of(e: &SqlError) -> String {
    let mut facts = Facts::new();
    loop {
        match e.message(&facts) {
            Ok(t) => return t,
            Err(p) => match &p.question {
                Some(q) => {
                    let a = answer(q);
                    facts.record(q.clone(), a);
                }
                None => panic!("no text for {:?}", e),
            },
        }
    }
}

fn key(name: &str, t: DataType) -> Column {
    let mut c = Column::plain(name, t);
    c.is_primary_key = true;
    c.is_nullable = false;
    c
}

fn catalog() -> Catalog {
    let mut t = Schema::new(vec![
        key("id", DataType::Int),
        Column::plain("name", DataType::String),
        Column::plain("age", DataType::Int),
    ]);
    t.indexes.push(IndexDefinition {
        name: "idx_age".to_string(),
        columns: vec!["age".to_string()],
        index_type: IndexType::BTree,
        tokenizer: None,
    });
    let u = Schema::new(vec![key("id", DataType::Int), Column::plain("tid", DataType::Int)]);
    Catalog { tables: vec![("t".to_string(), t), ("u".to_string(), u)] }
}

fn db() -> Snapshot {
    let none: Vec<(String, TableStatistics)> = Vec::new();
    Snapshot { planner: LogicalPlanner::new(catalog()), optimizer: Optimizer::new(none), version: 1 }
}

fn ready(sql: &str) -> SqlStatement {
    let db = db();
    let none = Params::new();
    let mut facts = Facts::new();
    let mut engine = SqlEngine::new();
    loop {
        match engine.execute_with_params(sql, &none, &db, &facts) {
            Ok(s) => return s,
            Err(e) => {
                let q = e.question.expect("a statement that can be planned");
                let a = answer(&q);
                facts.record(q, a);
            }
        }
    }
}

fn t_schema() -> Schema {
    catalog().tables.swap_remove(0).1
}

fn row(values: Vec<DbValue>) -> Row {
    Row::new(values)
}

/// Takes a step, answering its questions.
fn step(x: &mut Execution, event: Event) -> Result<Action, SqlError> {
    let db = db();
    let none = Params::new();
    let mut facts = Facts::new();
    loop {
        match x.step(&event, &db, &none, &facts) {
            Ok(a) => return Ok(a),
            Err(e) => match &e.question {
                Some(q) => {
                    let a = answer(q);
                    facts.record(q.clone(), a);
                }
                None => return Err(e),
            },
        }
    }
}

fn start(sql: &str) -> (Execution, Action) {
    let mut x = Execution::new(ready(sql), false);
    let a = step(&mut x, Event::Started).unwrap();
    (x, a)
}

fn person(id: i64, name: &str, age: i64) -> Row {
    row(vec![DbValue::Int(id), DbValue::string(name), DbValue::Int(age)])
}

#[test]
fn rows_are_inserted_one_after_the_other() {
    let (mut x, a) = start("INSERT INTO t (id, name, age) VALUES (1, 'a', 30), (2, 'b', 40)");
    assert!(matches!(a, Action::GetTable { table_name } if table_name == "t"));
    for (id, name, age) in [(1, "a", 30), (2, "b", 40)] {
        let event = if id == 1 { Event::Table(t_schema()) } else { Event::Done };
        match step(&mut x, event).unwrap() {
            Action::Check { table_name, key } => {
                assert_eq!(table_name, "t");
                assert_eq!(key, DbKey::Int(id));
            }
            other => panic!("no check: {:?}", other),
        }
        match step(&mut x, Event::Taken(false)).unwrap() {
            Action::Put { table_name, key, row } => {
                assert_eq!(table_name, "t");
                assert_eq!(key, DbKey::Int(id));
                assert_eq!(row.values, person(id, name, age).values);
            }
            other => panic!("no put: {:?}", other),
        }
    }
    assert!(matches!(step(&mut x, Event::Done).unwrap(), Action::Finish(ExecutionResult::Insert { count: 2 })));
}

#[test]
fn a_taken_key_is_not_inserted() {
    let (mut x, _) = start("INSERT INTO t (id, name, age) VALUES (1, 'a', 30)");
    step(&mut x, Event::Table(t_schema())).unwrap();
    let e = step(&mut x, Event::Taken(true)).unwrap_err();
    assert_eq!(e.kind, ErrorKind::DuplicateKey);
    assert_eq!(text_of(&e), "Duplicate primary key");
    // The refused step left everything as it was.
    assert!(matches!(step(&mut x, Event::Taken(false)).unwrap(), Action::Put { .. }));
}

#[test]
fn a_column_counts_up() {
    let mut schema = t_schema();
    schema.columns[0].is_auto_increment = true;
    let (mut x, _) = start("INSERT INTO t (name, age) VALUES ('a', 30)");
    assert!(matches!(
        step(&mut x, Event::Table(schema.clone())).unwrap(),
        Action::NextSequence { table_name } if table_name == "t"
    ));
    assert!(matches!(
        step(&mut x, Event::Sequence(7)).unwrap(),
        Action::Check { key, .. } if key == DbKey::Int(7)
    ));
    let (mut x, _) = start("INSERT INTO t (id, name, age) VALUES (9, 'a', 30)");
    assert!(matches!(
        step(&mut x, Event::Table(schema)).unwrap(),
        Action::PassSequence { table_name, value: 9 } if table_name == "t"
    ));
    assert!(matches!(step(&mut x, Event::Done).unwrap(), Action::Check { key, .. } if key == DbKey::Int(9)));
}

#[test]
fn the_rows_of_a_query_are_inserted() {
    let (mut x, a) = start("INSERT INTO u (id, tid) SELECT id, age FROM t");
    assert!(matches!(a, Action::GetTable { table_name } if table_name == "u"));
    let u = catalog().tables.swap_remove(1).1;
    let plan = match step(&mut x, Event::Table(u)).unwrap() {
        Action::Open(p) => p,
        other => panic!("nothing opened: {:?}", other),
    };
    assert_eq!(plan.schema().columns.len(), 2);
    let first = row(vec![DbValue::Int(1), DbValue::Int(30)]);
    assert!(matches!(step(&mut x, Event::Row(Some(first))).unwrap(), Action::Check { key, .. } if key == DbKey::Int(1)));
    match step(&mut x, Event::Taken(false)).unwrap() {
        Action::Put { table_name, row, .. } => {
            assert_eq!(table_name, "u");
            assert_eq!(row.values, vec![DbValue::Int(1), DbValue::Int(30)]);
        }
        other => panic!("no put: {:?}", other),
    }
    assert!(matches!(step(&mut x, Event::Done).unwrap(), Action::NextRow));
    assert!(matches!(
        step(&mut x, Event::Row(None)).unwrap(),
        Action::Finish(ExecutionResult::Insert { count: 1 })
    ));
}

#[test]
fn a_query_of_the_wrong_width_is_not_inserted() {
    let (mut x, _) = start("INSERT INTO u (id, tid) SELECT id FROM t");
    let u = catalog().tables.swap_remove(1).1;
    let e = step(&mut x, Event::Table(u)).unwrap_err();
    assert_eq!(
        text_of(&e),
        "INSERT INTO ... SELECT col count mismatch: target columns: 2, SELECT columns: 1"
    );
}

#[test]
fn rows_are_deleted_by_their_keys() {
    let (mut x, a) = start("DELETE FROM t WHERE age > 35");
    assert!(matches!(a, Action::GetTable { .. }));
    assert!(matches!(step(&mut x, Event::Table(t_schema())).unwrap(), Action::Open(_)));
    match step(&mut x, Event::Row(Some(person(2, "b", 40)))).unwrap() {
        Action::Delete { table_name, key } => {
            assert_eq!(table_name, "t");
            assert_eq!(key, DbKey::Int(2));
        }
        other => panic!("no deletion: {:?}", other),
    }
    assert!(matches!(step(&mut x, Event::Done).unwrap(), Action::NextRow));
    assert!(matches!(
        step(&mut x, Event::Row(None)).unwrap(),
        Action::Finish(ExecutionResult::Delete { count: 1 })
    ));
}

#[test]
fn a_row_is_updated_in_its_place() {
    let (mut x, _) = start("UPDATE t SET age = age + 1 WHERE id = 1");
    assert!(matches!(step(&mut x, Event::Table(t_schema())).unwrap(), Action::Open(_)));
    match step(&mut x, Event::Row(Some(person(1, "a", 30)))).unwrap() {
        Action::Put { key, row, .. } => {
            assert_eq!(key, DbKey::Int(1));
            assert_eq!(row.values, person(1, "a", 31).values);
        }
        other => panic!("no put: {:?}", other),
    }
    step(&mut x, Event::Done).unwrap();
    assert!(matches!(
        step(&mut x, Event::Row(None)).unwrap(),
        Action::Finish(ExecutionResult::Update { count: 1 })
    ));
}

#[test]
fn a_row_whose_key_changes_is_moved() {
    let (mut x, _) = start("UPDATE t SET id = id + 10");
    step(&mut x, Event::Table(t_schema())).unwrap();
    assert!(matches!(
        step(&mut x, Event::Row(Some(person(1, "a", 30)))).unwrap(),
        Action::Delete { key, .. } if key == DbKey::Int(1)
    ));
    match step(&mut x, Event::Done).unwrap() {
        Action::Put { key, row, .. } => {
            assert_eq!(key, DbKey::Int(11));
            assert_eq!(row.values, person(11, "a", 30).values);
        }
        other => panic!("no put: {:?}", other),
    }
    step(&mut x, Event::Done).unwrap();
    assert!(matches!(
        step(&mut x, Event::Row(None)).unwrap(),
        Action::Finish(ExecutionResult::Update { count: 1 })
    ));
}

#[test]
fn subqueries_of_a_condition_come_before_those_of_an_assignment() {
    let ids = || match ready("SELECT id FROM u") {
        SqlStatement::Query(p) => p,
        other => panic!("no query: {:?}", other),
    };
    let statement = SqlStatement::Update {
        table_name: "t".to_string(),
        assignments: vec![("age".to_string(), Expr::ScalarSubquery(Box::new(ids())))],
        filter: Some(Expr::InSubquery {
            expr: Box::new(Expr::Column("id".to_string(), None)),
            subquery: Box::new(ids()),
            negated: false,
        }),
    };
    let mut x = Execution::new(statement, false);
    assert!(matches!(step(&mut x, Event::Started).unwrap(), Action::GetTable { .. }));
    assert!(matches!(step(&mut x, Event::Table(t_schema())).unwrap(), Action::Collect(_)));
    let members = SubqueryResult { columns: 1, rows: vec![row(vec![DbValue::Int(1)]), row(vec![DbValue::Int(2)])] };
    assert!(matches!(step(&mut x, Event::Collected(members)).unwrap(), Action::Collect(_)));
    let scalar = SubqueryResult { columns: 1, rows: vec![row(vec![DbValue::Int(99)])] };
    assert!(matches!(step(&mut x, Event::Collected(scalar)).unwrap(), Action::Open(_)));
    match step(&mut x, Event::Row(Some(person(2, "b", 40)))).unwrap() {
        Action::Put { row, .. } => assert_eq!(row.values, person(2, "b", 99).values),
        other => panic!("no put: {:?}", other),
    }
}

#[test]
fn the_rows_of_a_query_come_back() {
    let (mut x, a) = start("SELECT name FROM t WHERE age > 3");
    assert!(matches!(a, Action::Open(_)));
    for name in ["a", "b"] {
        let r = row(vec![DbValue::string(name)]);
        assert!(matches!(step(&mut x, Event::Row(Some(r))).unwrap(), Action::NextRow));
    }
    match step(&mut x, Event::Row(None)).unwrap() {
        Action::Finish(ExecutionResult::Select { schema, rows }) => {
            assert_eq!(schema.columns[0].name, "name");
            let values: Vec<Vec<DbValue>> = rows.into_iter().map(|r| r.values).collect();
            assert_eq!(values, vec![vec![DbValue::string("a")], vec![DbValue::string("b")]]);
        }
        other => panic!("no rows: {:?}", other),
    }
    let e = step(&mut x, Event::Row(None)).unwrap_err();
    assert_eq!(e.kind, ErrorKind::UnexpectedEvent);
    assert_eq!(text_of(&e), "A step was given what it does not wait for");
}

#[test]
fn a_query_hands_out_its_rows() {
    let mut x = Execution::new(ready("SELECT name FROM t WHERE age > 3"), true);
    assert!(matches!(step(&mut x, Event::Started).unwrap(), Action::Stream(_)));
    let mut x = Execution::new(ready("SELECT name FROM t WHERE id = 5"), true);
    assert!(matches!(step(&mut x, Event::Started).unwrap(), Action::Lookup { .. }));
}

#[test]
fn a_key_is_looked_up_in_one_step() {
    let (mut x, a) = start("SELECT name FROM t WHERE id = 5");
    match a {
        Action::Lookup { table_name, key, mut columns } => {
            assert_eq!(table_name, "t");
            assert_eq!(key, DbKey::Int(5));
            columns.sort();
            assert_eq!(columns, vec!["id", "name"]);
        }
        other => panic!("no lookup: {:?}", other),
    }
    match step(&mut x, Event::Row(Some(person(5, "e", 1)))).unwrap() {
        Action::Finish(ExecutionResult::Select { rows, .. }) => {
            assert_eq!(rows[0].values, vec![DbValue::string("e")]);
            assert_eq!(rows.len(), 1);
        }
        other => panic!("no rows: {:?}", other),
    }
}

#[test]
fn the_text_of_a_plan_is_asked_for() {
    let (mut x, a) = start("EXPLAIN SELECT name FROM t WHERE age > 3");
    assert!(matches!(a, Action::Describe(PhysicalPlan::Projection { .. })));
    match step(&mut x, Event::Described("Operators".to_string())).unwrap() {
        Action::Finish(ExecutionResult::Select { rows, .. }) => match &rows[0].values[0] {
            DbValue::String(t) => assert!(t.ends_with("\n--- Physical Plan ---\nOperators")),
            other => panic!("no text: {:?}", other),
        },
        other => panic!("no rows: {:?}", other),
    }
}

#[test]
fn one_operation_changes_the_schema() {
    let (mut x, a) = start("DROP TABLE t");
    assert!(matches!(a, Action::DropTable { name } if name == "t"));
    assert!(matches!(step(&mut x, Event::Done).unwrap(), Action::Finish(ExecutionResult::DropTable)));
    let (mut x, a) = start("CREATE INDEX idx ON t (name)");
    assert!(matches!(a, Action::CreateIndex { table_name, index_name, .. } if table_name == "t" && index_name == "idx"));
    assert!(matches!(step(&mut x, Event::Done).unwrap(), Action::Finish(ExecutionResult::CreateIndex)));
    let (mut x, a) = start("ALTER TABLE t RENAME COLUMN name TO label");
    assert!(matches!(a, Action::AlterTable { table_name, .. } if table_name == "t"));
    assert!(matches!(step(&mut x, Event::Done).unwrap(), Action::Finish(ExecutionResult::AlterTable)));
    let (mut x, a) = start("ANALYZE TABLE t");
    assert!(matches!(a, Action::Analyze { table_name } if table_name == "t"));
    assert!(matches!(step(&mut x, Event::Done).unwrap(), Action::Finish(ExecutionResult::Analyze)));
}

#[test]
fn a_row_with_too_few_values_is_an_error() {
    let statement = SqlStatement::Insert {
        table_name: "t".to_string(),
        columns: vec!["id".to_string(), "name".to_string()],
        rows: vec![vec![DbValue::Int(1)]],
    };
    let mut x = Execution::new(statement, false);
    step(&mut x, Event::Started).unwrap();
    let e = step(&mut x, Event::Table(t_schema())).unwrap_err();
    assert_eq!(e.kind, ErrorKind::RowLength);
    assert_eq!(text_of(&e), "A row has fewer values than columns");
}
