//! The steps of carrying out a statement.

use dtdb_sql::cost::TableStatistics;
use dtdb_sql::engine::{ExecutionResult, ExecutionStreamingResult, Snapshot, SqlEngine};
use dtdb_sql::execute::{
    explain_plan, explain_result, fold_assignments, lookup_result, next_change_step, next_query_step,
    next_source_step, plan_subquery, rows_result, stream_rows, ExplainPhysical, QueryStep,
};
use dtdb_sql::expr::{Expr, Operator};
use dtdb_sql::facts::{Answer, Facts, FloatOp, Question, SqlError};
use dtdb_sql::logical::LogicalPlan;
use dtdb_sql::modify::{
    align_row, check_insert, check_select_columns, extract_primary_key, next_sequence_step, set_value, update_row,
    SequenceStep,
};
use dtdb_sql::optimizer::Optimizer;
use dtdb_sql::params::Params;
use dtdb_sql::physical::{is_plan_sorted_by, PhysicalPlan};
use dtdb_sql::planner::{Catalog, LogicalPlanner};
use dtdb_sql::schema::{Column, IndexDefinition, IndexType, Row, Schema};
use dtdb_sql::statement::SqlStatement;
use dtdb_sql::subquery::{fold_subqueries, plan_contains_subquery, FoldStop, SubqueryResult};
use dtdb_sql::value::{DataType, DbKey, DbValue, Decimal};

/// Answers a question about floats.
fn answer(q: &Question) -> Answer {
    let of = |bits: u64| f64::from_bits(bits);
    match q {
        Question::FloatArithmetic { op, left, right } => {
            let (l, r) = (of(*left), of(*right));
            let x = match op {
                FloatOp::Add => l + r,
                FloatOp::Sub => l - r,
                FloatOp::Mul => l * r,
                FloatOp::Div => l / r,
            };
            Answer::Float(x.to_bits())
        }
        Question::FloatOfInt(i) => Answer::Float((*i as f64).to_bits()),
        Question::IntOfFloat(f) => Answer::Int(of(*f) as i64),
        Question::FloatRounded(f) => Answer::Float(of(*f).round().to_bits()),
        Question::FloatText(f) => Answer::Text(of(*f).to_string()),
        Question::FloatShown(f) => Answer::Text(format!("{:?}", of(*f))),
        Question::FloatParsed(s) => {
            Answer::ParsedFloat(s.parse::<f64>().map(|f| f.to_bits()).map_err(|e| e.to_string()))
        }
        Question::DecimalOfFloat(f) => Answer::Decimal(
            rust_decimal::prelude::FromPrimitive::from_f64(of(*f))
                .and_then(|d: rust_decimal::Decimal| {
                    Decimal::signed(d.mantissa(), d.is_sign_negative(), d.scale())
                }),
        ),
        Question::FloatOfDecimal(d) => {
            let mut x = rust_decimal::Decimal::from_i128_with_scale(d.mantissa(), d.scale());
            x.set_sign_negative(d.is_negative());
            Answer::OptionalFloat(rust_decimal::prelude::ToPrimitive::to_f64(&x).map(f64::to_bits))
        }
        Question::FloatOfNat(n) => Answer::Float((*n as f64).to_bits()),
        Question::NatOfFloat(f) => Answer::Count(of(*f) as u64),
        other => panic!("unexpected question: {:?}", other),
    }
}

/// Runs a computation, answering its questions.
fn solve<T>(f: impl Fn(&Facts) -> Result<T, SqlError>) -> Result<T, String> {
    let mut facts = Facts::new();
    loop {
        match f(&facts) {
            Ok(x) => return Ok(x),
            Err(e) => match &e.question {
                Some(q) => {
                    let a = answer(q);
                    facts.record(q.clone(), a);
                }
                None => return Err(text_of(&e)),
            },
        }
    }
}

/// The text of an error.
fn text_of(e: &SqlError) -> String {
    let mut facts = Facts::new();
    loop {
        match e.message(&facts) {
            Ok(t) => return t,
            Err(p) => match &p.question {
                Some(q) => {
                    let a = answer(q);
                    facts.record(q.clone(), a);
                }
                None => panic!("no text for {:?}", e),
            },
        }
    }
}

fn key(name: &str, t: DataType) -> Column {
    let mut c = Column::plain(name, t);
    c.is_primary_key = true;
    c.is_nullable = false;
    c
}

fn catalog() -> Catalog {
    let mut t = Schema::new(vec![
        key("id", DataType::Int),
        Column::plain("name", DataType::String),
        Column::plain("age", DataType::Int),
    ]);
    t.indexes.push(IndexDefinition {
        name: "idx_age".to_string(),
        columns: vec!["age".to_string()],
        index_type: IndexType::BTree,
        tokenizer: None,
    });
    let u = Schema::new(vec![key("id", DataType::Int), Column::plain("tid", DataType::Int)]);
    Catalog { tables: vec![("t".to_string(), t), ("u".to_string(), u)] }
}

fn db() -> Snapshot {
    let none: Vec<(String, TableStatistics)> = Vec::new();
    Snapshot { planner: LogicalPlanner::new(catalog()), optimizer: Optimizer::new(none), version: 1 }
}

fn ready(sql: &str) -> SqlStatement {
    let db = db();
    let none = Params::new();
    let mut facts = Facts::new();
    let mut engine = SqlEngine::new();
    loop {
        match engine.execute_with_params(sql, &none, &db, &facts) {
            Ok(s) => return s,
            Err(e) => {
                let q = e.question.expect("a statement that can be planned");
                let a = answer(&q);
                facts.record(q, a);
            }
        }
    }
}

fn query(sql: &str) -> LogicalPlan {
    match ready(sql) {
        SqlStatement::Query(p) => p,
        SqlStatement::Explain(p) => p,
        other => panic!("no query: {:?}", other),
    }
}

fn step(sql: &str) -> QueryStep {
    next_query_step(&query(sql), &Vec::new(), &Params::new()).unwrap()
}

fn column(name: &str) -> Expr {
    Expr::Column(name.to_string(), None)
}

fn number(i: i64) -> Expr {
    Expr::Literal(DbValue::Int(i))
}

fn binary(l: Expr, op: Operator, r: Expr) -> Expr {
    Expr::BinaryOp { left: Box::new(l), op, right: Box::new(r) }
}

fn row(values: Vec<DbValue>) -> Row {
    Row::new(values)
}

fn t_schema() -> Schema {
    catalog().tables.swap_remove(0).1
}

fn u_ids() -> LogicalPlan {
    query("SELECT id FROM u")
}

fn rows_of(r: ExecutionResult) -> Vec<Vec<DbValue>> {
    match r {
        ExecutionResult::Select { rows, .. } => rows.into_iter().map(|r| r.values).collect(),
        other => panic!("no rows: {:?}", other),
    }
}

#[test]
fn a_key_is_looked_up() {
    let g = match step("SELECT name FROM t WHERE id = 5 AND age > 3") {
        QueryStep::Lookup(g) => g,
        other => panic!("no lookup: {:?}", other),
    };
    assert_eq!(g.key, DbKey::Int(5));
    assert_eq!(g.table_name, "t");
    let mut needed = g.needed_columns().names;
    needed.sort();
    assert_eq!(needed, vec!["age", "id", "name"]);
    assert_eq!(g.schema().columns[0].name, "name");
    let none = Params::new();
    let facts = Facts::new();
    let found = row(vec![DbValue::Int(5), DbValue::string("x"), DbValue::Int(4)]);
    let out = g.finish(Some(found), &none, &facts).unwrap();
    assert_eq!(rows_of(lookup_result(&g, out)), vec![vec![DbValue::string("x")]]);
    let young = row(vec![DbValue::Int(5), DbValue::string("x"), DbValue::Int(3)]);
    let out = g.finish(Some(young), &none, &facts).unwrap();
    assert_eq!(rows_of(lookup_result(&g, out)), Vec::<Vec<DbValue>>::new());
    assert!(g.finish(None, &none, &facts).unwrap().is_none());
}

#[test]
fn a_parameter_is_looked_up() {
    let db = db();
    let facts = Facts::new();
    let mut engine = SqlEngine::new();
    let prepared = engine.prepare("SELECT name FROM t WHERE id = :k", &db, &facts);
    // The costs are asked for first.
    assert!(prepared.unwrap_err().question.is_some());
    let prepared = {
        let mut facts = Facts::new();
        loop {
            match engine.prepare("SELECT name FROM t WHERE id = :k", &db, &facts) {
                Ok(p) => break p,
                Err(e) => {
                    let q = e.question.unwrap();
                    let a = answer(&q);
                    facts.record(q, a);
                }
            }
        }
    };
    let mut ps = Params::new();
    ps.insert("k", DbValue::Int(8));
    let s = engine.execute_prepared(&prepared, &ps, &db, &facts).unwrap();
    let p = match s {
        SqlStatement::Query(p) => p,
        other => panic!("{:?}", other),
    };
    match next_query_step(&p, &Vec::new(), &ps).unwrap() {
        QueryStep::Lookup(g) => assert_eq!(g.key, DbKey::Int(8)),
        other => panic!("no lookup: {:?}", other),
    }
    assert_eq!(
        text_of(&next_query_step(&p, &Vec::new(), &Params::new()).unwrap_err()),
        "Unbound parameter: k"
    );
    let mut ps = Params::new();
    ps.insert("k", DbValue::Bool(true));
    assert_eq!(
        text_of(&next_query_step(&p, &Vec::new(), &ps).unwrap_err()),
        "Unsupported key parameter type for k"
    );
}

#[test]
fn other_queries_are_compiled() {
    let p = match step("SELECT name FROM t WHERE age = 3") {
        QueryStep::Rows(p) => p,
        other => panic!("no rows: {:?}", other),
    };
    match &p {
        PhysicalPlan::Projection { source, .. } => match &**source {
            PhysicalPlan::Filter { source, predicate } => {
                assert_eq!(
                    *predicate,
                    binary(Expr::Column("age".to_string(), Some(2)), Operator::Eq, number(3))
                );
                match &**source {
                    PhysicalPlan::IndexScan { index_name, start, end, columns, .. } => {
                        assert_eq!(index_name, "idx_age");
                        assert_eq!((start, end), (&Some(DbKey::Int(3)), &Some(DbKey::Int(3))));
                        let mut names = columns.clone().unwrap();
                        names.sort();
                        names.dedup();
                        assert_eq!(names, vec!["age", "name"]);
                    }
                    other => panic!("no index scan: {:?}", other),
                }
            }
            other => panic!("no filter: {:?}", other),
        },
        other => panic!("no projection: {:?}", other),
    }
    let all = rows_result(&p, vec![row(vec![DbValue::string("a")])]);
    assert_eq!(rows_of(all), vec![vec![DbValue::string("a")]]);
    match stream_rows(p) {
        ExecutionStreamingResult::Streaming { schema, .. } => assert_eq!(schema.columns[0].name, "name"),
        other => panic!("no stream: {:?}", other),
    }
}

#[test]
fn joins_and_groups_are_compiled() {
    match step("SELECT t.id FROM t JOIN u ON t.id = u.tid") {
        QueryStep::Rows(PhysicalPlan::Projection { source, .. }) => match *source {
            PhysicalPlan::SortMergeJoin { left_on, right_on, .. } => {
                assert_eq!(left_on, Expr::Column("t.id".to_string(), Some(0)));
                assert_eq!(right_on, Expr::Column("u.tid".to_string(), Some(1)));
            }
            other => panic!("no join: {:?}", other),
        },
        other => panic!("no rows: {:?}", other),
    }
    match step("SELECT t.id FROM t CROSS JOIN u") {
        QueryStep::Rows(PhysicalPlan::Projection { source, .. }) => {
            assert!(matches!(*source, PhysicalPlan::CrossJoin { .. }));
        }
        other => panic!("no rows: {:?}", other),
    }
    // The rows come sorted where the grouping column has an index.
    match step("SELECT age, COUNT(*) FROM t GROUP BY age") {
        QueryStep::Rows(PhysicalPlan::Projection { source, .. }) => {
            assert!(matches!(*source, PhysicalPlan::SortedAggregate { .. }));
        }
        other => panic!("no rows: {:?}", other),
    }
    match step("SELECT name, COUNT(*) FROM t GROUP BY name") {
        QueryStep::Rows(PhysicalPlan::Projection { source, .. }) => {
            assert!(matches!(*source, PhysicalPlan::HashAggregate { .. }));
        }
        other => panic!("no rows: {:?}", other),
    }
    assert!(is_plan_sorted_by(&query("SELECT id FROM t"), &vec![column("id")]));
    assert!(!is_plan_sorted_by(&query("SELECT name FROM t"), &vec![column("name")]));
    assert!(!is_plan_sorted_by(&query("SELECT id FROM t"), &Vec::new()));
}

#[test]
fn subqueries_are_folded_in_turn() {
    let scan = LogicalPlan::Scan { table_name: "t".to_string(), schema: t_schema(), range: None };
    let p = LogicalPlan::Filter {
        source: Box::new(scan),
        predicate: Expr::InSubquery {
            expr: Box::new(column("id")),
            subquery: Box::new(u_ids()),
            negated: true,
        },
    };
    assert!(plan_contains_subquery(&p));
    let none = Params::new();
    let sub = match next_query_step(&p, &Vec::new(), &none).unwrap() {
        QueryStep::Subquery(q) => q,
        other => panic!("no subquery: {:?}", other),
    };
    let db = db();
    let compiled = solve(|f| plan_subquery(&sub, &db, &none, f)).unwrap();
    assert_eq!(compiled.schema().columns.len(), 1);
    let results =
        vec![SubqueryResult { columns: 1, rows: vec![row(vec![DbValue::Int(1)]), row(vec![DbValue::Int(2)])] }];
    match fold_subqueries(&p, &results).unwrap() {
        LogicalPlan::Filter { predicate, .. } => {
            let list = Expr::InList { expr: Box::new(column("id")), list: vec![number(1), number(2)] };
            assert_eq!(predicate, Expr::Not(Box::new(list)));
        }
        other => panic!("no filter: {:?}", other),
    }
    let wide = vec![SubqueryResult { columns: 2, rows: Vec::new() }];
    match fold_subqueries(&p, &wide) {
        Err(FoldStop::Failed(e)) => assert_eq!(text_of(&e), "IN subquery must return exactly one column"),
        other => panic!("no failure: {:?}", other),
    }
}

#[test]
fn scalar_subqueries_have_one_value() {
    let fold = |e: Expr, r: SubqueryResult| {
        let scan = LogicalPlan::Scan { table_name: "t".to_string(), schema: t_schema(), range: None };
        let p = LogicalPlan::Filter { source: Box::new(scan), predicate: e };
        match fold_subqueries(&p, &vec![r]) {
            Ok(LogicalPlan::Filter { predicate, .. }) => Ok(predicate),
            Err(FoldStop::Failed(e)) => Err(text_of(&e)),
            other => panic!("{:?}", other),
        }
    };
    let scalar = || Expr::ScalarSubquery(Box::new(u_ids()));
    let exists = |negated: bool| Expr::Exists { subquery: Box::new(u_ids()), negated };
    let one = || row(vec![DbValue::Int(9)]);
    assert_eq!(fold(scalar(), SubqueryResult { columns: 1, rows: vec![one()] }), Ok(number(9)));
    assert_eq!(
        fold(scalar(), SubqueryResult { columns: 1, rows: Vec::new() }),
        Ok(Expr::Literal(DbValue::Null))
    );
    assert_eq!(
        fold(scalar(), SubqueryResult { columns: 1, rows: vec![one(), one()] }),
        Err("scalar subquery returned more than one row".to_string())
    );
    assert_eq!(
        fold(scalar(), SubqueryResult { columns: 2, rows: vec![one()] }),
        Err("scalar subquery must return exactly one column".to_string())
    );
    assert_eq!(
        fold(exists(false), SubqueryResult { columns: 3, rows: vec![one()] }),
        Ok(Expr::Literal(DbValue::Bool(true)))
    );
    assert_eq!(
        fold(exists(true), SubqueryResult { columns: 3, rows: vec![one()] }),
        Ok(Expr::Literal(DbValue::Bool(false)))
    );
}

#[test]
fn plans_are_explained() {
    let db = db();
    let none = Params::new();
    let p = query("EXPLAIN SELECT name FROM t WHERE id = 5");
    let x = solve(|f| explain_plan(&p, &db, &none, f)).unwrap();
    let physical = match &x.physical {
        ExplainPhysical::Lookup(t) => t.clone(),
        other => panic!("no lookup: {:?}", other),
    };
    assert_eq!(physical, "- PhysicalPointGet: table=t, key=Int(5) (residual filter)\n");
    let rows = rows_of(explain_result(&x.logical, &x.optimized, &physical));
    let condition = "- Filter: condition=BinaryOp { left: Column(\"id\", None), op: Eq, right: Literal(Int(5)) }";
    let text = format!(
        "--- Logical Plan ---\n- Projection: fields=[\"name\"]\n  {}\n    - Scan: table=t, range=all\n\
         --- Optimized Plan ---\n- Projection: fields=[\"name\"]\n  {}\n    \
         - Scan: table=t, range=[Value(Int(5)), Value(Int(5))]\n\
         --- Physical Plan ---\n- PhysicalPointGet: table=t, key=Int(5) (residual filter)",
        condition, condition
    );
    assert_eq!(rows, vec![vec![DbValue::string(&text)]]);
    let p = query("EXPLAIN SELECT name FROM t");
    let x = solve(|f| explain_plan(&p, &db, &none, f)).unwrap();
    assert!(matches!(x.physical, ExplainPhysical::Rows(PhysicalPlan::Projection { .. })));
}

fn numbered() -> Schema {
    let mut id = key("id", DataType::Int);
    id.is_auto_increment = true;
    let mut name = Column::plain("name", DataType::String);
    name.default_value = Some(DbValue::string("none"));
    Schema::new(vec![id, name])
}

#[test]
fn inserted_rows_are_aligned() {
    let s = numbered();
    let name = |v: DbValue| align_row(&s, &vec!["name".to_string()], &vec![v]);
    let mut r = name(DbValue::string("a")).unwrap();
    assert_eq!(r.values, vec![DbValue::Null, DbValue::string("a")]);
    assert_eq!(next_sequence_step(&s, &r, 0), SequenceStep::Next(0));
    set_value(&mut r, 0, DbValue::Int(12));
    assert_eq!(next_sequence_step(&s, &r, 1), SequenceStep::Done);
    assert_eq!(next_sequence_step(&s, &r, 0), SequenceStep::Report(0, 12));
    assert_eq!(extract_primary_key(&s, &r).unwrap(), DbKey::Int(12));
    let r = align_row(&s, &vec!["id".to_string()], &vec![DbValue::Int(3)]).unwrap();
    assert_eq!(r.values, vec![DbValue::Int(3), DbValue::string("none")]);
    assert_eq!(
        text_of(&align_row(&s, &vec!["x".to_string()], &vec![DbValue::Null]).unwrap_err()),
        "Column 'x' not found in schema"
    );
    assert!(check_insert(false).is_ok());
    assert_eq!(text_of(&check_insert(true).unwrap_err()), "Duplicate primary key");
    assert!(check_select_columns(2, 2).is_ok());
    assert_eq!(
        text_of(&check_select_columns(2, 3).unwrap_err()),
        "INSERT INTO ... SELECT col count mismatch: target columns: 2, SELECT columns: 3"
    );
    match next_source_step(&query("SELECT id FROM u WHERE id = 1"), &Vec::new(), &Params::new()).unwrap() {
        QueryStep::Rows(_) => {}
        other => panic!("no rows: {:?}", other),
    }
}

#[test]
fn rows_are_updated_in_place_or_moved() {
    let s = numbered();
    let facts = Facts::new();
    let old = row(vec![DbValue::Int(1), DbValue::string("a")]);
    let rename = vec![("name".to_string(), Expr::Literal(DbValue::string("b")))];
    let u = update_row(&s, &old, &rename, &facts).unwrap();
    assert_eq!((u.old_key, u.new_key, u.moved), (DbKey::Int(1), DbKey::Int(1), false));
    assert_eq!(u.row.values, vec![DbValue::Int(1), DbValue::string("b")]);
    // Both assignments see the row as it was.
    let both = vec![
        ("id".to_string(), binary(column("id"), Operator::Add, number(1))),
        ("name".to_string(), column("id")),
    ];
    let u = update_row(&s, &old, &both, &facts).unwrap();
    assert_eq!((u.old_key, u.new_key, u.moved), (DbKey::Int(1), DbKey::Int(2), true));
    assert_eq!(u.row.values, vec![DbValue::Int(2), DbValue::Int(1)]);
    let unknown = vec![("x".to_string(), number(1))];
    assert_eq!(text_of(&update_row(&s, &old, &unknown, &facts).unwrap_err()), "Column 'x' not found in schema");
}

#[test]
fn changed_rows_are_found() {
    let db = db();
    let s = t_schema();
    let none = Params::new();
    let filter = Some(binary(column("id"), Operator::Eq, number(4)));
    match solve(|f| next_change_step("t", &s, &filter, &Vec::new(), &db, &none, f)).unwrap() {
        QueryStep::Rows(PhysicalPlan::Filter { source, .. }) => match *source {
            PhysicalPlan::SeqScan { start, end, columns, .. } => {
                assert_eq!((start, end), (Some(DbKey::Int(4)), Some(DbKey::Int(4))));
                assert!(columns.is_none());
            }
            other => panic!("no scan: {:?}", other),
        },
        other => panic!("no rows: {:?}", other),
    }
    match solve(|f| next_change_step("t", &s, &None, &Vec::new(), &db, &none, f)).unwrap() {
        QueryStep::Rows(PhysicalPlan::SeqScan { start, end, .. }) => {
            assert_eq!((start, end), (None, None));
        }
        other => panic!("no scan: {:?}", other),
    }
    let mut ps = Params::new();
    ps.insert("v", DbValue::Int(2));
    let assignments = vec![("age".to_string(), Expr::Parameter("v".to_string()))];
    let bound = fold_assignments(&assignments, &Vec::new(), 0, &ps).unwrap();
    assert_eq!(bound, vec![("age".to_string(), number(2))]);
    assert!(matches!(fold_assignments(&assignments, &Vec::new(), 0, &none), Err(FoldStop::Failed(_))));
}
