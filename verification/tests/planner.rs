//! Statements from text to plans.

use dtdb_sql::cost::TableStatistics;
use dtdb_sql::engine::Snapshot;
use dtdb_sql::explain::format_logical_plan;
use dtdb_sql::facts::{Answer, Facts, FloatOp, Question, SqlError};
use dtdb_sql::logical::LogicalPlan;
use dtdb_sql::optimizer::Optimizer;
use dtdb_sql::parse::parse_statement;
use dtdb_sql::planner::{Catalog, LogicalPlanner};
use dtdb_sql::schema::{Column, CompressionType, IndexDefinition, IndexType, Schema};
use dtdb_sql::statement::{AlterOp, SqlStatement};
use dtdb_sql::value::{DataType, DbValue, Decimal};

/// Answers a question about floats.
fn answer(q: &Question) -> Answer {
    let of = |bits: u64| f64::from_bits(bits);
    match q {
        Question::FloatArithmetic { op, left, right } => {
            let (l, r) = (of(*left), of(*right));
            let x = match op {
                FloatOp::Add => l + r,
                FloatOp::Sub => l - r,
                FloatOp::Mul => l * r,
                FloatOp::Div => l / r,
            };
            Answer::Float(x.to_bits())
        }
        Question::FloatOfInt(i) => Answer::Float((*i as f64).to_bits()),
        Question::IntOfFloat(f) => Answer::Int(of(*f) as i64),
        Question::FloatRounded(f) => Answer::Float(of(*f).round().to_bits()),
        Question::FloatText(f) => Answer::Text(of(*f).to_string()),
        Question::FloatShown(f) => Answer::Text(format!("{:?}", of(*f))),
        Question::FloatParsed(s) => {
            Answer::ParsedFloat(s.parse::<f64>().map(|f| f.to_bits()).map_err(|e| e.to_string()))
        }
        Question::DecimalOfFloat(f) => Answer::Decimal(
            rust_decimal::prelude::FromPrimitive::from_f64(of(*f))
                .and_then(|d: rust_decimal::Decimal| {
                    Decimal::signed(d.mantissa(), d.is_sign_negative(), d.scale())
                }),
        ),
        Question::FloatOfDecimal(d) => {
            let mut x = rust_decimal::Decimal::from_i128_with_scale(d.mantissa(), d.scale());
            x.set_sign_negative(d.is_negative());
            Answer::OptionalFloat(rust_decimal::prelude::ToPrimitive::to_f64(&x).map(f64::to_bits))
        }
        Question::FloatOfNat(n) => Answer::Float((*n as f64).to_bits()),
        Question::NatOfFloat(f) => Answer::Count(of(*f) as u64),
        other => panic!("unexpected question: {:?}", other),
    }
}

/// Runs a computation, answering its questions.
fn solve<T>(f: impl Fn(&Facts) -> Result<T, SqlError>) -> Result<T, String> {
    let mut facts = Facts::new();
    loop {
        match f(&facts) {
            Ok(x) => return Ok(x),
            Err(e) => match &e.question {
                Some(q) => {
                    let a = answer(q);
                    facts.record(q.clone(), a);
                }
                None => return Err(text_of(&e)),
            },
        }
    }
}

/// The text of an error.
fn text_of(e: &SqlError) -> String {
    let mut facts = Facts::new();
    loop {
        match e.message(&facts) {
            Ok(t) => return t,
            Err(p) => match &p.question {
                Some(q) => {
                    let a = answer(q);
                    facts.record(q.clone(), a);
                }
                None => panic!("no text for {:?}", e),
            },
        }
    }
}

fn key(name: &str, t: DataType) -> Column {
    let mut c = Column::plain(name, t);
    c.is_primary_key = true;
    c.is_nullable = false;
    c
}

fn catalog() -> Catalog {
    let mut t = Schema::new(vec![
        key("id", DataType::Int),
        Column::plain("name", DataType::String),
        Column::plain("age", DataType::Int),
    ]);
    t.indexes.push(IndexDefinition {
        name: "idx_age".to_string(),
        columns: vec!["age".to_string()],
        index_type: IndexType::BTree,
        tokenizer: None,
    });
    let u = Schema::new(vec![key("id", DataType::Int), Column::plain("tid", DataType::Int)]);
    Catalog { tables: vec![("t".to_string(), t), ("u".to_string(), u)] }
}

fn db() -> Snapshot {
    let none: Vec<(String, TableStatistics)> = Vec::new();
    Snapshot { planner: LogicalPlanner::new(catalog()), optimizer: Optimizer::new(none), version: 1 }
}

fn plan(sql: &str) -> Result<SqlStatement, String> {
    let db = db();
    let s = parse_statement(sql).map_err(|e| text_of(&e))?;
    solve(|f| db.planner.plan(&s, f))
}

fn query(sql: &str) -> LogicalPlan {
    match plan(sql).unwrap() {
        SqlStatement::Query(p) => p,
        other => panic!("no query: {:?}", other),
    }
}

fn planned(sql: &str) -> String {
    let p = query(sql);
    solve(|f| format_logical_plan(&p, f)).unwrap()
}

fn optimized(sql: &str) -> String {
    let db = db();
    let p = query(sql);
    let q = solve(|f| db.optimizer.optimize(&p, f)).unwrap();
    solve(|f| format_logical_plan(&q, f)).unwrap()
}

/// The locality group of the first column of a table, and two of the options of the first group.
fn planned_options(rest: &str) -> Result<(Option<String>, Option<CompressionType>, Option<u64>), String> {
    match plan(&format!("CREATE TABLE n ({}", rest))? {
        SqlStatement::CreateTable { schema, .. } => {
            let options = &schema.locality_group_options[0].1;
            Ok((schema.columns[0].locality_group.clone(), options.compression, options.max_level))
        }
        other => panic!("no table: {:?}", other),
    }
}

fn error(sql: &str) -> String {
    plan(sql).unwrap_err()
}

fn names(schema: &Schema) -> Vec<String> {
    schema.columns.iter().map(|c| c.name.clone()).collect()
}

#[test]
fn errors_show_the_expression_they_are_about() {
    assert_eq!(
        error("INSERT INTO t (id, name) VALUES (1, name)"),
        "INSERT expects literal values, got expression Column(\"name\", None)"
    );
    let joined = query("SELECT * FROM t JOIN u ON t.id < u.tid");
    let e = dtdb_sql::physical::compile_physical(&joined, &None, &dtdb_sql::params::Params::new()).unwrap_err();
    assert_eq!(
        e.message(&Facts::new()).unwrap(),
        "Only equality join conditions supported, got BinaryOp { left: Column(\"t.id\", None), op: Lt, right: Column(\"u.tid\", None) }"
    );
}

#[test]
fn a_wildcard_is_all_columns() {
    assert_eq!(
        planned("SELECT * FROM t"),
        "- Projection: fields=[\"t.id\", \"t.name\", \"t.age\"]\n  - Scan: table=t, range=all\n"
    );
    assert_eq!(names(&query("SELECT * FROM t").schema()), vec!["t.id", "t.name", "t.age"]);
}

#[test]
fn items_are_named_by_alias_column_or_text() {
    assert_eq!(
        planned("SELECT id, name AS n, age + 1 FROM t WHERE id = 5 AND age > 3"),
        "- Projection: fields=[\"id\", \"n\", \"age + 1\"]\n  \
         - Filter: condition=BinaryOp { left: BinaryOp { left: Column(\"id\", None), op: Eq, right: Literal(Int(5)) }, \
         op: And, right: BinaryOp { left: Column(\"age\", None), op: Gt, right: Literal(Int(3)) } }\n    \
         - Scan: table=t, range=all\n"
    );
}

#[test]
fn a_key_becomes_a_range() {
    assert_eq!(
        optimized("SELECT id FROM t WHERE id = 5"),
        "- Projection: fields=[\"id\"]\n  \
         - Filter: condition=BinaryOp { left: Column(\"id\", None), op: Eq, right: Literal(Int(5)) }\n    \
         - Scan: table=t, range=[Value(Int(5)), Value(Int(5))]\n"
    );
    assert_eq!(
        optimized("SELECT id FROM t WHERE id = :k"),
        "- Projection: fields=[\"id\"]\n  \
         - Filter: condition=BinaryOp { left: Column(\"id\", None), op: Eq, right: Parameter(\"k\") }\n    \
         - Scan: table=t, range=[Parameter(\"k\"), Parameter(\"k\")]\n"
    );
}

#[test]
fn an_index_becomes_a_scan() {
    assert_eq!(
        optimized("SELECT * FROM t WHERE age BETWEEN 1 AND 5"),
        "- Projection: fields=[\"t.id\", \"t.name\", \"t.age\"]\n  \
         - Filter: condition=BinaryOp { left: BinaryOp { left: Column(\"age\", None), op: GtEq, right: Literal(Int(1)) }, \
         op: And, right: BinaryOp { left: Column(\"age\", None), op: LtEq, right: Literal(Int(5)) } }\n    \
         - IndexScan: table=t, index=idx_age, range=[Value(Int(1)), Value(Int(5))]\n"
    );
}

#[test]
fn predicates_go_to_their_side_of_a_join() {
    assert_eq!(
        optimized("SELECT t.id, u.id FROM t JOIN u ON t.id = u.tid WHERE u.id = 7 AND t.age < 4"),
        "- Projection: fields=[\"t.id\", \"u.id\"]\n  \
         - HashJoin: type=Inner, condition=BinaryOp { left: Column(\"t.id\", None), op: Eq, right: Column(\"u.tid\", None) }\n    \
         left:\n      \
         - Filter: condition=BinaryOp { left: Column(\"t.age\", None), op: Lt, right: Literal(Int(4)) }\n        \
         - IndexScan: table=t, index=idx_age, range=[Value(Int(-9223372036854775808)), Value(Int(3))]\n    \
         right:\n      \
         - Filter: condition=BinaryOp { left: Column(\"u.id\", None), op: Eq, right: Literal(Int(7)) }\n        \
         - Scan: table=u, range=[Value(Int(7)), Value(Int(7))]\n"
    );
}

#[test]
fn joins_have_their_kinds() {
    assert!(planned("SELECT * FROM t LEFT JOIN u ON t.id = u.tid").contains("- HashJoin: type=Left, "));
    assert_eq!(
        planned("SELECT * FROM t CROSS JOIN u"),
        "- Projection: fields=[\"t.id\", \"t.name\", \"t.age\", \"u.id\", \"u.tid\"]\n  \
         - HashJoin: type=Cross, condition=Literal(Int(1))\n    \
         left:\n      - Scan: table=t, range=all\n    right:\n      - Scan: table=u, range=all\n"
    );
    assert!(error("SELECT * FROM t RIGHT JOIN u ON t.id = u.tid").starts_with("Unsupported JOIN operator: Right("));
}

#[test]
fn aggregates_are_grouped() {
    assert_eq!(
        planned(
            "SELECT name, COUNT(*), SUM(DISTINCT age) AS s FROM t GROUP BY name HAVING COUNT(*) > 1 \
             ORDER BY name DESC LIMIT 3 OFFSET 2"
        ),
        "- Limit: count=3, offset=2\n  \
         - Sort: keys=[\"Column(\\\"name\\\", None) DESC\"]\n    \
         - Projection: fields=[\"name\", \"COUNT(*)\", \"s\"]\n      \
         - Filter: condition=BinaryOp { left: Column(\"COUNT(*)\", None), op: Gt, right: Literal(Int(1)) }\n        \
         - HashAggregate: group_by=[Column(\"name\", None)], \
         aggregates=[Count { expr: Literal(Int(1)), distinct: false }, Sum { expr: Column(\"age\", None), distinct: true }], \
         output_names=[\"name\", \"COUNT(*)\", \"SUM(DISTINCT age)\"]\n          \
         - Scan: table=t, range=all\n"
    );
}

#[test]
fn set_operations_combine_queries() {
    assert_eq!(
        planned("SELECT id FROM t UNION ALL SELECT tid FROM u"),
        "- SetOp: op=Union, all=true\n  left:\n    - Projection: fields=[\"id\"]\n      - Scan: table=t, range=all\n  \
         right:\n    - Projection: fields=[\"tid\"]\n      - Scan: table=u, range=all\n"
    );
    assert_eq!(
        error("SELECT id, name FROM t UNION SELECT tid FROM u"),
        "Set operation queries must have the same number of columns (left: 2, right: 1)"
    );
    assert_eq!(
        error("SELECT name FROM t UNION SELECT tid FROM u"),
        "Column 1 type mismatch: left is String, right is Int"
    );
}

#[test]
fn distinct_limit_and_order() {
    assert_eq!(
        planned("SELECT DISTINCT name FROM t"),
        "- Distinct\n  - Projection: fields=[\"name\"]\n    - Scan: table=t, range=all\n"
    );
    assert_eq!(
        planned("SELECT name FROM t LIMIT 2, 5"),
        "- Limit: count=5, offset=2\n  - Projection: fields=[\"name\"]\n    - Scan: table=t, range=all\n"
    );
    assert_eq!(error("SELECT name FROM t LIMIT x"), "Unsupported limit expression");
    assert_eq!(error("SELECT name FROM t LIMIT 1.5"), "invalid digit found in string");
}

#[test]
fn an_index_order_makes_a_sort_unnecessary() {
    assert_eq!(
        optimized("SELECT age FROM t ORDER BY age"),
        "- Projection: fields=[\"age\"]\n  - IndexScan: table=t, index=idx_age, range=all\n"
    );
    assert_eq!(
        optimized("SELECT id FROM t ORDER BY id"),
        "- Projection: fields=[\"id\"]\n  - Scan: table=t, range=all\n"
    );
}

#[test]
fn scalar_expressions_are_planned() {
    assert_eq!(
        planned("SELECT -age, -5, NOT age IS NULL FROM t WHERE id NOT IN (1, 2.5) AND name IS NOT NULL"),
        "- Projection: fields=[\"-age\", \"-5\", \"NOT age IS NULL\"]\n  \
         - Filter: condition=BinaryOp { left: Not(InList { expr: Column(\"id\", None), list: [Literal(Int(1)), Literal(Float(2.5))] }), \
         op: And, right: Not(IsNull(Column(\"name\", None))) }\n    \
         - Scan: table=t, range=all\n"
    );
    assert_eq!(error("SELECT nope(1) FROM t"), "Unsupported or unrecognized function: nope");
    assert_eq!(
        error("SELECT * FROM t WHERE COUNT(*) > 1"),
        "Aggregate function COUNT cannot be used in scalar expression context"
    );
    assert!(error("SELECT * FROM t WHERE id IN (SELECT id FROM u)").starts_with("Unsupported expression: InSubquery"));
}

#[test]
fn what_cannot_be_planned_is_an_error() {
    assert_eq!(error("SELECT * FROM missing"), "Table 'missing' not found");
    assert_eq!(error("SELECT 1"), "SELECT requires a FROM table source");
    assert_eq!(error("SELECT * FROM t GROUP BY name"), "Wildcards not allowed in GROUP BY / Aggregations");
    assert_eq!(error("SELECT name FROM t GROUP BY ALL"), "GROUP BY ALL is not supported");
    assert_eq!(error("EXPLAIN DELETE FROM t"), "Can only EXPLAIN SELECT queries");
    assert!(error("BEGIN").starts_with("Unsupported SQL statement: "));
    assert_eq!(error("SELECT"), "sql parser error: Expected: an expression, found: EOF");
    assert_eq!(error(""), "No SQL statements found");
    assert!(error("SELECT 1; SELECT 2").starts_with("Multiple SQL statements"));
}

#[test]
fn rows_are_inserted() {
    match plan("INSERT INTO t (id, name) VALUES (1, 'a'), (-2, NULL)").unwrap() {
        SqlStatement::Insert { table_name, columns, rows } => {
            assert_eq!(table_name, "t");
            assert_eq!(columns, vec!["id", "name"]);
            assert_eq!(
                rows,
                vec![
                    vec![DbValue::Int(1), DbValue::string("a")],
                    vec![DbValue::Int(-2), DbValue::Null],
                ]
            );
        }
        other => panic!("{:?}", other),
    }
    match plan("INSERT INTO t VALUES (1, 'a', 3)").unwrap() {
        SqlStatement::Insert { columns, .. } => assert_eq!(columns, vec!["id", "name", "age"]),
        other => panic!("{:?}", other),
    }
    match plan("INSERT INTO t (id) SELECT id FROM u").unwrap() {
        SqlStatement::InsertSelect { table_name, columns, query } => {
            assert_eq!((table_name.as_str(), columns), ("t", vec!["id".to_string()]));
            assert_eq!(
                solve(|f| format_logical_plan(&query, f)).unwrap(),
                "- Projection: fields=[\"id\"]\n  - Scan: table=u, range=all\n"
            );
        }
        other => panic!("{:?}", other),
    }
    assert_eq!(
        error("INSERT INTO t (id, name) VALUES (1)"),
        "Column count mismatch: table has 2 columns but 1 values were provided"
    );
    assert_eq!(error("INSERT INTO t (id) VALUES (id + 1)"), "INSERT expects literal values, got expression BinaryOp { left: Column(\"id\", None), op: Add, right: Literal(Int(1)) }");
    assert_eq!(error("INSERT INTO missing VALUES (1)"), "Table 'missing' not found");
}

#[test]
fn rows_are_changed() {
    match plan("DELETE FROM t WHERE id = 3").unwrap() {
        SqlStatement::Delete { table_name, filter } => {
            assert_eq!(table_name, "t");
            assert!(filter.is_some());
        }
        other => panic!("{:?}", other),
    }
    match plan("UPDATE t SET age = age + 1, name = 'x'").unwrap() {
        SqlStatement::Update { table_name, assignments, filter } => {
            assert_eq!(table_name, "t");
            assert_eq!(assignments.iter().map(|a| a.0.as_str()).collect::<Vec<&str>>(), vec!["age", "name"]);
            assert!(filter.is_none());
        }
        other => panic!("{:?}", other),
    }
    assert_eq!(error("UPDATE t SET (a, b) = (1, 2)"), "Tuple assignments are not supported");
}

#[test]
fn tables_are_created() {
    let sql = "CREATE TABLE n (id INT PRIMARY KEY AUTO_INCREMENT, a TEXT NOT NULL DEFAULT 'q', b SERIAL, \
               c VARCHAR(8), d DOUBLE DEFAULT -1.5, e BOOLEAN, f BYTEA)";
    match plan(sql).unwrap() {
        SqlStatement::CreateTable { name, schema } => {
            assert_eq!(name, "n");
            let types: Vec<DataType> = schema.columns.iter().map(|c| c.data_type).collect();
            assert_eq!(
                types,
                vec![
                    DataType::Int,
                    DataType::String,
                    DataType::Int,
                    DataType::String,
                    DataType::Float,
                    DataType::Bool,
                    DataType::Bytes,
                ]
            );
            assert!(schema.columns[0].is_primary_key && schema.columns[0].is_auto_increment);
            assert!(!schema.columns[1].is_nullable);
            assert_eq!(schema.columns[1].default_value, Some(DbValue::string("q")));
            assert_eq!(schema.columns[4].default_value, Some(DbValue::Float((-1.5f64).to_bits())));
        }
        other => panic!("{:?}", other),
    }
    assert_eq!(
        error("CREATE TABLE n (a DECIMAL(10, 2))"),
        "Unsupported SQL data type: Decimal(PrecisionAndScale(10, 2))"
    );
    assert_eq!(
        planned_options("a INT) WITH (locality_groups = 'g:a:compression=LZ4,max_level=3')"),
        Ok((Some("g".to_string()), Some(CompressionType::Lz4), Some(3)))
    );
    assert_eq!(
        planned_options("a INT) WITH (locality_groups = 'g:a:compression=zip')"),
        Err("Unknown compression type: zip".to_string())
    );
    assert_eq!(
        planned_options("a INT) WITH (locality_groups = 'g:a:colour=red')"),
        Err("Unknown locality group option: colour".to_string())
    );
    assert_eq!(
        planned_options("a INT) WITH (locality_groups = 'g:a:max_level=x')"),
        Err("Invalid max_level: invalid digit found in string".to_string())
    );
}

#[test]
fn a_key_can_have_several_columns() {
    match plan("CREATE TABLE n (a INT, b VARCHAR(10), c INT, PRIMARY KEY (a, b))").unwrap() {
        SqlStatement::CreateTable { schema, .. } => {
            let keys: Vec<bool> = schema.columns.iter().map(|c| c.is_primary_key).collect();
            assert_eq!(keys, vec![true, true, false]);
        }
        other => panic!("{:?}", other),
    }
}

#[test]
fn tables_and_indexes_are_dropped_and_indexed() {
    match plan("DROP TABLE t").unwrap() {
        SqlStatement::DropTable { name } => assert_eq!(name, "t"),
        other => panic!("{:?}", other),
    }
    match plan("DROP INDEX idx_age").unwrap() {
        SqlStatement::DropIndex { table_name, index_name } => {
            assert_eq!((table_name.as_str(), index_name.as_str()), ("t", "idx_age"));
        }
        other => panic!("{:?}", other),
    }
    assert_eq!(error("DROP INDEX nope"), "Index 'nope' not found in database");
    assert_eq!(error("DROP VIEW v"), "Only DROP TABLE and DROP INDEX statements are supported");
    match plan("CREATE INDEX i ON t (age)").unwrap() {
        SqlStatement::CreateIndex { table_name, index_name, columns, index_type, tokenizer } => {
            assert_eq!((table_name.as_str(), index_name.as_str()), ("t", "i"));
            assert_eq!(columns, vec!["age"]);
            assert_eq!(index_type, IndexType::BTree);
            assert_eq!(tokenizer, None);
        }
        other => panic!("{:?}", other),
    }
    assert_eq!(error("CREATE INDEX ON t (age)"), "CREATE INDEX requires an index name");
    assert_eq!(
        error("CREATE INDEX i ON t (age + 1)"),
        "Only simple column identifiers are supported in CREATE INDEX"
    );
}

#[test]
fn tables_are_altered() {
    match plan("ALTER TABLE t ADD COLUMN z INT DEFAULT 4").unwrap() {
        SqlStatement::AlterTable { table_name, op: AlterOp::AddColumn(c) } => {
            assert_eq!(table_name, "t");
            assert_eq!((c.name.as_str(), c.default_value), ("z", Some(DbValue::Int(4))));
        }
        other => panic!("{:?}", other),
    }
    match plan("ALTER TABLE t RENAME COLUMN age TO years").unwrap() {
        SqlStatement::AlterTable { op: AlterOp::RenameColumn { old_name, new_name }, .. } => {
            assert_eq!((old_name.as_str(), new_name.as_str()), ("age", "years"));
        }
        other => panic!("{:?}", other),
    }
    assert!(error("ALTER TABLE t DROP COLUMN age").starts_with("Unsupported ALTER TABLE operation: "));
    assert_eq!(
        error("ALTER TABLE t ADD COLUMN a INT, ADD COLUMN b INT"),
        "ALTER TABLE supports exactly one operation per statement"
    );
    assert_eq!(
        error("ALTER TABLE t ADD COLUMN a INT PRIMARY KEY"),
        "ALTER TABLE ADD COLUMN cannot add a PRIMARY KEY column"
    );
}

#[test]
fn statistics_are_collected() {
    match plan("ANALYZE TABLE t").unwrap() {
        SqlStatement::Analyze { table_name } => assert_eq!(table_name, "t"),
        other => panic!("{:?}", other),
    }
}
