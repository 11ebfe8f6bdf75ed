//! Binding the parameters of statements.

use dtdb_sql::facts::{Answer, ErrorKind, Facts, Question, SqlError};
use dtdb_sql::parameters::{bind_expr, bind_statement, db_value_to_sql_expr};
use dtdb_sql::params::Params;
use dtdb_sql::parse::parse_statement;
use dtdb_sql::syntax::{SqlNode, SqlValue, Statement};
use dtdb_sql::value::{DbValue, Date, Decimal, Time, Timestamp};

fn params(pairs: &[(&str, DbValue)]) -> Params {
    let mut out = Params::new();
    for (k, v) in pairs {
        out.insert(k, v.clone());
    }
    out
}

/// The texts of floats.
fn float_facts(floats: &[f64]) -> Facts {
    let mut facts = Facts::new();
    for f in floats {
        facts.record(Question::FloatText(f.to_bits()), Answer::Text(f.to_string()));
    }
    facts
}

/// Binds a statement, and writes its literals and names one after the other.
fn bind_and_render(sql: &str, params: &Params) -> Result<String, SqlError> {
    let mut statement = parse_statement(sql)?;
    bind_statement(&mut statement, params, &float_facts(&[2.5]))?;
    Ok(render(&statement))
}

fn render(statement: &Statement) -> String {
    let mut out = String::new();
    for node in &statement.exprs {
        out.push(' ');
        match node {
            SqlNode::Value(SqlValue::Number(n)) => out.push_str(n),
            SqlNode::Value(SqlValue::SingleQuotedString(s)) => out.push_str(&format!("'{}'", s)),
            SqlNode::Value(SqlValue::Boolean(b)) => out.push_str(&b.to_string()),
            SqlNode::Value(SqlValue::Null) => out.push_str("NULL"),
            SqlNode::Value(SqlValue::Placeholder(p)) => out.push_str(p),
            SqlNode::Value(SqlValue::HexStringLiteral(h)) => out.push_str(&format!("X'{}'", h)),
            SqlNode::Identifier { value, .. } => out.push_str(value),
            _ => out.push('.'),
        }
    }
    out
}

#[test]
fn binds_named_placeholder_in_select_where() {
    let p = params(&[("id", DbValue::Int(42))]);
    let out = bind_and_render("SELECT * FROM t WHERE id = :id", &p).unwrap();
    assert!(out.contains("42"), "got: {out}");
    assert!(!out.contains(':'), "placeholder not substituted: {out}");
}

#[test]
fn binds_at_identifier_parameter() {
    let p = params(&[("name", DbValue::string("alice"))]);
    let out = bind_and_render("SELECT * FROM t WHERE name = @name", &p).unwrap();
    assert!(out.contains("'alice'"), "got: {out}");
    assert!(!out.contains('@'), "got: {out}");
}

#[test]
fn unbound_parameters_error() {
    let empty = params(&[]);
    assert!(bind_and_render("SELECT * FROM t WHERE id = :id", &empty).is_err());
    assert!(bind_and_render("SELECT * FROM t WHERE id = @id", &empty).is_err());
}

#[test]
fn binds_all_db_value_types() {
    let p = params(&[
        ("i", DbValue::Int(1)),
        ("f", DbValue::Float(2.5f64.to_bits())),
        ("b", DbValue::Bool(true)),
        ("s", DbValue::string("hi")),
        ("n", DbValue::Null),
        ("by", DbValue::bytes(vec![0xde, 0xad])),
    ]);
    let out = bind_and_render(
        "SELECT * FROM t WHERE i = :i AND f = :f AND b = :b AND s = :s AND n = :n AND by = :by",
        &p,
    )
    .unwrap();
    assert!(out.contains('1'));
    assert!(out.contains("2.5"));
    assert!(out.contains("true") || out.contains("TRUE"));
    assert!(out.contains("'hi'"));
    assert!(out.to_uppercase().contains("NULL"));
    // Bytes render as a hex string literal.
    assert!(out.to_lowercase().contains("dead"), "got: {out}");
}

#[test]
fn binds_inside_expression_nodes() {
    // Exercise BinaryOp, Between, Function args, Like, InList, IsNull, Nested, UnaryOp, Case.
    let p = params(&[
        ("lo", DbValue::Int(1)),
        ("hi", DbValue::Int(10)),
        ("pat", DbValue::string("a%")),
        ("x", DbValue::Int(5)),
        ("y", DbValue::Int(6)),
        ("z", DbValue::Int(7)),
    ]);
    let sql = "SELECT * FROM t WHERE (a BETWEEN :lo AND :hi) \
               AND b LIKE :pat \
               AND c IN (:x, :y) \
               AND ABS(:z) > 0 \
               AND d IS NOT NULL \
               AND -:x < 0";
    let out = bind_and_render(sql, &p).unwrap();
    assert!(!out.contains(':'), "unbound placeholders remain: {out}");
}

#[test]
fn binds_in_insert_update_delete() {
    let p = params(&[("v", DbValue::Int(9)), ("w", DbValue::string("x")), ("id", DbValue::Int(3))]);
    let insert = bind_and_render("INSERT INTO t (a) VALUES (:v)", &p).unwrap();
    assert!(insert.contains('9') && !insert.contains(':'), "got: {insert}");

    let update = bind_and_render("UPDATE t SET a = :w WHERE id = :id", &p).unwrap();
    assert!(update.contains("'x'") && update.contains('3'), "got: {update}");

    let delete = bind_and_render("DELETE FROM t WHERE id = :id", &p).unwrap();
    assert!(delete.contains('3') && !delete.contains(':'), "got: {delete}");
}

#[test]
fn binds_in_join_subquery_and_order_limit() {
    let p = params(&[("j", DbValue::Int(1)), ("s", DbValue::Int(2)), ("n", DbValue::Int(5))]);
    let sql = "SELECT * FROM a JOIN (SELECT * FROM b WHERE b.x = :s) sub \
               ON a.id = sub.id AND a.k = :j \
               ORDER BY a.id \
               LIMIT :n";
    let out = bind_and_render(sql, &p).unwrap();
    assert!(!out.contains(':'), "unbound placeholders remain: {out}");
}

#[test]
fn binds_through_explain_and_set_operations() {
    let p = params(&[("x", DbValue::Int(1)), ("y", DbValue::Int(2))]);
    let explain = bind_and_render("EXPLAIN SELECT * FROM t WHERE a = :x", &p).unwrap();
    assert!(!explain.contains(':'), "got: {explain}");

    let union = bind_and_render("SELECT a FROM t WHERE a = :x UNION SELECT b FROM u WHERE b = :y", &p).unwrap();
    assert!(!union.contains(':'), "got: {union}");
}

#[test]
fn bind_expr_leaves_non_parameter_literals_untouched() {
    let p = params(&[]);
    // No placeholders at all -> unchanged and no error.
    let out = bind_and_render("SELECT * FROM t WHERE a = 1 AND b = 'x'", &p).unwrap();
    assert!(out.contains('1') && out.contains("'x'"));
}

#[test]
fn binding_writes_each_kind_of_literal() {
    let facts = float_facts(&[2.5, 3.0]);
    let literal = |v: DbValue| db_value_to_sql_expr(&v, &facts).unwrap();
    assert_eq!(literal(DbValue::Int(-7)), SqlNode::Value(SqlValue::Number("-7".to_string())));
    assert_eq!(literal(DbValue::Float(3.0f64.to_bits())), SqlNode::Value(SqlValue::Number("3".to_string())));
    assert_eq!(literal(DbValue::Bool(false)), SqlNode::Value(SqlValue::Boolean(false)));
    assert_eq!(
        literal(DbValue::bytes(vec![0, 15, 16, 255])),
        SqlNode::Value(SqlValue::HexStringLiteral("000f10ff".to_string()))
    );
    let d = Date::from_days(chrono::Datelike::num_days_from_ce(&chrono::NaiveDate::from_ymd_opt(2026, 6, 2).unwrap()))
        .unwrap();
    let t = Time::from_secs_nanos(3723, 500_000_000).unwrap();
    let quoted = |s: &str| SqlNode::Value(SqlValue::SingleQuotedString(s.to_string()));
    assert_eq!(literal(DbValue::Date(d)), quoted("2026-06-02"));
    assert_eq!(literal(DbValue::Time(t)), quoted("01:02:03.500"));
    assert_eq!(literal(DbValue::Timestamp(Timestamp { date: d, time: t })), quoted("2026-06-02 01:02:03.500"));
    assert_eq!(
        literal(DbValue::Decimal(Decimal::new(12345, 2).unwrap())),
        SqlNode::Value(SqlValue::Number("123.45".to_string()))
    );
}

#[test]
fn an_unknown_float_text_is_asked_for() {
    let e = db_value_to_sql_expr(&DbValue::Float(2.5f64.to_bits()), &Facts::new()).unwrap_err();
    assert_eq!(e.kind, ErrorKind::Pending);
    assert_eq!(e.question, Some(Question::FloatText(2.5f64.to_bits())));
}

#[test]
fn an_unbound_parameter_changes_nothing() {
    let mut statement = parse_statement("SELECT * FROM t WHERE a = :x AND b = :y").unwrap();
    let before = statement.copy();
    let e = bind_statement(&mut statement, &params(&[("x", DbValue::Int(1))]), &Facts::new()).unwrap_err();
    assert_eq!(e.kind, ErrorKind::UnboundParameter);
    assert_eq!(e.message(&Facts::new()).unwrap(), "Unbound parameter: :y");
    assert_eq!(statement, before);

    let mut nodes = vec![SqlNode::Identifier { value: "@p".to_string(), quote: None }];
    let e = bind_expr(&mut nodes, &params(&[]), &Facts::new()).unwrap_err();
    assert_eq!(e.message(&Facts::new()).unwrap(), "Unbound parameter: @p");
}

#[test]
fn a_placeholder_is_looked_up_without_and_with_its_colon() {
    let p = params(&[(":a", DbValue::Int(1)), ("$1", DbValue::Int(2))]);
    let out = bind_and_render("SELECT * FROM t WHERE x = :a AND y = $1", &p).unwrap();
    assert!(out.contains(" 1") && out.contains(" 2"), "got: {out}");
}

#[test]
fn definitions_keep_their_placeholders() {
    let out = bind_and_render("CREATE TABLE t (a INT DEFAULT :x)", &params(&[])).unwrap();
    assert!(out.contains(":x"), "got: {out}");
}

#[test]
fn parameters_are_bound_at_any_depth() {
    let p = params(&[("p", DbValue::Int(7)), ("q", DbValue::string("x"))]);
    let sql = "SELECT CAST(:p AS INT), a ILIKE @q, :p IS TRUE, SUM(a) OVER (ORDER BY :p) FROM t";
    assert_eq!(bind_and_render(sql, &p).unwrap(), " 7 . a 'x' . 7 . a 7 .");
    let e = bind_and_render(sql, &params(&[("q", DbValue::string("x"))])).unwrap_err();
    assert_eq!((e.kind, e.names), (ErrorKind::UnboundParameter, vec![":p".to_string()]));
    let mut search = parse_statement("SELECT a FROM t WHERE MATCH (a) AGAINST (:q)").unwrap();
    bind_statement(&mut search, &p, &Facts::new()).unwrap();
    assert_eq!(
        search.exprs[1],
        SqlNode::MatchAgainst {
            columns: vec!["a".to_string()],
            value: SqlValue::SingleQuotedString("x".to_string()),
        }
    );
}
