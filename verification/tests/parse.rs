//! Statements from text: what the parser's trees become.

use dtdb_sql::facts::ErrorKind;
use dtdb_sql::parse::parse_sql;
use dtdb_sql::syntax::{
    AlterOperation, Assignment, AssignmentTarget, ColumnDef, ColumnOption, DropKind, FunctionArgument,
    FunctionArguments, GroupBy, InsertTable, JoinConstraint, JoinKind, LimitClause, NamePart, ObjectName, OptionToken,
    OrderBy, OrderItem, Query, Select, SelectItem, SetNode, SetOperator, SqlBinaryOperator, SqlDataType, SqlNode,
    SqlUnaryOperator, SqlValue, Statement, StatementBody, TableConstraint, TableFactor, TableOption, ValuesRow,
};

fn one(sql: &str) -> Statement {
    let mut all = parse_sql(sql).unwrap();
    assert_eq!(all.len(), 1);
    all.remove(0)
}

fn select(s: &Statement, at: usize) -> &Select {
    match &s.sets[at] {
        SetNode::Select(x) => x,
        other => panic!("no SELECT: {:?}", other),
    }
}

fn query(s: &Statement) -> &Query {
    match &s.body {
        StatementBody::Query(q) => q,
        other => panic!("no query: {:?}", other),
    }
}

fn name(n: &str) -> SqlNode {
    SqlNode::Identifier { value: n.to_string(), quote: None }
}

fn number(n: &str) -> SqlNode {
    SqlNode::Value(SqlValue::Number(n.to_string()))
}

fn string(s: &str) -> SqlNode {
    SqlNode::Value(SqlValue::SingleQuotedString(s.to_string()))
}

fn binary(left: usize, op: SqlBinaryOperator, right: usize) -> SqlNode {
    SqlNode::BinaryOp { left, op, right }
}

fn table(name: &str) -> TableFactor {
    TableFactor::Table { name: name.to_string(), alias: None }
}

fn plain_name(n: &str) -> ObjectName {
    ObjectName { parts: vec![NamePart::Ident(n.to_string())], text: n.to_string() }
}

#[test]
fn text_that_is_no_sql_is_refused() {
    let e = parse_sql("SELEC 1").unwrap_err();
    assert_eq!(e.kind, ErrorKind::Syntax);
    assert_eq!(parse_sql("").unwrap().len(), 0);
    assert_eq!(parse_sql("SELECT 1; SELECT 2; SELECT 3").unwrap().len(), 3);
}

#[test]
fn operands_stand_before_what_they_belong_to() {
    let s = one("SELECT a.b, 'x', -1, NOT (c IS NULL), \"d\" IS NOT NULL FROM t");
    assert_eq!(
        s.exprs,
        vec![
            SqlNode::CompoundIdentifier(vec!["a".to_string(), "b".to_string()]),
            string("x"),
            number("1"),
            SqlNode::UnaryOp { op: SqlUnaryOperator::Minus, expr: 2 },
            name("c"),
            SqlNode::IsNull(4),
            SqlNode::Nested(5),
            SqlNode::UnaryOp { op: SqlUnaryOperator::Not, expr: 6 },
            SqlNode::Identifier { value: "d".to_string(), quote: Some('"') },
            SqlNode::IsNotNull(8),
        ]
    );
    let x = select(&s, 0);
    assert!(!x.distinct);
    assert_eq!(x.projection[0], SelectItem::Unnamed { expr: 0, text: "a.b".to_string() });
    assert_eq!(x.projection[3], SelectItem::Unnamed { expr: 7, text: "NOT (c IS NULL)".to_string() });
    assert_eq!(x.projection[4], SelectItem::Unnamed { expr: 9, text: "\"d\" IS NOT NULL".to_string() });
    assert_eq!(x.from.len(), 1);
    assert_eq!(x.from[0].relation, table("t"));
    assert_eq!(s.explained, 0);
}

#[test]
fn tests_are_taken_apart() {
    let s = one("SELECT * FROM t WHERE a LIKE 'x%' AND b NOT BETWEEN 1 AND 2 OR c IN (3, 4)");
    assert_eq!(
        s.exprs,
        vec![
            name("a"),
            string("x%"),
            SqlNode::Like { negated: false, expr: 0, pattern: 1 },
            name("b"),
            number("1"),
            number("2"),
            SqlNode::Between { expr: 3, negated: true, low: 4, high: 5 },
            binary(2, SqlBinaryOperator::And, 6),
            name("c"),
            number("3"),
            number("4"),
            SqlNode::InList { expr: 8, list: vec![9, 10], negated: false },
            binary(7, SqlBinaryOperator::Or, 11),
        ]
    );
    assert_eq!(select(&s, 0).selection, Some(12));
    assert_eq!(select(&s, 0).projection, vec![SelectItem::Wildcard]);
}

#[test]
fn operators_are_told_apart() {
    let text = "SELECT 1 = 2, 1 > 2, 1 < 2, 1 >= 2, 1 <= 2, 1 <> 2, 1 + 2, 1 - 2, 1 * 2, 1 / 2, +1, 1 % 2";
    let s = one(text);
    let ops = vec![
        SqlBinaryOperator::Eq,
        SqlBinaryOperator::Gt,
        SqlBinaryOperator::Lt,
        SqlBinaryOperator::GtEq,
        SqlBinaryOperator::LtEq,
        SqlBinaryOperator::NotEq,
        SqlBinaryOperator::Plus,
        SqlBinaryOperator::Minus,
        SqlBinaryOperator::Multiply,
        SqlBinaryOperator::Divide,
    ];
    let mut at = 0;
    for op in ops {
        assert_eq!(s.exprs[at + 2], binary(at, op, at + 1));
        at += 3;
    }
    assert_eq!(s.exprs[at + 1], SqlNode::UnaryOp { op: SqlUnaryOperator::Plus, expr: at });
    assert_eq!(s.exprs[at + 4], binary(at + 2, SqlBinaryOperator::Other("Modulo".to_string()), at + 3));
}

#[test]
fn literals_are_told_apart() {
    let s = one("SELECT TRUE, NULL, ?, X'1f', 1.50");
    assert_eq!(
        s.exprs,
        vec![
            SqlNode::Value(SqlValue::Boolean(true)),
            SqlNode::Value(SqlValue::Null),
            SqlNode::Value(SqlValue::Placeholder("?".to_string())),
            SqlNode::Value(SqlValue::HexStringLiteral("1f".to_string())),
            number("1.50"),
        ]
    );
}

#[test]
fn calls_are_taken_apart() {
    let s = one("SELECT CASE a WHEN 1 THEN 'x' ELSE 'y' END, SUBSTRING(s FROM 2 FOR 3), COUNT(*), COUNT(DISTINCT b)");
    assert_eq!(
        s.exprs,
        vec![
            name("a"),
            number("1"),
            string("x"),
            string("y"),
            SqlNode::Case { operand: Some(0), conditions: vec![1], results: vec![2], else_result: Some(3) },
            name("s"),
            number("2"),
            number("3"),
            SqlNode::Substring { expr: 5, from: Some(6), count: Some(7) },
            SqlNode::Function {
                name: "COUNT".to_string(),
                text: "COUNT(*)".to_string(),
                args: FunctionArguments::List { args: vec![FunctionArgument::Wildcard], distinct: false },
            },
            name("b"),
            SqlNode::Function {
                name: "COUNT".to_string(),
                text: "COUNT(DISTINCT b)".to_string(),
                args: FunctionArguments::List { args: vec![FunctionArgument::Unnamed(10)], distinct: true },
            },
        ]
    );
    let s = one("SELECT CURRENT_DATE, f(x => 1)");
    assert!(matches!(&s.exprs[0], SqlNode::Function { args: FunctionArguments::Absent, .. }));
    assert_eq!(
        s.exprs[2],
        SqlNode::Function {
            name: "f".to_string(),
            text: "f(x => 1)".to_string(),
            args: FunctionArguments::List { args: vec![FunctionArgument::Named(1)], distinct: false },
        }
    );
}

#[test]
fn searches_of_text_are_taken_apart() {
    let s = one("SELECT MATCH (title, body) AGAINST ('rust')");
    assert_eq!(
        s.exprs,
        vec![SqlNode::MatchAgainst {
            columns: vec!["title".to_string(), "body".to_string()],
            value: SqlValue::SingleQuotedString("rust".to_string()),
        }]
    );
}

#[test]
fn parts_of_subqueries_are_kept() {
    let s = one("SELECT * FROM t WHERE a IN (SELECT b FROM u WHERE c = ?)");
    assert_eq!(s.exprs[0], name("a"));
    assert_eq!(s.exprs[1], name("b"));
    assert_eq!(s.exprs[3], SqlNode::Value(SqlValue::Placeholder("?".to_string())));
    assert_eq!(s.exprs[4], binary(2, SqlBinaryOperator::Eq, 3));
    assert!(matches!(&s.exprs[5], SqlNode::Other { text, operands } if text.starts_with("InSubquery") && *operands == vec![0]));
    assert_eq!(s.sets.len(), 2);
    assert_eq!(query(&s).body, 1);
    let s = one("SELECT (SELECT 1), EXISTS (SELECT 2)");
    assert_eq!(s.exprs.len(), 4);
    assert!(matches!(&s.exprs[1], SqlNode::Other { text, .. } if text.starts_with("Subquery")));
    assert!(matches!(&s.exprs[3], SqlNode::Other { text, .. } if text.starts_with("Exists")));
}

#[test]
fn clauses_of_queries_are_taken_apart() {
    let s = one("SELECT DISTINCT a AS x FROM t GROUP BY a, b HAVING c > 1 ORDER BY d DESC, e LIMIT 10 OFFSET 5");
    let x = select(&s, 0);
    assert!(x.distinct);
    assert_eq!(x.projection, vec![SelectItem::Aliased { expr: 0, alias: "x".to_string() }]);
    assert_eq!(x.selection, None);
    assert_eq!(x.group_by, GroupBy::Expressions { exprs: vec![1, 2], modified: false });
    assert_eq!(x.having, Some(5));
    assert_eq!(
        query(&s).order_by,
        OrderBy::Expressions(vec![OrderItem { expr: 6, asc: Some(false) }, OrderItem { expr: 7, asc: None }])
    );
    assert_eq!(query(&s).limit, LimitClause::LimitOffset { limit: Some(8), offset: Some(9) });
    assert_eq!(s.exprs[8], number("10"));
    assert_eq!(s.exprs[9], number("5"));
    let s = one("SELECT a FROM t LIMIT 5, 10");
    assert_eq!(s.exprs[1], number("5"));
    assert_eq!(query(&s).limit, LimitClause::LimitOffset { limit: Some(2), offset: Some(1) });
    assert_eq!(query(&s).order_by, OrderBy::Expressions(vec![]));
    assert_eq!(select(&one("SELECT a FROM t GROUP BY ALL"), 0).group_by, GroupBy::All);
    assert_eq!(query(&one("SELECT a FROM t")).limit, LimitClause::Absent);
}

#[test]
fn bodies_stand_before_what_they_belong_to() {
    let s = one("SELECT 1 UNION ALL (VALUES (2, 3), (4, 5))");
    assert_eq!(s.sets[1], SetNode::Values(vec![ValuesRow { exprs: vec![1, 2] }, ValuesRow { exprs: vec![3, 4] }]));
    assert!(matches!(&s.sets[2], SetNode::Query(q) if q.body == 1));
    assert_eq!(s.sets[3], SetNode::SetOperation { op: SetOperator::Union, all: true, left: 0, right: 2 });
    assert_eq!(query(&s).body, 3);
    let s = one("SELECT 1 EXCEPT SELECT 2 INTERSECT SELECT 3");
    assert_eq!(s.sets[3], SetNode::SetOperation { op: SetOperator::Intersect, all: false, left: 1, right: 2 });
    assert_eq!(s.sets[4], SetNode::SetOperation { op: SetOperator::Except, all: false, left: 0, right: 3 });
}

#[test]
fn joins_are_taken_apart() {
    let s = one(
        "SELECT * FROM t AS x JOIN u ON x.a = u.a INNER JOIN v USING (a) LEFT JOIN w ON 1 CROSS JOIN y RIGHT JOIN z ON 2",
    );
    let from = &select(&s, 0).from[0];
    assert_eq!(from.relation, TableFactor::Table { name: "t".to_string(), alias: Some("x".to_string()) });
    let kinds: Vec<JoinKind> = from.joins.iter().map(|j| j.kind).collect();
    assert_eq!(
        kinds,
        vec![JoinKind::Join, JoinKind::Inner, JoinKind::Left, JoinKind::CrossJoin, JoinKind::Other]
    );
    let constraints: Vec<JoinConstraint> = from.joins.iter().map(|j| j.constraint).collect();
    assert_eq!(
        constraints,
        vec![
            JoinConstraint::On(2),
            JoinConstraint::Other,
            JoinConstraint::On(3),
            JoinConstraint::Absent,
            JoinConstraint::On(4),
        ]
    );
    assert_eq!(from.joins[0].relation, table("u"));
    assert!(from.joins[4].text.starts_with("Right"));
    let s = one("SELECT * FROM (SELECT a FROM t) AS d");
    assert!(matches!(&select(&s, 1).from[0].relation, TableFactor::Other(t) if t.starts_with("Derived")));
    assert_eq!(s.exprs, vec![name("a")]);
}

#[test]
fn tables_are_taken_apart() {
    let s = one(
        "CREATE TABLE t (a INTEGER PRIMARY KEY, b VARCHAR(10) NOT NULL DEFAULT 'x', c DOUBLE, d JSONX UNIQUE, \
         PRIMARY KEY (a, b), UNIQUE (c)) WITH (shards = 4)",
    );
    let column = |n: &str, data_type, options| ColumnDef { name: n.to_string(), data_type, options };
    assert_eq!(
        s.body,
        StatementBody::CreateTable {
            name: "t".to_string(),
            columns: vec![
                column("a", SqlDataType::Integer, vec![ColumnOption::PrimaryKey]),
                column("b", SqlDataType::Varchar, vec![ColumnOption::NotNull, ColumnOption::Default(0)]),
                column("c", SqlDataType::Double, vec![]),
                column("d", SqlDataType::Custom("JSONX".to_string()), vec![ColumnOption::Other]),
            ],
            constraints: vec![TableConstraint::PrimaryKey(vec![1, 2]), TableConstraint::Other],
            options: vec![TableOption::KeyValue { key: "shards".to_string(), value: 3 }],
        }
    );
    assert_eq!(s.exprs, vec![string("x"), name("a"), name("b"), number("4")]);
    let s = one("CREATE TABLE t (a INT AUTO_INCREMENT)");
    match s.body {
        StatementBody::CreateTable { columns, .. } => assert_eq!(
            columns[0].options,
            vec![ColumnOption::DialectSpecific(vec![OptionToken::Word("AUTO_INCREMENT".to_string())])]
        ),
        other => panic!("no table: {:?}", other),
    }
}

#[test]
fn types_of_columns_are_told_apart() {
    let s = one(
        "CREATE TABLE t (a INT, b BIGINT, c FLOAT, d REAL, e BOOLEAN, f BOOL, g TEXT, h CHAR(3), i STRING, j BYTEA, \
         k BLOB, l TIMESTAMP)",
    );
    let columns = match s.body {
        StatementBody::CreateTable { columns, .. } => columns,
        other => panic!("no table: {:?}", other),
    };
    let types: Vec<SqlDataType> = columns.into_iter().map(|c| c.data_type).collect();
    assert_eq!(
        types[..11],
        [
            SqlDataType::Int,
            SqlDataType::BigInt,
            SqlDataType::Float,
            SqlDataType::Real,
            SqlDataType::Boolean,
            SqlDataType::Bool,
            SqlDataType::Text,
            SqlDataType::Char,
            SqlDataType::Str,
            SqlDataType::Bytea,
            SqlDataType::Blob,
        ]
    );
    assert!(matches!(&types[11], SqlDataType::Other(t) if t.starts_with("Timestamp")));
}

#[test]
fn definitions_are_taken_apart() {
    let s = one("CREATE INDEX i ON t USING fulltext (a, b)");
    assert_eq!(
        s.body,
        StatementBody::CreateIndex {
            name: Some("i".to_string()),
            table_name: "t".to_string(),
            columns: vec![0, 1],
            using: Some("fulltext".to_string()),
        }
    );
    assert_eq!(s.exprs, vec![name("a"), name("b")]);
    let s = one("CREATE INDEX i ON t USING BTREE (a)");
    assert!(matches!(&s.body, StatementBody::CreateIndex { using: Some(u), .. } if u == "BTREE"));
    assert_eq!(
        one("DROP TABLE a, b").body,
        StatementBody::Drop { kind: DropKind::Table, names: vec!["a".to_string(), "b".to_string()] }
    );
    assert_eq!(one("DROP INDEX i").body, StatementBody::Drop { kind: DropKind::Index, names: vec!["i".to_string()] });
    assert_eq!(one("DROP VIEW v").body, StatementBody::Drop { kind: DropKind::Other, names: vec!["v".to_string()] });
    let s = one("ALTER TABLE t ADD COLUMN a INT DEFAULT 7, RENAME COLUMN b TO c, DROP COLUMN d");
    match s.body {
        StatementBody::AlterTable { name, operations } => {
            assert_eq!(name, "t");
            assert_eq!(
                operations[0],
                AlterOperation::AddColumn(ColumnDef {
                    name: "a".to_string(),
                    data_type: SqlDataType::Int,
                    options: vec![ColumnOption::Default(0)],
                })
            );
            assert_eq!(
                operations[1],
                AlterOperation::RenameColumn { old_name: "b".to_string(), new_name: "c".to_string() }
            );
            assert!(matches!(&operations[2], AlterOperation::Other(t) if t.starts_with("DropColumn")));
        },
        other => panic!("no alteration: {:?}", other),
    }
}

#[test]
fn changes_are_taken_apart() {
    let s = one("INSERT INTO t (a, b) VALUES (1, 2)");
    assert_eq!(
        s.body,
        StatementBody::Insert {
            table: InsertTable::Name("t".to_string()),
            columns: vec![plain_name("a"), plain_name("b")],
            source: Some(Query { body: 0, order_by: OrderBy::Expressions(vec![]), limit: LimitClause::Absent }),
        }
    );
    assert_eq!(s.sets, vec![SetNode::Values(vec![ValuesRow { exprs: vec![0, 1] }])]);
    let s = one("DELETE FROM t WHERE a = 1");
    assert_eq!(s.body, StatementBody::Delete { from: vec![table("t")], selection: Some(2) });
    let s = one("UPDATE t SET a = 1, (b, c) = (2, 3) WHERE d");
    match s.body {
        StatementBody::Update { table: target, assignments, selection } => {
            assert_eq!(target, table("t"));
            assert_eq!(
                assignments[0],
                Assignment { target: AssignmentTarget::Column(plain_name("a")), value: 0 }
            );
            assert_eq!(assignments[1].target, AssignmentTarget::Tuple);
            assert_eq!(selection, Some(s.exprs.len() - 1));
        },
        other => panic!("no update: {:?}", other),
    }
}

#[test]
fn other_statements_are_told_apart() {
    assert_eq!(one("ANALYZE TABLE t").body, StatementBody::Analyze { table_name: Some("t".to_string()) });
    let s = one("EXPLAIN SELECT 1");
    assert_eq!(s.explained, 1);
    assert_eq!(s.exprs, vec![number("1")]);
    assert!(matches!(s.body, StatementBody::Query(_)));
    assert!(matches!(&one("COMMIT").body, StatementBody::Other(t) if t.starts_with("Commit")));
}

#[test]
fn names_and_literals_of_other_expressions_are_kept() {
    let s = one("SELECT CAST(:p AS INT), a ILIKE @q, ? IS TRUE");
    assert!(matches!(&s.exprs[1], SqlNode::Other { text, operands } if text.starts_with("Cast") && *operands == vec![0]));
    assert_eq!(s.exprs[0], SqlNode::Value(SqlValue::Placeholder(":p".to_string())));
    assert_eq!(s.exprs[2], name("a"));
    assert!(matches!(&s.exprs[3], SqlNode::Identifier { value, .. } if value == "@q"));
    assert!(matches!(&s.exprs[4], SqlNode::Other { text, operands } if text.starts_with("ILike") && *operands == vec![2, 3]));
    assert!(matches!(&s.exprs[6], SqlNode::Other { text, operands } if text.starts_with("IsTrue") && *operands == vec![5]));
    // What a call holds besides its arguments stands before it.
    let s = one("SELECT SUM(a) OVER (PARTITION BY ?), SUM(b) FILTER (WHERE c = 1)");
    assert_eq!(s.exprs[0], name("a"));
    assert_eq!(s.exprs[1], SqlNode::Value(SqlValue::Placeholder("?".to_string())));
    assert!(matches!(&s.exprs[2], SqlNode::Function { name, .. } if name == "SUM"));
    assert_eq!(s.exprs[4..6], [name("c"), number("1")]);
}

#[test]
fn a_channel_without_a_name_is_no_sql() {
    for sql in [
        "FLUSH RELAY LOGS FOR CHANNEL",
        "flush local relay logs for channel ;",
        "SELECT 1; FLUSH NO_WRITE_TO_BINLOG RELAY LOGS /* x */ FOR CHANNEL 5",
        "FLUSH RELAY LOGS FOR CHANNEL a.",
        "EXPLAIN FLUSH RELAY LOGS FOR CHANNEL (",
    ] {
        let e = parse_sql(sql).unwrap_err();
        assert_eq!((e.kind, e.names), (ErrorKind::Syntax, vec!["sql parser error: Expected: identifier".to_string()]));
    }
    for sql in ["FLUSH RELAY LOGS FOR CHANNEL a.b", "FLUSH RELAY LOGS", "FLUSH LOCAL RELAY LOGS FOR CHANNEL 'c'"] {
        assert!(matches!(&one(sql).body, StatementBody::Other(t) if t.starts_with("Flush")));
    }
    let e = parse_sql("SELECT 'open").unwrap_err();
    assert_eq!(e.kind, ErrorKind::Syntax);
    assert!(e.names[0].starts_with("sql parser error: Unterminated string literal"));
}
