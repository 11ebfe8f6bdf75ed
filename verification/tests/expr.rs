//! Scalar expressions: evaluation, comparison, conversion and binding.

use dtdb_sql::eval;
use dtdb_sql::eval::like_pattern_to_regex;
use dtdb_sql::expr::{ColumnSet, Expr, Operator};
use dtdb_sql::facts::{Answer, Facts, FloatOp, Question, SqlError};
use dtdb_sql::schema::{Column, FullTextQuery, Row, Schema};
use dtdb_sql::value::{DataType, Date, DbValue, Decimal, Order, Time, Timestamp};

fn col(name: &str, dt: DataType) -> Column {
    Column {
        id: 0,
        name: name.to_string(),
        data_type: dt,
        is_primary_key: false,
        is_nullable: true,
        locality_group: None,
        default_value: None,
        is_auto_increment: false,
    }
}

/// Schema with columns `id INT`, `name STRING`, `score FLOAT`.
fn sample_schema() -> Schema {
    Schema::new(vec![
        col("id", DataType::Int),
        col("name", DataType::String),
        col("score", DataType::Float),
    ])
}

fn sample_row() -> Row {
    Row::new(vec![DbValue::Int(1), DbValue::string("alice"), float(9.5)])
}

fn float(f: f64) -> DbValue {
    DbValue::Float(f.to_bits())
}

fn lit(v: DbValue) -> Box<Expr> {
    Box::new(Expr::Literal(v))
}

fn binop(l: Expr, op: Operator, r: Expr) -> Expr {
    Expr::BinaryOp { left: Box::new(l), op, right: Box::new(r) }
}

fn eval(expr: &Expr) -> Result<DbValue, String> {
    eval_on(expr, &sample_row(), &sample_schema())
}

fn eval_on(expr: &Expr, row: &Row, schema: &Schema) -> Result<DbValue, String> {
    solve(|facts| expr.eval(row, schema, facts))
}

fn compare_values(l: &DbValue, r: &DbValue) -> Result<Order, String> {
    solve(|facts| eval::compare_values(l, r, facts))
}

fn cast_value(v: DbValue, target: DataType) -> Result<DbValue, String> {
    solve(|facts| eval::cast_value(v.clone(), target, facts))
}

fn arithmetic(op: FloatOp, l: &DbValue, r: &DbValue) -> Result<DbValue, String> {
    solve(|facts| eval::eval_arithmetic(op, l, r, facts))
}

fn date(y: i32, m: u32, d: u32) -> Date {
    let day = chrono::NaiveDate::from_ymd_opt(y, m, d).unwrap();
    Date::from_days(chrono::Datelike::num_days_from_ce(&day)).unwrap()
}

fn time(h: u32, m: u32, s: u32, milli: u32) -> Time {
    Time::from_secs_nanos(h * 3600 + m * 60 + s, milli * 1_000_000).unwrap()
}

fn timestamp(date: Date, time: Time) -> DbValue {
    DbValue::Timestamp(Timestamp { date, time })
}

fn decimal(s: &str) -> Decimal {
    let d: rust_decimal::Decimal = s.parse().unwrap();
    Decimal::new(d.mantissa(), d.scale()).unwrap()
}

/// Answers a question about floats.
fn answer(q: &Question) -> Answer {
    let of = |bits: u64| f64::from_bits(bits);
    match q {
        Question::FloatArithmetic { op, left, right } => {
            let (l, r) = (of(*left), of(*right));
            let x = match op {
                FloatOp::Add => l + r,
                FloatOp::Sub => l - r,
                FloatOp::Mul => l * r,
                FloatOp::Div => l / r,
            };
            Answer::Float(x.to_bits())
        }
        Question::FloatOfInt(i) => Answer::Float((*i as f64).to_bits()),
        Question::IntOfFloat(f) => Answer::Int(of(*f) as i64),
        Question::FloatRounded(f) => Answer::Float(of(*f).round().to_bits()),
        Question::FloatText(f) => Answer::Text(of(*f).to_string()),
        Question::FloatShown(f) => Answer::Text(format!("{:?}", of(*f))),
        Question::FloatParsed(s) => {
            Answer::ParsedFloat(s.parse::<f64>().map(|f| f.to_bits()).map_err(|e| e.to_string()))
        }
        Question::DecimalOfFloat(f) => Answer::Decimal(
            rust_decimal::prelude::FromPrimitive::from_f64(of(*f))
                .and_then(|d: rust_decimal::Decimal| {
                    Decimal::signed(d.mantissa(), d.is_sign_negative(), d.scale())
                }),
        ),
        Question::FloatOfDecimal(d) => {
            let mut x = rust_decimal::Decimal::from_i128_with_scale(d.mantissa(), d.scale());
            x.set_sign_negative(d.is_negative());
            Answer::OptionalFloat(rust_decimal::prelude::ToPrimitive::to_f64(&x).map(f64::to_bits))
        }
        Question::FloatOfNat(n) => Answer::Float((*n as f64).to_bits()),
        Question::NatOfFloat(f) => Answer::Count(of(*f) as u64),
        Question::Tokens { text, .. } => Answer::Tokens(Some(tokens(text))),
        Question::FullText { query, .. } => Answer::FullText(Ok(full_text(query))),
        other => panic!("unexpected question: {:?}", other),
    }
}

/// Runs a computation, answering its questions.
fn solve<T>(f: impl Fn(&Facts) -> Result<T, SqlError>) -> Result<T, String> {
    let mut facts = Facts::new();
    loop {
        match f(&facts) {
            Ok(x) => return Ok(x),
            Err(e) => match &e.question {
                Some(q) => {
                    let a = answer(q);
                    facts.record(q.clone(), a);
                }
                None => return Err(text_of(&e)),
            },
        }
    }
}

/// The text of an error.
fn text_of(e: &SqlError) -> String {
    let mut facts = Facts::new();
    loop {
        match e.message(&facts) {
            Ok(t) => return t,
            Err(p) => match &p.question {
                Some(q) => {
                    let a = answer(q);
                    facts.record(q.clone(), a);
                }
                None => panic!("no text for {:?}", e),
            },
        }
    }
}

/// The words of a text in lower case.
fn tokens(text: &str) -> Vec<String> {
    text.split_whitespace().map(|w| w.to_lowercase()).collect()
}

/// A full-text query: a phrase in quotes, words joined by AND, or a word.
fn full_text(query: &str) -> FullTextQuery {
    if let Some(phrase) = query.strip_prefix('"').and_then(|q| q.strip_suffix('"')) {
        return FullTextQuery::Phrase(tokens(phrase));
    }
    match query.split_once(" AND ") {
        Some((l, r)) => FullTextQuery::And(Box::new(full_text(l)), Box::new(full_text(r))),
        None => FullTextQuery::Token(query.to_lowercase()),
    }
}

// ----- literals and column access -----

#[test]
fn literal_and_column_eval() {
    let schema = sample_schema();
    let row = sample_row();
    assert_eq!(
        eval_on(&Expr::Literal(DbValue::Int(7)), &row, &schema).unwrap(),
        DbValue::Int(7)
    );
    // Unbound column resolves by name.
    assert_eq!(
        eval_on(&Expr::Column("name".to_string(), None), &row, &schema).unwrap(),
        DbValue::string("alice")
    );
    // Pre-bound index is used directly.
    assert_eq!(
        eval_on(&Expr::Column("ignored".to_string(), Some(0)), &row, &schema).unwrap(),
        DbValue::Int(1)
    );
}

#[test]
fn column_errors() {
    let schema = sample_schema();
    let row = sample_row();
    // Unknown column name.
    assert!(
        eval_on(&Expr::Column("missing".to_string(), None), &row, &schema).is_err()
    );
    // Bound index past the end of the row.
    assert!(
        eval_on(&Expr::Column("x".to_string(), Some(99)), &row, &schema).is_err()
    );
}

#[test]
fn resolve_column_ambiguous_is_error() {
    // Two columns whose trailing portion is `id` -> ambiguous unqualified ref.
    let schema = Schema::new(vec![col("a.id", DataType::Int), col("b.id", DataType::Int)]);
    let err = eval_on(
        &Expr::Column("id".to_string(), None),
        &Row::new(vec![DbValue::Int(1), DbValue::Int(2)]),
        &schema,
    )
    .unwrap_err();
    assert!(err.contains("Ambiguous"), "got: {err}");
}

// ----- comparisons -----

#[test]
fn comparison_operators() {
    assert_eq!(
        eval(&binop(
            Expr::Literal(DbValue::Int(1)),
            Operator::Eq,
            Expr::Literal(DbValue::Int(1))
        ))
        .unwrap(),
        DbValue::Bool(true)
    );
    assert_eq!(
        eval(&binop(
            Expr::Literal(DbValue::Int(1)),
            Operator::NotEq,
            Expr::Literal(DbValue::Int(2))
        ))
        .unwrap(),
        DbValue::Bool(true)
    );
    for (op, expect) in [
        (Operator::Gt, false),
        (Operator::Lt, true),
        (Operator::GtEq, false),
        (Operator::LtEq, true),
    ] {
        assert_eq!(
            eval(&binop(
                Expr::Literal(DbValue::Int(1)),
                op,
                Expr::Literal(DbValue::Int(2))
            ))
            .unwrap(),
            DbValue::Bool(expect),
            "op {op:?}"
        );
    }
}

#[test]
fn comparison_propagates_null() {
    assert_eq!(
        eval(&binop(
            Expr::Literal(DbValue::Null),
            Operator::Eq,
            Expr::Literal(DbValue::Int(1))
        ))
        .unwrap(),
        DbValue::Null
    );
}

#[test]
fn compare_values_mixed_numeric_and_bool() {
    assert_eq!(
        compare_values(&DbValue::Int(2), &float(2.0)).unwrap(),
        Order::Equal
    );
    assert_eq!(
        compare_values(&float(1.0), &DbValue::Int(2)).unwrap(),
        Order::Less
    );
    assert_eq!(
        compare_values(&DbValue::Bool(true), &DbValue::Int(1)).unwrap(),
        Order::Equal
    );
    assert_eq!(
        compare_values(&DbValue::Int(0), &DbValue::Bool(false)).unwrap(),
        Order::Equal
    );
    // NULL sorts before everything; two NULLs are equal.
    assert_eq!(
        compare_values(&DbValue::Null, &DbValue::Int(1)).unwrap(),
        Order::Less
    );
    assert_eq!(
        compare_values(&DbValue::Int(1), &DbValue::Null).unwrap(),
        Order::Greater
    );
    // Incomparable types error.
    assert!(compare_values(&DbValue::string("a"), &DbValue::Int(1)).is_err());
    // NaN comparison errors.
    assert!(compare_values(&float(f64::NAN), &float(1.0)).is_err());
}

// ----- arithmetic -----

#[test]
fn arithmetic_add_sub_mul_div() {
    assert_eq!(
        eval(&binop(
            Expr::Literal(DbValue::Int(6)),
            Operator::Add,
            Expr::Literal(DbValue::Int(4))
        ))
        .unwrap(),
        DbValue::Int(10)
    );
    assert_eq!(
        eval(&binop(
            Expr::Literal(DbValue::Int(6)),
            Operator::Sub,
            Expr::Literal(DbValue::Int(4))
        ))
        .unwrap(),
        DbValue::Int(2)
    );
    assert_eq!(
        eval(&binop(
            Expr::Literal(DbValue::Int(6)),
            Operator::Mul,
            Expr::Literal(DbValue::Int(4))
        ))
        .unwrap(),
        DbValue::Int(24)
    );
    // Int / Float promotes to Float.
    assert_eq!(
        eval(&binop(
            Expr::Literal(DbValue::Int(9)),
            Operator::Div,
            Expr::Literal(float(2.0))
        ))
        .unwrap(),
        float(4.5)
    );
}

#[test]
fn arithmetic_errors() {
    // Division by zero (int and float).
    assert!(
        eval(&binop(
            Expr::Literal(DbValue::Int(1)),
            Operator::Div,
            Expr::Literal(DbValue::Int(0))
        ))
        .is_err()
    );
    assert!(
        eval(&binop(
            Expr::Literal(float(1.0)),
            Operator::Div,
            Expr::Literal(float(0.0))
        ))
        .is_err()
    );
    // Integer overflow.
    assert!(
        eval(&binop(
            Expr::Literal(DbValue::Int(i64::MAX)),
            Operator::Add,
            Expr::Literal(DbValue::Int(1))
        ))
        .is_err()
    );
    // Non-numeric operands.
    assert!(
        eval(&binop(
            Expr::Literal(DbValue::string("x")),
            Operator::Add,
            Expr::Literal(DbValue::Int(1))
        ))
        .is_err()
    );
}

// ----- three-valued logic AND/OR -----

#[test]
fn three_valued_and() {
    let t = || Expr::Literal(DbValue::Bool(true));
    let f = || Expr::Literal(DbValue::Bool(false));
    let n = || Expr::Literal(DbValue::Null);
    assert_eq!(
        eval(&binop(t(), Operator::And, t())).unwrap(),
        DbValue::Bool(true)
    );
    assert_eq!(
        eval(&binop(t(), Operator::And, f())).unwrap(),
        DbValue::Bool(false)
    );
    // FALSE short-circuits regardless of right side.
    assert_eq!(
        eval(&binop(f(), Operator::And, n())).unwrap(),
        DbValue::Bool(false)
    );
    // TRUE AND NULL = NULL.
    assert_eq!(
        eval(&binop(t(), Operator::And, n())).unwrap(),
        DbValue::Null
    );
    // NULL AND TRUE = NULL; NULL AND FALSE = FALSE.
    assert_eq!(
        eval(&binop(n(), Operator::And, t())).unwrap(),
        DbValue::Null
    );
    assert_eq!(
        eval(&binop(n(), Operator::And, f())).unwrap(),
        DbValue::Bool(false)
    );
    assert_eq!(
        eval(&binop(n(), Operator::And, n())).unwrap(),
        DbValue::Null
    );
}

#[test]
fn three_valued_or() {
    let t = || Expr::Literal(DbValue::Bool(true));
    let f = || Expr::Literal(DbValue::Bool(false));
    let n = || Expr::Literal(DbValue::Null);
    // TRUE short-circuits.
    assert_eq!(
        eval(&binop(t(), Operator::Or, n())).unwrap(),
        DbValue::Bool(true)
    );
    assert_eq!(
        eval(&binop(f(), Operator::Or, t())).unwrap(),
        DbValue::Bool(true)
    );
    assert_eq!(
        eval(&binop(f(), Operator::Or, f())).unwrap(),
        DbValue::Bool(false)
    );
    // FALSE OR NULL = NULL.
    assert_eq!(eval(&binop(f(), Operator::Or, n())).unwrap(), DbValue::Null);
    // NULL OR TRUE = TRUE; NULL OR FALSE = NULL.
    assert_eq!(
        eval(&binop(n(), Operator::Or, t())).unwrap(),
        DbValue::Bool(true)
    );
    assert_eq!(eval(&binop(n(), Operator::Or, f())).unwrap(), DbValue::Null);
    assert_eq!(eval(&binop(n(), Operator::Or, n())).unwrap(), DbValue::Null);
}

// ----- NOT / IS NULL / IN -----

#[test]
fn not_and_is_null() {
    assert_eq!(
        eval(&Expr::Not(lit(DbValue::Bool(true)))).unwrap(),
        DbValue::Bool(false)
    );
    // NOT NULL is NULL.
    assert_eq!(eval(&Expr::Not(lit(DbValue::Null))).unwrap(), DbValue::Null);
    assert_eq!(
        eval(&Expr::IsNull(lit(DbValue::Null))).unwrap(),
        DbValue::Bool(true)
    );
    assert_eq!(
        eval(&Expr::IsNull(lit(DbValue::Int(1)))).unwrap(),
        DbValue::Bool(false)
    );
}

#[test]
fn in_list_semantics() {
    let in_list = |val: DbValue, items: Vec<DbValue>| Expr::InList {
        expr: lit(val),
        list: items.into_iter().map(Expr::Literal).collect(),
    };
    assert_eq!(
        eval(&in_list(
            DbValue::Int(2),
            vec![DbValue::Int(1), DbValue::Int(2)]
        ))
        .unwrap(),
        DbValue::Bool(true)
    );
    // Not present, no NULL -> false.
    assert_eq!(
        eval(&in_list(
            DbValue::Int(3),
            vec![DbValue::Int(1), DbValue::Int(2)]
        ))
        .unwrap(),
        DbValue::Bool(false)
    );
    // Not present but NULL in list -> NULL (unknown).
    assert_eq!(
        eval(&in_list(
            DbValue::Int(3),
            vec![DbValue::Int(1), DbValue::Null]
        ))
        .unwrap(),
        DbValue::Null
    );
    // NULL test value -> NULL.
    assert_eq!(
        eval(&in_list(DbValue::Null, vec![DbValue::Int(1)])).unwrap(),
        DbValue::Null
    );
}

// ----- LIKE -----

#[test]
fn like_matching() {
    let like = |text: &str, pat: &str| {
        eval(&binop(
            Expr::Literal(DbValue::string(text)),
            Operator::Like,
            Expr::Literal(DbValue::string(pat)),
        ))
        .unwrap()
    };
    assert_eq!(like("hello", "h%o"), DbValue::Bool(true));
    assert_eq!(like("hello", "h_llo"), DbValue::Bool(true));
    assert_eq!(like("hello", "world"), DbValue::Bool(false));
    // Regex metacharacters in the pattern are treated literally.
    assert_eq!(like("a.b", "a.b"), DbValue::Bool(true));
    assert_eq!(like("axb", "a.b"), DbValue::Bool(false));
}

#[test]
fn like_pattern_translation_escapes_metachars() {
    assert_eq!(like_pattern_to_regex("a%b_c"), "(?s)^a.*b.c$");
    assert_eq!(like_pattern_to_regex("a.b"), "(?s)^a\\.b$");
}

// ----- CASE -----

#[test]
fn searched_case() {
    // CASE WHEN false THEN 'a' WHEN true THEN 'b' ELSE 'c' END
    let expr = Expr::Case {
        operand: None,
        conditions: vec![
            Expr::Literal(DbValue::Bool(false)),
            Expr::Literal(DbValue::Bool(true)),
        ],
        results: vec![
            Expr::Literal(DbValue::string("a")),
            Expr::Literal(DbValue::string("b")),
        ],
        else_result: Some(lit(DbValue::string("c"))),
    };
    assert_eq!(eval(&expr).unwrap(), DbValue::string("b"));
}

#[test]
fn simple_case_with_operand_and_no_match() {
    // CASE 5 WHEN 1 THEN 'a' END  -> no match, no else -> NULL
    let expr = Expr::Case {
        operand: Some(lit(DbValue::Int(5))),
        conditions: vec![Expr::Literal(DbValue::Int(1))],
        results: vec![Expr::Literal(DbValue::string("a"))],
        else_result: None,
    };
    assert_eq!(eval(&expr).unwrap(), DbValue::Null);
}

#[test]
fn case_length_mismatch_errors() {
    let expr = Expr::Case {
        operand: None,
        conditions: vec![Expr::Literal(DbValue::Bool(true))],
        results: vec![],
        else_result: None,
    };
    assert!(eval(&expr).is_err());
}

// ----- scalar functions -----

fn func(name: &str, args: Vec<DbValue>) -> Expr {
    Expr::Function {
        name: name.to_string(),
        args: args.into_iter().map(Expr::Literal).collect(),
    }
}

#[test]
fn string_functions() {
    assert_eq!(
        eval(&func("LENGTH", vec![DbValue::string("héllo")])).unwrap(),
        DbValue::Int(5)
    );
    assert_eq!(
        eval(&func("UPPER", vec![DbValue::string("abc")])).unwrap(),
        DbValue::string("ABC")
    );
    assert_eq!(
        eval(&func("LOWER", vec![DbValue::string("ABC")])).unwrap(),
        DbValue::string("abc")
    );
    assert_eq!(
        eval(&func("CONCAT", vec![DbValue::string("a"), DbValue::Int(2)])).unwrap(),
        DbValue::string("a2")
    );
    // case-insensitive name.
    assert_eq!(
        eval(&func("length", vec![DbValue::string("ab")])).unwrap(),
        DbValue::Int(2)
    );
}

#[test]
fn substr_variants() {
    let s = || DbValue::string("hello");
    // 1-based start, no length: from 2nd char.
    assert_eq!(
        eval(&func("SUBSTR", vec![s(), DbValue::Int(2)])).unwrap(),
        DbValue::string("ello")
    );
    // start + length.
    assert_eq!(
        eval(&func(
            "SUBSTRING",
            vec![s(), DbValue::Int(1), DbValue::Int(3)]
        ))
        .unwrap(),
        DbValue::string("hel")
    );
    // negative start counts from end.
    assert_eq!(
        eval(&func("SUBSTR", vec![s(), DbValue::Int(-2)])).unwrap(),
        DbValue::string("lo")
    );
    // length 0 -> empty.
    assert_eq!(
        eval(&func("SUBSTR", vec![s(), DbValue::Int(1), DbValue::Int(0)])).unwrap(),
        DbValue::string("")
    );
    // absurd length saturates to "rest of string".
    assert_eq!(
        eval(&func(
            "SUBSTR",
            vec![s(), DbValue::Int(1), DbValue::Int(i64::MAX)]
        ))
        .unwrap(),
        DbValue::string("hello")
    );
    // start past the end -> empty.
    assert_eq!(
        eval(&func("SUBSTR", vec![s(), DbValue::Int(100)])).unwrap(),
        DbValue::string("")
    );
}

#[test]
fn substr_errors() {
    let s = || DbValue::string("hello");
    // non-integer start.
    assert!(eval(&func("SUBSTR", vec![s(), DbValue::string("x")])).is_err());
    // negative length.
    assert!(
        eval(&func(
            "SUBSTR",
            vec![s(), DbValue::Int(1), DbValue::Int(-1)]
        ))
        .is_err()
    );
    // wrong arg count.
    assert!(eval(&func("SUBSTR", vec![s()])).is_err());
}

#[test]
fn coalesce_and_numeric_functions() {
    assert_eq!(
        eval(&func(
            "COALESCE",
            vec![DbValue::Null, DbValue::Null, DbValue::Int(3)]
        ))
        .unwrap(),
        DbValue::Int(3)
    );
    // all null -> null.
    assert_eq!(
        eval(&func("COALESCE", vec![DbValue::Null, DbValue::Null])).unwrap(),
        DbValue::Null
    );
    assert_eq!(
        eval(&func("ABS", vec![DbValue::Int(-5)])).unwrap(),
        DbValue::Int(5)
    );
    assert_eq!(
        eval(&func("ABS", vec![float(-2.5)])).unwrap(),
        float(2.5)
    );
    assert_eq!(
        eval(&func("ROUND", vec![float(2.6)])).unwrap(),
        float(3.0)
    );
    assert_eq!(
        eval(&func("ROUND", vec![DbValue::Int(4)])).unwrap(),
        DbValue::Int(4)
    );
}

#[test]
fn function_null_and_error_paths() {
    // NULL propagation through string functions.
    assert_eq!(
        eval(&func("LENGTH", vec![DbValue::Null])).unwrap(),
        DbValue::Null
    );
    assert_eq!(
        eval(&func("UPPER", vec![DbValue::Null])).unwrap(),
        DbValue::Null
    );
    // NULL propagation through LOWER, SUBSTR (first arg), and CONCAT.
    assert_eq!(
        eval(&func("LOWER", vec![DbValue::Null])).unwrap(),
        DbValue::Null
    );
    assert_eq!(
        eval(&func("SUBSTR", vec![DbValue::Null, DbValue::Int(1)])).unwrap(),
        DbValue::Null
    );
    assert_eq!(
        eval(&func("CONCAT", vec![DbValue::string("a"), DbValue::Null])).unwrap(),
        DbValue::Null
    );
    // ABS/ROUND propagate NULL.
    assert_eq!(
        eval(&func("ABS", vec![DbValue::Null])).unwrap(),
        DbValue::Null
    );
    assert_eq!(
        eval(&func("ROUND", vec![DbValue::Null])).unwrap(),
        DbValue::Null
    );
    // ABS/ROUND on non-numeric error.
    assert!(eval(&func("ABS", vec![DbValue::string("x")])).is_err());
    assert!(eval(&func("ROUND", vec![DbValue::string("x")])).is_err());
    // empty COALESCE / CONCAT.
    assert!(eval(&func("COALESCE", vec![])).is_err());
    assert!(eval(&func("CONCAT", vec![])).is_err());
    // unknown function.
    assert!(eval(&func("NOPE", vec![DbValue::Int(1)])).is_err());
    // wrong arity across every scalar function that checks it.
    assert!(eval(&func("UPPER", vec![DbValue::Int(1), DbValue::Int(2)])).is_err());
    assert!(eval(&func("LENGTH", vec![])).is_err());
    assert!(eval(&func("LOWER", vec![DbValue::Int(1), DbValue::Int(2)])).is_err());
    assert!(eval(&func("ABS", vec![DbValue::Int(1), DbValue::Int(2)])).is_err());
    assert!(eval(&func("ROUND", vec![DbValue::Int(1), DbValue::Int(2)])).is_err());
    // SUBSTR length must be an integer.
    assert!(
        eval(&func(
            "SUBSTR",
            vec![
                DbValue::string("hello"),
                DbValue::Int(1),
                DbValue::string("x")
            ]
        ))
        .is_err()
    );
}

// ----- MATCH (full-text) -----

#[test]
fn match_full_text() {
    let schema = sample_schema();
    let row = Row::new(vec![
        DbValue::Int(1),
        DbValue::string("the quick brown fox"),
        float(0.0),
    ]);
    let m = |q: &str| {
        eval_on(&Expr::Match {
            column: "name".to_string(),
            index: None,
            query_str: q.to_string(),
        }, &row, &schema).unwrap()
    };
    assert_eq!(m("quick"), DbValue::Bool(true));
    assert_eq!(m("quick AND fox"), DbValue::Bool(true));
    assert_eq!(m("quick AND missing"), DbValue::Bool(false));
    assert_eq!(m("\"quick brown\""), DbValue::Bool(true));
    assert_eq!(m("\"brown quick\""), DbValue::Bool(false));

    // Non-string column never matches.
    let m_int = eval_on(&Expr::Match {
        column: "id".to_string(),
        index: None,
        query_str: "1".to_string(),
    }, &row, &schema).unwrap();
    assert_eq!(m_int, DbValue::Bool(false));
}

#[test]
fn match_unknown_column_errors() {
    let schema = sample_schema();
    let row = sample_row();
    let err = eval_on(&Expr::Match {
        column: "missing".to_string(),
        index: None,
        query_str: "x".to_string(),
    }, &row, &schema).unwrap_err();
    assert!(err.contains("Column not found"), "got: {err}");
}

// ----- collect_columns / bind_columns -----

#[test]
fn collect_columns_walks_all_nodes() {
    let expr = Expr::Case {
        operand: Some(Box::new(Expr::Column("id".to_string(), None))),
        conditions: vec![binop(
            Expr::Column("name".to_string(), None),
            Operator::Eq,
            Expr::Literal(DbValue::Int(1)),
        )],
        results: vec![Expr::Function {
            name: "ABS".to_string(),
            args: vec![Expr::Column("score".to_string(), None)],
        }],
        else_result: Some(Box::new(Expr::InList {
            expr: Box::new(Expr::Not(Box::new(Expr::IsNull(Box::new(Expr::Column(
                "id".to_string(),
                None,
            )))))),
            list: vec![Expr::Match {
                column: "name".to_string(),
                index: None,
                query_str: "x".to_string(),
            }],
        })),
    };
    let mut cols = ColumnSet::new();
    expr.collect_columns(&mut cols);
    assert!(cols.contains("id"));
    assert!(cols.contains("name"));
    assert!(cols.contains("score"));
}

#[test]
fn bind_columns_resolves_indices() {
    let schema = sample_schema();
    let mut expr = binop(
        Expr::Column("name".to_string(), None),
        Operator::Eq,
        Expr::Literal(DbValue::string("alice")),
    );
    expr.bind_columns(&schema).unwrap();
    if let Expr::BinaryOp { left, .. } = &expr {
        assert_eq!(**left, Expr::Column("name".to_string(), Some(1)));
    } else {
        panic!("expected BinaryOp");
    }

    // Binding an unknown column errors.
    let mut bad = Expr::Column("missing".to_string(), None);
    assert!(bad.bind_columns(&schema).is_err());
}

#[test]
fn test_date_time_timestamp_decimal_eval_and_cast() {

    // 1. Check CAST conversions from strings
    assert_eq!(
        cast_value(DbValue::string("2026-06-02"), DataType::Date).unwrap(),
        DbValue::Date(date(2026, 6, 2))
    );
    assert_eq!(
        cast_value(DbValue::string("12:34:56"), DataType::Time).unwrap(),
        DbValue::Time(time(12, 34, 56, 0))
    );
    assert_eq!(
        cast_value(DbValue::string("2026-06-02 12:34:56"), DataType::Timestamp).unwrap(),
        timestamp(date(2026, 6, 2), time(12, 34, 56, 0))
    );
    assert_eq!(
        cast_value(DbValue::string("123.45"), DataType::Decimal).unwrap(),
        DbValue::Decimal(decimal("123.45"))
    );

    // 2. Check conversions to target types
    // Date to Timestamp (with 00:00:00 time)
    let d_val = DbValue::Date(date(2026, 6, 2));
    assert_eq!(
        cast_value(d_val.clone(), DataType::Timestamp).unwrap(),
        timestamp(date(2026, 6, 2), time(0, 0, 0, 0))
    );
    // Timestamp to Date (truncating time)
    let ts_val = timestamp(date(2026, 6, 2), time(12, 34, 56, 0));
    assert_eq!(cast_value(ts_val, DataType::Date).unwrap(), d_val.clone());

    // 3. Comparisons (homogeneous and heterogeneous promotions)
    let dec_val1 = DbValue::Decimal(decimal("100.5"));
    let dec_val2 = DbValue::Decimal(decimal("200.5"));
    assert_eq!(
        compare_values(&dec_val1, &dec_val2).unwrap(),
        Order::Less
    );
    assert_eq!(
        compare_values(&dec_val1, &DbValue::Int(100)).unwrap(),
        Order::Greater
    );
    assert_eq!(
        compare_values(&dec_val1, &float(100.5)).unwrap(),
        Order::Equal
    );

    // Rejection of implicit coercion (Date/Time/Timestamp vs String)
    assert!(compare_values(&d_val, &DbValue::string("2026-06-02")).is_err());
    assert!(compare_values(&dec_val1, &DbValue::string("100.5")).is_err());

    // 4. Decimal Arithmetic
    let dec_left = DbValue::Decimal(decimal("10.5"));
    let dec_right = DbValue::Decimal(decimal("2.5"));

    let sum_res = arithmetic(FloatOp::Add, &dec_left, &dec_right).unwrap();
    assert_eq!(
        sum_res,
        DbValue::Decimal(decimal("13.0"))
    );

    let mul_res = arithmetic(FloatOp::Mul, &dec_left, &dec_right).unwrap();
    assert_eq!(
        mul_res,
        DbValue::Decimal(decimal("26.25"))
    );
}

/// Exercises the real `BinaryOp` dispatch (not just the `eval_arithmetic`
/// helper) for the decimal-specific paths added by the typed-literal commit:
/// the `is_zero()` division-by-zero guard, the `checked_*` overflow errors,
/// exact subtraction/division, and decimal/float promotion to `Float`.
#[test]
fn test_decimal_binop_div_zero_overflow_and_float_promotion() {
    let dec = |s: &str| DbValue::Decimal(decimal(s));

    // Division by zero on a Decimal divisor is rejected before arithmetic.
    let err = eval(&binop(*lit(dec("10.5")), Operator::Div, *lit(dec("0.00")))).unwrap_err();
    assert_eq!(err, "Division by zero");

    // checked_* overflow surfaces the decimal-specific error strings.
    let max = DbValue::Decimal(Decimal::max());
    let min = DbValue::Decimal(Decimal::min());
    assert_eq!(
        eval(&binop(*lit(max.clone()), Operator::Add, *lit(max.clone()))).unwrap_err(),
        "Decimal addition overflow"
    );
    assert_eq!(
        eval(&binop(*lit(min.clone()), Operator::Sub, *lit(max.clone()))).unwrap_err(),
        "Decimal subtraction overflow"
    );
    assert_eq!(
        eval(&binop(*lit(max), Operator::Mul, *lit(dec("2")))).unwrap_err(),
        "Decimal multiplication overflow"
    );

    // Exact decimal subtraction and division stay in Decimal.
    assert_eq!(
        eval(&binop(*lit(dec("10.5")), Operator::Sub, *lit(dec("2.25")))).unwrap(),
        dec("8.25")
    );
    assert_eq!(
        eval(&binop(*lit(dec("10")), Operator::Div, *lit(dec("4")))).unwrap(),
        dec("2.5")
    );

    // Mixing Decimal with Float promotes the result to Float, both orders.
    let res1 = eval(&binop(
        *lit(dec("1.5")),
        Operator::Add,
        *lit(float(2.0)),
    ))
    .unwrap();
    if let DbValue::Float(bits) = res1 {
        let f = f64::from_bits(bits);
        assert!(
            (f - 3.5).abs() < 1e-9,
            "expected approximately 3.5, got {}",
            f
        );
    } else {
        panic!("Expected Float, got {:?}", res1);
    }

    let res2 = eval(&binop(
        *lit(float(5.0)),
        Operator::Sub,
        *lit(dec("1.5")),
    ))
    .unwrap();
    if let DbValue::Float(bits) = res2 {
        let f = f64::from_bits(bits);
        assert!(
            (f - 3.5).abs() < 1e-9,
            "expected approximately 3.5, got {}",
            f
        );
    } else {
        panic!("Expected Float, got {:?}", res2);
    }
}

/// `cast_value` numeric/temporal conversions and the failure paths that the
/// happy-path commit tests skipped: cross-numeric casts, stringification,
/// NULL pass-through, alternate timestamp formats, and the `Err` branches.
#[test]
fn test_cast_value_numeric_conversions_and_failures() {
    let d = |s: &str| decimal(s);

    // Decimal -> Int truncates toward zero; Decimal -> Float.
    assert_eq!(
        cast_value(DbValue::Decimal(d("123.99")), DataType::Int).unwrap(),
        DbValue::Int(123)
    );
    let casted = cast_value(DbValue::Decimal(d("123.5")), DataType::Float).unwrap();
    if let DbValue::Float(bits) = casted {
        let f = f64::from_bits(bits);
        assert!(
            (f - 123.5).abs() < 1e-9,
            "expected approximately 123.5, got {}",
            f
        );
    } else {
        panic!("Expected Float, got {:?}", casted);
    }
    // Int/Float -> Decimal.
    assert_eq!(
        cast_value(DbValue::Int(42), DataType::Decimal).unwrap(),
        DbValue::Decimal(d("42"))
    );
    assert_eq!(
        cast_value(float(2.5), DataType::Decimal).unwrap(),
        DbValue::Decimal(d("2.5"))
    );
    // Bool -> Int/Float.
    assert_eq!(
        cast_value(DbValue::Bool(true), DataType::Int).unwrap(),
        DbValue::Int(1)
    );
    assert_eq!(
        cast_value(DbValue::Bool(false), DataType::Float).unwrap(),
        float(0.0)
    );

    // Temporal/decimal -> String go through coerce_to_string.
    assert_eq!(
        cast_value(DbValue::Decimal(d("123.45")), DataType::String).unwrap(),
        DbValue::string("123.45")
    );
    assert_eq!(
        cast_value(
            DbValue::Date(date(2026, 6, 2)),
            DataType::String
        )
        .unwrap(),
        DbValue::string("2026-06-02")
    );

    // NULL casts to NULL regardless of target type.
    assert_eq!(
        cast_value(DbValue::Null, DataType::Date).unwrap(),
        DbValue::Null
    );

    // Alternate timestamp string formats: ISO 'T', fractional seconds, and
    // date-only (which fills midnight).
    assert_eq!(
        cast_value(DbValue::string("2026-06-02T12:34:56"), DataType::Timestamp).unwrap(),
        timestamp(date(2026, 6, 2), time(12, 34, 56, 0))
    );
    assert_eq!(
        cast_value(
            DbValue::string("2026-06-02 12:34:56.5"),
            DataType::Timestamp
        )
        .unwrap(),
        timestamp(date(2026, 6, 2), time(12, 34, 56, 500))
    );
    assert_eq!(
        cast_value(DbValue::string("2026-06-02"), DataType::Timestamp).unwrap(),
        timestamp(date(2026, 6, 2), time(0, 0, 0, 0))
    );
    // Time round-trips a valid value.
    assert_eq!(
        cast_value(DbValue::string("01:02:03"), DataType::Time).unwrap(),
        DbValue::Time(time(1, 2, 3, 0))
    );

    // Failure paths: unparseable strings and incompatible source types.
    assert!(cast_value(DbValue::string("not-a-date"), DataType::Date).is_err());
    assert!(cast_value(DbValue::string("25:00:00"), DataType::Time).is_err());
    assert!(cast_value(DbValue::string("nope"), DataType::Timestamp).is_err());
    assert!(cast_value(DbValue::string("xyz"), DataType::Int).is_err());
    assert!(cast_value(DbValue::string("xyz"), DataType::Decimal).is_err());
    // A Date cannot be cast to a Time (no sensible conversion).
    assert!(
        cast_value(
            DbValue::Date(date(2026, 6, 2)),
            DataType::Time
        )
        .is_err()
    );
}

#[test]
fn a_negative_zero_is_kept_through_casts() {
    let zero = cast_value(float(-0.0), DataType::Decimal).unwrap();
    let outer: rust_decimal::Decimal = rust_decimal::prelude::FromPrimitive::from_f64(-0.0).unwrap();
    assert_eq!(cast_value(zero.clone(), DataType::String).unwrap(), DbValue::string(&outer.to_string()));
    assert_eq!(outer.to_string(), "-0");
    let back = rust_decimal::prelude::ToPrimitive::to_f64(&outer).unwrap();
    assert_eq!(cast_value(zero, DataType::Float).unwrap(), DbValue::Float(back.to_bits()));
}
