//! What holds of the library as a whole, on chosen values.

use dtdb_sql::bounds::{extract_bounds_for_column, prefix_successor};
use dtdb_sql::eval::{cast_value, compare_values, eval_arithmetic, like_match};
use dtdb_sql::explain::{explain_text, format_logical_plan};
use dtdb_sql::expr::{Expr, Operator};
use dtdb_sql::facts::{Answer, ErrorKind, Facts, FloatOp, Question};
use dtdb_sql::logical::{JoinType, LogicalPlan, PlanKey};
use dtdb_sql::optimizer::{combine_conjuncts, split_conjuncts_rec, swap_join_condition, Optimizer};
use dtdb_sql::order::{compare_keys, total_compare};
use dtdb_sql::params::Params;
use dtdb_sql::physical::{compile_physical, PhysicalPlan};
use dtdb_sql::point_get::match_point_get;
use dtdb_sql::schema::{Column, Row, Schema};
use dtdb_sql::spill::{
    encode_run, merge_groups, read_count, read_framed, sort_entries, write_count, write_framed, KWayMerge, RunReader,
};
use dtdb_sql::text::{trim, unqualified_name};
use dtdb_sql::value::{
    compare_texts, DataType, Date, DbKey, DbValue, Decimal, Order, Time, Timestamp, DATE_MAX_DAYS, DATE_MIN_DAYS,
};

fn column(name: &str) -> Expr {
    Expr::Column(name.to_string(), None)
}

fn literal(v: DbValue) -> Expr {
    Expr::Literal(v)
}

fn binary(l: Expr, op: Operator, r: Expr) -> Expr {
    Expr::BinaryOp { left: Box::new(l), op, right: Box::new(r) }
}

fn table() -> Schema {
    let mut id = Column::plain("t.id", DataType::Int);
    id.is_primary_key = true;
    Schema::new(vec![id, Column::plain("t.name", DataType::String)])
}

fn row(i: i64, name: &str) -> Row {
    Row::new(vec![DbValue::Int(i), DbValue::string(name)])
}

fn accepts(e: &Expr, r: &Row) -> bool {
    let v = e.eval(r, &table(), &Facts::new());
    matches!(v, Ok(DbValue::Bool(true)))
}

#[test]
fn ranges_cover_what_predicates_accept() {
    let e = binary(
        binary(column("id"), Operator::Gt, literal(DbValue::Int(3))),
        Operator::And,
        binary(column("id"), Operator::LtEq, literal(DbValue::Int(6))),
    );
    let (start, end) = extract_bounds_for_column(&e, "t.id", &DataType::Int).unwrap();
    assert_eq!(start, PlanKey::Value(DbKey::Int(4)));
    assert_eq!(end, PlanKey::Value(DbKey::Int(6)));
    for i in 0..10 {
        assert_eq!(accepts(&e, &row(i, "")), (4..=6).contains(&i));
    }
    let e = binary(column("name"), Operator::Like, literal(DbValue::string("ab%c")));
    let (start, end) = extract_bounds_for_column(&e, "t.name", &DataType::String).unwrap();
    assert_eq!(start, PlanKey::Value(DbKey::string("ab")));
    assert_eq!(end, PlanKey::Value(DbKey::string("ac")));
    for (s, matched) in [("abc", true), ("abxxc", true), ("abx", false), ("ac", false), ("aabc", false)] {
        assert_eq!(accepts(&e, &row(0, s)), matched);
        if matched {
            assert_eq!(compare_texts("ab", s), Order::Less);
            assert_eq!(compare_texts(s, "ac"), Order::Less);
        }
    }
    let e = binary(column("name"), Operator::Gt, literal(DbValue::string("a")));
    let (start, _) = extract_bounds_for_column(&e, "t.name", &DataType::String).unwrap();
    assert_eq!(start, PlanKey::Value(DbKey::string("a\0")));
}

#[test]
fn ranges_cover_whichever_side_the_column_is_on() {
    let range = |e: &Expr, ty: DataType| extract_bounds_for_column(e, "id", &ty);
    let int = |i| PlanKey::Value(DbKey::Int(i));
    let five = || literal(DbValue::Int(5));
    let left = |op| binary(five(), op, column("id"));
    assert_eq!(range(&left(Operator::Lt), DataType::Int), Some((int(6), int(i64::MAX))));
    assert_eq!(range(&left(Operator::LtEq), DataType::Int), Some((int(5), int(i64::MAX))));
    assert_eq!(range(&left(Operator::Gt), DataType::Int), Some((int(i64::MIN), int(4))));
    assert_eq!(range(&left(Operator::GtEq), DataType::Int), Some((int(i64::MIN), int(5))));
    assert_eq!(range(&left(Operator::Eq), DataType::Int), Some((int(5), int(5))));
    let parameter = PlanKey::Parameter("p".to_string());
    let e = binary(Expr::Parameter("p".to_string()), Operator::Gt, column("id"));
    assert_eq!(range(&e, DataType::Int), Some((int(i64::MIN), parameter)));
    // No text follows all those that begin with the last character.
    let e = binary(column("id"), Operator::Like, literal(DbValue::string("\u{10ffff}%")));
    assert_eq!(range(&e, DataType::String), None);
    // An integer is no key of a column of decimals.
    let e = binary(column("id"), Operator::Lt, five());
    assert_eq!(range(&e, DataType::Decimal), None);
    let e = binary(column("id"), Operator::Lt, literal(DbValue::Decimal(Decimal::new(55, 1).unwrap())));
    assert_eq!(range(&e, DataType::Int), None);
    assert!(range(&e, DataType::Decimal).is_some());
}

#[test]
fn scans_are_bounded_only_where_something_bounds_them() {
    let compiled = |ty: DataType, e: Expr, ps: &Params| {
        let mut id = Column::plain("id", ty);
        id.is_primary_key = true;
        let s = Schema::new(vec![id]);
        let range = extract_bounds_for_column(&e, "id", &ty);
        let p = LogicalPlan::Scan { table_name: "t".to_string(), schema: s, range };
        (
            match compile_physical(&p, &None, ps).unwrap() {
                PhysicalPlan::SeqScan { start, end, .. } => (start, end),
                other => panic!("no scan: {:?}", other),
            },
            match_point_get(&p, ps).is_some(),
        )
    };
    let none = Params::new();
    let greater = |v: DbValue| binary(column("id"), Operator::GtEq, literal(v));
    assert_eq!(
        compiled(DataType::String, greater(DbValue::string("a")), &none),
        ((Some(DbKey::string("a")), None), false)
    );
    let noon = Time::from_secs_nanos(43200, 0).unwrap();
    assert_eq!(
        compiled(DataType::Time, greater(DbValue::Time(noon)), &none),
        ((Some(DbKey::Time(noon)), None), false)
    );
    assert_eq!(compiled(DataType::Int, literal(DbValue::Bool(true)), &none), ((None, None), false));
    // A parameter that is no key of the column bounds nothing.
    let mut ps = Params::new();
    ps.insert("p", DbValue::Int(5));
    let e = || binary(column("id"), Operator::Eq, Expr::Parameter("p".to_string()));
    assert_eq!(compiled(DataType::Int, e(), &ps), ((Some(DbKey::Int(5)), Some(DbKey::Int(5))), true));
    assert_eq!(compiled(DataType::Decimal, e(), &ps), ((None, None), false));
}

#[test]
fn a_successor_follows_its_prefix() {
    for (p, n) in [("ab", "ac"), ("a\u{10ffff}", "b"), ("\u{d7ff}", "\u{e000}")] {
        assert_eq!(prefix_successor(p).unwrap(), n);
        assert_eq!(compare_texts(p, n), Order::Less);
        assert_eq!(compare_texts(&format!("{}\u{10ffff}\u{10ffff}", p), n), Order::Less);
    }
    assert_eq!(prefix_successor("\u{10ffff}"), None);
    assert_eq!(prefix_successor(""), None);
}

#[test]
fn conjunctions_are_split_and_joined() {
    let a = || binary(column("id"), Operator::Gt, literal(DbValue::Int(3)));
    let b = || binary(column("name"), Operator::Eq, literal(DbValue::string("x")));
    let c = || Expr::Not(Box::new(Expr::IsNull(Box::new(column("name")))));
    let e = binary(a(), Operator::And, binary(b(), Operator::And, c()));
    let mut parts = Vec::new();
    split_conjuncts_rec(&e, &mut parts);
    assert_eq!(parts, vec![a(), b(), c()]);
    let joined = combine_conjuncts(&parts).unwrap();
    assert_eq!(joined, binary(binary(a(), Operator::And, b()), Operator::And, c()));
    for i in 0..6 {
        for name in ["x", "y"] {
            let r = row(i, name);
            assert_eq!(accepts(&e, &r), accepts(&joined, &r));
            assert_eq!(accepts(&e, &r), parts.iter().all(|p| accepts(p, &r)));
        }
    }
    assert_eq!(combine_conjuncts(&Vec::new()), None);
}

#[test]
fn exchanged_conditions_accept_the_same_rows() {
    for op in [Operator::Lt, Operator::LtEq, Operator::Gt, Operator::GtEq, Operator::Eq, Operator::NotEq] {
        for i in 0..5 {
            let e = || binary(column("id"), op, literal(DbValue::Int(2)));
            assert_eq!(accepts(&e(), &row(i, "")), accepts(&swap_join_condition(e()), &row(i, "")));
            assert_eq!(swap_join_condition(swap_join_condition(e())), e());
        }
    }
}

fn scan(prefix: &str, rows: i64) -> LogicalPlan {
    let mut id = Column::plain(&format!("{}.id", prefix), DataType::Int);
    id.is_primary_key = true;
    let range = if rows < 0 {
        None
    } else {
        Some((PlanKey::Value(DbKey::Int(0)), PlanKey::Value(DbKey::Int(rows))))
    };
    LogicalPlan::Scan {
        table_name: prefix.to_string(),
        schema: Schema::new(vec![id, Column::plain(&format!("{}.x", prefix), DataType::Int)]),
        range,
    }
}

/// Optimizes a plan without statistics.
fn optimized(p: &LogicalPlan) -> LogicalPlan {
    let optimizer = Optimizer::new(Vec::new());
    let mut facts = Facts::new();
    loop {
        match optimizer.optimize(p, &facts) {
            Ok(q) => return q,
            Err(e) => {
                let q = e.question.unwrap();
                let a = match &q {
                    Question::FloatOfNat(n) => Answer::Float((*n as f64).to_bits()),
                    Question::NatOfFloat(f) => Answer::Count(f64::from_bits(*f) as u64),
                    Question::FloatArithmetic { op, left, right } => {
                        let (l, r) = (f64::from_bits(*left), f64::from_bits(*right));
                        Answer::Float(
                            match format!("{:?}", op).as_str() {
                                "Add" => l + r,
                                "Sub" => l - r,
                                "Mul" => l * r,
                                _ => l / r,
                            }
                            .to_bits(),
                        )
                    }
                    other => panic!("{:?}", other),
                };
                facts.record(q, a);
            }
        }
    }
}

fn names(p: &LogicalPlan) -> Vec<String> {
    p.schema().columns.into_iter().map(|c| c.name).collect()
}

#[test]
fn exchanged_joins_keep_their_columns() {
    let on = binary(column("a.id"), Operator::Eq, column("b.id"));
    let p = LogicalPlan::new_join(scan("a", 9), scan("b", -1), on, JoinType::Inner);
    let q = optimized(&p);
    assert_eq!(names(&q), names(&p));
    match q {
        LogicalPlan::Projection { source, .. } => match *source {
            LogicalPlan::Join { left, condition, .. } => {
                assert_eq!(names(&left), vec!["b.id", "b.x"]);
                assert_eq!(condition, binary(column("b.id"), Operator::Eq, column("a.id")));
            }
            other => panic!("no join: {:?}", other),
        },
        other => panic!("no projection: {:?}", other),
    }
}

/// How many predicates the filters of a plan have.
fn predicates(p: &LogicalPlan) -> usize {
    match p {
        LogicalPlan::Filter { source, predicate } => {
            let mut parts = Vec::new();
            split_conjuncts_rec(predicate, &mut parts);
            parts.len() + predicates(source)
        }
        LogicalPlan::Join { left, right, .. } => predicates(left) + predicates(right),
        LogicalPlan::Projection { source, .. } | LogicalPlan::Sort { source, .. } => predicates(source),
        _ => 0,
    }
}

#[test]
fn optimizing_keeps_every_predicate() {
    let on = binary(column("a.id"), Operator::Eq, column("b.id"));
    for join_type in [JoinType::Inner, JoinType::Left] {
        let join = LogicalPlan::new_join(scan("a", -1), scan("b", -1), on.copy(), join_type);
        let below = |name: &str| binary(column(name), Operator::Lt, literal(DbValue::Int(5)));
        let predicate = binary(
            binary(below("a.x"), Operator::And, below("b.x")),
            Operator::And,
            binary(below("a.id"), Operator::And, binary(column("a.x"), Operator::Eq, column("b.x"))),
        );
        let p = LogicalPlan::Filter { source: Box::new(join), predicate };
        let q = optimized(&p);
        assert_eq!(predicates(&q), 4);
        assert_eq!(names(&q), names(&p));
        // What is about both sides stays above; so does what is about the right side of an
        // outer join.
        match &q {
            LogicalPlan::Filter { predicate, .. } => {
                let mut above = Vec::new();
                split_conjuncts_rec(predicate, &mut above);
                assert_eq!(above.len(), if join_type == JoinType::Left { 2 } else { 1 });
            }
            other => panic!("no filter: {:?}", other),
        }
    }
}

#[test]
fn moved_predicates_accept_the_same_rows() {
    let (a, b) = (scan("a", -1), scan("b", -1));
    let joined = LogicalPlan::new_join(a.copy(), b.copy(), literal(DbValue::Int(1)), JoinType::Inner).schema();
    let test = |e: &Expr, values: &[i64], s: &Schema| {
        let r = Row::new(values.iter().map(|v| DbValue::Int(*v)).collect());
        e.eval(&r, s, &Facts::new()).unwrap() == DbValue::Bool(true)
    };
    let left = binary(column("a.x"), Operator::Lt, column("a.id"));
    let right = binary(column("b.x"), Operator::GtEq, literal(DbValue::Int(2)));
    for v in 0..3 {
        for w in 0..3 {
            assert_eq!(test(&left, &[1, v, 9, w], &joined), test(&left, &[1, v], &a.schema()));
            assert_eq!(test(&right, &[1, v, 9, w], &joined), test(&right, &[9, w], &b.schema()));
        }
    }
    // With the sides exchanged the same rows fit.
    let on = || binary(column("a.id"), Operator::Lt, column("b.id"));
    let exchanged = LogicalPlan::new_join(b, a, literal(DbValue::Int(1)), JoinType::Inner).schema();
    for (l, r) in [(1, 2), (2, 1), (2, 2)] {
        assert_eq!(test(&on(), &[l, 0, r, 0], &joined), test(&swap_join_condition(on()), &[r, 0, l, 0], &exchanged));
    }
}

#[test]
fn joins_have_the_same_rows_either_way_round() {
    let (a, b) = (scan("a", -1), scan("b", -1));
    let on = literal(DbValue::Int(1));
    let joined = LogicalPlan::new_join(a.copy(), b.copy(), on.copy(), JoinType::Inner).schema();
    let exchanged = LogicalPlan::new_join(b, a, on, JoinType::Inner).schema();
    let holds = |e: &Expr, r: &Row, s: &Schema| {
        matches!(e.eval(r, s, &Facts::new()).unwrap(), DbValue::Bool(true) | DbValue::Int(1..) | DbValue::Int(..=-1))
    };
    let ints = |values: [i64; 4]| Row::new(values.iter().map(|v| DbValue::Int(*v)).collect());
    let compare = |op| binary(column("a.id"), op, column("b.x"));
    let conditions = vec![
        compare(Operator::LtEq),
        compare(Operator::NotEq),
        compare(Operator::Sub),
        compare(Operator::Mul),
        binary(compare(Operator::Eq), Operator::Or, compare(Operator::Gt)),
    ];
    let rows: [[i64; 2]; 3] = [[0, 1], [1, 0], [2, 2]];
    for condition in conditions {
        let swapped = swap_join_condition(condition.copy());
        let mut there: Vec<Vec<DbValue>> = Vec::new();
        let mut back: Vec<Vec<DbValue>> = Vec::new();
        for x in &rows {
            for y in &rows {
                let r = ints([x[0], x[1], y[0], y[1]]);
                if holds(&condition, &r, &joined) {
                    there.push(joined.columns.iter().map(|c| column(&c.name).eval(&r, &joined, &Facts::new()).unwrap()).collect());
                }
                let r = ints([x[0], x[1], y[0], y[1]]);
                if holds(&swapped, &r, &exchanged) {
                    back.push(joined.columns.iter().map(|c| column(&c.name).eval(&r, &exchanged, &Facts::new()).unwrap()).collect());
                }
            }
        }
        assert!(!there.is_empty());
        assert_eq!(there.len(), back.len());
        for r in &there {
            assert_eq!(there.iter().filter(|x| *x == r).count(), back.iter().filter(|x| *x == r).count());
        }
    }
}

#[test]
fn only_whole_keys_are_looked_up() {
    let by_id = || binary(column("a.id"), Operator::Eq, literal(DbValue::Int(5)));
    let single = LogicalPlan::Filter { source: Box::new(scan("a", -1)), predicate: by_id() };
    let found = match_point_get(&optimized(&single), &Params::new()).unwrap();
    assert_eq!(found.key, DbKey::Int(5));
    let mut schema = scan("a", -1).schema();
    schema.columns[1].is_primary_key = true;
    let composite = LogicalPlan::Filter {
        source: Box::new(LogicalPlan::Scan { table_name: "a".to_string(), schema, range: None }),
        predicate: binary(
            by_id(),
            Operator::And,
            binary(column("a.x"), Operator::Eq, literal(DbValue::Int(6))),
        ),
    };
    assert!(match_point_get(&optimized(&composite), &Params::new()).is_none());
}

#[test]
fn needless_sorts_are_dropped() {
    let sorted = |col: &str, asc: bool| LogicalPlan::Sort {
        source: Box::new(scan("a", -1)),
        keys: vec![(column(col), asc)],
    };
    assert!(matches!(optimized(&sorted("a.id", true)), LogicalPlan::Scan { .. }));
    assert!(matches!(optimized(&sorted("a.id", false)), LogicalPlan::Sort { .. }));
    assert!(matches!(optimized(&sorted("a.x", true)), LogicalPlan::Sort { .. }));
}

#[test]
fn binding_keeps_values() {
    let e = binary(
        column("id"),
        Operator::Add,
        Expr::Function { name: "LENGTH".to_string(), args: vec![column("t.name")] },
    );
    let mut bound = e.copy();
    bound.bind_columns(&table()).unwrap();
    assert_ne!(bound, e);
    let facts = Facts::new();
    let r = row(4, "abc");
    assert_eq!(bound.eval(&r, &table(), &facts).unwrap(), DbValue::Int(7));
    assert_eq!(e.eval(&r, &table(), &facts).unwrap(), DbValue::Int(7));
    let mut again = bound.copy();
    again.bind_columns(&Schema::new(Vec::new())).unwrap();
    assert_eq!(again, bound);
}

#[test]
fn substituting_leaves_no_parameter() {
    let mut ps = Params::new();
    ps.insert("k", DbValue::Int(2));
    let mut e = binary(column("id"), Operator::Eq, Expr::Parameter("k".to_string()));
    e.substitute_params(&ps).unwrap();
    assert_eq!(e, binary(column("id"), Operator::Eq, literal(DbValue::Int(2))));
    let before = e.copy();
    e.substitute_params(&Params::new()).unwrap();
    assert_eq!(e, before);
    let mut open = Expr::Parameter("x".to_string());
    assert!(open.substitute_params(&ps).is_err());
    assert_eq!(open, Expr::Parameter("x".to_string()));
}

#[test]
fn values_are_in_a_total_order() {
    let values = vec![
        DbValue::Null,
        DbValue::Bool(false),
        DbValue::Bool(true),
        DbValue::Int(-1),
        DbValue::Int(7),
        DbValue::Float(1.5f64.to_bits()),
        DbValue::Float(f64::INFINITY.to_bits()),
        DbValue::Float(f64::NAN.to_bits()),
        DbValue::string("a"),
        DbValue::string("b"),
        DbValue::bytes(vec![0]),
    ];
    for i in 0..values.len() {
        for j in 0..values.len() {
            let expected = if i < j {
                Order::Less
            } else if i == j {
                Order::Equal
            } else {
                Order::Greater
            };
            assert_eq!(total_compare(&values[i], &values[j]), expected);
        }
    }
    let key = |a: i64, b: i64| vec![DbValue::Int(a), DbValue::Int(b)];
    assert_eq!(compare_keys(&key(1, 2), &key(1, 3), &vec![true, false]), Order::Greater);
    assert_eq!(compare_keys(&key(1, 2), &key(1, 3), &vec![true, true]), Order::Less);
    assert_eq!(compare_keys(&key(1, 2), &key(1, 3), &vec![true]), Order::Equal);
}

#[test]
fn runs_are_read_back() {
    let records = vec![(vec![1u8, 2], vec![3u8]), (Vec::new(), vec![4u8, 5, 6])];
    let mut reader = RunReader::new(encode_run(&records).unwrap());
    assert_eq!(read_count(&mut reader).unwrap(), 2);
    for (k, v) in &records {
        assert_eq!(read_framed(&mut reader).unwrap(), *k);
        assert_eq!(read_framed(&mut reader).unwrap(), *v);
    }
    assert_eq!(reader.remaining(), 0);
    assert!(read_framed(&mut reader).is_err());
    let mut bytes = Vec::new();
    write_count(&mut bytes, 0x0102);
    assert_eq!(bytes, vec![2, 1, 0, 0, 0, 0, 0, 0]);
    let mut bytes = Vec::new();
    write_framed(&mut bytes, &vec![9, 9]).unwrap();
    assert_eq!(bytes, vec![2, 0, 0, 0, 9, 9]);
}

#[test]
fn merges_come_in_order() {
    let mut entries = vec![
        (vec![DbValue::Int(2)], "a"),
        (vec![DbValue::Int(1)], "b"),
        (vec![DbValue::Int(2)], "c"),
        (vec![DbValue::Int(1)], "d"),
    ];
    sort_entries(&mut entries, &vec![true]);
    assert_eq!(entries.iter().map(|e| e.1).collect::<Vec<&str>>(), vec!["b", "d", "a", "c"]);
    let mut merge: KWayMerge<&str> = KWayMerge::new(vec![true]);
    merge.push(vec![DbValue::Int(5)], "x", 0);
    merge.push(vec![DbValue::Int(3)], "y", 1);
    merge.push(vec![DbValue::Int(4)], "z", 2);
    let mut out = Vec::new();
    while let Some(e) = merge.next() {
        out.push((e.payload, e.run_index));
    }
    assert_eq!(out, vec![("y", 1), ("z", 2), ("x", 0)]);
    let groups = merge_groups(130);
    assert_eq!(groups.len(), 3);
}

#[test]
fn texts_are_handled() {
    let facts = Facts::new();
    let upper = Expr::Function { name: "upper".to_string(), args: vec![literal(DbValue::string("stra\u{df}e"))] };
    assert_eq!(upper.eval(&row(0, ""), &table(), &facts).unwrap(), DbValue::string("STRASSE"));
    let spaced = DbValue::string("\u{3000} 2024-02-29 \n");
    assert_eq!(
        cast_value(spaced, DataType::Date, &facts).unwrap(),
        DbValue::Date(Date::parse("2024-02-29").unwrap())
    );
    assert_eq!(
        explain_text("a b \n\n", " c", "\u{3000}"),
        "--- Logical Plan ---\na b\n--- Optimized Plan ---\n c\n--- Physical Plan ---\n"
    );
    let p = LogicalPlan::Filter {
        source: Box::new(scan("a", -1)),
        predicate: literal(DbValue::string("a\"b\n\u{7f}")),
    };
    assert_eq!(
        format_logical_plan(&p, &facts).unwrap(),
        "- Filter: condition=Literal(String(\"a\\\"b\\n\\u{7f}\"))\n  - Scan: table=a, range=all\n"
    );
    assert_eq!(unqualified_name("a.b.c"), "c");
    assert!(like_match("a.c", "a_c"));
    assert!(like_match("line\nbreak", "line%"));
    assert!(!like_match("abc", "a.c"));
    assert!(like_match("100%", "100%"));
}

#[test]
fn dates_and_decimals_are_those_of_their_crates() {
    assert_eq!(chrono::Datelike::num_days_from_ce(&chrono::NaiveDate::MIN), DATE_MIN_DAYS);
    assert_eq!(chrono::Datelike::num_days_from_ce(&chrono::NaiveDate::MAX), DATE_MAX_DAYS);
    let d = Date::parse("2024-02-29").unwrap();
    assert_eq!((d.days(), d.to_text().as_str()), (738945, "2024-02-29"));
    assert!(Date::parse("2023-02-29").is_err());
    let t = Time::parse("23:59:60.5").unwrap();
    assert_eq!((t.secs(), t.nanos()), (86399, 1_500_000_000));
    assert_eq!(Time::parse("01:02:03").unwrap().to_text(), "01:02:03");
    for s in ["2024-02-29T01:02:03", "2024-02-29 01:02:03", "2024-02-29 01:02:03.25", "2024-02-29"] {
        let ts = Timestamp::parse(s).unwrap();
        assert_eq!(ts.date, d);
    }
    assert_eq!(Timestamp::parse("2024-02-29 01:02:03.25").unwrap().to_text(), "2024-02-29 01:02:03.250");
    assert!(Timestamp::parse("noon").is_none());
    let x = Decimal::parse("1.50").unwrap();
    assert_eq!((x.mantissa(), x.scale(), x.to_text().as_str()), (150, 2, "1.50"));
    let y = Decimal::parse("0.25").unwrap();
    assert_eq!(x.checked_add(&y).unwrap().to_text(), "1.75");
    assert_eq!(x.checked_sub(&y).unwrap().to_text(), "1.25");
    assert_eq!(x.checked_mul(&y).unwrap().to_text(), "0.3750");
    assert_eq!(x.checked_div(&y).unwrap().to_text(), "6");
    assert!(x.checked_div(&Decimal::from_int(0)).is_none());
    assert!(Decimal::max().checked_add(&Decimal::from_int(1)).is_none());
    assert_eq!(Decimal::max().to_text(), rust_decimal::Decimal::MAX.to_string());
    assert_eq!(Decimal::min().to_text(), rust_decimal::Decimal::MIN.to_string());
    assert_eq!(x.compare(&Decimal::parse("1.5").unwrap()), Order::Equal);
    assert_eq!(Decimal::parse("-7.9").unwrap().to_int(), Some(-7));
}

#[test]
fn a_zero_keeps_its_sign() {
    let parts = |d: &Decimal| (d.mantissa(), d.is_negative(), d.scale());
    let zero = Decimal::signed(0, true, 0).unwrap();
    assert_eq!((parts(&zero), zero.to_text().as_str()), ((0, true, 0), "-0"));
    assert_eq!(zero, Decimal::from_int(0));
    assert!(!zero.same(&Decimal::from_int(0)));
    assert!(zero.is_zero());
    assert_eq!(zero.to_int(), Some(0));
    assert_eq!(Decimal::signed(5, true, 0), None);
    assert_eq!(Decimal::signed(-5, false, 0), None);
    assert_eq!(parts(&Decimal::new(-5, 1).unwrap()), (-5, true, 1));
    // A product that is rounded to zero has the sign of the product.
    let x = Decimal::new(-1, 28).unwrap().checked_mul(&Decimal::new(1, 28).unwrap()).unwrap();
    let outer = rust_decimal::Decimal::new(-1, 28).checked_mul(rust_decimal::Decimal::new(1, 28)).unwrap();
    assert_eq!(parts(&x), (outer.mantissa(), outer.is_sign_negative(), outer.scale()));
    assert_eq!(x.to_text(), outer.to_string());
    for s in ["-0", "-0.00", "0.0", "-1.5"] {
        let outer: rust_decimal::Decimal = s.parse().unwrap();
        let d = Decimal::parse(s).unwrap();
        assert_eq!(parts(&d), (outer.mantissa(), outer.is_sign_negative(), outer.scale()));
        assert_eq!(d.to_text(), outer.to_string());
    }
}

#[test]
fn the_float_of_a_decimal_is_asked_for() {
    let d = Decimal::new(25, 2).unwrap();
    let x = DbValue::Decimal(d);
    let one = DbValue::Float(1f64.to_bits());
    let mut facts = Facts::new();
    let e = compare_values(&x, &one, &facts).unwrap_err();
    assert_eq!(e.kind, ErrorKind::Pending);
    assert_eq!(e.question, Some(Question::FloatOfDecimal(d)));
    assert_eq!(cast_value(x.clone(), DataType::Float, &facts).unwrap_err().kind, ErrorKind::Pending);
    facts.record(Question::FloatOfDecimal(d), Answer::OptionalFloat(Some(0.25f64.to_bits())));
    assert_eq!(compare_values(&x, &one, &facts).unwrap(), Order::Less);
    assert_eq!(compare_values(&one, &x, &facts).unwrap(), Order::Greater);
    assert_eq!(cast_value(x.clone(), DataType::Float, &facts).unwrap(), DbValue::Float(0.25f64.to_bits()));
    // The same number with another scale is another question.
    let longer = DbValue::Decimal(Decimal::new(250, 3).unwrap());
    assert_eq!(compare_values(&longer, &one, &facts).unwrap_err().kind, ErrorKind::Pending);
    let mut facts = Facts::new();
    facts.record(Question::FloatOfDecimal(d), Answer::OptionalFloat(None));
    assert_eq!(compare_values(&x, &one, &facts).unwrap_err().kind, ErrorKind::DecimalToFloat);
    assert_eq!(cast_value(x.clone(), DataType::Float, &facts).unwrap_err().kind, ErrorKind::DecimalToFloatCast);
    let e = eval_arithmetic(FloatOp::Add, &one, &x, &facts).unwrap_err();
    assert_eq!(e.kind, ErrorKind::DecimalToFloatArithmetic);
}

#[test]
fn a_merge_of_sorted_runs_is_sorted_and_whole() {
    // Run `r` holds every key that leaves `r` when divided by the number of runs, and some are empty.
    let n = 40;
    let runs: Vec<Vec<i64>> = (0..n).map(|r| (0..200).filter(|i| i % n == r && r % 7 != 3).collect()).collect();
    let mut at = vec![0; runs.len()];
    let mut merge: KWayMerge<i64> = KWayMerge::new(vec![false]);
    let descending: Vec<Vec<i64>> = runs.iter().map(|r| r.iter().rev().copied().collect()).collect();
    let read = |merge: &mut KWayMerge<i64>, at: &mut Vec<usize>, r: usize| {
        if at[r] < descending[r].len() {
            let v = descending[r][at[r]];
            merge.push(vec![DbValue::Int(v)], v, r);
            at[r] += 1;
        }
    };
    for r in 0..descending.len() {
        read(&mut merge, &mut at, r);
    }
    let mut out = Vec::new();
    while let Some(e) = merge.next() {
        read(&mut merge, &mut at, e.run_index);
        out.push(e.payload);
    }
    let mut all: Vec<i64> = runs.into_iter().flatten().collect();
    all.sort();
    all.reverse();
    assert_eq!(out, all);
    assert!(merge.next().is_none());
}

#[test]
fn binding_columns_sets_their_indexes_alone() {
    let build = |id: Option<usize>, name: Option<usize>| Expr::Case {
        operand: None,
        conditions: vec![binary(Expr::Column("id".to_string(), id), Operator::Gt, literal(DbValue::Int(1)))],
        results: vec![Expr::Column("name".to_string(), name)],
        else_result: Some(Box::new(Expr::Parameter("p".to_string()))),
    };
    let mut e = build(None, Some(7));
    e.bind_columns(&table()).unwrap();
    assert_eq!(e, build(Some(0), Some(7)));
}

#[test]
fn white_space_is_what_unicode_says() {
    let is_space = |c: u32| {
        matches!(c, 0x9..=0xd | 0x20 | 0x85 | 0xa0 | 0x1680 | 0x2000..=0x200a | 0x2028 | 0x2029 | 0x202f | 0x205f | 0x3000)
    };
    for n in 0..0x11_0000u32 {
        if let Some(c) = char::from_u32(n) {
            assert_eq!(trim(&c.to_string()).is_empty(), is_space(n), "{:x}", n);
        }
    }
    let shout = Expr::Function { name: "UPPER".to_string(), args: vec![literal(DbValue::string("az[`{9Z"))] };
    assert_eq!(shout.eval(&row(0, ""), &table(), &Facts::new()).unwrap(), DbValue::string("AZ[`{9Z"));
}
