//! Key ranges, sort orders and the rewriting of plans.

use dtdb_sql::bounds::{
    extract_bounds_for_column, is_key_unbounded_max, is_key_unbounded_min, like_literal_prefix, next_scalar,
    prefix_successor, val_to_key,
};
use dtdb_sql::expr::{Expr, Operator};
use dtdb_sql::logical::{LogicalPlan, PlanKey};
use dtdb_sql::optimizer::{swap_join_condition, Optimizer};
use dtdb_sql::schema::{Column, IndexDefinition, IndexType, Schema};
use dtdb_sql::value::{DataType, DbKey, DbValue};

#[test]
fn test_get_plan_sort_key_projection() {
    let schema = Schema::new(vec![Column {
        id: 0,
        name: "id".to_string(),
        data_type: DataType::Int,
        is_primary_key: true,
        is_nullable: false,
        locality_group: None,
        default_value: None,
        is_auto_increment: false,
    }]);

    let scan = LogicalPlan::Scan {
        table_name: "t".to_string(),
        schema: schema.clone(),
        range: None,
    };

    let proj = LogicalPlan::Projection {
        source: Box::new(scan),
        expressions: vec![Expr::Column("id".to_string(), None)],
        field_names: vec!["alias_id".to_string()],
        schema: schema.clone(),
    };

    let sort_key = Optimizer::get_plan_sort_key(&proj);
    assert_eq!(sort_key, Some("alias_id".to_string()));
}

#[test]
fn test_is_key_unbounded_min_max() {
    assert!(is_key_unbounded_min(&DbKey::Int(i64::MIN)));
    assert!(!is_key_unbounded_min(&DbKey::Int(0)));
    assert!(is_key_unbounded_max(&DbKey::Int(i64::MAX)));
    assert!(!is_key_unbounded_max(&DbKey::Int(0)));

    assert!(is_key_unbounded_min(&DbKey::string("")));
    assert!(!is_key_unbounded_min(&DbKey::string("a")));
    assert!(is_key_unbounded_max(&DbKey::string("\u{10ffff}")));

    assert!(is_key_unbounded_min(&DbKey::Bool(false)));
    assert!(!is_key_unbounded_min(&DbKey::Bool(true)));
    assert!(is_key_unbounded_max(&DbKey::Bool(true)));
    assert!(!is_key_unbounded_max(&DbKey::Bool(false)));

    assert!(is_key_unbounded_min(&DbKey::composite(vec![])));
    assert!(is_key_unbounded_min(&DbKey::composite(vec![DbKey::Bool(
        false
    )])));
    assert!(!is_key_unbounded_min(&DbKey::composite(vec![DbKey::Bool(
        true
    )])));
    assert!(is_key_unbounded_max(&DbKey::composite(vec![])));
    assert!(is_key_unbounded_max(&DbKey::composite(vec![DbKey::Bool(
        true
    )])));
    assert!(!is_key_unbounded_max(&DbKey::composite(vec![DbKey::Bool(
        false
    )])));
}

#[test]
fn test_val_to_key_unsupported() {
    assert_eq!(val_to_key(&DbValue::Float(1.5f64.to_bits())), None);
    assert_eq!(val_to_key(&DbValue::Bool(true)), None);
    assert_eq!(val_to_key(&DbValue::Null), None);
}

#[test]
fn test_swap_join_conditions() {
    let l = Box::new(Expr::Column("a".to_string(), None));
    let r = Box::new(Expr::Column("b".to_string(), None));

    let cond_eq = Expr::BinaryOp {
        left: l.clone(),
        op: Operator::Eq,
        right: r.clone(),
    };
    let swapped_eq = swap_join_condition(cond_eq);
    assert!(matches!(
        swapped_eq,
        Expr::BinaryOp {
            op: Operator::Eq,
            ..
        }
    ));
    if let Expr::BinaryOp { left, right, .. } = swapped_eq {
        assert_eq!(left, r);
        assert_eq!(right, l);
    }

    let cond_neq = Expr::BinaryOp {
        left: l.clone(),
        op: Operator::NotEq,
        right: r.clone(),
    };
    let swapped_neq = swap_join_condition(cond_neq);
    assert!(matches!(
        swapped_neq,
        Expr::BinaryOp {
            op: Operator::NotEq,
            ..
        }
    ));
    if let Expr::BinaryOp { left, right, .. } = swapped_neq {
        assert_eq!(left, r);
        assert_eq!(right, l);
    }

    let cond_lt = Expr::BinaryOp {
        left: l.clone(),
        op: Operator::Lt,
        right: r.clone(),
    };
    let swapped_lt = swap_join_condition(cond_lt);
    assert!(matches!(
        swapped_lt,
        Expr::BinaryOp {
            op: Operator::Gt,
            ..
        }
    ));
    if let Expr::BinaryOp { left, right, .. } = swapped_lt {
        assert_eq!(left, r);
        assert_eq!(right, l);
    }

    let cond_lteq = Expr::BinaryOp {
        left: l.clone(),
        op: Operator::LtEq,
        right: r.clone(),
    };
    let swapped_lteq = swap_join_condition(cond_lteq);
    assert!(matches!(
        swapped_lteq,
        Expr::BinaryOp {
            op: Operator::GtEq,
            ..
        }
    ));
    if let Expr::BinaryOp { left, right, .. } = swapped_lteq {
        assert_eq!(left, r);
        assert_eq!(right, l);
    }

    let cond_gteq = Expr::BinaryOp {
        left: l.clone(),
        op: Operator::GtEq,
        right: r.clone(),
    };
    let swapped_gteq = swap_join_condition(cond_gteq);
    assert!(matches!(
        swapped_gteq,
        Expr::BinaryOp {
            op: Operator::LtEq,
            ..
        }
    ));
    if let Expr::BinaryOp { left, right, .. } = swapped_gteq {
        assert_eq!(left, r);
        assert_eq!(right, l);
    }

    let cond_other = Expr::BinaryOp {
        left: l.clone(),
        op: Operator::Add,
        right: r.clone(),
    };
    let swapped_other = swap_join_condition(cond_other);
    assert!(matches!(
        swapped_other,
        Expr::BinaryOp {
            op: Operator::Add,
            ..
        }
    ));
    if let Expr::BinaryOp { left, right, .. } = swapped_other {
        assert_eq!(left, r);
        assert_eq!(right, l);
    }

    let non_binary = Expr::Literal(DbValue::Int(1));
    assert_eq!(swap_join_condition(non_binary.clone()), non_binary);
}

#[test]
fn test_extract_bounds_for_column_edge_cases() {
    let col_type_int = DataType::Int;

    // WHERE id < i64::MIN should return None (empty range)
    let predicate_lt_min = Expr::BinaryOp {
        left: Box::new(Expr::Column("id".to_string(), None)),
        op: Operator::Lt,
        right: Box::new(Expr::Literal(DbValue::Int(i64::MIN))),
    };
    assert_eq!(
        extract_bounds_for_column(&predicate_lt_min, "id", &col_type_int),
        None
    );

    // WHERE val > true for bool type (unsupported val_to_key)
    let predicate_bool_gt = Expr::BinaryOp {
        left: Box::new(Expr::Column("val".to_string(), None)),
        op: Operator::Gt,
        right: Box::new(Expr::Literal(DbValue::Bool(true))),
    };
    assert_eq!(
        extract_bounds_for_column(&predicate_bool_gt, "val", &DataType::Bool),
        None
    );

    // WHERE val > 5 for boolean col_type (testing fallback arm _ => key in matches!(op, Operator::Gt))
    let predicate_bool_gt_2 = Expr::BinaryOp {
        left: Box::new(Expr::Column("val".to_string(), None)),
        op: Operator::Gt,
        right: Box::new(Expr::Literal(DbValue::Int(5))),
    };
    let bounds = extract_bounds_for_column(&predicate_bool_gt_2, "val", &DataType::Bool);
    assert!(bounds.is_some());
    let (start, end) = bounds.unwrap();
    assert_eq!(start, PlanKey::Value(DbKey::Int(6)));
    assert_eq!(end, PlanKey::Value(DbKey::string("\u{10ffff}")));

    // WHERE val < 5 for boolean col_type (testing fallback arm _ => key in matches!(op, Operator::Lt))
    let predicate_bool_lt = Expr::BinaryOp {
        left: Box::new(Expr::Column("val".to_string(), None)),
        op: Operator::Lt,
        right: Box::new(Expr::Literal(DbValue::Int(5))),
    };
    let bounds = extract_bounds_for_column(&predicate_bool_lt, "val", &DataType::Bool);
    assert!(bounds.is_some());
    let (start, end) = bounds.unwrap();
    assert_eq!(start, PlanKey::Value(DbKey::string("")));
    assert_eq!(end, PlanKey::Value(DbKey::Int(4)));

    // And operators
    let predicate_and = Expr::BinaryOp {
        left: Box::new(Expr::BinaryOp {
            left: Box::new(Expr::Column("id".to_string(), None)),
            op: Operator::GtEq,
            right: Box::new(Expr::Literal(DbValue::Int(5))),
        }),
        op: Operator::And,
        right: Box::new(Expr::BinaryOp {
            left: Box::new(Expr::Column("id".to_string(), None)),
            op: Operator::LtEq,
            right: Box::new(Expr::Literal(DbValue::Int(10))),
        }),
    };
    let bounds = extract_bounds_for_column(&predicate_and, "id", &col_type_int);
    assert_eq!(
        bounds,
        Some((
            PlanKey::Value(DbKey::Int(5)),
            PlanKey::Value(DbKey::Int(10))
        ))
    );
}

#[test]
fn test_like_literal_prefix_extraction() {
    assert_eq!(like_literal_prefix("ab%"), Some("ab".to_string()));
    assert_eq!(like_literal_prefix("abc"), Some("abc".to_string())); // no wildcard at all
    assert_eq!(like_literal_prefix("ab_d"), Some("ab".to_string())); // `_` also terminates
    assert_eq!(like_literal_prefix("abc%xyz"), Some("abc".to_string()));
    // A leading wildcard leaves no literal prefix.
    assert_eq!(like_literal_prefix("%ab"), None);
    assert_eq!(like_literal_prefix("_ab"), None);
    assert_eq!(like_literal_prefix(""), None);
}

#[test]
fn test_next_scalar_and_prefix_successor() {
    assert_eq!(next_scalar('a'), Some('b'));
    // Steps over the UTF-16 surrogate gap (U+D800..=U+DFFF).
    assert_eq!(next_scalar('\u{D7FF}'), Some('\u{E000}'));
    // The maximum scalar has no successor.
    assert_eq!(next_scalar('\u{10FFFF}'), None);

    assert_eq!(prefix_successor("ab"), Some("ac".to_string()));
    // Trailing max scalars carry into the preceding character.
    assert_eq!(prefix_successor("a\u{10FFFF}"), Some("b".to_string()));
    // An all-max prefix has no representable successor.
    assert_eq!(prefix_successor("\u{10FFFF}\u{10FFFF}"), None);
}

#[test]
fn test_extract_like_prefix_bounds() {
    let like = |pat: &str| Expr::BinaryOp {
        left: Box::new(Expr::Column("name".to_string(), None)),
        op: Operator::Like,
        right: Box::new(Expr::Literal(DbValue::string(pat))),
    };

    // `name LIKE 'ab%'` brackets the prefix space as the inclusive range
    // ["ab", "ac"]; the residual LIKE filter drops the lone "ac" boundary.
    assert_eq!(
        extract_bounds_for_column(&like("ab%"), "name", &DataType::String),
        Some((
            PlanKey::Value(DbKey::string("ab")),
            PlanKey::Value(DbKey::string("ac"))
        ))
    );
    // A later `_`/`%` only narrows beyond the prefix, so the prefix range is
    // identical to the pure-prefix case.
    assert_eq!(
        extract_bounds_for_column(&like("ab_d"), "name", &DataType::String),
        Some((
            PlanKey::Value(DbKey::string("ab")),
            PlanKey::Value(DbKey::string("ac"))
        ))
    );

    // Not reducible to a prefix range: leading wildcard, parameterized
    // pattern, column on the wrong side, or a non-string column.
    assert_eq!(
        extract_bounds_for_column(&like("%ab"), "name", &DataType::String),
        None
    );
    let like_param = Expr::BinaryOp {
        left: Box::new(Expr::Column("name".to_string(), None)),
        op: Operator::Like,
        right: Box::new(Expr::Parameter("p".to_string())),
    };
    assert_eq!(
        extract_bounds_for_column(&like_param, "name", &DataType::String),
        None
    );
    let like_reversed = Expr::BinaryOp {
        left: Box::new(Expr::Literal(DbValue::string("ab%"))),
        op: Operator::Like,
        right: Box::new(Expr::Column("name".to_string(), None)),
    };
    assert_eq!(
        extract_bounds_for_column(&like_reversed, "name", &DataType::String),
        None
    );
    assert_eq!(
        extract_bounds_for_column(&like("ab%"), "name", &DataType::Int),
        None
    );
}

#[test]
fn test_get_plan_sort_key_edge_cases() {
    let mut schema = Schema::new(vec![Column {
        id: 0,
        name: "id".to_string(),
        data_type: DataType::Int,
        is_primary_key: true,
        is_nullable: false,
        locality_group: None,
        default_value: None,
        is_auto_increment: false,
    }]);
    schema.indexes.push(IndexDefinition {
        name: "idx_id".to_string(),
        columns: vec!["id".to_string()],
        index_type: IndexType::BTree,
        tokenizer: None,
    });

    // IndexScan sort key check
    let iscan_valid = LogicalPlan::IndexScan {
        table_name: "t".to_string(),
        index_name: "idx_id".to_string(),
        schema: schema.clone(),
        range: None,
    };
    assert_eq!(
        Optimizer::get_plan_sort_key(&iscan_valid),
        Some("id".to_string())
    );

    let iscan_invalid = LogicalPlan::IndexScan {
        table_name: "t".to_string(),
        index_name: "idx_non_existent".to_string(),
        schema: schema.clone(),
        range: None,
    };
    assert_eq!(Optimizer::get_plan_sort_key(&iscan_invalid), None);

    // Filter / Limit / Distinct propagation
    let filter = LogicalPlan::Filter {
        source: Box::new(iscan_valid.clone()),
        predicate: Expr::Literal(DbValue::Bool(true)),
    };
    assert_eq!(
        Optimizer::get_plan_sort_key(&filter),
        Some("id".to_string())
    );

    // Projection match and mismatch
    let proj_match = LogicalPlan::Projection {
        source: Box::new(iscan_valid.clone()),
        expressions: vec![Expr::Column("id".to_string(), None)],
        field_names: vec!["alias_id".to_string()],
        schema: schema.clone(),
    };
    assert_eq!(
        Optimizer::get_plan_sort_key(&proj_match),
        Some("alias_id".to_string())
    );

    let proj_mismatch = LogicalPlan::Projection {
        source: Box::new(iscan_valid.clone()),
        expressions: vec![Expr::Literal(DbValue::Int(1))],
        field_names: vec!["alias_id".to_string()],
        schema: schema.clone(),
    };
    assert_eq!(Optimizer::get_plan_sort_key(&proj_mismatch), None);
}

#[test]
fn test_try_promote_to_index_scan_edge_cases() {
    let mut schema = Schema::new(vec![
        Column {
            id: 0,
            name: "id".to_string(),
            data_type: DataType::Int,
            is_primary_key: true,
            is_nullable: false,
            locality_group: None,
            default_value: None,
            is_auto_increment: false,
        },
        Column {
            id: 0,
            name: "val".to_string(),
            data_type: DataType::Int,
            is_primary_key: false,
            is_nullable: true,
            locality_group: None,
            default_value: None,
            is_auto_increment: false,
        },
    ]);
    schema.indexes.push(IndexDefinition {
        name: "idx_val".to_string(),
        columns: vec!["val".to_string()],
        index_type: IndexType::BTree,
        tokenizer: None,
    });

    // Scan range is not None (cannot promote)
    let scan_with_range = LogicalPlan::Scan {
        table_name: "t".to_string(),
        schema: schema.clone(),
        range: Some((
            PlanKey::Value(DbKey::Int(1)),
            PlanKey::Value(DbKey::Int(10)),
        )),
    };
    assert!(
        Optimizer::try_promote_to_index_scan(&scan_with_range, "val")
            .is_none()
    );

    // Scan with no range (can promote)
    let scan = LogicalPlan::Scan {
        table_name: "t".to_string(),
        schema: schema.clone(),
        range: None,
    };
    let promoted = Optimizer::try_promote_to_index_scan(&scan, "val");
    assert!(promoted.is_some());
    assert!(matches!(promoted.unwrap(), LogicalPlan::IndexScan { .. }));

    // Filter propagation
    let filter = LogicalPlan::Filter {
        source: Box::new(scan.clone()),
        predicate: Expr::Literal(DbValue::Bool(true)),
    };
    let filter_promoted = Optimizer::try_promote_to_index_scan(&filter, "val");
    assert!(filter_promoted.is_some());
    if let Some(LogicalPlan::Filter { source, .. }) = filter_promoted {
        assert!(matches!(*source, LogicalPlan::IndexScan { .. }));
    } else {
        panic!("Expected Filter containing IndexScan");
    }

    // Limit propagation
    let limit = LogicalPlan::Limit {
        source: Box::new(scan.clone()),
        limit: Some(10),
        offset: 0,
    };
    let limit_promoted = Optimizer::try_promote_to_index_scan(&limit, "val");
    assert!(limit_promoted.is_some());
    if let Some(LogicalPlan::Limit { source, .. }) = limit_promoted {
        assert!(matches!(*source, LogicalPlan::IndexScan { .. }));
    } else {
        panic!("Expected Limit containing IndexScan");
    }

    // Distinct propagation
    let distinct = LogicalPlan::Distinct {
        source: Box::new(scan.clone()),
    };
    let distinct_promoted = Optimizer::try_promote_to_index_scan(&distinct, "val");
    assert!(distinct_promoted.is_some());
    if let Some(LogicalPlan::Distinct { source, .. }) = distinct_promoted {
        assert!(matches!(*source, LogicalPlan::IndexScan { .. }));
    } else {
        panic!("Expected Distinct containing IndexScan");
    }

    // Projection propagation
    let proj = LogicalPlan::Projection {
        source: Box::new(scan.clone()),
        expressions: vec![Expr::Column("val".to_string(), None)],
        field_names: vec!["alias_val".to_string()],
        schema: schema.clone(),
    };
    let proj_promoted = Optimizer::try_promote_to_index_scan(&proj, "alias_val");
    assert!(proj_promoted.is_some());
    if let Some(LogicalPlan::Projection { source, .. }) = proj_promoted {
        assert!(matches!(*source, LogicalPlan::IndexScan { .. }));
    } else {
        panic!("Expected Projection containing IndexScan");
    }
}
