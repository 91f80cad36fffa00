use sqlx_paginated::{ArgValue, Dialect, QueryBuilder, QueryParamsBuilder};

fn user_columns() -> Vec<String> {
    vec![
        "name".to_string(),
        "email".to_string(),
        "status".to_string(),
        "created_at".to_string(),
    ]
}

#[test]
fn test_basic_search_query() {
    let params = QueryParamsBuilder::new(user_columns())
        .with_search("john".to_string(), vec!["name".to_string(), "email".to_string()])
        .build();

    let (conditions, arguments) = QueryBuilder::new(user_columns()).with_search(&params).build();

    assert_eq!(conditions.len(), 1);
    assert_eq!(
        conditions[0],
        "(LOWER(\"name\") LIKE LOWER($1) OR LOWER(\"email\") LIKE LOWER($1))"
    );
    assert_eq!(arguments.len(), 1);
    match &arguments[0] {
        ArgValue::Text(s) => assert_eq!(s, "%john%"),
        _ => panic!("expected a text argument"),
    }
}

#[test]
fn test_empty_search_query() {
    let params = QueryParamsBuilder::new(user_columns())
        .with_search("   ".to_string(), vec!["name".to_string()])
        .build();

    let (conditions, arguments) = QueryBuilder::new(user_columns()).with_search(&params).build();
    assert!(conditions.is_empty());
    assert!(arguments.is_empty());
}

#[test]
fn test_search_with_no_valid_columns() {
    let params = QueryParamsBuilder::new(user_columns())
        .with_search("john".to_string(), vec!["bogus".to_string(), "pg_table".to_string()])
        .build();

    let (conditions, arguments) = QueryBuilder::new(user_columns()).with_search(&params).build();
    assert!(conditions.is_empty());
    assert!(arguments.is_empty());
}

#[test]
fn test_filters_emit_equality_conditions() {
    let params = QueryParamsBuilder::new(user_columns())
        .with_filter("status".to_string(), Some("active".to_string()))
        .build();

    let (conditions, arguments) = QueryBuilder::new(user_columns()).with_filters(&params).build();

    assert_eq!(conditions, vec!["\"status\" = $1".to_string()]);
    assert_eq!(arguments.len(), 1);
    match &arguments[0] {
        ArgValue::Text(s) => assert_eq!(s, "active"),
        _ => panic!("expected a text argument"),
    }
}

#[test]
fn test_filters_apply_type_casts() {
    let params = QueryParamsBuilder::new(user_columns())
        .with_filter("status".to_string(), Some("true".to_string()))
        .build();

    let (conditions, _) = QueryBuilder::new(user_columns()).with_filters(&params).build();
    assert_eq!(conditions, vec!["\"status\" = $1::boolean".to_string()]);
}

#[test]
fn test_filter_on_unknown_column_has_no_effect() {
    // Only the known column contributes; the unknown one changes nothing
    let with_unknown = QueryParamsBuilder::new(vec!["status".to_string(), "extra".to_string()])
        .with_filter("status".to_string(), Some("active".to_string()))
        .with_filter("extra".to_string(), Some("1".to_string()))
        .build();

    // the builder below knows only `status`, so `extra` is dropped there
    let (conditions, arguments) =
        QueryBuilder::new(vec!["status".to_string()]).with_filters(&with_unknown).build();

    let just_status = QueryParamsBuilder::new(vec!["status".to_string()])
        .with_filter("status".to_string(), Some("active".to_string()))
        .build();
    let (conditions2, arguments2) =
        QueryBuilder::new(vec!["status".to_string()]).with_filters(&just_status).build();

    assert_eq!(conditions, conditions2);
    assert_eq!(conditions, vec!["\"status\" = $1".to_string()]);
    assert_eq!(arguments.len(), arguments2.len());
}

#[test]
fn test_filter_with_absent_value_is_skipped() {
    let params = QueryParamsBuilder::new(user_columns())
        .with_filter("status".to_string(), None)
        .build();

    let (conditions, arguments) = QueryBuilder::new(user_columns()).with_filters(&params).build();
    assert!(conditions.is_empty());
    assert!(arguments.is_empty());
}

#[test]
fn test_date_range_conditions() {
    let after = sqlx_paginated::UtcTimestamp::new(1704067200, 0);
    let before = sqlx_paginated::UtcTimestamp::new(1735689599, 0);
    let params = QueryParamsBuilder::new(user_columns())
        .with_date_range(Some(after), Some(before), Some("created_at".to_string()))
        .build();

    let (conditions, arguments) =
        QueryBuilder::new(user_columns()).with_date_range(&params).build();

    assert_eq!(
        conditions,
        vec!["created_at >= $1".to_string(), "created_at <= $2".to_string()]
    );
    assert_eq!(arguments.len(), 2);
    match &arguments[0] {
        ArgValue::Timestamp(t) => assert_eq!(t.secs, 1704067200),
        _ => panic!("expected a timestamp argument"),
    }
}

#[test]
fn test_date_range_on_unsafe_column_is_skipped() {
    let after = sqlx_paginated::UtcTimestamp::new(1704067200, 0);
    let params = QueryParamsBuilder::new(user_columns())
        .with_date_range(Some(after), None, Some("ctid".to_string()))
        .build();

    let (conditions, arguments) =
        QueryBuilder::new(user_columns()).with_date_range(&params).build();
    assert!(conditions.is_empty());
    assert!(arguments.is_empty());
}

#[test]
fn test_custom_condition() {
    let (conditions, arguments) = QueryBuilder::new(user_columns())
        .with_condition("status", ">", "18".to_string())
        .build();

    assert_eq!(conditions, vec!["\"status\" > $1".to_string()]);
    assert_eq!(arguments.len(), 1);
}

#[test]
fn test_custom_condition_unsafe_column_skipped() {
    let (conditions, arguments) = QueryBuilder::new(user_columns())
        .with_condition("pg_class", ">", "18".to_string())
        .build();

    assert!(conditions.is_empty());
    assert!(arguments.is_empty());
}

#[test]
fn test_raw_condition_bypasses_checks() {
    let (conditions, arguments) = QueryBuilder::new(user_columns())
        .with_raw_condition("status != 'deleted'".to_string())
        .build();

    assert_eq!(conditions, vec!["status != 'deleted'".to_string()]);
    assert!(arguments.is_empty());
}

#[test]
fn test_combined_conditions() {
    let (conditions, _) = QueryBuilder::new(user_columns())
        .with_combined_conditions(|mut b| {
            b.conditions.push("status = 'active'".to_string());
            b.conditions.push("age >= 18".to_string());
            b
        })
        .build();

    assert_eq!(
        conditions,
        vec!["status = 'active'".to_string(), "age >= 18".to_string()]
    );
}

#[test]
fn test_disable_protection_allows_unprotected_columns() {
    // `ctid` is in the column list but blocked by default protection
    let cols = vec!["ctid".to_string()];
    let params = QueryParamsBuilder::new(cols.clone())
        .with_filter("ctid".to_string(), Some("x".to_string()))
        .build();

    let (conditions, _) = QueryBuilder::new(cols.clone()).with_filters(&params).build();
    assert!(conditions.is_empty());

    let (conditions, _) =
        QueryBuilder::new(cols).disable_protection().with_filters(&params).build();
    assert_eq!(conditions.len(), 1);
}

#[test]
fn test_sqlite_dialect_placeholders_and_casts() {
    let params = QueryParamsBuilder::new(user_columns())
        .with_search("jo".to_string(), vec!["name".to_string()])
        .with_filter("status".to_string(), Some("true".to_string()))
        .build();

    let (conditions, _) = QueryBuilder::new_with_dialect(user_columns(), Dialect::Sqlite)
        .with_search(&params)
        .with_filters(&params)
        .build();

    assert_eq!(conditions[0], "(LOWER(\"name\") LIKE LOWER(?))");
    // SQLite gets no cast suffix
    assert_eq!(conditions[1], "\"status\" = ?");
}

#[test]
fn test_argument_order_follows_invocation_order() {
    let after = sqlx_paginated::UtcTimestamp::new(100, 0);
    let params = QueryParamsBuilder::new(user_columns())
        .with_search("ann".to_string(), vec!["name".to_string()])
        .with_filter("status".to_string(), Some("active".to_string()))
        .with_date_range(Some(after), None, Some("created_at".to_string()))
        .build();

    let (conditions, arguments) = QueryBuilder::new(user_columns())
        .with_search(&params)
        .with_filters(&params)
        .with_date_range(&params)
        .build();

    assert_eq!(conditions.len(), 3);
    assert_eq!(conditions[0], "(LOWER(\"name\") LIKE LOWER($1))");
    assert_eq!(conditions[1], "\"status\" = $2");
    assert_eq!(conditions[2], "created_at >= $3");
    assert_eq!(arguments.len(), 3);
}

#[test]
fn test_two_builds_are_identical() {
    // building the same conditions twice from the same parameters gives the
    // same fragments and the same argument order
    let params = QueryParamsBuilder::new(user_columns())
        .with_search("ann".to_string(), vec!["name".to_string(), "email".to_string()])
        .with_filter("status".to_string(), Some("active".to_string()))
        .build();

    let (c1, a1) = sqlx_paginated::build_query_with_safe_defaults(&params, user_columns());
    let (c2, a2) = sqlx_paginated::build_query_with_safe_defaults(&params, user_columns());

    assert_eq!(c1, c2);
    assert_eq!(a1.len(), a2.len());
    for (x, y) in a1.iter().zip(a2.iter()) {
        match (x, y) {
            (ArgValue::Text(s), ArgValue::Text(t)) => assert_eq!(s, t),
            (ArgValue::Timestamp(s), ArgValue::Timestamp(t)) => assert_eq!(s, t),
            _ => panic!("argument kinds diverged"),
        }
    }
}
