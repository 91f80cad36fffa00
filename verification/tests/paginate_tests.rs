use sqlx_paginated::paginate::assemble_response;
use sqlx_paginated::{paginated_query_as, ArgValue, QueryParamsBuilder};
use sqlx_paginated::{PostgresDialect, QueryDialect, SqliteDialect};

fn user_columns() -> Vec<String> {
    vec!["name".to_string(), "status".to_string(), "created_at".to_string()]
}

#[test]
fn test_end_to_end_plan() {
    // base query, one filter, first page of ten: exactly one equality
    // condition bound to "active", LIMIT 10 OFFSET 0, and a COUNT query
    // sharing the identical WHERE text
    let params = QueryParamsBuilder::new(user_columns())
        .with_filter("status".to_string(), Some("active".to_string()))
        .with_pagination(1, 10)
        .build();

    let plan = paginated_query_as("SELECT * FROM users", user_columns())
        .with_params(params)
        .build_plan();

    assert_eq!(
        plan.main_sql,
        "WITH base_query AS (SELECT * FROM users) SELECT * FROM base_query \
         WHERE \"status\" = $1 ORDER BY \"created_at\" DESC LIMIT 10 OFFSET 0"
    );
    let count_sql = plan.count_sql.clone().unwrap();
    assert_eq!(
        count_sql,
        "WITH base_query AS (SELECT * FROM users) SELECT COUNT(*) FROM base_query \
         WHERE \"status\" = $1"
    );

    // both statements carry the identical WHERE text
    let where_main = plan.main_sql.find(" WHERE ").map(|i| &plan.main_sql[i..i + 20]);
    let where_count = count_sql.find(" WHERE ").map(|i| &count_sql[i..]);
    assert_eq!(where_main, where_count);
    assert_eq!(where_main, Some(" WHERE \"status\" = $1"));

    assert_eq!(plan.arguments.len(), 1);
    match &plan.arguments[0] {
        ArgValue::Text(s) => assert_eq!(s, "active"),
        _ => panic!("expected a text argument"),
    }
    assert_eq!(plan.pagination.page, 1);
    assert_eq!(plan.pagination.page_size, 10);
}

#[test]
fn test_disable_totals_yields_no_count_query_and_no_totals() {
    let params = QueryParamsBuilder::new(user_columns()).with_pagination(1, 10).build();

    let plan = paginated_query_as("SELECT * FROM users", user_columns())
        .with_params(params)
        .disable_totals_count()
        .build_plan();

    assert!(plan.count_sql.is_none());

    // the response still returns the records while both totals are absent
    let records = vec!["r1".to_string(), "r2".to_string()];
    let response = assemble_response(records.clone(), plan.pagination, None);
    assert_eq!(response.records, records);
    assert!(response.total.is_none());
    assert!(response.total_pages.is_none());
}

#[test]
fn test_totals_fill_pages() {
    let params = QueryParamsBuilder::new(user_columns()).with_pagination(1, 10).build();
    let plan = paginated_query_as("SELECT * FROM users", user_columns())
        .with_params(params)
        .build_plan();

    let response = assemble_response(vec![1u8, 2, 3], plan.pagination, Some(45));
    assert_eq!(response.total, Some(45));
    assert_eq!(response.total_pages, Some(5));

    let response = assemble_response(Vec::<u8>::new(), plan.pagination, Some(0));
    assert_eq!(response.total, Some(0));
    assert_eq!(response.total_pages, Some(0));

    let response = assemble_response(vec![1u8], plan.pagination, Some(41));
    assert_eq!(response.total_pages, Some(5));

    let response = assemble_response(vec![1u8], plan.pagination, Some(50));
    assert_eq!(response.total_pages, Some(5));

    let response = assemble_response(vec![1u8], plan.pagination, Some(51));
    assert_eq!(response.total_pages, Some(6));
}

#[test]
fn test_offset_reflects_page() {
    let params = QueryParamsBuilder::new(user_columns()).with_pagination(3, 20).build();
    let plan = paginated_query_as("SELECT * FROM users", user_columns())
        .with_params(params)
        .build_plan();

    assert!(plan.main_sql.ends_with(" LIMIT 20 OFFSET 40"));
}

#[test]
fn test_order_clause_quotes_sort_column() {
    let params = QueryParamsBuilder::new(user_columns())
        .with_sort("name".to_string(), sqlx_paginated::QuerySortDirection::Ascending)
        .build();
    let plan = paginated_query_as("SELECT * FROM users", user_columns())
        .with_params(params)
        .build_plan();

    assert!(plan.main_sql.contains(" ORDER BY \"name\" ASC "));
}

#[test]
fn test_no_conditions_no_where() {
    let plan = paginated_query_as("SELECT * FROM users", user_columns()).build_plan();
    assert!(!plan.main_sql.contains(" WHERE "));
    assert_eq!(
        plan.count_sql.unwrap(),
        "WITH base_query AS (SELECT * FROM users) SELECT COUNT(*) FROM base_query"
    );
}

#[test]
fn test_flat_params_defaults() {
    let flat = sqlx_paginated::FlatQueryParams::default();
    let params = sqlx_paginated::QueryParams::from_flat(flat);

    assert_eq!(params.pagination.page, 1);
    assert_eq!(params.pagination.page_size, 10);
    assert_eq!(params.sort.sort_column, "created_at");
    assert!(params.search.search.is_none());
    assert_eq!(params.date_range.date_column, Some("created_at".to_string()));
    assert!(params.filters.is_empty());
}

#[test]
fn test_placeholder_rendering() {
    let pg = PostgresDialect;
    let lite = SqliteDialect;
    assert_eq!(pg.placeholder(1), "$1");
    assert_eq!(pg.placeholder(42), "$42");
    assert_eq!(lite.placeholder(1), "?");
    assert_eq!(lite.placeholder(9), "?");
    assert_eq!(pg.type_cast("true"), "::boolean");
    assert_eq!(lite.type_cast("true"), "");
    assert_eq!(pg.quote_identifier("a.b"), "\"a.b\"");
}
