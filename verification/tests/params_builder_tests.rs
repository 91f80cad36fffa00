use sqlx_paginated::params::{
    DEFAULT_MAX_PAGE_SIZE, DEFAULT_MIN_PAGE_SIZE, DEFAULT_PAGE,
};
use sqlx_paginated::{QueryParamsBuilder, QuerySortDirection, UtcTimestamp};

fn test_model_columns() -> Vec<String> {
    vec![
        "name".to_string(),
        "title".to_string(),
        "description".to_string(),
        "status".to_string(),
        "category".to_string(),
        "updated_at".to_string(),
        "created_at".to_string(),
    ]
}

fn filter_value(
    filters: &[(String, Option<String>)],
    key: &str,
) -> Option<Option<String>> {
    filters.iter().find(|(k, _)| k == key).map(|(_, v)| v.clone())
}

#[test]
fn test_pagination_defaults() {
    let params = QueryParamsBuilder::new(test_model_columns()).build();

    assert_eq!(
        params.pagination.page_size, DEFAULT_MIN_PAGE_SIZE,
        "Default page size should be {}",
        DEFAULT_MIN_PAGE_SIZE
    );
    assert_eq!(params.pagination.page, DEFAULT_PAGE, "Default page should be {}", DEFAULT_PAGE);

    // Test page size clamping
    let params = QueryParamsBuilder::new(test_model_columns())
        .with_pagination(1, DEFAULT_MAX_PAGE_SIZE + 10)
        .build();

    assert_eq!(
        params.pagination.page_size, DEFAULT_MAX_PAGE_SIZE,
        "Page size should be clamped to maximum {}",
        DEFAULT_MAX_PAGE_SIZE
    );

    let params = QueryParamsBuilder::new(test_model_columns())
        .with_pagination(1, DEFAULT_MIN_PAGE_SIZE - 5)
        .build();

    assert_eq!(
        params.pagination.page_size, DEFAULT_MIN_PAGE_SIZE,
        "Page size should be clamped to minimum {}",
        DEFAULT_MIN_PAGE_SIZE
    );
}

#[test]
fn test_default_sort_column() {
    let params = QueryParamsBuilder::new(test_model_columns()).build();

    assert_eq!(
        params.sort.sort_column, "created_at",
        "Default sort column should be '{}'",
        "created_at"
    );
}

#[test]
fn test_date_range_defaults() {
    let params = QueryParamsBuilder::new(test_model_columns()).build();

    assert_eq!(
        params.date_range.date_column,
        Some("created_at".to_string()),
        "Default date range column should be '{}'",
        "created_at"
    );
    assert!(params.date_range.date_after.is_none(), "Default date_after should be None");
    assert!(params.date_range.date_before.is_none(), "Default date_before should be None");
}

#[test]
fn test_search_defaults() {
    let params = QueryParamsBuilder::new(test_model_columns()).build();

    assert_eq!(
        params.search.search_columns,
        Some(vec!["name".to_string(), "description".to_string()]),
        "Default search columns should be {:?}",
        vec!["name".to_string(), "description".to_string()]
    );
    assert!(params.search.search.is_none(), "Default search term should be None");
}

#[test]
fn test_combined_defaults() {
    let params = QueryParamsBuilder::new(test_model_columns()).build();

    // Test all defaults together
    assert_eq!(params.pagination.page, DEFAULT_PAGE);
    assert_eq!(params.pagination.page_size, DEFAULT_MIN_PAGE_SIZE);
    assert_eq!(params.sort.sort_column, "created_at");
    assert_eq!(params.sort.sort_direction, QuerySortDirection::Descending);
    assert_eq!(params.date_range.date_column, Some("created_at".to_string()));
    assert_eq!(
        params.search.search_columns,
        Some(vec!["name".to_string(), "description".to_string()])
    );
    assert!(params.search.search.is_none());
    assert!(params.date_range.date_after.is_none());
    assert!(params.date_range.date_before.is_none());
}

#[test]
fn test_empty_params() {
    let params = QueryParamsBuilder::new(test_model_columns()).build();

    assert_eq!(params.pagination.page, 1);
    assert_eq!(params.pagination.page_size, 10);
    assert_eq!(params.sort.sort_column, "created_at");
    assert!(matches!(params.sort.sort_direction, QuerySortDirection::Descending));
}

#[test]
fn test_partial_params() {
    let params = QueryParamsBuilder::new(test_model_columns())
        .with_pagination(2, 10)
        .with_search("test".to_string(), vec!["name".to_string()])
        .build();

    assert_eq!(params.pagination.page, 2);
    assert_eq!(params.search.search, Some("test".to_string()));
    assert_eq!(params.pagination.page_size, 10);
    assert_eq!(params.sort.sort_column, "created_at");
    assert!(matches!(params.sort.sort_direction, QuerySortDirection::Descending));
}

#[test]
fn test_invalid_params() {
    // Out-of-range pagination input is clamped to the minimum values
    let params = QueryParamsBuilder::new(test_model_columns()).with_pagination(0, 0).build();

    assert_eq!(params.pagination.page, 1);
    assert_eq!(params.pagination.page_size, 10);
}

#[test]
fn test_filters() {
    let filters = vec![
        ("status".to_string(), Some("active".to_string())),
        ("category".to_string(), Some("test".to_string())),
    ];

    let params = QueryParamsBuilder::new(test_model_columns()).with_filters(filters).build();

    assert!(filter_value(&params.filters, "status").is_some());
    assert_eq!(
        filter_value(&params.filters, "status").unwrap(),
        Some("active".to_string())
    );
    assert!(filter_value(&params.filters, "category").is_some());
    assert_eq!(filter_value(&params.filters, "category").unwrap(), Some("test".to_string()));
}

#[test]
fn test_search_with_columns() {
    let params = QueryParamsBuilder::new(test_model_columns())
        .with_search("test".to_string(), vec!["title".to_string(), "description".to_string()])
        .build();

    assert_eq!(params.search.search, Some("test".to_string()));
    assert_eq!(
        params.search.search_columns,
        Some(vec!["title".to_string(), "description".to_string()])
    );
}

#[test]
fn test_full_params() {
    let now = UtcTimestamp::new(1704067200, 0);
    let params = QueryParamsBuilder::new(test_model_columns())
        .with_pagination(2, 20)
        .with_sort("updated_at".to_string(), QuerySortDirection::Ascending)
        .with_search("test".to_string(), vec!["title".to_string(), "description".to_string()])
        .with_date_range(Some(now), None, None)
        .build();

    assert_eq!(params.pagination.page, 2);
    assert_eq!(params.pagination.page_size, 20);
    assert_eq!(params.sort.sort_column, "updated_at");
    assert!(matches!(params.sort.sort_direction, QuerySortDirection::Ascending));
    assert_eq!(params.search.search, Some("test".to_string()));
    assert_eq!(
        params.search.search_columns,
        Some(vec!["title".to_string(), "description".to_string()])
    );
    assert!(params.date_range.date_after.is_some());
    assert!(params.date_range.date_before.is_none());
}

#[test]
fn test_filter_chain() {
    let params = QueryParamsBuilder::new(test_model_columns())
        .with_filter("status".to_string(), Some("active".to_string()))
        .with_filter("category".to_string(), Some("test".to_string()))
        .build();

    assert_eq!(
        filter_value(&params.filters, "status").unwrap(),
        Some("active".to_string())
    );
    assert_eq!(filter_value(&params.filters, "category").unwrap(), Some("test".to_string()));
}

#[test]
fn test_mixed_pagination() {
    let params = QueryParamsBuilder::new(test_model_columns())
        .with_pagination(2, 10)
        .with_search("test".to_string(), vec!["title".to_string()])
        .with_filter("status".to_string(), Some("active".to_string()))
        .build();

    assert_eq!(params.pagination.page, 2);
    assert_eq!(params.pagination.page_size, 10);
    assert_eq!(params.search.search, Some("test".to_string()));
    assert_eq!(
        filter_value(&params.filters, "status").unwrap(),
        Some("active".to_string())
    );
}

#[test]
fn test_filter_replaces_earlier_key() {
    // A repeated key replaces the earlier entry instead of duplicating it
    let params = QueryParamsBuilder::new(test_model_columns())
        .with_filter("status".to_string(), Some("active".to_string()))
        .with_filter("status".to_string(), Some("archived".to_string()))
        .build();

    assert_eq!(params.filters.len(), 1);
    assert_eq!(
        filter_value(&params.filters, "status").unwrap(),
        Some("archived".to_string())
    );
}

#[test]
fn test_filter_on_unknown_column_is_skipped() {
    let params = QueryParamsBuilder::new(test_model_columns())
        .with_filter("no_such_column".to_string(), Some("x".to_string()))
        .build();

    assert!(params.filters.is_empty());
}
