use sqlx_paginated::{
    normalize_page, normalize_page_size, normalize_search, normalize_search_columns,
};
use sqlx_paginated::params::{DEFAULT_MAX_FIELD_LENGTH, DEFAULT_MIN_PAGE_SIZE, DEFAULT_PAGE};

#[test]
fn test_page_deserialize() {
    // Default cases
    assert_eq!(normalize_page(None), DEFAULT_PAGE);
    assert_eq!(normalize_page(Some("")), DEFAULT_PAGE);

    // Valid cases
    assert_eq!(normalize_page(Some("2")), 2);
    assert_eq!(normalize_page(Some("10")), 10);

    // Invalid/Edge cases
    assert_eq!(normalize_page(Some("0")), DEFAULT_PAGE);
    assert_eq!(normalize_page(Some("-1")), DEFAULT_PAGE);
    assert_eq!(normalize_page(Some("abc123")), 123);
    assert_eq!(normalize_page(Some("page 5")), 5);
}

#[test]
fn test_page_size_deserialize() {
    // Default cases
    assert_eq!(normalize_page_size(None), DEFAULT_MIN_PAGE_SIZE);
    assert_eq!(normalize_page_size(Some("")), DEFAULT_MIN_PAGE_SIZE);

    // Valid cases
    assert_eq!(normalize_page_size(Some("20")), 20);

    // Clamping cases
    assert_eq!(normalize_page_size(Some("5")), DEFAULT_MIN_PAGE_SIZE);
    assert_eq!(normalize_page_size(Some("100")), sqlx_paginated::params::DEFAULT_MAX_PAGE_SIZE);

    // Invalid/Edge cases
    assert_eq!(normalize_page_size(Some("size25")), 25);
    assert_eq!(normalize_page_size(Some("-50")), DEFAULT_MIN_PAGE_SIZE);
}

#[test]
fn test_search_deserialize() {
    // Default cases
    assert_eq!(normalize_search(None), None);
    assert_eq!(normalize_search(Some("")), None);
    assert_eq!(normalize_search(Some("  ")), None);

    // Valid cases
    assert_eq!(normalize_search(Some("test search")), Some("test search".to_string()));

    // Sanitization cases
    assert_eq!(
        normalize_search(Some("test@#$%^&* search")),
        Some("test search".to_string())
    );

    // Length limit cases
    let long_search = "a".repeat(DEFAULT_MAX_FIELD_LENGTH + 10);
    assert_eq!(
        normalize_search(Some(&long_search)).unwrap().len(),
        DEFAULT_MAX_FIELD_LENGTH
    );
}

#[test]
fn test_search_columns_deserialize() {
    // Default cases
    assert_eq!(normalize_search_columns(None), None);
    assert_eq!(normalize_search_columns(Some("")), Some(vec![]));

    // Valid cases
    assert_eq!(
        normalize_search_columns(Some("name,email")),
        Some(vec!["name".to_string(), "email".to_string()])
    );

    // Whitespace handling
    assert_eq!(
        normalize_search_columns(Some("name , email , phone")),
        Some(vec!["name".to_string(), "email".to_string(), "phone".to_string()])
    );

    // Empty segments
    assert_eq!(
        normalize_search_columns(Some("name,,email")),
        Some(vec!["name".to_string(), "email".to_string()])
    );
}

#[test]
fn test_page_never_below_one() {
    // The normalised page is at least one whatever the input
    for raw in ["", "-999", "0", "x", "페이지", "00", "9223372036854775808000"] {
        assert!(normalize_page(Some(raw)) >= 1);
    }
    assert_eq!(normalize_page(Some("9223372036854775808000")), 1);
}

#[test]
fn test_page_size_always_clamped() {
    // The normalised page size always lands in the configured range
    for raw in ["", "-1", "0", "7", "10", "33", "50", "51", "100000", "junk"] {
        let v = normalize_page_size(Some(raw));
        assert!((10..=50).contains(&v));
    }
}

#[test]
fn test_search_collapses_whitespace() {
    assert_eq!(
        normalize_search(Some("  a   lot   of    space  ")),
        Some("a lot of space".to_string())
    );
    assert_eq!(normalize_search(Some("@#$%^&*")), None);
    assert_eq!(normalize_search(Some("semi-colons; dropped")), Some("semi-colons dropped".to_string()));
}
