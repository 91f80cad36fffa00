use sqlx_paginated::{
    default_page, default_page_size, default_search_columns, default_sort_column,
    default_sort_direction, extract_digits_from_strings, quote_identifier, QuerySortDirection,
};

#[test]
fn test_default_page() {
    assert_eq!(default_page(), sqlx_paginated::params::DEFAULT_PAGE);
    assert_eq!(default_page(), 1);
}

#[test]
fn test_default_page_size() {
    assert_eq!(default_page_size(), sqlx_paginated::params::DEFAULT_MIN_PAGE_SIZE);
    assert_eq!(default_page_size(), 10);
}

#[test]
fn test_default_search_columns() {
    let columns = default_search_columns();
    assert!(columns.is_some());

    let columns = columns.unwrap();
    assert!(columns.contains(&"name".to_string()));
    assert!(columns.contains(&"description".to_string()));
    assert_eq!(columns.len(), 2);
}

#[test]
fn test_default_sort_field() {
    assert_eq!(default_sort_column(), "created_at");
}

#[test]
fn test_default_sort_direction() {
    assert!(matches!(default_sort_direction(), QuerySortDirection::Descending));
}

#[test]
fn test_quote_identifier_simple() {
    // Simple cases
    assert_eq!(quote_identifier("column"), "\"column\"");
    assert_eq!(quote_identifier("user_id"), "\"user_id\"");
    assert_eq!(quote_identifier("email"), "\"email\"");
}

#[test]
fn test_quote_identifier_schema() {
    // Schema qualified identifiers
    assert_eq!(quote_identifier("schema.table"), "\"schema\".\"table\"");
    assert_eq!(quote_identifier("public.users.id"), "\"public\".\"users\".\"id\"");
    assert_eq!(quote_identifier("my_schema.my_table"), "\"my_schema\".\"my_table\"");
}

#[test]
fn test_quote_identifier_escaping() {
    // Quote escaping - each quote becomes two quotes
    assert_eq!(quote_identifier("user\"name"), "\"user\"\"name\"");
    assert_eq!(quote_identifier("table\""), "\"table\"\"\"");
    assert_eq!(quote_identifier("\"column"), "\"\"\"column\"");
    assert_eq!(quote_identifier("weird\"\"name"), "\"weird\"\"\"\"name\"");
}

#[test]
fn test_quote_identifier_sql_injection() {
    // SQL injection attempts
    assert_eq!(
        quote_identifier("table\"; DROP TABLE users; --"),
        "\"table\"\"; DROP TABLE users; --\""
    );
    assert_eq!(
        quote_identifier("name); DELETE FROM users; --"),
        "\"name); DELETE FROM users; --\""
    );
}

#[test]
fn test_quote_identifier_dots() {
    // Empty parts get quoted as empty strings
    assert_eq!(quote_identifier("."), "\"\".\"\"");
    assert_eq!(quote_identifier("a.b.c"), "\"a\".\"b\".\"c\"");
    assert_eq!(quote_identifier("a..c"), "\"a\".\"\".\"c\"");
}

#[test]
fn test_quote_identifier_empty() {
    // Empty string gets quoted
    assert_eq!(quote_identifier(""), "\"\"");
}

#[test]
fn test_quote_identifier_special_cases() {
    // Special characters (other than quotes and dots)
    assert_eq!(quote_identifier("table$name"), "\"table$name\"");
    assert_eq!(quote_identifier("column@db"), "\"column@db\"");
    assert_eq!(quote_identifier("user#1"), "\"user#1\"");
}

#[test]
fn test_extract_digits_from_strings() {
    assert_eq!(extract_digits_from_strings("123abc456"), "123456");
    assert_eq!(extract_digits_from_strings("abc"), "");
    assert_eq!(extract_digits_from_strings("1a2b3c"), "123");
    assert_eq!(extract_digits_from_strings("12.34"), "1234");
    assert_eq!(extract_digits_from_strings("page=5"), "5");
}

#[test]
fn test_quote_roundtrip_adversarial() {
    // Removing the wrapper and un-doubling embedded quotes recovers the
    // identifier it was given exactly, including quote characters and
    // statement-terminator sequences.
    let inputs = vec![
        "user_id",
        "we\"ird",
        "\"\"",
        "a\"; DROP TABLE users; --",
        "'; --",
        "",
    ];
    for input in inputs {
        let dialect = sqlx_paginated::PostgresDialect;
        let quoted = sqlx_paginated::QueryDialect::quote_identifier(&dialect, input);
        assert!(quoted.starts_with('"') && quoted.ends_with('"') && quoted.len() >= 2);
        let inner: Vec<char> = quoted.chars().collect();
        let inner = &inner[1..inner.len() - 1];
        let mut recovered = String::new();
        let mut i = 0;
        while i < inner.len() {
            if inner[i] == '"' {
                assert!(i + 1 < inner.len() && inner[i + 1] == '"');
                recovered.push('"');
                i += 2;
            } else {
                recovered.push(inner[i]);
                i += 1;
            }
        }
        assert_eq!(recovered, input);
    }
}
