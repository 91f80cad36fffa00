use sqlx_paginated::ColumnProtection;

#[test]
fn test_default_initialization() {
    let protection = ColumnProtection::default();

    // Should block system tables/columns by default
    assert!(!protection.is_safe("pg_table"));
    assert!(!protection.is_safe("information_schema.tables"));
    assert!(!protection.is_safe("pg_catalog.pg_class"));

    // Should block system columns by default
    assert!(!protection.is_safe("ctid"));
    assert!(!protection.is_safe("xmin"));
    assert!(!protection.is_safe("oid"));

    // Should allow regular columns
    assert!(protection.is_safe("user_id"));
    assert!(protection.is_safe("email_address"));
    assert!(protection.is_safe("first_name"));
}

#[test]
fn test_custom_patterns() {
    let mut protection = ColumnProtection::new();

    // Add custom patterns
    protection.block_pattern("secret_".to_string());
    protection.block_pattern("internal_".to_string());
    protection.allow_pattern("public_".to_string());

    // Test blocked patterns
    assert!(!protection.is_safe("secret_key"));
    assert!(!protection.is_safe("internal_id"));

    // Test allowed patterns
    assert!(protection.is_safe("public_profile"));
    assert!(protection.is_safe("public_data"));
}

#[test]
fn test_system_column_allowlist() {
    let mut protection = ColumnProtection::default();

    // Initially blocked
    assert!(!protection.is_safe("ctid"));
    assert!(!protection.is_safe("xmin"));

    // Allow specific system columns
    protection.allow_system_columns(vec!["ctid".to_string(), "xmin".to_string()]);

    // Now allowed
    assert!(protection.is_safe("ctid"));
    assert!(protection.is_safe("xmin"));

    // Other system columns still blocked
    assert!(!protection.is_safe("cmax"));
    assert!(!protection.is_safe("oid"));
}

#[test]
fn test_case_sensitivity() {
    let protection = ColumnProtection::default();

    // Blocked patterns should be case-insensitive
    assert!(!protection.is_safe("PG_TABLE"));
    assert!(!protection.is_safe("INFORMATION_SCHEMA.TABLES"));
    assert!(!protection.is_safe("pg_Catalog"));
    assert!(!protection.is_safe("CTID"));

    // Allowed columns should work with any case
    assert!(protection.is_safe("USER_ID"));
    assert!(protection.is_safe("Email_Address"));
}

#[test]
fn test_special_characters() {
    let protection = ColumnProtection::default();

    // Should block SQL injection attempts
    assert!(!protection.is_safe("column;DROP TABLE users"));
    assert!(!protection.is_safe("column'--"));
    assert!(!protection.is_safe("column/**/"));
    assert!(!protection.is_safe("column;"));

    // Should block invalid characters
    assert!(!protection.is_safe("column$name"));
    assert!(!protection.is_safe("column@table"));
    assert!(!protection.is_safe("column#1"));

    // Should allow valid characters
    assert!(protection.is_safe("user_email_address"));
    assert!(protection.is_safe("table_123"));
    assert!(protection.is_safe("column_name_with_underscore"));
}

#[test]
fn test_schema_qualified_names() {
    let mut protection = ColumnProtection::default();

    // Valid schema.table.column patterns
    assert!(protection.is_safe("public.users.id"));
    assert!(protection.is_safe("app.users.email"));

    // Invalid schema patterns
    assert!(!protection.is_safe("..column"));
    assert!(!protection.is_safe("schema..column"));
    assert!(!protection.is_safe(".column"));
    assert!(!protection.is_safe("column."));

    // Allow specific schema pattern
    protection.allow_pattern("myapp.".to_string());
    assert!(protection.is_safe("myapp.users.id"));
}

#[test]
fn test_empty_and_whitespace() {
    let protection = ColumnProtection::default();

    // Empty and whitespace should be blocked
    assert!(!protection.is_safe(""));
    assert!(!protection.is_safe(" "));
    assert!(!protection.is_safe("\t"));
    assert!(!protection.is_safe("\n"));
}

#[test]
fn test_pattern_precedence() {
    let mut protection = ColumnProtection::default();

    // Set up conflicting patterns
    protection.block_pattern("users_".to_string());
    protection.allow_pattern("users_table".to_string());
    protection.allow_system_columns(vec!["users_view".to_string()]);

    // Allowed patterns should take precedence over blocked patterns
    assert!(protection.is_safe("users_table"));
    assert!(protection.is_safe("users_view"));
    assert!(!protection.is_safe("users_secret"));
}

#[test]
fn test_multiple_patterns() {
    let mut protection = ColumnProtection::new();

    // Add multiple patterns
    protection.block_pattern("temp_".to_string());
    protection.block_pattern("scratch_".to_string());
    protection.allow_pattern("approved_".to_string());
    protection.allow_pattern("verified_".to_string());

    // Test combinations
    assert!(!protection.is_safe("temp_table"));
    assert!(!protection.is_safe("scratch_data"));
    assert!(protection.is_safe("approved_users"));
    assert!(protection.is_safe("verified_accounts"));
}

#[test]
fn test_realistic_scenarios() {
    let mut protection = ColumnProtection::default();
    protection.allow_system_columns(vec!["ctid".to_string()]);

    // Common table/column patterns
    assert!(protection.is_safe("users.id"));
    assert!(protection.is_safe("auth.user_id"));
    assert!(protection.is_safe("public.posts.title"));
    assert!(protection.is_safe("ctid")); // Explicitly allowed

    // System tables (should be blocked)
    assert!(!protection.is_safe("pg_stat_activity.pid"));
    assert!(!protection.is_safe("information_schema.tables.table_name"));

    // SQL injection attempts (should be blocked)
    assert!(!protection.is_safe("email; DELETE FROM users;"));
    assert!(!protection.is_safe("name WHERE 1=1;"));
    assert!(!protection.is_safe("id) UNION SELECT * FROM passwords;"));
}
