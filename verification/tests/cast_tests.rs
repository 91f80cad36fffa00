use sqlx_paginated::get_postgres_type_casting;

#[test]
fn test_boolean_types() {
    // Standard boolean values
    assert_eq!(get_postgres_type_casting("true"), "::boolean");
    assert_eq!(get_postgres_type_casting("false"), "::boolean");
    assert_eq!(get_postgres_type_casting("t"), "::boolean");
    assert_eq!(get_postgres_type_casting("f"), "::boolean");

    // Case variations
    assert_eq!(get_postgres_type_casting("TRUE"), "::boolean");
    assert_eq!(get_postgres_type_casting("FALSE"), "::boolean");
    assert_eq!(get_postgres_type_casting("True"), "::boolean");
    assert_eq!(get_postgres_type_casting("False"), "::boolean");
}

#[test]
fn test_numeric_types() {
    // Integers
    assert_eq!(get_postgres_type_casting("32767"), "::smallint"); // largest two-byte value
    assert_eq!(get_postgres_type_casting("-32768"), "::smallint"); // smallest two-byte value
    assert_eq!(get_postgres_type_casting("2147483647"), "::integer");
    assert_eq!(get_postgres_type_casting("-2147483648"), "::integer");
    assert_eq!(get_postgres_type_casting("9223372036854775807"), "::bigint");
    assert_eq!(get_postgres_type_casting("-9223372036854775808"), "::bigint");

    // Floating point
    assert_eq!(get_postgres_type_casting("3.14"), "::real");
    assert_eq!(get_postgres_type_casting("-3.14"), "::real");
    assert_eq!(get_postgres_type_casting("1.23e-4"), "::real");
    assert_eq!(get_postgres_type_casting("1.23E+4"), "::real");
    assert_eq!(get_postgres_type_casting("1.7976931348623157e+308"), "::real");
}

#[test]
fn test_network_types() {
    // IPv4
    assert_eq!(get_postgres_type_casting("192.168.0.1"), "::inet");
    assert_eq!(get_postgres_type_casting("0.0.0.0"), "::inet");
    assert_eq!(get_postgres_type_casting("255.255.255.255"), "::inet");

    // IPv6
    assert_eq!(get_postgres_type_casting("2001:db8::1"), "::inet");
    assert_eq!(get_postgres_type_casting("::1"), "::inet");
    assert_eq!(get_postgres_type_casting("fe80::1"), "::inet");
}

#[test]
fn test_json_types() {
    // Objects
    assert_eq!(get_postgres_type_casting("{}"), "::jsonb");
    assert_eq!(get_postgres_type_casting("{\"key\":\"value\"}"), "::jsonb");
    assert_eq!(get_postgres_type_casting("{\"nested\":{\"key\":\"value\"}}"), "::jsonb");

    // Arrays
    assert_eq!(get_postgres_type_casting("[]"), "::jsonb");
    assert_eq!(get_postgres_type_casting("[1,2,3]"), "::jsonb");
    assert_eq!(get_postgres_type_casting("[{\"key\":\"value\"}]"), "::jsonb");

    // Complex JSON
    assert_eq!(
        get_postgres_type_casting("{\"array\":[1,2,3],\"object\":{\"key\":\"value\"}}"),
        "::jsonb"
    );
}

#[test]
fn test_binary_types() {
    // Valid hexadecimal
    assert_eq!(get_postgres_type_casting("\\x0123456789ABCDEF"), "::bytea");
    assert_eq!(get_postgres_type_casting("\\x"), "::bytea"); // Empty binary

    // Invalid hex should return no cast
    assert_eq!(get_postgres_type_casting("\\xGG"), "");
}

#[test]
fn test_date_time_types() {
    // Date
    assert_eq!(get_postgres_type_casting("2024-01-01"), "::date");
    assert_eq!(get_postgres_type_casting("2024-12-31"), "::date");

    // Time
    assert_eq!(get_postgres_type_casting("12:34:56"), "::time");
    assert_eq!(get_postgres_type_casting("23:59:59"), "::time");

    // Timestamp without timezone
    assert_eq!(
        get_postgres_type_casting("2024-01-01 12:34:56"),
        "::timestamp without time zone"
    );

    // Timestamp with timezone
    assert_eq!(
        get_postgres_type_casting("2024-01-01T12:34:56Z"),
        "::timestamp with time zone"
    );
    assert_eq!(
        get_postgres_type_casting("2024-01-01T12:34:56+00:00"),
        "::timestamp with time zone"
    );
}

#[test]
fn test_uuid_types() {
    // Standard UUID
    assert_eq!(
        get_postgres_type_casting("550e8400-e29b-41d4-a716-446655440000"),
        "::uuid"
    );

    // UUID with uppercase
    assert_eq!(
        get_postgres_type_casting("550E8400-E29B-41D4-A716-446655440000"),
        "::uuid"
    );

    // Invalid UUIDs should return no cast
    assert_eq!(get_postgres_type_casting("550e8400-e29b-41d4-a716"), "");
    assert_eq!(get_postgres_type_casting("550e8400-e29b-41d4-a716-44665544000G"), "");
}

#[test]
fn test_xml_types() {
    // XML declaration
    assert_eq!(
        get_postgres_type_casting("<?xml version=\"1.0\" encoding=\"UTF-8\"?>"),
        "::xml"
    );

    // Simple XML
    assert_eq!(get_postgres_type_casting("<root><child>value</child></root>"), "::xml");

    // Self-closing tag
    assert_eq!(get_postgres_type_casting("<element/>"), "::xml");
}

#[test]
fn test_edge_cases() {
    // Empty string
    assert_eq!(get_postgres_type_casting(""), "");

    // Whitespace
    assert_eq!(get_postgres_type_casting("   "), "");

    // Mixed invalid types
    assert_eq!(get_postgres_type_casting("123abc"), "");
    assert_eq!(get_postgres_type_casting("true123"), "");
    assert_eq!(get_postgres_type_casting("2024-13-01"), ""); // Invalid date

    // Almost valid values
    assert_eq!(get_postgres_type_casting("trueish"), "");
    assert_eq!(get_postgres_type_casting("192.168.1"), ""); // Incomplete IP
    assert_eq!(get_postgres_type_casting("{invalid json}"), "");

    // Special characters
    assert_eq!(get_postgres_type_casting("\\n\\t\\r"), "");
    assert_eq!(get_postgres_type_casting("🦀"), "");
}

#[test]
fn test_type_precedence() {
    // String that could be multiple types should match first in match order
    assert_eq!(get_postgres_type_casting("123"), "::smallint"); // Should match smallint before integer/bigint
    assert_eq!(get_postgres_type_casting("t"), "::boolean"); // Should match boolean before char
}

#[test]
fn test_special_values() {
    // NULL should return no cast
    assert_eq!(get_postgres_type_casting("NULL"), "");
    assert_eq!(get_postgres_type_casting("null"), "");

    // Special numeric values
    assert_eq!(get_postgres_type_casting("Infinity"), "");
    assert_eq!(get_postgres_type_casting("-Infinity"), "");
}

#[test]
fn test_more_network_edge_cases() {
    // Embedded dotted-quad tails and uncompressed forms
    assert_eq!(get_postgres_type_casting("::ffff:192.168.0.1"), "::inet");
    assert_eq!(get_postgres_type_casting("1:2:3:4:5:6:7:8"), "::inet");
    assert_eq!(get_postgres_type_casting("1:2:3:4:5:6:7::"), "::inet");
    assert_eq!(get_postgres_type_casting("::"), "::inet");
    // Too many groups, doubled compression, leading zeros in octets
    assert_eq!(get_postgres_type_casting("1:2:3:4:5:6:7:8:9"), "");
    assert_eq!(get_postgres_type_casting("1::2::3"), "");
    assert_eq!(get_postgres_type_casting("192.168.00.1"), "");
    assert_eq!(get_postgres_type_casting("256.1.1.1"), "");
}

#[test]
fn test_narrowest_integer_wins() {
    // The narrowness law on concrete values: small literals never widen
    assert_eq!(get_postgres_type_casting("0"), "::smallint");
    assert_eq!(get_postgres_type_casting("9999"), "::smallint");
    assert_eq!(get_postgres_type_casting("32768"), "::integer");
    assert_eq!(get_postgres_type_casting("+123"), "::smallint");
    assert_eq!(get_postgres_type_casting("99999999999999999999"), "::real");
}
