use velocity::values::{format_pk_for_sql, format_value_for_sql, JsonVal, is_numeric_literal};

#[test]
fn sql_literals_preserve_type() {
    assert_eq!(format_value_for_sql(&JsonVal::Null), "NULL");
    assert_eq!(format_value_for_sql(&JsonVal::Bool(true)), "TRUE");
    assert_eq!(format_value_for_sql(&JsonVal::Bool(false)), "FALSE");
    assert_eq!(format_value_for_sql(&JsonVal::Int(-42)), "-42");
    assert_eq!(format_value_for_sql(&JsonVal::Num("2.5".to_string())), "2.5");
    assert_eq!(
        format_value_for_sql(&JsonVal::Str("plain".to_string())),
        "'plain'"
    );
}

#[test]
fn string_literal_escapes_single_quotes() {
    assert_eq!(
        format_value_for_sql(&JsonVal::Str("O'Brien".to_string())),
        "'O''Brien'"
    );
}

#[test]
fn composite_values_quote_their_json_text() {
    assert_eq!(
        format_value_for_sql(&JsonVal::Obj("{\"a\":1}".to_string())),
        "'{\"a\":1}'"
    );
    assert_eq!(
        format_value_for_sql(&JsonVal::Arr(vec![], "['x']".to_string())),
        "'[''x'']'"
    );
}

#[test]
fn numeric_primary_keys_stay_bare() {
    assert_eq!(format_pk_for_sql("42"), "42");
    assert_eq!(format_pk_for_sql("-7"), "-7");
    assert_eq!(format_pk_for_sql("3.25"), "3.25");
    assert_eq!(format_pk_for_sql("1e3"), "1e3");
    assert_eq!(format_pk_for_sql("+0.5"), "+0.5");
}

#[test]
fn textual_primary_keys_are_quoted_and_escaped() {
    assert_eq!(
        format_pk_for_sql("3b1c-uuid"),
        "'3b1c-uuid'"
    );
    assert_eq!(format_pk_for_sql("it's"), "'it''s'");
    assert_eq!(format_pk_for_sql(""), "''");
}

#[test]
fn numeric_literal_recognition() {
    assert!(is_numeric_literal("0"));
    assert!(is_numeric_literal("-12.5e-3"));
    assert!(is_numeric_literal(".5"));
    assert!(is_numeric_literal("1."));
    assert!(!is_numeric_literal("."));
    assert!(!is_numeric_literal("12a"));
    assert!(!is_numeric_literal("1e"));
    assert!(!is_numeric_literal(""));
    assert!(!is_numeric_literal("--1"));
}
