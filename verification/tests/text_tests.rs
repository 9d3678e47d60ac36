use velocity::text::{
    escape_sql_quotes, i64_to_dec, join_strings, sort_strings, split_char, str_contains_ci,
    starts_with, trim_blanks, u64_to_dec,
};

#[test]
fn decimal_rendering() {
    assert_eq!(u64_to_dec(0), "0");
    assert_eq!(u64_to_dec(90210), "90210");
    assert_eq!(i64_to_dec(-37), "-37");
    assert_eq!(i64_to_dec(i64::MIN), "-9223372036854775808");
    assert_eq!(i64_to_dec(i64::MAX), "9223372036854775807");
}

#[test]
fn quote_escaping_doubles_every_quote() {
    assert_eq!(escape_sql_quotes("it's a 'test'"), "it''s a ''test''");
    assert_eq!(escape_sql_quotes("none"), "none");
    assert_eq!(escape_sql_quotes(""), "");
}

#[test]
fn joining_and_splitting() {
    let parts = vec!["a".to_string(), "b".to_string(), "c".to_string()];
    assert_eq!(join_strings(&parts, ", "), "a, b, c");
    assert_eq!(join_strings(&vec![], ", "), "");
    assert_eq!(split_char("a;b;;c", ';'), vec!["a", "b", "", "c"]);
    assert_eq!(split_char("", ';'), vec![""]);
}

#[test]
fn sorting_names_lexicographically() {
    let names = vec![
        "users".to_string(),
        "user_roles".to_string(),
        "Products".to_string(),
    ];
    assert_eq!(sort_strings(names), vec!["Products", "user_roles", "users"]);
}

#[test]
fn prefix_trim_and_case_insensitive_search() {
    assert!(starts_with("TRUNCATE t", "TRUNCATE"));
    assert!(!starts_with("TRUNC", "TRUNCATE"));
    assert_eq!(trim_blanks("  \tkeep me\r\n"), "keep me");
    assert!(str_contains_ci("User_Roles", "roles"));
    assert!(!str_contains_ci("products", "user"));
}
