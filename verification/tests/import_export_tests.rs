use velocity::export::{cell_text, json_export_objects};
use velocity::import::{
    build_csv_insert_sql, detect_delimiter, fold_import_outcomes, map_csv_rows,
    split_sql_statements, ColumnMapping,
};
use velocity::values::JsonVal;

#[test]
fn statements_split_on_semicolons_and_trimmed() {
    let sql = "CREATE TABLE a (x int);\n  INSERT INTO a VALUES (1)  ;\n\n-- a comment;\n;";
    let statements = split_sql_statements(sql);
    assert_eq!(
        statements,
        vec!["CREATE TABLE a (x int);", "INSERT INTO a VALUES (1);"]
    );
}

#[test]
fn blank_scripts_split_to_nothing() {
    assert!(split_sql_statements("").is_empty());
    assert!(split_sql_statements("  \n ; ; ").is_empty());
}

#[test]
fn delimiter_sniffing_prefers_the_most_frequent() {
    assert_eq!(detect_delimiter("a;b;c\n1;2;3"), ';');
    assert_eq!(detect_delimiter("a\tb\tc"), '\t');
    assert_eq!(detect_delimiter("a|b|c"), '|');
    assert_eq!(detect_delimiter("a,b,c"), ',');
    assert_eq!(detect_delimiter("plain"), ',');
    assert_eq!(detect_delimiter("a;b,c,d\r\nrest"), ',');
}

#[test]
fn csv_rows_follow_the_mapping() {
    let headers = vec!["Name".to_string(), "Age".to_string(), "City".to_string()];
    let records = vec![
        vec!["ann".to_string(), "30".to_string(), "oslo".to_string()],
        vec!["bo".to_string(), "41".to_string(), "kyiv".to_string()],
    ];
    let mappings = vec![
        ColumnMapping {
            csv_column: "City".to_string(),
            table_column: "city".to_string(),
            data_type: None,
        },
        ColumnMapping {
            csv_column: "Name".to_string(),
            table_column: "full_name".to_string(),
            data_type: None,
        },
        ColumnMapping {
            csv_column: "Missing".to_string(),
            table_column: "ignored".to_string(),
            data_type: None,
        },
    ];
    let rows = map_csv_rows(&headers, &records, &mappings);
    assert_eq!(rows.len(), 2);
    assert_eq!(
        rows[0],
        vec![
            ("city".to_string(), "oslo".to_string()),
            ("full_name".to_string(), "ann".to_string()),
        ]
    );
    assert_eq!(
        rows[1],
        vec![
            ("city".to_string(), "kyiv".to_string()),
            ("full_name".to_string(), "bo".to_string()),
        ]
    );
}

#[test]
fn csv_insert_escapes_values() {
    let pairs = vec![
        ("name".to_string(), "O'Brien".to_string()),
        ("city".to_string(), "oslo".to_string()),
    ];
    let sql = build_csv_insert_sql("people", &pairs);
    assert_eq!(
        sql,
        "INSERT INTO people (name, city) VALUES ('O''Brien', 'oslo')"
    );
}

#[test]
fn import_report_counts_and_errors() {
    let clean = fold_import_outcomes(5, vec![]);
    assert!(clean.success);
    assert_eq!(clean.rows_imported, 5);
    let dirty = fold_import_outcomes(2, vec!["Statement failed: boom".to_string()]);
    assert!(!dirty.success);
    assert_eq!(dirty.errors.len(), 1);
}

#[test]
fn export_cells_render_plainly() {
    assert_eq!(cell_text(&JsonVal::Null), "");
    assert_eq!(cell_text(&JsonVal::Bool(true)), "true");
    assert_eq!(cell_text(&JsonVal::Int(-3)), "-3");
    assert_eq!(cell_text(&JsonVal::Str("x".to_string())), "x");
    assert_eq!(cell_text(&JsonVal::Obj("{\"a\":1}".to_string())), "{\"a\":1}");
}

#[test]
fn json_export_pairs_headers_with_cells() {
    let headers = vec!["a".to_string(), "b".to_string()];
    let rows = vec![vec![JsonVal::Int(1)]];
    let objects = json_export_objects(&headers, &rows);
    assert_eq!(objects.len(), 1);
    assert_eq!(objects[0].len(), 2);
    assert_eq!(objects[0][0].0, "a");
    assert!(matches!(objects[0][0].1, JsonVal::Int(1)));
    assert!(matches!(objects[0][1].1, JsonVal::Null));
}
