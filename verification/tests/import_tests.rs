use simplsource::import::{build_import_sql, preview_import, qualified_table, suggest_mapping, ImportFileFormat, ImportMapping, ImportRequest};
use simplsource::types::ColumnMeta;

fn col(name: &str) -> ColumnMeta {
    ColumnMeta { name: name.to_string(), data_type: "text".to_string(), nullable: true, is_primary_key: false }
}

fn request(format: ImportFileFormat, schema: Option<&str>, map: Vec<(&str, &str)>) -> ImportRequest {
    ImportRequest {
        file_path: "ignored".to_string(),
        schema: schema.map(|s| s.to_string()),
        table: "users".to_string(),
        mapping: ImportMapping { column_map: map.into_iter().map(|(a, b)| (a.to_string(), b.to_string())).collect() },
        format,
    }
}

#[test]
fn csv_preview_suggests_case_insensitive_mapping() {
    let content = b"Name,Age,Extra\nalice,30,x\nbob,40,y\n";
    let p = preview_import(content, ImportFileFormat::Csv, &vec![col("name"), col("age")]).unwrap();
    assert_eq!(p.headers, vec!["Name", "Age", "Extra"]);
    assert_eq!(p.sample_rows.len(), 2);
    assert_eq!(p.sample_rows[1], vec!["bob", "40", "y"]);
    assert_eq!(
        p.suggested_mapping,
        vec![("Name".to_string(), "name".to_string()), ("Age".to_string(), "age".to_string())]
    );
}

#[test]
fn csv_preview_shows_at_most_five_rows() {
    let content = b"a\n1\n2\n3\n4\n5\n6\n7\n";
    let p = preview_import(content, ImportFileFormat::Csv, &vec![]).unwrap();
    assert_eq!(p.sample_rows.len(), 5);
    assert_eq!(p.sample_rows[4], vec!["5"]);
    assert!(p.suggested_mapping.is_empty());
}

#[test]
fn json_preview_takes_headers_of_the_first_object() {
    let content = br#"[{"a": 1, "b": "x"}, {"a": 2, "c": true}, 5]"#;
    let p = preview_import(content, ImportFileFormat::Json, &vec![col("A")]).unwrap();
    assert_eq!(p.headers, vec!["a", "b"]);
    assert_eq!(p.sample_rows, vec![vec!["1".to_string(), "\"x\"".to_string()], vec!["2".to_string(), String::new()]]);
    assert_eq!(p.suggested_mapping, vec![("a".to_string(), "A".to_string())]);
}

#[test]
fn json_preview_rejects_non_array() {
    assert!(preview_import(b"{\"a\": 1}", ImportFileFormat::Json, &vec![]).is_err());
}

#[test]
fn import_statements_for_mapped_fields() {
    let content = b"Name,Age\nalice,30\nO'Neil,41\n";
    let req = request(ImportFileFormat::Csv, Some("public"), vec![("Name", "name"), ("Age", "age")]);
    let r = build_import_sql(&req, content).unwrap();
    assert_eq!(r.rows_imported, 2);
    assert_eq!(r.insert_statements[0], "INSERT INTO \"public\".\"users\" (name, age) VALUES ('alice', '30');");
    assert_eq!(r.insert_statements[1], "INSERT INTO \"public\".\"users\" (name, age) VALUES ('O''Neil', '41');");
}

#[test]
fn rows_without_mapped_fields_are_skipped() {
    let content = b"Name,Age\nalice,30\n";
    let req = request(ImportFileFormat::Csv, None, vec![("Missing", "x")]);
    let r = build_import_sql(&req, content).unwrap();
    assert_eq!(r.rows_imported, 0);
    assert!(r.insert_statements.is_empty());
}

#[test]
fn json_import_uses_value_texts() {
    let content = br#"[{"a": 1, "b": "x"}]"#;
    let req = request(ImportFileFormat::Json, None, vec![("b", "bee")]);
    let r = build_import_sql(&req, content).unwrap();
    assert_eq!(r.insert_statements, vec!["INSERT INTO \"users\" (bee) VALUES ('\"x\"');".to_string()]);
}

#[test]
fn broken_csv_is_an_error() {
    let content = b"a,b\n1,2\n3\n";
    let req = request(ImportFileFormat::Csv, None, vec![("a", "a")]);
    assert!(build_import_sql(&req, content).is_err());
}

#[test]
fn import_table_reference() {
    assert_eq!(qualified_table(&Some("s".into()), "t"), "\"s\".\"t\"");
    assert_eq!(qualified_table(&None, "t"), "\"t\"");
}

#[test]
fn mapping_ignores_ascii_case_only() {
    let m = suggest_mapping(&vec!["ID".to_string(), "Ünit".to_string()], &vec![col("id"), col("ünit")]);
    assert_eq!(m, vec![("ID".to_string(), "id".to_string())]);
}

#[test]
fn json_file_that_is_not_utf8_is_a_read_error() {
    let content: &[u8] = &[b'[', 0xff, b']'];
    let e = preview_import(content, ImportFileFormat::Json, &vec![]).unwrap_err();
    assert_eq!(e, "stream did not contain valid UTF-8");
    let req = request(ImportFileFormat::Json, None, vec![("a", "a")]);
    assert_eq!(build_import_sql(&req, content).unwrap_err(), "stream did not contain valid UTF-8");
}
