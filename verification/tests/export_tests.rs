use simplsource::export::{cell_to_export_string, csv_export, export_result, header_names, row_to_object, sql_inserts_text, sql_value, xlsx_cell, xlsx_position, XlsxCell};
use simplsource::types::{CellValue, ColumnMeta, RowPage};

fn col(name: &str) -> ColumnMeta {
    ColumnMeta { name: name.to_string(), data_type: "text".to_string(), nullable: true, is_primary_key: false }
}

fn page() -> RowPage {
    RowPage {
        columns: vec![col("id"), col("name")],
        rows: vec![
            vec![CellValue::Int64(1), CellValue::String("alice".into())],
            vec![CellValue::Null, CellValue::String("a,b".into())],
        ],
        total_rows: None,
        offset: 0,
        limit: 50,
    }
}

#[test]
fn export_texts() {
    assert_eq!(cell_to_export_string(&CellValue::Null), "");
    assert_eq!(cell_to_export_string(&CellValue::Bool(true)), "true");
    assert_eq!(cell_to_export_string(&CellValue::Int64(-3)), "-3");
    assert_eq!(cell_to_export_string(&CellValue::Float64("2.5".into())), "2.5");
    assert_eq!(cell_to_export_string(&CellValue::Json("{\"a\":1}".into())), "{\"a\":1}");
    assert_eq!(cell_to_export_string(&CellValue::Bytes("ff".into())), "ff");
}

#[test]
fn sql_values() {
    assert_eq!(sql_value(&CellValue::Null), "NULL");
    assert_eq!(sql_value(&CellValue::Bool(false)), "FALSE");
    assert_eq!(sql_value(&CellValue::String("it's".into())), "'it''s'");
    assert_eq!(sql_value(&CellValue::Json("[\"'\"]".into())), "'[\"''\"]'");
}

#[test]
fn csv_bytes() {
    let b = csv_export(&page()).unwrap();
    assert_eq!(String::from_utf8(b).unwrap(), "id,name\n1,alice\n,\"a,b\"\n");
}

#[test]
fn insert_script() {
    let s = sql_inserts_text(&page());
    assert_eq!(
        s,
        "INSERT INTO exported_data (id, name) VALUES (1, 'alice');\nINSERT INTO exported_data (id, name) VALUES (NULL, 'a,b');"
    );
    let empty = RowPage { columns: vec![col("id")], rows: vec![], total_rows: None, offset: 0, limit: 1 };
    assert_eq!(sql_inserts_text(&empty), "");
}

#[test]
fn json_objects_pad_short_rows() {
    let o = row_to_object(&vec![col("a"), col("b")], &vec![CellValue::Int64(1)]);
    assert_eq!(o.len(), 2);
    assert_eq!(o[0].0, "a");
    assert!(matches!(o[0].1, CellValue::Int64(1)));
    assert!(matches!(o[1].1, CellValue::Null));
    assert_eq!(header_names(&vec![col("x"), col("y")]), vec!["x", "y"]);
}

#[test]
fn spreadsheet_cells() {
    assert!(matches!(xlsx_cell(&CellValue::Null), XlsxCell::Blank));
    assert!(matches!(xlsx_cell(&CellValue::Bool(true)), XlsxCell::Boolean(true)));
    assert!(matches!(xlsx_cell(&CellValue::Int64(5)), XlsxCell::Integer(5)));
    match xlsx_cell(&CellValue::Float64("0.5".into())) {
        XlsxCell::Number(t) => assert_eq!(t, "0.5"),
        _ => panic!("number expected"),
    }
    match xlsx_cell(&CellValue::Json("{}".into())) {
        XlsxCell::Text(t) => assert_eq!(t, "{}"),
        _ => panic!("text expected"),
    }
    assert_eq!(xlsx_position(0, 3), (1, 3));
    assert_eq!(xlsx_position(9, 0), (10, 0));
}

#[test]
fn export_report() {
    let r = export_result(&page(), "/tmp/out.csv");
    assert_eq!(r.rows_written, 2);
    assert_eq!(r.file_path, "/tmp/out.csv");
}
