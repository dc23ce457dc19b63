use xlsx2json::{
    convert_document, document_error, need_regenerate, CellValue, ExcelProcessor, Config, FileStat,
    FileStep, RawCell, XlsxError,
};

fn cell_a(text: &str) -> RawCell {
    RawCell::new(text.to_string(), text.parse::<f64>().ok().map(f64::to_bits))
}

fn row_a(cells: &[&str]) -> Vec<RawCell> {
    cells.iter().map(|c| cell_a(c)).collect()
}

fn strings_a(items: &[&str]) -> Vec<String> {
    items.iter().map(|s| s.to_string()).collect()
}

fn table_a(level_of_first_row: &str) -> Vec<Vec<RawCell>> {
    vec![
        row_a(&["skill table", "", ""]),
        row_a(&["b", "s", "c"]),
        row_a(&["string", "int", "bool"]),
        row_a(&["Name", "Level", "Active"]),
        row_a(&["Fire", level_of_first_row, "true"]),
        row_a(&["Ice", "", "false"]),
    ]
}

#[test]
fn a_worksheet_gives_its_server_and_client_views() {
    let document = convert_document(&table_a("3")).expect("every cell converts");
    assert_eq!(document.server.headers, strings_a(&["Name", "Level"]));
    assert_eq!(document.server.types, strings_a(&["string", "int"]));
    assert_eq!(document.client.headers, strings_a(&["Name", "Active"]));
    assert_eq!(document.client.types, strings_a(&["string", "bool"]));
    assert_eq!(
        document.server.data,
        vec![
            vec![CellValue::Text("Fire".to_string()), CellValue::Int(3)],
            vec![CellValue::Text("Ice".to_string()), CellValue::Null],
        ]
    );
    assert_eq!(
        document.client.data,
        vec![
            vec![CellValue::Text("Fire".to_string()), CellValue::Bool(true)],
            vec![CellValue::Text("Ice".to_string()), CellValue::Bool(false)],
        ]
    );
}

#[test]
fn a_bad_integer_yields_no_document() {
    let failures = convert_document(&table_a("abc")).expect_err("one cell fails");
    assert_eq!(
        failures,
        vec![XlsxError::ConvertError {
            row: 5,
            header: "Level".to_string(),
            value: "abc".to_string(),
            declared_type: "int".to_string(),
            message: "not a valid integer".to_string(),
        }]
    );
    let processor = ExcelProcessor::new(Config::new(), "out".to_string(), false);
    assert!(processor.process_rows(&table_a("abc")).is_err());
    assert!(matches!(document_error(&failures), XlsxError::Excel(_)));
}

#[test]
fn one_stale_side_regenerates_both() {
    let source = FileStat::Modified(2_000);
    let server = FileStat::Modified(1_000);
    let client = FileStat::Modified(3_000);
    assert_eq!(need_regenerate(&source, &server, &client), Ok(true));
    let processor = ExcelProcessor::new(Config::new(), "out".to_string(), false);
    assert_eq!(processor.next_step(&source, &server, &client), Ok(FileStep::Convert));
    let plan = processor.process_rows(&table_a("3")).expect("every cell converts");
    assert!(plan.server.is_some());
    assert!(plan.client.is_some());
}
