use xlsx2json::document::is_empty_row;
use xlsx2json::{
    convert_document, convert_rows, document_error, extract_schema, CellValue, Config,
    ExcelProcessor, RawCell, XlsxError,
};

fn cell_d(text: &str) -> RawCell {
    RawCell::new(text.to_string(), text.parse::<f64>().ok().map(f64::to_bits))
}

fn row_d(cells: &[&str]) -> Vec<RawCell> {
    cells.iter().map(|c| cell_d(c)).collect()
}

fn strings_d(items: &[&str]) -> Vec<String> {
    items.iter().map(|s| s.to_string()).collect()
}

fn head() -> Vec<Vec<RawCell>> {
    vec![
        row_d(&["leading row"]),
        row_d(&["b", "s", "c", "x"]),
        row_d(&["int", "float", "json", "string"]),
        row_d(&["Id", "Ratio", "Extra", "Hidden"]),
    ]
}

fn failure_d(row: usize, header: &str, value: &str, declared: &str, message: &str) -> XlsxError {
    XlsxError::ConvertError {
        row,
        header: header.to_string(),
        value: value.to_string(),
        declared_type: declared.to_string(),
        message: message.to_string(),
    }
}

#[test]
fn every_kind_of_value_reaches_its_view() {
    let mut rows = head();
    rows.push(row_d(&["1", "0.5", "{\"k\": [1]}", "kept nowhere"]));
    let document = convert_document(&rows).expect("every cell converts");
    assert_eq!(document.server.headers, strings_d(&["Id", "Ratio"]));
    assert_eq!(document.server.types, strings_d(&["int", "float"]));
    assert_eq!(
        document.server.data,
        vec![vec![CellValue::Int(1), CellValue::Float(0.5f64.to_bits())]]
    );
    assert_eq!(document.client.headers, strings_d(&["Id", "Extra"]));
    assert_eq!(document.client.types, strings_d(&["int", "json"]));
    assert_eq!(
        document.client.data,
        vec![vec![CellValue::Int(1), CellValue::Json("{\"k\": [1]}".to_string())]]
    );
}

#[test]
fn converting_twice_gives_the_same_documents() {
    let mut rows = head();
    rows.push(row_d(&["1", "0.5", "[]", "a"]));
    rows.push(row_d(&["2", "", "null", ""]));
    let first = convert_document(&rows);
    let second = convert_document(&rows);
    assert!(first.is_ok());
    assert_eq!(first, second);
    let mut bad = rows.clone();
    bad.push(row_d(&["x", "y", "z", ""]));
    assert_eq!(convert_document(&bad), convert_document(&bad));
}

#[test]
fn all_failures_are_collected_in_row_order() {
    let mut rows = head();
    rows.push(row_d(&["1", "0.5", "[]", "fine"]));
    rows.push(row_d(&["one", "0.5", "[", "fine"]));
    rows.push(row_d(&["3", "half", "[]", "fine"]));
    let failures = convert_document(&rows).expect_err("three cells fail");
    assert_eq!(
        failures,
        vec![
            failure_d(6, "Id", "one", "int", "not a valid integer"),
            failure_d(6, "Extra", "[", "json", "not valid JSON"),
            failure_d(7, "Ratio", "half", "float", "not a valid float"),
        ]
    );
}

#[test]
fn one_failing_cell_suppresses_both_documents() {
    let mut rows = head();
    for i in 0..20 {
        rows.push(row_d(&[&i.to_string(), "1.5", "[]", "ok"]));
    }
    assert!(convert_document(&rows).is_ok());
    rows[17][1] = cell_d("not a number");
    let failures = convert_document(&rows).expect_err("one cell fails");
    assert_eq!(failures, vec![failure_d(18, "Ratio", "not a number", "float", "not a valid float")]);
    let processor = ExcelProcessor::new(Config::new(), "out".to_string(), true);
    assert_eq!(processor.process_rows(&rows), Err(failures));
}

#[test]
fn a_failure_in_a_column_of_no_view_still_fails_the_document() {
    let mut rows = vec![
        row_d(&[""]),
        row_d(&["x"]),
        row_d(&["int"]),
        row_d(&["Hidden"]),
    ];
    rows.push(row_d(&["abc"]));
    let failures = convert_document(&rows).expect_err("the cell fails");
    assert_eq!(failures, vec![failure_d(5, "Hidden", "abc", "int", "not a valid integer")]);
}

#[test]
fn an_unsupported_type_fails_only_where_a_cell_is_not_blank() {
    let mut rows = vec![
        row_d(&[""]),
        row_d(&["b", "b"]),
        row_d(&["int", "date"]),
        row_d(&["Id", "When"]),
        row_d(&["1", ""]),
        row_d(&["2", "  "]),
    ];
    let document = convert_document(&rows).expect("blank cells are null");
    assert_eq!(
        document.server.data,
        vec![vec![CellValue::Int(1), CellValue::Null], vec![CellValue::Int(2), CellValue::Null]]
    );
    rows.push(row_d(&["3", "2024-01-01"]));
    assert_eq!(
        convert_document(&rows),
        Err(vec![failure_d(7, "When", "2024-01-01", "date", "unsupported data type")])
    );
}

#[test]
fn columns_beyond_the_first_empty_header_are_not_read() {
    let base = vec![
        row_d(&["t"]),
        row_d(&["b", "s", "", "b"]),
        row_d(&["int", "string", "", "int"]),
        row_d(&["Id", "Name", "", "Ghost"]),
        row_d(&["1", "one", "", "not an int"]),
        row_d(&["2", "two"]),
    ];
    let other = vec![
        row_d(&["something else entirely", "x"]),
        row_d(&["b", "s", "c", "c", "b"]),
        row_d(&["int", "string", "int", "json", "bool"]),
        row_d(&["Id", "Name", " ", "Other", "More"]),
        row_d(&["1", "one", "oops", "[", "maybe"]),
        row_d(&["2", "two", "", "", "", "", "trailing"]),
    ];
    let document = convert_document(&base).expect("columns before the cut convert");
    assert_eq!(document.server.headers, strings_d(&["Id", "Name"]));
    assert_eq!(document.client.headers, strings_d(&["Id"]));
    assert_eq!(
        document.server.data,
        vec![
            vec![CellValue::Int(1), CellValue::Text("one".to_string())],
            vec![CellValue::Int(2), CellValue::Text("two".to_string())],
        ]
    );
    assert_eq!(convert_document(&other), Ok(document));
}

#[test]
fn entirely_empty_rows_are_passed_over_but_still_counted() {
    let mut rows = head();
    rows.push(row_d(&["1", "", "", ""]));
    rows.push(Vec::new());
    rows.push(row_d(&["", "", "", ""]));
    rows.push(row_d(&["", ""]));
    rows.push(row_d(&["bad", "", "", ""]));
    let failures = convert_document(&rows).expect_err("the last row fails");
    assert_eq!(failures, vec![failure_d(9, "Id", "bad", "int", "not a valid integer")]);
    rows.pop();
    rows.push(row_d(&["2", "", "", ""]));
    let document = convert_document(&rows).expect("every cell converts");
    assert_eq!(
        document.server.data,
        vec![vec![CellValue::Int(1), CellValue::Null], vec![CellValue::Int(2), CellValue::Null]]
    );
    assert_eq!(
        document.client.data,
        vec![vec![CellValue::Int(1), CellValue::Null], vec![CellValue::Int(2), CellValue::Null]]
    );
}

#[test]
fn a_table_of_empty_data_rows_gives_documents_without_rows() {
    let rows = vec![
        row_d(&["title", "", ""]),
        row_d(&["b", "s", "c"]),
        row_d(&["string", "int", "bool"]),
        row_d(&["Name", "Level", "Active"]),
        row_d(&["", "", ""]),
    ];
    let document = convert_document(&rows).expect("no cell to convert");
    assert_eq!(document.server.headers, strings_d(&["Name", "Level"]));
    assert_eq!(document.client.headers, strings_d(&["Name", "Active"]));
    assert!(document.server.data.is_empty());
    assert!(document.client.data.is_empty());
}

#[test]
fn a_row_with_text_under_a_header_is_not_empty() {
    let mut rows = head();
    rows.push(row_d(&[" ", "", "", ""]));
    rows.push(row_d(&["", "", "", "hidden"]));
    let document = convert_document(&rows).expect("blank cells are null");
    let nulls = vec![CellValue::Null, CellValue::Null];
    assert_eq!(document.server.data, vec![nulls.clone(), nulls.clone()]);
    assert_eq!(document.client.data, vec![nulls.clone(), nulls]);
}

#[test]
fn a_row_with_text_only_beyond_the_headers_is_passed_over() {
    let mut rows = head();
    rows.push(row_d(&["1", "", "", ""]));
    rows.push(row_d(&["", "", "", "", "", "beyond the headers"]));
    rows.push(row_d(&["2", "", "", "", "more"]));
    let document = convert_document(&rows).expect("every cell converts");
    assert_eq!(
        document.server.data,
        vec![vec![CellValue::Int(1), CellValue::Null], vec![CellValue::Int(2), CellValue::Null]]
    );
}

#[test]
fn a_table_converts_as_it_does_when_cut_at_the_first_empty_header() {
    let whole = vec![
        row_d(&["t", "t"]),
        row_d(&["b", "s"]),
        row_d(&["string", "int"]),
        row_d(&["H", ""]),
        row_d(&["", "x"]),
        row_d(&["a", "y"]),
    ];
    let cut = vec![
        row_d(&["t"]),
        row_d(&["b"]),
        row_d(&["string"]),
        row_d(&["H"]),
        row_d(&[""]),
        row_d(&["a"]),
    ];
    let document = convert_document(&whole).expect("every cell converts");
    assert_eq!(document.server.headers, strings_d(&["H"]));
    assert_eq!(document.server.data, vec![vec![CellValue::Text("a".to_string())]]);
    assert_eq!(document.client.data, vec![vec![CellValue::Text("a".to_string())]]);
    assert_eq!(convert_document(&cut), Ok(document));
    let processor = ExcelProcessor::new(Config::new(), "out".to_string(), false);
    assert_eq!(processor.process_rows(&whole), processor.process_rows(&cut));
}

#[test]
fn empty_rows_are_told_by_their_texts_under_the_headers() {
    assert!(is_empty_row(&Vec::new(), 3));
    assert!(is_empty_row(&row_d(&[""]), 3));
    assert!(is_empty_row(&row_d(&["", "", ""]), 3));
    assert!(is_empty_row(&vec![RawCell::new(String::new(), Some(0))], 1));
    assert!(is_empty_row(&row_d(&["", "", "", "x"]), 3));
    assert!(is_empty_row(&row_d(&["x", "y"]), 0));
    assert!(!is_empty_row(&row_d(&["", "", "", "x"]), 4));
    assert!(!is_empty_row(&row_d(&["", "x", ""]), 3));
    assert!(!is_empty_row(&row_d(&["", "x", ""]), 2));
    assert!(is_empty_row(&row_d(&["", "x", ""]), 1));
    assert!(!is_empty_row(&row_d(&[" "]), 3));
    assert!(!is_empty_row(&row_d(&["", "", "\t"]), 5));
}

#[test]
fn short_rows_go_on_with_null() {
    let mut rows = head();
    rows.push(row_d(&["1"]));
    let document = convert_document(&rows).expect("every cell converts");
    assert_eq!(document.server.data, vec![vec![CellValue::Int(1), CellValue::Null]]);
    assert_eq!(document.client.data, vec![vec![CellValue::Int(1), CellValue::Null]]);
}

#[test]
fn typed_rows_hold_null_where_a_cell_fails() {
    let mut rows = head();
    rows.push(row_d(&["x", "1", "[]", "s"]));
    let schema = extract_schema(&rows).expect("four rows");
    let (data, failures) = convert_rows(&schema, &rows);
    assert_eq!(
        data,
        vec![vec![
            CellValue::Null,
            CellValue::Float(1.0f64.to_bits()),
            CellValue::Json("[]".to_string()),
            CellValue::Text("s".to_string()),
        ]]
    );
    assert_eq!(failures, vec![failure_d(5, "Id", "x", "int", "not a valid integer")]);
}

#[test]
fn a_table_without_data_rows_gives_documents_without_rows() {
    let document = convert_document(&head()).expect("no cell to convert");
    assert_eq!(document.server.headers, strings_d(&["Id", "Ratio"]));
    assert!(document.server.data.is_empty());
    assert!(document.client.data.is_empty());
}

#[test]
fn a_table_that_is_too_short_fails_alone() {
    let rows = vec![row_d(&["a"]), row_d(&["b"]), row_d(&["int"])];
    let failures = convert_document(&rows).expect_err("three rows");
    assert_eq!(
        failures,
        vec![XlsxError::InvalidExcel(
            "must contain mark row, type row, header row, and at least one data row".to_string()
        )]
    );
    assert_eq!(document_error(&failures), failures[0]);
}

#[test]
fn a_view_without_columns_is_not_written() {
    let processor = ExcelProcessor::new(Config::new(), "out".to_string(), false);
    let server_only = vec![
        row_d(&[""]),
        row_d(&["s"]),
        row_d(&["int"]),
        row_d(&["Id"]),
        row_d(&["1"]),
    ];
    let plan = processor.process_rows(&server_only).expect("every cell converts");
    assert!(plan.client.is_none());
    let server = plan.server.expect("the server view has a column");
    assert_eq!(server.headers, strings_d(&["Id"]));
    assert_eq!(server.data, vec![vec![CellValue::Int(1)]]);

    let neither = vec![
        row_d(&[""]),
        row_d(&["x"]),
        row_d(&["int"]),
        row_d(&["Id"]),
        row_d(&["1"]),
    ];
    let plan = processor.process_rows(&neither).expect("every cell converts");
    assert!(plan.server.is_none());
    assert!(plan.client.is_none());
    assert!(plan.is_empty());
    assert!(!processor.process_rows(&server_only).expect("every cell converts").is_empty());
}

#[test]
fn failures_of_cells_fold_into_one_failure() {
    let failures = vec![
        failure_d(5, "A", "x", "int", "not a valid integer"),
        failure_d(6, "A", "y", "int", "not a valid integer"),
    ];
    assert_eq!(
        document_error(&failures),
        XlsxError::Excel("errors occurred during conversion; see the failures reported".to_string())
    );
    assert_eq!(
        document_error(&failures[..1].to_vec()),
        XlsxError::Excel("errors occurred during conversion; see the failures reported".to_string())
    );
}
