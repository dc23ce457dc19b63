use xlsx2json::{extract_schema, RawCell, XlsxError};

fn cell_s(text: &str) -> RawCell {
    RawCell::new(text.to_string(), None)
}

fn row_s(cells: &[&str]) -> Vec<RawCell> {
    cells.iter().map(|c| cell_s(c)).collect()
}

fn strings_s(items: &[&str]) -> Vec<String> {
    items.iter().map(|s| s.to_string()).collect()
}

#[test]
fn fewer_than_four_rows_is_a_format_failure() {
    let expected = XlsxError::InvalidExcel(
        "must contain mark row, type row, header row, and at least one data row".to_string(),
    );
    for n in 0..4 {
        let rows: Vec<Vec<RawCell>> = (0..n).map(|_| row_s(&["b", "int", "A"])).collect();
        assert_eq!(extract_schema(&rows), Err(expected.clone()));
    }
}

#[test]
fn four_rows_give_a_schema() {
    let rows = vec![row_s(&["title"]), row_s(&["b"]), row_s(&["int"]), row_s(&["Id"])];
    let schema = extract_schema(&rows).expect("four rows");
    assert_eq!(schema.marks, strings_s(&["b"]));
    assert_eq!(schema.types, strings_s(&["int"]));
    assert_eq!(schema.headers, strings_s(&["Id"]));
}

#[test]
fn schema_rows_are_trimmed_and_marks_lowered() {
    let rows = vec![
        row_s(&[]),
        row_s(&[" B ", "S", "\tc\n", "X"]),
        row_s(&[" Int ", "STRING", " bool", "Weird Type "]),
        row_s(&[" Id ", "Name\u{a0}", "Flag", " Odd One "]),
    ];
    let schema = extract_schema(&rows).expect("four rows");
    assert_eq!(schema.marks, strings_s(&["b", "s", "c", "x"]));
    assert_eq!(schema.types, strings_s(&["Int", "STRING", "bool", "Weird Type"]));
    assert_eq!(schema.headers, strings_s(&["Id", "Name", "Flag", "Odd One"]));
}

#[test]
fn schema_is_cut_at_the_first_empty_header() {
    let rows = vec![
        row_s(&["title"]),
        row_s(&["b", "s", "c", "b", "s"]),
        row_s(&["int", "string", "bool", "json", "float"]),
        row_s(&["Id", "Name", "   ", "Later", "Last"]),
    ];
    let schema = extract_schema(&rows).expect("four rows");
    assert_eq!(schema.headers, strings_s(&["Id", "Name"]));
    assert_eq!(schema.types, strings_s(&["int", "string"]));
    assert_eq!(schema.marks, strings_s(&["b", "s"]));
}

#[test]
fn an_empty_first_header_gives_no_column() {
    let rows = vec![row_s(&["t"]), row_s(&["b", "s"]), row_s(&["int", "int"]), row_s(&["", "B"])];
    let schema = extract_schema(&rows).expect("four rows");
    assert!(schema.headers.is_empty());
    assert!(schema.types.is_empty());
    assert!(schema.marks.is_empty());
}

#[test]
fn short_mark_and_type_rows_go_on_with_empty_cells() {
    let rows = vec![row_s(&[]), row_s(&["b"]), row_s(&[]), row_s(&["A", "B", "C"])];
    let schema = extract_schema(&rows).expect("four rows");
    assert_eq!(schema.headers, strings_s(&["A", "B", "C"]));
    assert_eq!(schema.marks, strings_s(&["b", "", ""]));
    assert_eq!(schema.types, strings_s(&["", "", ""]));
}

#[test]
fn the_three_sequences_have_one_length() {
    let rows = vec![
        row_s(&["x", "y"]),
        row_s(&["b", "s", "c", "b", "s", "c", "b"]),
        row_s(&["int"]),
        row_s(&["A", "B", "C", "D", "", "F"]),
        row_s(&["1", "2", "3", "4", "5", "6"]),
    ];
    let schema = extract_schema(&rows).expect("five rows");
    assert_eq!(schema.headers.len(), 4);
    assert_eq!(schema.types.len(), 4);
    assert_eq!(schema.marks.len(), 4);
    assert!(schema.headers.iter().all(|h| !h.is_empty()));
}
