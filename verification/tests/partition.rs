use xlsx2json::{filter_data, CellValue};

fn strings_p(items: &[&str]) -> Vec<String> {
    items.iter().map(|s| s.to_string()).collect()
}

fn ints(items: &[i64]) -> Vec<CellValue> {
    items.iter().map(|n| CellValue::Int(*n)).collect()
}

#[test]
fn server_view_holds_columns_marked_b_or_s() {
    let headers = strings_p(&["A", "B", "C", "D", "E"]);
    let types = strings_p(&["int", "int", "int", "int", "int"]);
    let marks = strings_p(&["b", "s", "c", "", "x"]);
    let data = vec![ints(&[1, 2, 3, 4, 5]), ints(&[6, 7, 8, 9, 10])];
    let (h, t, d) = filter_data(&headers, &types, &marks, &data, "s");
    assert_eq!(h, strings_p(&["A", "B"]));
    assert_eq!(t, strings_p(&["int", "int"]));
    assert_eq!(d, vec![ints(&[1, 2]), ints(&[6, 7])]);
}

#[test]
fn client_view_holds_columns_marked_b_or_c() {
    let headers = strings_p(&["A", "B", "C", "D", "E"]);
    let types = strings_p(&["t1", "t2", "t3", "t4", "t5"]);
    let marks = strings_p(&["b", "s", "c", "", "x"]);
    let data = vec![ints(&[1, 2, 3, 4, 5])];
    let (h, t, d) = filter_data(&headers, &types, &marks, &data, "c");
    assert_eq!(h, strings_p(&["A", "C"]));
    assert_eq!(t, strings_p(&["t1", "t3"]));
    assert_eq!(d, vec![ints(&[1, 3])]);
}

#[test]
fn every_mark_decides_both_views() {
    for mark in ["b", "s", "c", "", "x", "bs", "B", " s", "both", "sc"] {
        let headers = strings_p(&["H"]);
        let types = strings_p(&["int"]);
        let marks = strings_p(&[mark]);
        let data = vec![ints(&[1])];
        let (server, _, _) = filter_data(&headers, &types, &marks, &data, "s");
        let (client, _, _) = filter_data(&headers, &types, &marks, &data, "c");
        assert_eq!(server.len() == 1, mark == "b" || mark == "s", "{:?}", mark);
        assert_eq!(client.len() == 1, mark == "b" || mark == "c", "{:?}", mark);
    }
}

#[test]
fn column_order_is_kept() {
    let headers = strings_p(&["Z", "Y", "X", "W"]);
    let types = strings_p(&["a", "b", "c", "d"]);
    let marks = strings_p(&["s", "c", "b", "s"]);
    let data = vec![ints(&[10, 20, 30, 40])];
    let (h, t, d) = filter_data(&headers, &types, &marks, &data, "s");
    assert_eq!(h, strings_p(&["Z", "X", "W"]));
    assert_eq!(t, strings_p(&["a", "c", "d"]));
    assert_eq!(d, vec![ints(&[10, 30, 40])]);
}

#[test]
fn a_view_without_columns_keeps_its_rows_empty() {
    let headers = strings_p(&["A"]);
    let types = strings_p(&["int"]);
    let marks = strings_p(&["c"]);
    let data = vec![ints(&[1]), ints(&[2])];
    let (h, t, d) = filter_data(&headers, &types, &marks, &data, "s");
    assert!(h.is_empty());
    assert!(t.is_empty());
    assert_eq!(d, vec![Vec::<CellValue>::new(), Vec::new()]);
}

#[test]
fn values_of_every_kind_are_carried_over() {
    let headers = strings_p(&["A", "B", "C", "D", "E", "F"]);
    let types = strings_p(&["t", "t", "t", "t", "t", "t"]);
    let marks = strings_p(&["b", "b", "b", "b", "b", "b"]);
    let row = vec![
        CellValue::Null,
        CellValue::Bool(true),
        CellValue::Int(-4),
        CellValue::Float(2.5f64.to_bits()),
        CellValue::Json("[1]".to_string()),
        CellValue::Text("x".to_string()),
    ];
    let data = vec![row.clone()];
    let (_, _, d) = filter_data(&headers, &types, &marks, &data, "c");
    assert_eq!(d, vec![row]);
}

#[test]
fn what_lies_beyond_the_marks_is_not_read() {
    let headers = strings_p(&["A", "B", "C", "D"]);
    let types = strings_p(&["t1", "t2", "t3"]);
    let marks = strings_p(&["s", "b"]);
    let data = vec![ints(&[1, 2, 3, 4, 5]), ints(&[6, 7])];
    let (h, t, d) = filter_data(&headers, &types, &marks, &data, "s");
    assert_eq!(h, strings_p(&["A", "B"]));
    assert_eq!(t, strings_p(&["t1", "t2"]));
    assert_eq!(d, vec![ints(&[1, 2]), ints(&[6, 7])]);
    let (h, t, d) = filter_data(&headers, &types, &marks, &data, "c");
    assert_eq!(h, strings_p(&["B"]));
    assert_eq!(t, strings_p(&["t2"]));
    assert_eq!(d, vec![ints(&[2]), ints(&[7])]);
    let none = strings_p(&[]);
    let (h, t, d) = filter_data(&headers, &types, &none, &data, "s");
    assert!(h.is_empty());
    assert!(t.is_empty());
    assert_eq!(d, vec![Vec::<CellValue>::new(), Vec::new()]);
}
