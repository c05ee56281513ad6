use xbatch::result::{csv, iter_row, row_to_string, ResultSet, Row};

fn row(cells: &[Option<&[u8]>]) -> Row {
    Row { cells: cells.iter().map(|c| c.map(|b| b.to_vec())).collect() }
}

#[test]
fn iter_row_skips_null_cells() {
    let r = row(&[Some(b"1"), None, Some(b"x"), None, None, Some(b"")]);
    assert_eq!(iter_row(&r), vec![b"1".to_vec(), b"x".to_vec(), b"".to_vec()]);
}

#[test]
fn iter_row_of_empty_row_is_empty() {
    assert_eq!(iter_row(&row(&[])), Vec::<Vec<u8>>::new());
    assert_eq!(iter_row(&row(&[None, None])), Vec::<Vec<u8>>::new());
}

#[test]
fn row_to_string_decodes_utf8() {
    let r = row(&[Some("42".as_bytes()), Some("héllo".as_bytes())]);
    assert_eq!(row_to_string(&r), vec!["42".to_string(), "héllo".to_string()]);
}

#[test]
fn row_to_string_replaces_malformed_bytes() {
    let r = row(&[Some(&[0x61, 0xff, 0x62])]);
    assert_eq!(row_to_string(&r), vec!["a\u{fffd}b".to_string()]);
}

#[test]
fn to_csv_rows_joins_present_cells_with_commas() {
    let set = ResultSet::new(vec![
        row(&[Some(b"7"), Some(b"a"), Some(b"out"), Some(b""), Some(b"0"), None]),
        row(&[Some(b"7"), Some(b"b"), None, None, None, Some(b"io: x")]),
    ]);
    assert_eq!(set.to_csv_rows(), vec!["7,a,out,,0".to_string(), "7,b,io: x".to_string()]);
}

#[test]
fn to_csv_rows_of_empty_set_is_empty() {
    assert_eq!(ResultSet::new(Vec::new()).to_csv_rows(), Vec::<String>::new());
}

#[test]
fn to_csv_ends_every_line_with_a_line_feed() {
    let set = ResultSet::new(vec![row(&[Some(b"1"), Some(b"a")]), row(&[None]), row(&[Some(b"2")])]);
    assert_eq!(set.to_csv(), "1,a\n\n2\n");
}

#[test]
fn to_csv_of_empty_set_is_empty() {
    assert_eq!(ResultSet::new(Vec::new()).to_csv(), "");
}

#[test]
fn print_lists_every_value_in_order() {
    let set = ResultSet::new(vec![row(&[Some(b"1"), None, Some(b"a")]), row(&[]), row(&[Some(b"2")])]);
    assert_eq!(set.print(), vec![b"1".to_vec(), b"a".to_vec(), b"2".to_vec()]);
}

#[test]
fn csv_is_one_line_per_row() {
    assert_eq!(csv(&row(&[Some(b"1"), Some(b""), None, Some(b"x")])), "1,,x");
    assert_eq!(csv(&row(&[])), "");
}
