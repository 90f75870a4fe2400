use table_transform::column_ref::ColumnRef;
use table_transform::pipeline::{extract, header_row, record_row, transform_table, validate_columns, TableError};
use table_transform::transform::join::{Join, ValueMap};
use table_transform::transform::original::Original;
use table_transform::transform::rename::Rename;
use table_transform::transform::timestamp::Timestamp;
use table_transform::transform::transpose::Transpose;
use table_transform::transform::{TransformError, TransformKind, TransformedColumns};

fn strings(v: &[&str]) -> Vec<String> {
    v.iter().map(|s| s.to_string()).collect()
}

fn col(index: usize, header: &str) -> ColumnRef {
    ColumnRef { index, header: header.to_string() }
}

fn entry(kind: TransformKind) -> TransformedColumns {
    TransformedColumns { kind }
}

fn languages() -> Transpose {
    Transpose {
        sources: vec![
            (col(0, "Q 1st"), "1st".to_string()),
            (col(1, "Q 2nd"), "2nd".to_string()),
            (col(2, "Q 3rd"), "3rd".to_string()),
        ],
        columns: vec![
            ("Q Rust".to_string(), "Rust".to_string()),
            ("Q C++".to_string(), "C++".to_string()),
            ("Q C".to_string(), "C".to_string()),
        ],
    }
}

#[test]
fn extract_and_pass_through_reproduces_table() {
    let headers = strings(&["Id", "Name", "Score"]);
    let rows = vec![strings(&["1", "Ann", "7"]), strings(&["2", " Bob ", ""])];
    let columns: Vec<TransformedColumns> = extract(&headers)
        .into_iter()
        .map(|c| entry(TransformKind::Original(Original(c))))
        .collect();
    assert!(validate_columns(&columns, &headers).is_ok());
    assert_eq!(header_row(&columns), headers);
    for row in rows.iter() {
        assert_eq!(&record_row(&columns, row).ok().unwrap(), row);
    }
}

#[test]
fn extract_lists_labels() {
    let refs = extract(&strings(&["Id", "Name"]));
    let texts: Vec<String> = refs.iter().map(|c| c.to_string()).collect();
    assert_eq!(texts, strings(&["A: Id", "B: Name"]));
}

#[test]
fn schema_mismatch_is_refused() {
    let headers = strings(&["Identifier"]);
    let columns = vec![entry(TransformKind::Original(Original(ColumnRef::parse("A: Name").ok().unwrap())))];
    match validate_columns(&columns, &headers) {
        Err(TransformError::SchemaMismatch { index, header }) => {
            assert_eq!(index, 0);
            assert_eq!(header, "Name");
        }
        _ => panic!("expected a schema mismatch"),
    }
}

#[test]
fn reference_past_last_column_is_refused() {
    let headers = strings(&["Id"]);
    let columns = vec![entry(TransformKind::Rename(Rename { header: "X".to_string(), column: col(3, "Id") }))];
    assert!(matches!(validate_columns(&columns, &headers), Err(TransformError::SchemaMismatch { index: 3, .. })));
}

#[test]
fn rename_and_original_headers() {
    let columns = vec![
        entry(TransformKind::Rename(Rename { header: "Person".to_string(), column: col(1, "Name") })),
        entry(TransformKind::Original(Original(col(0, "Id")))),
    ];
    assert_eq!(header_row(&columns), strings(&["Person", "Id"]));
    let row = record_row(&columns, &strings(&["7", "Ann"])).ok().unwrap();
    assert_eq!(row, strings(&["Ann", "7"]));
}

#[test]
fn join_drops_empty_values() {
    let join = Join {
        header: "Both".to_string(),
        columns: vec![
            ValueMap { column: col(0, "A"), format: None },
            ValueMap { column: col(1, "B"), format: None },
        ],
        sep: None,
    };
    let mut out = Vec::new();
    join.write_fields(&strings(&[" 1 ", "   "]), &mut out);
    assert_eq!(out, strings(&["1"]));
    let mut out = Vec::new();
    join.write_fields(&strings(&["1", "2"]), &mut out);
    assert_eq!(out, strings(&["1, 2"]));
    let mut out = Vec::new();
    join.write_fields(&strings(&["", ""]), &mut out);
    assert_eq!(out, strings(&[""]));
}

#[test]
fn join_with_template() {
    let join = Join {
        header: "Price".to_string(),
        columns: vec![
            ValueMap { column: col(0, "A"), format: Some("$ {}".to_string()) },
            ValueMap { column: col(1, "B"), format: Some("({} / {})".to_string()) },
        ],
        sep: Some(" | ".to_string()),
    };
    let mut out = Vec::new();
    join.write_headers(&mut out);
    join.write_fields(&strings(&["5", " x "]), &mut out);
    assert_eq!(out, strings(&["Price", "$ 5 | (x / x)"]));
}

#[test]
fn transpose_places_slot_labels() {
    let t = languages();
    let mut out = Vec::new();
    t.write_headers(&mut out);
    assert_eq!(out, strings(&["Q Rust", "Q C++", "Q C"]));
    let mut out = Vec::new();
    assert!(t.write_fields(&strings(&["Rust", "C++", "C"]), &mut out).is_ok());
    assert_eq!(out, strings(&["1st", "2nd", "3rd"]));
    let mut out = Vec::new();
    assert!(t.write_fields(&strings(&["C", "", "Rust"]), &mut out).is_ok());
    assert_eq!(out, strings(&["3rd", "", "1st"]));
}

#[test]
fn transpose_first_source_wins() {
    let t = languages();
    let mut out = Vec::new();
    assert!(t.write_fields(&strings(&["C", "C", ""]), &mut out).is_ok());
    assert_eq!(out, strings(&["", "", "1st"]));
}

#[test]
fn transpose_unmatched_value_fails() {
    let t = languages();
    let mut out = strings(&["kept"]);
    match t.write_fields(&strings(&["Rust", "Java", ""]), &mut out) {
        Err(TransformError::UnmatchedValue { header, value }) => {
            assert_eq!(header, "Q 2nd");
            assert_eq!(value, "Java");
        }
        _ => panic!("expected an unmatched value"),
    }
    assert_eq!(out, strings(&["kept"]));
}

#[test]
fn transpose_validation() {
    let headers = strings(&["Q 1st", "Q 2nd", "Q 3rd"]);
    assert!(languages().validate(&headers).is_ok());
    let mut empty = languages();
    empty.columns.push(("Q None".to_string(), "".to_string()));
    assert!(matches!(empty.validate(&headers), Err(TransformError::EmptyKeyValue { header }) if header == "Q None"));
    let mut shared = languages();
    shared.columns.push(("Q Rust again".to_string(), "Rust".to_string()));
    match shared.validate(&headers) {
        Err(TransformError::SharedKeyValue { value, first, second }) => {
            assert_eq!(value, "Rust");
            assert_eq!(first, "Q Rust");
            assert_eq!(second, "Q Rust again");
        }
        _ => panic!("expected a shared key value"),
    }
    let moved = strings(&["Q 1st", "Q 3rd", "Q 2nd"]);
    assert!(matches!(languages().validate(&moved), Err(TransformError::SchemaMismatch { index: 1, .. })));
}

fn stamp(from: &str, to: &str, header: Option<&str>) -> Timestamp {
    Timestamp {
        column: col(0, "When"),
        header: header.map(|h| h.to_string()),
        from: from.to_string(),
        to: to.to_string(),
    }
}

#[test]
fn timestamp_reformats() {
    let t = stamp("%Y-%m-%d", "%d/%m/%Y", None);
    let mut out = Vec::new();
    t.write_headers(&mut out);
    assert!(t.write_fields(&strings(&["2020-01-02"]), &mut out).is_ok());
    assert_eq!(out, strings(&["When", "02/01/2020"]));
    let t = stamp("%Y-%m-%d %H:%M", "%H.%M on %d/%m/%Y", Some("At"));
    let mut out = Vec::new();
    t.write_headers(&mut out);
    assert!(t.write_fields(&strings(&["2021-12-31 23:05"]), &mut out).is_ok());
    assert_eq!(out, strings(&["At", "23.05 on 31/12/2021"]));
}

#[test]
fn timestamp_parse_failure_names_value() {
    let t = stamp("%Y-%m-%d", "%d/%m/%Y", None);
    let mut out = Vec::new();
    match t.write_fields(&strings(&["not-a-date"]), &mut out) {
        Err(TransformError::TimestampParse { value }) => assert_eq!(value, "not-a-date"),
        _ => panic!("expected a parse failure"),
    }
    assert!(out.is_empty());
}

#[test]
fn timestamp_bad_output_pattern_fails() {
    let t = stamp("%Y-%m-%d", "%Q", None);
    let mut out = Vec::new();
    assert!(matches!(t.write_fields(&strings(&["2020-01-02"]), &mut out), Err(TransformError::TimestampFormat { .. })));
    assert!(out.is_empty());
}

#[test]
fn record_row_stops_at_refusal() {
    let columns = vec![
        entry(TransformKind::Original(Original(col(0, "Q 1st")))),
        entry(TransformKind::Transpose(languages())),
        entry(TransformKind::Timestamp(stamp("%Y", "%Y", None))),
    ];
    assert!(matches!(record_row(&columns, &strings(&["Go", "", ""])), Err(TransformError::UnmatchedValue { .. })));
    assert!(matches!(record_row(&columns, &strings(&["Rust", "", ""])), Err(TransformError::TimestampParse { .. })));
    assert_eq!(
        header_row(&columns),
        strings(&["Q 1st", "Q Rust", "Q C++", "Q C", "When"])
    );
}

#[test]
fn table_is_whole_or_nothing() {
    let headers = strings(&["Q 1st", "Q 2nd", "Q 3rd"]);
    let columns = vec![entry(TransformKind::Transpose(languages()))];
    let records = vec![strings(&["Rust", "C++", "C"]), strings(&["C", "", "Rust"])];
    let table = transform_table(&columns, &headers, &records).ok().unwrap();
    assert_eq!(
        table,
        vec![
            strings(&["Q Rust", "Q C++", "Q C"]),
            strings(&["1st", "2nd", "3rd"]),
            strings(&["3rd", "", "1st"]),
        ]
    );
    let records = vec![strings(&["Rust", "", ""]), strings(&["Java", "", ""])];
    match transform_table(&columns, &headers, &records) {
        Err(TableError::Record { index, error: TransformError::UnmatchedValue { header, value } }) => {
            assert_eq!(index, 1);
            assert_eq!(header, "Q 1st");
            assert_eq!(value, "Java");
        }
        _ => panic!("expected record 1 to be refused"),
    }
    let records = vec![strings(&["Rust", ""])];
    assert!(matches!(transform_table(&columns, &headers, &records), Err(TableError::RecordWidth { index: 0, len: 2 })));
}

#[test]
fn table_refused_before_any_row() {
    let headers = strings(&["Identifier"]);
    let columns = vec![entry(TransformKind::Original(Original("A: Name".parse::<ColumnRef>().ok().unwrap())))];
    let records = vec![strings(&["x"])];
    assert!(matches!(transform_table(&columns, &headers, &records), Err(TableError::Invalid(TransformError::SchemaMismatch { index: 0, .. }))));
}

#[test]
fn timestamp_cell_in_row() {
    let headers = strings(&["When", "Who"]);
    let columns = vec![
        entry(TransformKind::Timestamp(stamp("%Y-%m-%d", "%d/%m/%Y", Some("Day")))),
        entry(TransformKind::Original(Original(col(1, "Who")))),
    ];
    let records = vec![strings(&["2020-01-02", "Ann"]), strings(&["1999-12-31", "Bob"])];
    let table = transform_table(&columns, &headers, &records).ok().unwrap();
    assert_eq!(
        table,
        vec![
            strings(&["Day", "Who"]),
            strings(&["02/01/2020", "Ann"]),
            strings(&["31/12/1999", "Bob"]),
        ]
    );
    let records = vec![strings(&["2020-01-02", "Ann"]), strings(&["not-a-date", "Bob"])];
    match transform_table(&columns, &headers, &records) {
        Err(TableError::Record { index, error: TransformError::TimestampParse { value } }) => {
            assert_eq!(index, 1);
            assert_eq!(value, "not-a-date");
        }
        _ => panic!("expected record 1 to be refused"),
    }
}
