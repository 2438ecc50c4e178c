use raf::model::{ProductMetadata, ScanRequest};
use raf::reports::{CellValue, CellWrite};
use raf::sheet::{fill_sheet, workbook_from_writes, ExportError};
use raf::state::AppState;

fn s(text: &str) -> String {
    text.to_string()
}

fn text(w: &CellWrite) -> Option<&str> {
    match &w.value {
        CellValue::Text(t) => Some(t.as_str()),
        CellValue::Number(_) => None,
    }
}

#[test]
fn export_writes_header_then_rows() {
    let mut state = AppState::new(s("t"));
    state.update_products(vec![ProductMetadata { barcode: s("123"), name: s("Vis M4") }]);
    for _ in 0..3 {
        state.receive_scan(ScanRequest { barcode: s("123"), worker: s("Ali"), order_id: None });
    }

    let writes = state.export_writes();
    assert_eq!(writes.len(), 11);
    let header: Vec<_> = writes[..6].iter().map(|w| (w.row, w.col, text(w).unwrap())).collect();
    assert_eq!(
        header,
        vec![
            (0, 0, "Barcode"),
            (0, 1, "Produit"),
            (0, 2, "Quantité"),
            (0, 3, "Dernier Opérateur"),
            (0, 4, "Anomalie"),
            (0, 5, "Motif"),
        ]
    );
    assert_eq!((writes[6].row, writes[6].col, text(&writes[6])), (1, 0, Some("123")));
    assert_eq!((writes[7].row, writes[7].col, text(&writes[7])), (1, 1, Some("Vis M4")));
    assert!(matches!(writes[8].value, CellValue::Number(3)));
    assert_eq!((writes[8].row, writes[8].col), (1, 2));
    assert_eq!((writes[9].row, writes[9].col, text(&writes[9])), (1, 3, Some("Ali")));
    assert_eq!((writes[10].row, writes[10].col, text(&writes[10])), (1, 4, Some("Non")));
}

#[test]
fn export_carries_anomalies() {
    let mut state = AppState::new(s("t"));
    state.receive_scan(ScanRequest { barcode: s("U"), worker: s("w"), order_id: None });
    state.update_products(vec![ProductMetadata { barcode: s("U"), name: s("Later") }]);
    let writes = state.export_writes();
    assert_eq!(writes.len(), 12);
    assert_eq!(text(&writes[7]), Some("Later"));
    assert_eq!((writes[10].row, writes[10].col, text(&writes[10])), (1, 4, Some("Oui")));
    assert_eq!((writes[11].row, writes[11].col, text(&writes[11])), (1, 5, Some("Inconnu")));
}

#[test]
fn export_unknown_product_is_inconnu() {
    let mut state = AppState::new(s("t"));
    state.receive_scan(ScanRequest { barcode: s("U"), worker: s("w"), order_id: None });
    let writes = state.export_writes();
    assert_eq!(text(&writes[7]), Some("Inconnu"));
}

#[test]
fn export_workbook_is_an_xlsx_file() {
    let mut state = AppState::new(s("t"));
    state.receive_scan(ScanRequest { barcode: s("K"), worker: s("w"), order_id: None });
    assert!(state.export_book().is_ok());
    let bytes = state.export_workbook().unwrap();
    assert_eq!(&bytes[..2], b"PK");
    let empty = AppState::new(s("t")).export_workbook().unwrap();
    assert_eq!(&empty[..2], b"PK");
}

#[test]
fn sheet_limits() {
    let mut sheet = rust_xlsxwriter::Worksheet::new();
    let ok = vec![CellWrite { row: 1_048_575, col: 16_383, value: CellValue::Number(1) }];
    assert!(fill_sheet(&mut sheet, &ok).is_ok());
    let far = vec![CellWrite { row: 1_048_576, col: 0, value: CellValue::Number(1) }];
    assert!(fill_sheet(&mut sheet, &far).is_err());
    // An empty text is ignored wherever it goes.
    let empty = vec![CellWrite { row: 2_000_000, col: 0, value: CellValue::Text(String::new()) }];
    assert!(fill_sheet(&mut sheet, &empty).is_ok());
    let long = vec![CellWrite { row: 0, col: 0, value: CellValue::Text("x".repeat(32_768)) }];
    assert!(fill_sheet(&mut sheet, &long).is_err());
    let fits = vec![CellWrite { row: 0, col: 0, value: CellValue::Text("x".repeat(32_767)) }];
    assert!(fill_sheet(&mut sheet, &fits).is_ok());
}

#[test]
fn refused_writes_are_reported_as_such() {
    let far = vec![CellWrite { row: 1_048_576, col: 0, value: CellValue::Number(1) }];
    assert!(matches!(workbook_from_writes(&far), Err(ExportError::SheetRefused(_))));
    let near = vec![CellWrite { row: 3, col: 1, value: CellValue::Text(s("ok")) }];
    let bytes = workbook_from_writes(&near).unwrap();
    assert_eq!(&bytes[..2], b"PK");
}

#[test]
fn saved_bytes_are_not_empty() {
    let state = AppState::new(s("t"));
    let bytes = state.export_workbook().unwrap();
    assert!(!bytes.is_empty());
}

#[test]
fn same_workbook_saves_the_same_file() {
    let writes = vec![CellWrite { row: 1, col: 0, value: CellValue::Text(s("x")) }];
    let mut book = raf::sheet::workbook_of(&writes).unwrap();
    let first = raf::sheet::workbook_to_bytes(&mut book).unwrap();
    let second = raf::sheet::workbook_to_bytes(&mut book).unwrap();
    assert_eq!(first, second);
}
