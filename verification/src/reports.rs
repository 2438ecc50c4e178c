//! What the dashboard lists and what the spreadsheet export writes.
use vstd::prelude::*;
use crate::model::{ScanRecord, ScanRecordView};

verus! {

/// One line of the scan listing.
#[derive(Debug)]
pub struct ScanSummary {
    pub barcode: String,
    pub count: u32,
    pub last_worker: String,
    pub product_name: String,
    pub is_anomaly: bool,
    pub anomaly_reason: Option<String>,
}

pub struct ScanSummaryView {
    pub barcode: Seq<char>,
    pub count: u32,
    pub last_worker: Seq<char>,
    pub product_name: Seq<char>,
    pub is_anomaly: bool,
    pub anomaly_reason: Option<Seq<char>>,
}

impl View for ScanSummary {
    type V = ScanSummaryView;

    open spec fn view(&self) -> ScanSummaryView {
        ScanSummaryView {
            barcode: self.barcode@,
            count: self.count,
            last_worker: self.last_worker@,
            product_name: self.product_name@,
            is_anomaly: self.is_anomaly,
            anomaly_reason: crate::model::opt_string_view(self.anomaly_reason),
        }
    }
}

/// The catalogue name of `barcode`, or `fallback` when the catalogue has none.
pub open spec fn name_or(products: Map<Seq<char>, Seq<char>>, barcode: Seq<char>, fallback: Seq<char>) -> Seq<char> {
    if products.dom().contains(barcode) {
        products[barcode]
    } else {
        fallback
    }
}

/// The listing line of a barcode with its record.
pub open spec fn summary_of(
    barcode: Seq<char>,
    record: ScanRecordView,
    products: Map<Seq<char>, Seq<char>>,
) -> ScanSummaryView {
    ScanSummaryView {
        barcode: barcode,
        count: record.count,
        last_worker: record.last_worker,
        product_name: name_or(products, barcode, "Produit inconnu"@),
        is_anomaly: record.is_anomaly,
        anomaly_reason: record.anomaly_reason,
    }
}

/// A value written into a spreadsheet cell.
#[derive(Debug)]
pub enum CellValue {
    Text(String),
    Number(u32),
}

pub enum CellValueView {
    Text(Seq<char>),
    Number(u32),
}

impl View for CellValue {
    type V = CellValueView;

    open spec fn view(&self) -> CellValueView {
        match self {
            CellValue::Text(s) => CellValueView::Text(s@),
            CellValue::Number(n) => CellValueView::Number(*n),
        }
    }
}

/// One write into the export sheet; writes are applied in order, so a later
/// write to the same cell replaces an earlier one.
#[derive(Debug)]
pub struct CellWrite {
    pub row: u32,
    pub col: u16,
    pub value: CellValue,
}

pub struct CellWriteView {
    pub row: u32,
    pub col: u16,
    pub value: CellValueView,
}

impl View for CellWrite {
    type V = CellWriteView;

    open spec fn view(&self) -> CellWriteView {
        CellWriteView { row: self.row, col: self.col, value: self.value@ }
    }
}

pub open spec fn text_write(row: u32, col: u16, text: Seq<char>) -> CellWriteView {
    CellWriteView { row, col, value: CellValueView::Text(text) }
}

/// The header line of the export.
pub open spec fn header_writes() -> Seq<CellWriteView> {
    seq![
        text_write(0, 0, "Barcode"@),
        text_write(0, 1, "Produit"@),
        text_write(0, 2, "Quantité"@),
        text_write(0, 3, "Dernier Opérateur"@),
        text_write(0, 4, "Anomalie"@),
        text_write(0, 5, "Motif"@),
    ]
}

/// How the anomaly flag reads in the export.
pub open spec fn flag_text(flag: bool) -> Seq<char> {
    if flag {
        "Oui"@
    } else {
        "Non"@
    }
}

/// The writes for the `r`-th listed barcode (counting from 0), on sheet row
/// `r + 1`, one per column under the header: barcode, product name (or
/// "Inconnu"), the count, the last worker, the anomaly flag ("Oui"/"Non"),
/// and the anomaly's reason when the record has one.
pub open spec fn row_writes(
    r: int,
    barcode: Seq<char>,
    record: ScanRecordView,
    products: Map<Seq<char>, Seq<char>>,
) -> Seq<CellWriteView> {
    let row = (r + 1) as u32;
    let base = seq![
        text_write(row, 0, barcode),
        text_write(row, 1, name_or(products, barcode, "Inconnu"@)),
        CellWriteView { row, col: 2, value: CellValueView::Number(record.count) },
        text_write(row, 3, record.last_worker),
        text_write(row, 4, flag_text(record.is_anomaly)),
    ];
    match record.anomaly_reason {
        Some(reason) => base.push(text_write(row, 5, reason)),
        None => base,
    }
}

/// The writes for the listed barcodes, in listing order.
pub open spec fn data_writes(
    rows: Seq<(String, ScanRecord)>,
    products: Map<Seq<char>, Seq<char>>,
) -> Seq<CellWriteView>
    decreases rows.len(),
{
    if rows.len() == 0 {
        seq![]
    } else {
        data_writes(rows.drop_last(), products) + row_writes(
            rows.len() - 1,
            rows.last().0@,
            rows.last().1@,
            products,
        )
    }
}

/// The whole export: header, then one line per listed barcode.
pub open spec fn sheet_writes(
    rows: Seq<(String, ScanRecord)>,
    products: Map<Seq<char>, Seq<char>>,
) -> Seq<CellWriteView> {
    header_writes() + data_writes(rows, products)
}

pub open spec fn writes_view(writes: Seq<CellWrite>) -> Seq<CellWriteView> {
    writes.map_values(|w: CellWrite| w@)
}

} // verus!
