//! Writing the export into an Excel workbook (`rust_xlsxwriter`).
use vstd::prelude::*;
use rust_xlsxwriter::{Workbook, Worksheet, XlsxError};
use crate::reports::{CellValue, CellValueView, CellWrite, CellWriteView, writes_view};

verus! {

#[verifier::external_type_specification]
#[verifier::external_body]
pub struct ExWorkbook(rust_xlsxwriter::Workbook);

#[verifier::external_type_specification]
#[verifier::external_body]
pub struct ExWorksheet(rust_xlsxwriter::Worksheet);

#[verifier::external_type_specification]
#[verifier::external_body]
pub struct ExXlsxError(rust_xlsxwriter::XlsxError);

/// The cells a worksheet holds, by (row, column).
pub uninterp spec fn sheet_cells(sheet: Worksheet) -> Map<(u32, u16), CellValueView>;

/// Rows a worksheet has (Excel's limit).
pub open spec fn row_limit() -> u32 {
    1_048_576
}

/// Columns a worksheet has (Excel's limit).
pub open spec fn col_limit() -> u16 {
    16_384
}

/// Longest text a cell takes, in UTF-16 code units (Excel's limit).
pub open spec fn text_limit() -> int {
    32_767
}

/// The length of a text in UTF-16 code units: one per character of the
/// basic plane, two for any other.
pub open spec fn utf16_units(s: Seq<char>) -> int
    decreases s.len(),
{
    if s.len() == 0 {
        0
    } else {
        utf16_units(s.drop_last()) + if (s.last() as u32) < 0x10000 {
            1int
        } else {
            2int
        }
    }
}

/// Whether a worksheet takes a write: an empty text is ignored wherever it
/// goes; anything else needs a cell inside the sheet's limits, and a text
/// no longer than the text limit.
pub open spec fn write_fits(w: CellWriteView) -> bool {
    match w.value {
        CellValueView::Text(t) => t.len() == 0 || (w.row < row_limit() && w.col < col_limit()
            && utf16_units(t) <= text_limit()),
        CellValueView::Number(_) => w.row < row_limit() && w.col < col_limit(),
    }
}

/// The cells after one write: an empty text leaves them as they were,
/// anything else replaces the cell's content.
pub open spec fn cells_after_write(cells: Map<(u32, u16), CellValueView>, w: CellWriteView) -> Map<(u32, u16), CellValueView> {
    match w.value {
        CellValueView::Text(t) => if t.len() == 0 {
            cells
        } else {
            cells.insert((w.row, w.col), w.value)
        },
        CellValueView::Number(_) => cells.insert((w.row, w.col), w.value),
    }
}

/// The cells after a sequence of writes, applied in order.
pub open spec fn cells_after(cells: Map<(u32, u16), CellValueView>, writes: Seq<CellWriteView>) -> Map<(u32, u16), CellValueView>
    decreases writes.len(),
{
    if writes.len() == 0 {
        cells
    } else {
        cells_after_write(cells_after(cells, writes.drop_last()), writes.last())
    }
}

/// Every write of a sequence fits.
pub open spec fn writes_fit(writes: Seq<CellWriteView>) -> bool {
    forall|i: int| 0 <= i < writes.len() ==> write_fits(#[trigger] writes[i])
}

/// `Worksheet::new`: a sheet with no cells.
#[verifier::external_body]
fn sheet_new() -> (sheet: Worksheet)
    ensures
        sheet_cells(sheet).dom().is_empty(),
{
    Worksheet::new()
}

/// `Worksheet::write_string`: an empty text is ignored (`Ok`, no change);
/// otherwise a cell outside the sheet's limits, or a text longer than the
/// text limit in UTF-16 units, is an error and leaves the cells as they
/// were; else the cell now holds the text.
#[verifier::external_body]
fn sheet_write_text(sheet: &mut Worksheet, row: u32, col: u16, text: &str) -> (r: Result<(), XlsxError>)
    ensures
        r is Ok <==> write_fits(CellWriteView { row, col, value: CellValueView::Text(text@) }),
        sheet_cells(*final(sheet)) == if r is Ok {
            cells_after_write(sheet_cells(*old(sheet)), CellWriteView { row, col, value: CellValueView::Text(text@) })
        } else {
            sheet_cells(*old(sheet))
        },
{
    sheet.write_string(row, col, text).map(|_| ())
}

/// `Worksheet::write_number` with an unsigned count: a cell outside the
/// sheet's limits is an error and leaves the cells as they were; else the
/// cell now holds the number.
#[verifier::external_body]
fn sheet_write_count(sheet: &mut Worksheet, row: u32, col: u16, count: u32) -> (r: Result<(), XlsxError>)
    ensures
        r is Ok <==> write_fits(CellWriteView { row, col, value: CellValueView::Number(count) }),
        sheet_cells(*final(sheet)) == if r is Ok {
            cells_after_write(sheet_cells(*old(sheet)), CellWriteView { row, col, value: CellValueView::Number(count) })
        } else {
            sheet_cells(*old(sheet))
        },
{
    sheet.write_number(row, col, count).map(|_| ())
}

/// Applies `writes` to `sheet` in order, stopping at the first write the
/// sheet refuses. Succeeds exactly when every write fits, and then the
/// sheet holds the cells that the writes give.
pub fn fill_sheet(sheet: &mut Worksheet, writes: &Vec<CellWrite>) -> (r: Result<(), XlsxError>)
    ensures
        r is Ok <==> writes_fit(writes_view(writes@)),
        r is Ok ==> sheet_cells(*final(sheet)) == cells_after(sheet_cells(*old(sheet)), writes_view(writes@)),
{
    let ghost all = writes_view(writes@);
    let n = writes.len();
    let mut i: usize = 0;
    while i < n
        invariant
            n == writes.len(),
            all == writes_view(writes@),
            i <= n,
            writes_fit(all.take(i as int)),
            sheet_cells(*sheet) == cells_after(sheet_cells(*old(sheet)), all.take(i as int)),
        decreases n - i,
    {
        let w = &writes[i];
        let step = match &w.value {
            CellValue::Text(t) => sheet_write_text(sheet, w.row, w.col, t.as_str()),
            CellValue::Number(c) => sheet_write_count(sheet, w.row, w.col, *c),
        };
        proof {
            assert(all[i as int] == w@);
        }
        if step.is_err() {
            proof {
                assert(!write_fits(all[i as int]));
            }
            return step;
        }
        proof {
            assert(all.take(i + 1).drop_last() =~= all.take(i as int));
            assert(all.take(i + 1).last() == all[i as int]);
        }
        i = i + 1;
    }
    proof {
        assert(all.take(n as int) =~= all);
    }
    Ok(())
}

/// The xlsx file a workbook saves to. The workbook holds everything the
/// file is made of, its creation time included, and the archive's entry
/// times are fixed, so the file is a function of the workbook.
pub uninterp spec fn book_file(book: Workbook) -> Seq<u8>;

/// The cells of each sheet a workbook holds, in the workbook's order.
pub uninterp spec fn book_sheets(book: Workbook) -> Seq<Map<(u32, u16), CellValueView>>;

/// `Workbook::new`: a workbook with no sheet. It is stamped with the time
/// it is made, which its saved bytes carry; like the clock reading behind
/// it, the call panics if the machine's clock reads before 1970.
#[verifier::external_body]
fn workbook_new() -> (book: Workbook)
    ensures
        book_sheets(book).len() == 0,
{
    Workbook::new()
}

/// `Workbook::push_worksheet`: the sheet becomes the workbook's last sheet,
/// with its cells (named "Sheet1" for the first unnamed sheet); the sheets
/// already there are untouched.
#[verifier::external_body]
fn workbook_push(book: &mut Workbook, sheet: Worksheet)
    ensures
        book_sheets(*final(book)) == book_sheets(*old(book)).push(sheet_cells(sheet)),
{
    book.push_worksheet(sheet);
}

/// `Workbook::save_to_buffer`: on success, the workbook's file
/// (`book_file`), a zip archive that is never empty. The call may also fail;
/// when it does is not stated.
#[verifier::external_body]
fn workbook_bytes(book: &mut Workbook) -> (bytes: Result<Vec<u8>, XlsxError>)
    ensures
        bytes matches Ok(b) ==> b.len() > 0 && b@ == book_file(*old(book)),
{
    book.save_to_buffer()
}

/// `file` is what a workbook saves to whose only sheet holds `cells`.
pub open spec fn saved_cells(file: Seq<u8>, cells: Map<(u32, u16), CellValueView>) -> bool {
    exists|book: Workbook| book_sheets(book) == seq![cells] && #[trigger] book_file(book) == file
}

/// Why an export failed.
#[derive(Debug)]
pub enum ExportError {
    /// The sheet refused a write: a cell outside its limits, or a text too
    /// long for a cell.
    SheetRefused(XlsxError),
    /// Saving the workbook failed.
    SaveFailed(XlsxError),
}

/// The export failed because the sheet refused a write.
pub open spec fn sheet_refused(r: Result<Vec<u8>, ExportError>) -> bool {
    match r {
        Err(ExportError::SheetRefused(_)) => true,
        _ => false,
    }
}

/// Builds a workbook with one sheet holding the cells that `writes` give.
/// The sheet refuses the writes exactly when one of them does not fit, and
/// then no workbook is made.
pub fn workbook_of(writes: &Vec<CellWrite>) -> (book: Result<Workbook, ExportError>)
    ensures
        book is Err <==> !writes_fit(writes_view(writes@)),
        book matches Err(e) ==> e is SheetRefused,
        book matches Ok(b) ==> book_sheets(b) == seq![cells_after(Map::empty(), writes_view(writes@))],
{
    let mut sheet = sheet_new();
    proof {
        assert(sheet_cells(sheet) =~= Map::empty());
    }
    let filled = fill_sheet(&mut sheet, writes);
    match filled {
        Err(e) => {
            return Err(ExportError::SheetRefused(e));
        },
        Ok(()) => {},
    }
    let mut book = workbook_new();
    workbook_push(&mut book, sheet);
    proof {
        assert(book_sheets(book) =~= seq![cells_after(Map::empty(), writes_view(writes@))]);
    }
    Ok(book)
}

/// Saves a workbook as xlsx bytes; a failed save is `SaveFailed`.
pub fn workbook_to_bytes(book: &mut Workbook) -> (bytes: Result<Vec<u8>, ExportError>)
    ensures
        !sheet_refused(bytes),
        bytes matches Ok(b) ==> b.len() > 0 && b@ == book_file(*old(book)),
{
    match workbook_bytes(book) {
        Ok(b) => Ok(b),
        Err(e) => Err(ExportError::SaveFailed(e)),
    }
}

/// Builds the workbook of `workbook_of` and returns its xlsx bytes. The
/// sheet refuses the writes exactly when one of them does not fit; when
/// they all fit, the workbook saved holds exactly one sheet with the cells
/// the writes give, and only saving it can still fail.
pub fn workbook_from_writes(writes: &Vec<CellWrite>) -> (bytes: Result<Vec<u8>, ExportError>)
    ensures
        sheet_refused(bytes) <==> !writes_fit(writes_view(writes@)),
        bytes matches Ok(b) ==> b.len() > 0 && saved_cells(b@, cells_after(Map::empty(), writes_view(writes@))),
{
    match workbook_of(writes) {
        Err(e) => Err(e),
        Ok(book) => {
            let ghost made = book;
            let mut book = book;
            let bytes = workbook_to_bytes(&mut book);
            proof {
                if bytes is Ok {
                    assert(book_file(made) == bytes->Ok_0@);
                }
            }
            bytes
        },
    }
}

} // verus!
