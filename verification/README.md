# raf

RAF turns a phone into a picking scanner: each scanned article is checked
against the customer's order, and a wrong or surplus article is refused.

- `src/` is the library, verified with Verus: the order check, inventory
  counting, the product catalogue, access token and rate limit, the scan
  listing, the Excel export's cells and the workbook that holds them, with
  their contracts and laws (`src/laws.rs`). A saved export is stated to be
  the file of a workbook whose one sheet holds those cells.
- `app/` is the HTTPS server around it (axum, TLS, mDNS, the browser
  pages) and the SQLite store `raf.db`, which orders and scan records are
  saved to and restored from.
- `tests/` runs the library on concrete cases.
