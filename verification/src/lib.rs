//! RAF: order-fulfilment checking for warehouse picking.
//!
//! A worker scans the articles of an order with a phone; every scan is
//! checked against the order's lines, so that a parcel holds exactly what
//! was ordered. Scans outside an order are counted as plain inventory.
//!
//! - `model`: orders, order lines, scan records and requests, with views.
//! - `packing`: checking one scan against an order's lines, and the replies.
//! - `state`: the server state and the operations of the web API.
//! - `access`: the access token check and the per-client rate limit.
//! - `reports`: the scan listing and the spreadsheet export's cell writes.
//! - `sheet`: writing those cells into an xlsx workbook.
//! - `links`: the pairing and dashboard addresses.
//! - `pages`: the reply head for a requested page file.
//! - `tables`: the concurrent maps that hold the state.
//! - `laws`: properties that hold across the operations.
pub mod access;
pub mod laws;
pub mod links;
pub mod model;
pub mod packing;
pub mod pages;
pub mod reports;
pub mod sheet;
pub mod state;
pub mod tables;
