//! The engine's shared state and the operations of its web API.
use vstd::prelude::*;
use dashmap::DashMap;
use crate::access::{next_window, now_nanos, request_token, token_of_request, opt_view, window_step};
use crate::model::{
    Order, OrderRequest, OrderView, ProductMetadata, ScanRecord, ScanRecordView, ScanRequest,
    ScanRequestView, order_from_request,
};
use crate::packing::{
    ScanReply, ScanReplyView, pack_item, packed_items, packing_outcome, packing_reply, line_name,
    recorded, recorded_reply, reply_for_packing,
};
use crate::reports::{
    CellValue, CellWrite, ScanSummary, sheet_writes, summary_of, writes_view, row_writes,
};
use crate::tables::{
    orders_entries, orders_get, orders_held, orders_insert, orders_new, product_names, products_get,
    products_insert, products_new, rate_windows, scan_records, scans_entries, scans_get,
    scans_insert, scans_new, scans_remove, windows_get, windows_insert, windows_new,
};

verus! {

/// Everything the server remembers: scans outside orders, orders under
/// preparation, the product catalogue, the access token and the rate windows.
pub struct AppState {
    scans: DashMap<String, ScanRecord>,
    orders: DashMap<String, Order>,
    product_lookup: DashMap<String, String>,
    access_token: String,
    rate_limiter: DashMap<String, (i128, u32)>,
}

pub struct AppStateView {
    /// Barcode to its scan record.
    pub scans: Map<Seq<char>, ScanRecordView>,
    /// Order id to the order.
    pub orders: Map<Seq<char>, OrderView>,
    /// Barcode to product name.
    pub products: Map<Seq<char>, Seq<char>>,
    pub access_token: Seq<char>,
    /// Client to its rate window (start in nanoseconds, count).
    pub windows: Map<Seq<char>, (i128, u32)>,
}

impl View for AppState {
    type V = AppStateView;

    closed spec fn view(&self) -> AppStateView {
        AppStateView {
            scans: scan_records(self.scans),
            orders: orders_held(self.orders),
            products: product_names(self.product_lookup),
            access_token: self.access_token@,
            windows: rate_windows(self.rate_limiter),
        }
    }
}

/// Every order is filed under its own id.
pub open spec fn orders_filed_by_id(orders: Map<Seq<char>, OrderView>) -> bool {
    forall|k: Seq<char>| #[trigger] orders.dom().contains(k) ==> orders[k].id == k
}

/// The order that a scan is checked against: the one it names, when the
/// server holds it.
pub open spec fn scan_order(st: AppStateView, req: ScanRequestView) -> Option<Seq<char>> {
    match req.order_id {
        Some(id) => if st.orders.dom().contains(id) {
            Some(id)
        } else {
            None
        },
        None => None,
    }
}

/// The scan records after `worker` scans `barcode` outside any order: a
/// known barcode counts one more and remembers the worker; a new barcode
/// starts at one, flagged as an anomaly ("Inconnu") when the catalogue does
/// not know it.
pub open spec fn recorded_scans(
    scans: Map<Seq<char>, ScanRecordView>,
    products: Map<Seq<char>, Seq<char>>,
    barcode: Seq<char>,
    worker: Seq<char>,
) -> Map<Seq<char>, ScanRecordView> {
    if scans.dom().contains(barcode) {
        scans.insert(
            barcode,
            ScanRecordView {
                count: (scans[barcode].count + 1) as u32,
                last_worker: worker,
                ..scans[barcode]
            },
        )
    } else {
        let unknown = !products.dom().contains(barcode);
        scans.insert(
            barcode,
            ScanRecordView {
                count: 1,
                last_worker: worker,
                is_anomaly: unknown,
                anomaly_reason: if unknown {
                    Some("Inconnu"@)
                } else {
                    None
                },
            },
        )
    }
}

/// The state after a scan: checked against its order when it names one that
/// is held, otherwise recorded as a plain inventory scan.
pub open spec fn after_scan(st: AppStateView, req: ScanRequestView) -> AppStateView {
    match scan_order(st, req) {
        Some(id) => AppStateView {
            orders: st.orders.insert(
                id,
                OrderView { items: packed_items(st.orders[id].items, req.barcode), ..st.orders[id] },
            ),
            ..st
        },
        None => AppStateView {
            scans: recorded_scans(st.scans, st.products, req.barcode, req.worker),
            ..st
        },
    }
}

/// The reply to a scan.
pub open spec fn scan_reply(st: AppStateView, req: ScanRequestView) -> ScanReplyView {
    match scan_order(st, req) {
        Some(id) => packing_reply(
            packing_outcome(st.orders[id].items, req.barcode),
            line_name(st.orders[id].items, req.barcode),
        ),
        None => recorded_reply(),
    }
}

/// A plain inventory scan of a barcode whose count is already `u32::MAX`
/// would overflow the count; every other scan can be taken.
pub open spec fn scan_fits(st: AppStateView, req: ScanRequestView) -> bool {
    (scan_order(st, req) is None && st.scans.dom().contains(req.barcode))
        ==> st.scans[req.barcode].count < u32::MAX
}

/// The catalogue after recording `entries` (barcode, name) in order; a later
/// entry for the same barcode replaces an earlier one.
pub open spec fn catalogue_after(
    products: Map<Seq<char>, Seq<char>>,
    entries: Seq<(Seq<char>, Seq<char>)>,
) -> Map<Seq<char>, Seq<char>>
    decreases entries.len(),
{
    if entries.len() == 0 {
        products
    } else {
        catalogue_after(products, entries.drop_last()).insert(entries.last().0, entries.last().1)
    }
}

pub open spec fn metadata_view(items: Seq<ProductMetadata>) -> Seq<(Seq<char>, Seq<char>)> {
    items.map_values(|p: ProductMetadata| (p.barcode@, p.name@))
}

/// A request from `client` at instant `now`: whether it passes, and the
/// state afterwards, where only the client's rate window has changed.
pub open spec fn admission(st: AppStateView, client: Seq<char>, now: i128) -> (bool, AppStateView) {
    let window = if st.windows.dom().contains(client) {
        Some(st.windows[client])
    } else {
        None
    };
    let step = window_step(window, now);
    (step.0, AppStateView { windows: st.windows.insert(client, step.1), ..st })
}

impl AppState {
    /// The consistency the operations keep: orders are filed by id.
    pub open spec fn well_formed(&self) -> bool {
        orders_filed_by_id(self@.orders)
    }

    /// A fresh state with nothing scanned, no order, an empty catalogue and
    /// no rate window, guarded by `access_token`.
    pub fn new(access_token: String) -> (state: AppState)
        ensures
            state.well_formed(),
            state@.scans.dom().is_empty(),
            state@.orders.dom().is_empty(),
            state@.products.dom().is_empty(),
            state@.windows.dom().is_empty(),
            state@.access_token == access_token@,
    {
        AppState {
            scans: scans_new(),
            orders: orders_new(),
            product_lookup: products_new(),
            access_token,
            rate_limiter: windows_new(),
        }
    }

    /// The access token.
    pub fn access_token(&self) -> (token: &String)
        ensures
            token@ == self@.access_token,
    {
        &self.access_token
    }

    /// Takes a scan (RAF core): against its order when it names one that is
    /// held, otherwise as a plain inventory scan.
    pub fn receive_scan(&mut self, req: ScanRequest) -> (reply: ScanReply)
        requires
            old(self).well_formed(),
            scan_fits(old(self)@, req@),
        ensures
            final(self).well_formed(),
            final(self)@ == after_scan(old(self)@, req@),
            reply@ == scan_reply(old(self)@, req@),
            crate::laws::scan_keeps_orders(old(self)@.orders, final(self)@.orders),
    {
        let ghost pre = self@;
        let ghost r = req@;
        proof {
            crate::laws::law_scan_keeps_orders(pre, r);
        }
        let ScanRequest { barcode, worker, order_id } = req;
        if let Some(id) = order_id {
            if let Some(mut order) = orders_get(&self.orders, &id) {
                let (outcome, name) = pack_item(&mut order.items, &barcode);
                orders_insert(&mut self.orders, id, order);
                proof {
                    assert(self@.orders =~= after_scan(pre, r).orders);
                    assert(self@ == after_scan(pre, r));
                }
                return reply_for_packing(outcome, &name);
            }
        }
        let unknown = products_get(&self.product_lookup, &barcode).is_none();
        match scans_get(&self.scans, &barcode) {
            Some(record) => {
                let updated = ScanRecord {
                    count: record.count + 1,
                    last_worker: worker,
                    is_anomaly: record.is_anomaly,
                    anomaly_reason: record.anomaly_reason,
                };
                scans_insert(&mut self.scans, barcode, updated);
            },
            None => {
                let reason = if unknown {
                    Some(String::from_str("Inconnu"))
                } else {
                    None
                };
                let fresh = ScanRecord {
                    count: 1,
                    last_worker: worker,
                    is_anomaly: unknown,
                    anomaly_reason: reason,
                };
                scans_insert(&mut self.scans, barcode, fresh);
            },
        }
        proof {
            assert(self@ == after_scan(pre, r));
        }
        recorded()
    }

    /// Takes a scan when it can be taken (see `scan_fits`), as
    /// `receive_scan` does; otherwise returns `None` and changes nothing.
    pub fn try_receive_scan(&mut self, req: ScanRequest) -> (reply: Option<ScanReply>)
        requires
            old(self).well_formed(),
        ensures
            final(self).well_formed(),
            match reply {
                Some(r) => scan_fits(old(self)@, req@) && final(self)@ == after_scan(old(self)@, req@)
                    && r@ == scan_reply(old(self)@, req@),
                None => !scan_fits(old(self)@, req@) && final(self)@ == old(self)@,
            },
            crate::laws::scan_keeps_orders(old(self)@.orders, final(self)@.orders),
    {
        proof {
            crate::laws::law_scan_keeps_orders(self@, req@);
        }
        let mut to_order = false;
        if let Some(id) = &req.order_id {
            to_order = orders_get(&self.orders, id).is_some();
        }
        if !to_order {
            if let Some(record) = scans_get(&self.scans, &req.barcode) {
                if record.count == u32::MAX {
                    return None;
                }
            }
        }
        Some(self.receive_scan(req))
    }

    /// Registers the order that `req` describes under its id, replacing any
    /// order already held under that id.
    pub fn create_order(&mut self, req: OrderRequest)
        requires
            old(self).well_formed(),
        ensures
            final(self).well_formed(),
            final(self)@ == (AppStateView {
                orders: old(self)@.orders.insert(req@.id, order_from_request(req@)),
                ..old(self)@
            }),
    {
        let ghost r = req@;
        let order = Order::from_request(req);
        let id = order.id.clone();
        orders_insert(&mut self.orders, id, order);
        proof {
            assert(self@.orders == old(self)@.orders.insert(r.id, order_from_request(r)));
        }
    }

    /// Files `order` under its id as it stands (a restored or prepared
    /// order), replacing any order already held under that id.
    pub fn insert_order(&mut self, order: Order)
        requires
            old(self).well_formed(),
        ensures
            final(self).well_formed(),
            final(self)@ == (AppStateView {
                orders: old(self)@.orders.insert(order@.id, order@),
                ..old(self)@
            }),
    {
        let id = order.id.clone();
        orders_insert(&mut self.orders, id, order);
    }

    /// Files a scan record under `barcode` as it stands (a restored
    /// record), replacing any record already held for it.
    pub fn insert_scan_record(&mut self, barcode: String, record: ScanRecord)
        requires
            old(self).well_formed(),
        ensures
            final(self).well_formed(),
            final(self)@ == (AppStateView {
                scans: old(self)@.scans.insert(barcode@, record@),
                ..old(self)@
            }),
    {
        scans_insert(&mut self.scans, barcode, record);
    }

    /// The order held under `id`, if any.
    pub fn order(&self, id: &String) -> (found: Option<Order>)
        ensures
            found is Some <==> self@.orders.dom().contains(id@),
            found matches Some(o) ==> o@ == self@.orders[id@],
    {
        orders_get(&self.orders, id)
    }

    /// The scan record of `barcode`, if any.
    pub fn scan_record(&self, barcode: &String) -> (found: Option<ScanRecord>)
        ensures
            found is Some <==> self@.scans.dom().contains(barcode@),
            found matches Some(r) ==> r@ == self@.scans[barcode@],
    {
        scans_get(&self.scans, barcode)
    }

    /// All orders held, each once, in an unspecified order.
    pub fn list_orders(&self) -> (orders: Vec<Order>)
        requires
            self.well_formed(),
        ensures
            orders.len() == self@.orders.dom().len(),
            forall|i: int|
                0 <= i < orders.len() ==> {
                    &&& self@.orders.dom().contains(#[trigger] orders@[i]@.id)
                    &&& self@.orders[orders@[i]@.id] == orders@[i]@
                },
            forall|i: int, j: int|
                0 <= i < j < orders.len() ==> #[trigger] orders@[i]@.id != #[trigger] orders@[j]@.id,
            forall|k: Seq<char>|
                #[trigger] self@.orders.dom().contains(k) ==> exists|i: int|
                    0 <= i < orders.len() && #[trigger] orders@[i]@.id == k,
    {
        let entries = orders_entries(&self.orders);
        let ghost held = self@.orders;
        let ghost listed = entries@;
        let mut rest = entries;
        let mut out: Vec<Order> = Vec::new();
        while rest.len() > 0
            invariant
                orders_filed_by_id(held),
                crate::tables::lists_table(listed, held),
                rest@ == listed.take(listed.len() - out.len()),
                out.len() <= listed.len(),
                forall|j: int|
                    0 <= j < out.len() ==> #[trigger] out@[j]@ == listed[listed.len() - 1 - j].1@,
            decreases rest.len(),
        {
            let (_, order) = rest.pop().unwrap();
            out.push(order);
        }
        proof {
            assert forall|i: int| 0 <= i < out.len() implies {
                &&& held.dom().contains(#[trigger] out@[i]@.id)
                &&& held[out@[i]@.id] == out@[i]@
            } by {
                let k = listed.len() - 1 - i;
                assert(held.dom().contains(listed[k].0@));
            }
            assert forall|i: int, j: int| 0 <= i < j < out.len() implies
                #[trigger] out@[i]@.id != #[trigger] out@[j]@.id by {
                let a = listed.len() - 1 - i;
                let b = listed.len() - 1 - j;
                assert(held.dom().contains(listed[a].0@));
                assert(held.dom().contains(listed[b].0@));
                assert(listed[b].0@ != listed[a].0@);
            }
            assert forall|k: Seq<char>| #[trigger] held.dom().contains(k) implies exists|i: int|
                0 <= i < out.len() && #[trigger] out@[i]@.id == k by {
                crate::tables::lemma_listing_covers(listed, held, k);
                let t = choose|t: int| 0 <= t < listed.len() && #[trigger] listed[t].0@ == k;
                let i = listed.len() - 1 - t;
                assert(out@[i]@.id == k);
            }
        }
        out
    }

    /// Records the catalogue names of `items`, in order.
    pub fn update_products(&mut self, items: Vec<ProductMetadata>)
        requires
            old(self).well_formed(),
        ensures
            final(self).well_formed(),
            final(self)@ == (AppStateView {
                products: catalogue_after(old(self)@.products, metadata_view(items@)),
                ..old(self)@
            }),
    {
        let ghost pre = self@;
        let ghost entries = metadata_view(items@);
        let n = items.len();
        let mut i: usize = 0;
        while i < n
            invariant
                n == items.len(),
                entries == metadata_view(items@),
                i <= n,
                self@ == (AppStateView {
                    products: catalogue_after(pre.products, entries.take(i as int)),
                    ..pre
                }),
            decreases n - i,
        {
            let barcode = items[i].barcode.clone();
            let name = items[i].name.clone();
            products_insert(&mut self.product_lookup, barcode, name);
            proof {
                assert(entries.take(i + 1).drop_last() =~= entries.take(i as int));
            }
            i = i + 1;
        }
        proof {
            assert(entries.take(n as int) =~= entries);
        }
    }

    /// Forgets the scan record of `barcode`.
    pub fn delete_scan(&mut self, barcode: &String)
        requires
            old(self).well_formed(),
        ensures
            final(self).well_formed(),
            final(self)@ == (AppStateView { scans: old(self)@.scans.remove(barcode@), ..old(self)@ }),
    {
        scans_remove(&mut self.scans, barcode);
    }

    /// The catalogue name of `barcode`, or `fallback`.
    fn product_name_or(&self, barcode: &String, fallback: &str) -> (name: String)
        ensures
            name@ == crate::reports::name_or(self@.products, barcode@, fallback@),
    {
        match products_get(&self.product_lookup, barcode) {
            Some(n) => n,
            None => String::from_str(fallback),
        }
    }

    /// One listing line per scanned barcode, each once, in an unspecified
    /// order, with the catalogue name ("Produit inconnu" when unknown).
    pub fn list_scans(&self) -> (lines: Vec<ScanSummary>)
        ensures
            lines.len() == self@.scans.dom().len(),
            forall|i: int|
                0 <= i < lines.len() ==> {
                    &&& self@.scans.dom().contains(#[trigger] lines@[i]@.barcode)
                    &&& lines@[i]@ == summary_of(
                        lines@[i]@.barcode,
                        self@.scans[lines@[i]@.barcode],
                        self@.products,
                    )
                    &&& lines@[i]@.count == self@.scans[lines@[i]@.barcode].count
                    &&& lines@[i]@.last_worker == self@.scans[lines@[i]@.barcode].last_worker
                    &&& lines@[i]@.is_anomaly == self@.scans[lines@[i]@.barcode].is_anomaly
                    &&& lines@[i]@.anomaly_reason == self@.scans[lines@[i]@.barcode].anomaly_reason
                },
            forall|i: int, j: int|
                0 <= i < j < lines.len() ==> #[trigger] lines@[i]@.barcode != #[trigger] lines@[j]@.barcode,
            forall|k: Seq<char>|
                #[trigger] self@.scans.dom().contains(k) ==> exists|i: int|
                    0 <= i < lines.len() && #[trigger] lines@[i]@.barcode == k,
    {
        let entries = scans_entries(&self.scans);
        let ghost held = self@.scans;
        let n = entries.len();
        let mut out: Vec<ScanSummary> = Vec::new();
        let mut i: usize = 0;
        while i < n
            invariant
                n == entries.len(),
                i <= n,
                held == self@.scans,
                crate::tables::lists_table(entries@, held),
                out.len() == i,
                forall|j: int|
                    0 <= j < i ==> #[trigger] out@[j]@ == summary_of(
                        entries@[j].0@,
                        entries@[j].1@,
                        self@.products,
                    ),
            decreases n - i,
        {
            let barcode = entries[i].0.clone();
            let record = &entries[i].1;
            let product_name = self.product_name_or(&barcode, "Produit inconnu");
            let reason = match &record.anomaly_reason {
                Some(t) => Some(t.clone()),
                None => None,
            };
            out.push(
                ScanSummary {
                    barcode,
                    count: record.count,
                    last_worker: record.last_worker.clone(),
                    product_name,
                    is_anomaly: record.is_anomaly,
                    anomaly_reason: reason,
                },
            );
            i = i + 1;
        }
        proof {
            assert forall|i: int| 0 <= i < out.len() implies {
                &&& held.dom().contains(#[trigger] out@[i]@.barcode)
                &&& out@[i]@ == summary_of(out@[i]@.barcode, held[out@[i]@.barcode], self@.products)
            } by {
                assert(held.dom().contains(entries@[i].0@));
            }
            assert forall|i: int, j: int| 0 <= i < j < out.len() implies
                #[trigger] out@[i]@.barcode != #[trigger] out@[j]@.barcode by {
                assert(entries@[i].0@ != entries@[j].0@);
            }
            assert forall|k: Seq<char>| #[trigger] held.dom().contains(k) implies exists|i: int|
                0 <= i < out.len() && #[trigger] out@[i]@.barcode == k by {
                crate::tables::lemma_listing_covers(entries@, held, k);
                let t = choose|t: int| 0 <= t < entries@.len() && #[trigger] entries@[t].0@ == k;
                assert(out@[t]@.barcode == k);
            }
        }
        out
    }

    /// The writes that make up the spreadsheet export: the header, then one
    /// line per scanned barcode, listed once each in some order, with its
    /// product, count, last worker and anomaly.
    pub fn export_writes(&self) -> (writes: Vec<CellWrite>)
        ensures
            exists|rows: Seq<(String, ScanRecord)>|
                crate::tables::lists_table(rows, self@.scans)
                && writes_view(writes@) == sheet_writes(rows, self@.products),
    {
        let entries = scans_entries(&self.scans);
        let mut out: Vec<CellWrite> = Vec::new();
        out.push(CellWrite { row: 0, col: 0, value: CellValue::Text(String::from_str("Barcode")) });
        out.push(CellWrite { row: 0, col: 1, value: CellValue::Text(String::from_str("Produit")) });
        out.push(CellWrite { row: 0, col: 2, value: CellValue::Text(String::from_str("Quantité")) });
        out.push(
            CellWrite { row: 0, col: 3, value: CellValue::Text(String::from_str("Dernier Opérateur")) },
        );
        out.push(CellWrite { row: 0, col: 4, value: CellValue::Text(String::from_str("Anomalie")) });
        out.push(CellWrite { row: 0, col: 5, value: CellValue::Text(String::from_str("Motif")) });
        proof {
            assert(writes_view(out@) =~= sheet_writes(entries@.take(0), self@.products));
        }
        let n = entries.len();
        let mut i: usize = 0;
        while i < n
            invariant
                n == entries.len(),
                i <= n,
                writes_view(out@) == sheet_writes(entries@.take(i as int), self@.products),
            decreases n - i,
        {
            let row = (i + 1) as u32;
            let barcode = entries[i].0.clone();
            let product_name = self.product_name_or(&barcode, "Inconnu");
            let record = &entries[i].1;
            let ghost before = writes_view(out@);
            out.push(CellWrite { row, col: 0, value: CellValue::Text(barcode) });
            out.push(CellWrite { row, col: 1, value: CellValue::Text(product_name) });
            out.push(CellWrite { row, col: 2, value: CellValue::Number(record.count) });
            out.push(CellWrite { row, col: 3, value: CellValue::Text(record.last_worker.clone()) });
            let flag = if record.is_anomaly {
                String::from_str("Oui")
            } else {
                String::from_str("Non")
            };
            out.push(CellWrite { row, col: 4, value: CellValue::Text(flag) });
            match &record.anomaly_reason {
                Some(reason) => {
                    out.push(CellWrite { row, col: 5, value: CellValue::Text(reason.clone()) });
                },
                None => {},
            }
            proof {
                let rows = entries@.take(i + 1);
                assert(rows.drop_last() =~= entries@.take(i as int));
                assert(writes_view(out@) =~= before + row_writes(
                    i as int,
                    entries@[i as int].0@,
                    entries@[i as int].1@,
                    self@.products,
                ));
                assert(writes_view(out@) =~= sheet_writes(rows, self@.products));
            }
            i = i + 1;
        }
        proof {
            assert(entries@.take(n as int) =~= entries@);
        }
        out
    }

    /// Whether a request may use the API: it must present the access token,
    /// in its `X-Jard-Token` header (as text) or, failing that, as the
    /// `token` parameter of its query string.
    pub fn is_authorized(&self, header_token: Option<String>, query: Option<String>) -> (ok: bool)
        ensures
            ok == (request_token(opt_view(header_token), opt_view(query)) == Some(self@.access_token)),
    {
        match token_of_request(header_token, query) {
            Some(t) => t == self.access_token,
            None => false,
        }
    }

    /// Counts a request from `client` at instant `now` (nanoseconds since
    /// the epoch) against the client's rate window; returns whether it
    /// passes. Nothing else changes.
    pub fn admit_request_at(&mut self, client: String, now: i128) -> (admitted: bool)
        requires
            old(self).well_formed(),
        ensures
            final(self).well_formed(),
            (admitted, final(self)@) == admission(old(self)@, client@, now),
    {
        let window = windows_get(&self.rate_limiter, &client);
        let (admitted, next) = next_window(window, now);
        windows_insert(&mut self.rate_limiter, client, next);
        admitted
    }

    /// Counts a request from `client` now, by the machine's clock, as
    /// `admit_request_at` does for a given instant.
    pub fn admit_request(&mut self, client: String) -> (admitted: bool)
        requires
            old(self).well_formed(),
        ensures
            final(self).well_formed(),
            exists|now: i128| (admitted, final(self)@) == #[trigger] admission(old(self)@, client@, now),
    {
        let now = now_nanos();
        self.admit_request_at(client, now)
    }

    /// The spreadsheet export as a workbook: one sheet holding the cells
    /// that the writes of `export_writes` give. The sheet refuses them
    /// exactly when a write does not fit (too many rows, or a text too long
    /// for a cell).
    pub fn export_book(&self) -> (book: Result<rust_xlsxwriter::Workbook, crate::sheet::ExportError>)
        ensures
            exists|rows: Seq<(String, ScanRecord)>|
                crate::tables::lists_table(rows, self@.scans) && {
                    let writes = sheet_writes(rows, self@.products);
                    &&& (book is Err <==> !crate::sheet::writes_fit(writes))
                    &&& (book matches Err(e) ==> e is SheetRefused)
                    &&& (book matches Ok(b) ==> crate::sheet::book_sheets(b)
                        == seq![crate::sheet::cells_after(Map::empty(), writes)])
                },
    {
        let writes = self.export_writes();
        crate::sheet::workbook_of(&writes)
    }

    /// The spreadsheet export as xlsx bytes: the workbook of `export_book`,
    /// saved. The sheet refuses the writes exactly when a write does not fit;
    /// otherwise only saving the workbook can fail, and a successful save is
    /// the file of a workbook whose one sheet holds the export's cells.
    pub fn export_workbook(&self) -> (bytes: Result<Vec<u8>, crate::sheet::ExportError>)
        ensures
            exists|rows: Seq<(String, ScanRecord)>|
                crate::tables::lists_table(rows, self@.scans) && {
                    let cells = crate::sheet::cells_after(Map::empty(), sheet_writes(rows, self@.products));
                    &&& (crate::sheet::sheet_refused(bytes)
                        <==> !crate::sheet::writes_fit(sheet_writes(rows, self@.products)))
                    &&& (bytes matches Ok(b) ==> crate::sheet::saved_cells(b@, cells))
                },
            bytes matches Ok(b) ==> b.len() > 0,
    {
        let made = self.export_book();
        let ghost rows = choose|rows: Seq<(String, ScanRecord)>|
            crate::tables::lists_table(rows, self@.scans) && {
                let writes = sheet_writes(rows, self@.products);
                &&& (made is Err <==> !crate::sheet::writes_fit(writes))
                &&& (made matches Err(e) ==> e is SheetRefused)
                &&& (made matches Ok(b) ==> crate::sheet::book_sheets(b)
                    == seq![crate::sheet::cells_after(Map::empty(), writes)])
            };
        match made {
            Err(e) => Err(e),
            Ok(book) => {
                let ghost saved_book = book;
                let mut book = book;
                let bytes = crate::sheet::workbook_to_bytes(&mut book);
                proof {
                    if bytes is Ok {
                        assert(crate::sheet::book_file(saved_book) == bytes->Ok_0@);
                        assert(crate::sheet::saved_cells(
                            bytes->Ok_0@,
                            crate::sheet::cells_after(Map::empty(), sheet_writes(rows, self@.products)),
                        ));
                    }
                }
                bytes
            },
        }
    }
}

} // verus!
