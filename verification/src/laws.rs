//! What holds of the engine across its operations.
use vstd::prelude::*;
use crate::access::{WINDOW_ALLOWANCE, WINDOW_NANOS};
use crate::model::{OrderItemView, OrderRequestView, OrderView, order_from_request};
use crate::reports::{
    CellValueView, CellWriteView, data_writes, flag_text, header_writes, row_writes, sheet_writes,
};
use crate::sheet::cells_after;
use crate::packing::{
    Packing, lemma_first_line_exists, line_of, orders_article, packing_outcome,
};
use crate::state::{
    AppStateView, admission, after_scan, catalogue_after, recorded_scans, scan_order, scan_reply,
};

verus! {

/// A line is packed at most up to the quantity ordered.
pub open spec fn line_within(line: OrderItemView) -> bool {
    line.packed_qty <= line.target_qty
}

/// No line of any order is packed beyond its ordered quantity.
pub open spec fn within_targets(orders: Map<Seq<char>, OrderView>) -> bool {
    forall|k: Seq<char>, i: int|
        orders.dom().contains(k) && 0 <= i < orders[k].items.len() ==> line_within(
            #[trigger] orders[k].items[i],
        )
}

/// The number of articles packed on an order, over all its lines.
pub open spec fn packed_total(items: Seq<OrderItemView>) -> int
    decreases items.len(),
{
    if items.len() == 0 {
        0
    } else {
        packed_total(items.drop_last()) + items.last().packed_qty
    }
}

proof fn lemma_packed_total_update(items: Seq<OrderItemView>, i: int, line: OrderItemView)
    requires
        0 <= i < items.len(),
    ensures
        packed_total(items.update(i, line)) == packed_total(items) - items[i].packed_qty
            + line.packed_qty,
    decreases items.len(),
{
    let updated = items.update(i, line);
    if i == items.len() - 1 {
        assert(updated.drop_last() =~= items.drop_last());
    } else {
        lemma_packed_total_update(items.drop_last(), i, line);
        assert(updated.drop_last() =~= items.drop_last().update(i, line));
    }
}

/// Scanning an article that the order does not list is refused with
/// "ARTICLE INCORRECT", and nothing changes.
pub proof fn law_foreign_article_refused(st: AppStateView, id: Seq<char>, req: crate::model::ScanRequestView)
    requires
        req.order_id == Some(id),
        st.orders.dom().contains(id),
        !orders_article(st.orders[id].items, req.barcode),
    ensures
        after_scan(st, req) == st,
        scan_reply(st, req).http_status == 400,
        scan_reply(st, req).status == "error"@,
        scan_reply(st, req).message == "ARTICLE INCORRECT"@,
{
    assert(st.orders.insert(id, st.orders[id]) =~= st.orders);
}

/// Any scan against an order that is refused (status 400) leaves the whole
/// state as it was.
pub proof fn law_refused_order_scan_changes_nothing(st: AppStateView, req: crate::model::ScanRequestView)
    requires
        scan_order(st, req) is Some,
        scan_reply(st, req).http_status == 400,
    ensures
        after_scan(st, req) == st,
{
    let id = scan_order(st, req)->0;
    assert(packing_outcome(st.orders[id].items, req.barcode) != Packing::Packed);
    assert(st.orders.insert(id, st.orders[id]) =~= st.orders);
}

/// An accepted scan against an order (status 200) packs exactly one more
/// article on that order, and no other order changes.
pub proof fn law_accepted_order_scan_packs_one(st: AppStateView, req: crate::model::ScanRequestView)
    requires
        scan_order(st, req) is Some,
        scan_reply(st, req).http_status == 200,
    ensures
        ({
            let id = scan_order(st, req)->0;
            &&& packed_total(after_scan(st, req).orders[id].items) == packed_total(st.orders[id].items) + 1
            &&& forall|k: Seq<char>| k != id ==> after_scan(st, req).orders.dom().contains(k)
                == st.orders.dom().contains(k) && after_scan(st, req).orders[k] == st.orders[k]
        }),
{
    let id = scan_order(st, req)->0;
    let items = st.orders[id].items;
    assert(packing_outcome(items, req.barcode) == Packing::Packed);
    let i = line_of(items, req.barcode);
    let k = choose|k: int| 0 <= k < items.len() && items[k].barcode == req.barcode;
    lemma_first_line_exists(items, req.barcode, k);
    lemma_packed_total_update(
        items,
        i,
        OrderItemView { packed_qty: (items[i].packed_qty + 1) as u32, ..items[i] },
    );
}

/// Scans never pack a line beyond its ordered quantity: if no line is
/// over its target before a scan, none is after it.
pub proof fn law_scans_keep_within_targets(st: AppStateView, req: crate::model::ScanRequestView)
    requires
        within_targets(st.orders),
    ensures
        within_targets(after_scan(st, req).orders),
{
    let post = after_scan(st, req).orders;
    if let Some(id) = scan_order(st, req) {
        let items = st.orders[id].items;
        if packing_outcome(items, req.barcode) == Packing::Packed {
            let k = choose|k: int| 0 <= k < items.len() && items[k].barcode == req.barcode;
            lemma_first_line_exists(items, req.barcode, k);
        }
        assert forall|o: Seq<char>, i: int|
            post.dom().contains(o) && 0 <= i < post[o].items.len() implies line_within(
                #[trigger] post[o].items[i],
            ) by {
            if o != id {
                assert(line_within(st.orders[o].items[i]));
            } else {
                assert(line_within(items[i]));
            }
        }
    }
}

/// Registering an order keeps every line within its target: a new order
/// starts with nothing packed.
pub proof fn law_created_orders_within_targets(orders: Map<Seq<char>, OrderView>, req: OrderRequestView)
    requires
        within_targets(orders),
    ensures
        within_targets(orders.insert(req.id, order_from_request(req))),
{
    let post = orders.insert(req.id, order_from_request(req));
    assert forall|o: Seq<char>, i: int|
        post.dom().contains(o) && 0 <= i < post[o].items.len() implies line_within(
            #[trigger] post[o].items[i],
        ) by {
        if o != req.id {
            assert(line_within(orders[o].items[i]));
        }
    }
}

/// A registered order is held under its id exactly as requested: status
/// "Active", the requested lines in order with their quantities, nothing
/// packed.
pub proof fn law_created_order_is_held(orders: Map<Seq<char>, OrderView>, req: OrderRequestView)
    ensures
        ({
            let held = orders.insert(req.id, order_from_request(req));
            &&& held.dom().contains(req.id)
            &&& held[req.id].id == req.id
            &&& held[req.id].status == "Active"@
            &&& held[req.id].items.len() == req.items.len()
            &&& forall|i: int| 0 <= i < req.items.len() ==> {
                &&& (#[trigger] held[req.id].items[i]).barcode == req.items[i].0
                &&& held[req.id].items[i].name == req.items[i].1
                &&& held[req.id].items[i].target_qty == req.items[i].2
                &&& held[req.id].items[i].packed_qty == 0
            }
        }),
{
}

/// An inventory scan counts one more for its barcode (one for a barcode
/// not seen before), remembers the worker, decides the anomaly flag only at
/// the first scan, and leaves every other barcode as it was.
pub proof fn law_inventory_scan_counts_one(
    scans: Map<Seq<char>, crate::model::ScanRecordView>,
    products: Map<Seq<char>, Seq<char>>,
    barcode: Seq<char>,
    worker: Seq<char>,
)
    requires
        scans.dom().contains(barcode) ==> scans[barcode].count < u32::MAX,
    ensures
        ({
            let post = recorded_scans(scans, products, barcode, worker);
            &&& post.dom().contains(barcode)
            &&& post[barcode].count == if scans.dom().contains(barcode) {
                scans[barcode].count + 1
            } else {
                1
            }
            &&& post[barcode].last_worker == worker
            &&& post[barcode].is_anomaly == if scans.dom().contains(barcode) {
                scans[barcode].is_anomaly
            } else {
                !products.dom().contains(barcode)
            }
            &&& post[barcode].anomaly_reason == if scans.dom().contains(barcode) {
                scans[barcode].anomaly_reason
            } else if products.dom().contains(barcode) {
                None
            } else {
                Some("Inconnu"@)
            }
            &&& forall|k: Seq<char>| k != barcode ==> post.dom().contains(k) == scans.dom().contains(k)
                && post[k] == scans[k]
        }),
{
}

/// A scan against a held order of an article whose first line on the order
/// is still owed is accepted ("Correct: " and the line's name) and packs one
/// more on that line, whatever the order's other lines hold; every other line
/// and every other order stay as they were.
pub proof fn law_owed_article_is_packed(
    st: AppStateView,
    req: crate::model::ScanRequestView,
    id: Seq<char>,
    i: int,
)
    requires
        req.order_id == Some(id),
        st.orders.dom().contains(id),
        0 <= i < st.orders[id].items.len(),
        st.orders[id].items[i].barcode == req.barcode,
        forall|j: int| 0 <= j < i ==> st.orders[id].items[j].barcode != req.barcode,
        st.orders[id].items[i].packed_qty < st.orders[id].items[i].target_qty,
    ensures
        scan_reply(st, req).http_status == 200,
        scan_reply(st, req).status == "ok"@,
        scan_reply(st, req).message == "Correct: "@ + st.orders[id].items[i].name,
        after_scan(st, req).orders.dom() == st.orders.dom(),
        after_scan(st, req).orders[id].id == st.orders[id].id,
        after_scan(st, req).orders[id].status == st.orders[id].status,
        after_scan(st, req).orders[id].items.len() == st.orders[id].items.len(),
        after_scan(st, req).orders[id].items[i].packed_qty == st.orders[id].items[i].packed_qty + 1,
        after_scan(st, req).orders[id].items[i].barcode == st.orders[id].items[i].barcode,
        after_scan(st, req).orders[id].items[i].name == st.orders[id].items[i].name,
        after_scan(st, req).orders[id].items[i].target_qty == st.orders[id].items[i].target_qty,
        forall|j: int| 0 <= j < st.orders[id].items.len() && j != i
            ==> after_scan(st, req).orders[id].items[j] == #[trigger] st.orders[id].items[j],
        forall|k: Seq<char>| #[trigger] st.orders.dom().contains(k) && k != id
            ==> after_scan(st, req).orders[k] == st.orders[k],
        after_scan(st, req).scans == st.scans,
{
    let items = st.orders[id].items;
    assert(crate::packing::is_first_line(items, req.barcode, i));
    crate::packing::lemma_first_line_is_line_of(items, req.barcode, i);
    assert(after_scan(st, req).orders.dom() =~= st.orders.dom());
}

/// Checking an article against order lines: when its first line is still
/// owed, the outcome is "packed", that line alone gains one, and its name is
/// reported, whatever the other lines hold.
pub proof fn law_first_owed_line_packs(items: Seq<OrderItemView>, barcode: Seq<char>, i: int)
    requires
        0 <= i < items.len(),
        items[i].barcode == barcode,
        forall|j: int| 0 <= j < i ==> items[j].barcode != barcode,
        items[i].packed_qty < items[i].target_qty,
    ensures
        packing_outcome(items, barcode) == Packing::Packed,
        crate::packing::line_name(items, barcode) == items[i].name,
        crate::packing::packed_items(items, barcode).len() == items.len(),
        crate::packing::packed_items(items, barcode)[i].packed_qty == items[i].packed_qty + 1,
        crate::packing::packed_items(items, barcode)[i].barcode == items[i].barcode,
        crate::packing::packed_items(items, barcode)[i].name == items[i].name,
        crate::packing::packed_items(items, barcode)[i].target_qty == items[i].target_qty,
        forall|j: int| 0 <= j < items.len() && j != i
            ==> crate::packing::packed_items(items, barcode)[j] == #[trigger] items[j],
{
    assert(crate::packing::is_first_line(items, barcode, i));
    crate::packing::lemma_first_line_is_line_of(items, barcode, i);
}

/// A scan against a held order of an article whose first line on the order
/// is already fully packed is refused with "Déjà complet!", and nothing
/// changes.
pub proof fn law_complete_article_is_refused(
    st: AppStateView,
    req: crate::model::ScanRequestView,
    id: Seq<char>,
    i: int,
)
    requires
        req.order_id == Some(id),
        st.orders.dom().contains(id),
        0 <= i < st.orders[id].items.len(),
        st.orders[id].items[i].barcode == req.barcode,
        forall|j: int| 0 <= j < i ==> st.orders[id].items[j].barcode != req.barcode,
        st.orders[id].items[i].packed_qty >= st.orders[id].items[i].target_qty,
    ensures
        scan_reply(st, req).http_status == 400,
        scan_reply(st, req).status == "error"@,
        scan_reply(st, req).message == "Déjà complet!"@,
        after_scan(st, req) == st,
{
    let items = st.orders[id].items;
    assert(crate::packing::is_first_line(items, req.barcode, i));
    crate::packing::lemma_first_line_is_line_of(items, req.barcode, i);
    assert(st.orders.insert(id, st.orders[id]) =~= st.orders);
}

/// Each line of the scan listing carries its record unchanged: the barcode,
/// the count, the last worker, the anomaly flag and reason, and the
/// catalogue name of the barcode ("Produit inconnu" when it has none).
pub proof fn law_listing_line_carries_record(
    barcode: Seq<char>,
    record: crate::model::ScanRecordView,
    products: Map<Seq<char>, Seq<char>>,
)
    ensures
        crate::reports::summary_of(barcode, record, products).barcode == barcode,
        crate::reports::summary_of(barcode, record, products).count == record.count,
        crate::reports::summary_of(barcode, record, products).last_worker == record.last_worker,
        crate::reports::summary_of(barcode, record, products).is_anomaly == record.is_anomaly,
        crate::reports::summary_of(barcode, record, products).anomaly_reason == record.anomaly_reason,
        crate::reports::summary_of(barcode, record, products).product_name == if products.dom().contains(barcode) {
            products[barcode]
        } else {
            "Produit inconnu"@
        },
{
}

/// After a barcode's record is deleted, its next inventory scan starts the
/// count again at one.
pub proof fn law_rescan_after_delete_starts_at_one(
    scans: Map<Seq<char>, crate::model::ScanRecordView>,
    products: Map<Seq<char>, Seq<char>>,
    barcode: Seq<char>,
    worker: Seq<char>,
)
    ensures
        recorded_scans(scans.remove(barcode), products, barcode, worker)[barcode].count == 1,
{
}

/// When a catalogue update lists a barcode, the barcode ends with the name
/// of its last listing.
pub proof fn law_catalogue_last_listing_wins(
    products: Map<Seq<char>, Seq<char>>,
    entries: Seq<(Seq<char>, Seq<char>)>,
    j: int,
)
    requires
        0 <= j < entries.len(),
        forall|l: int| j < l < entries.len() ==> entries[l].0 != entries[j].0,
    ensures
        catalogue_after(products, entries).dom().contains(entries[j].0),
        catalogue_after(products, entries)[entries[j].0] == entries[j].1,
    decreases entries.len(),
{
    if j < entries.len() - 1 {
        law_catalogue_last_listing_wins(products, entries.drop_last(), j);
    }
}

/// A catalogue update leaves the barcodes it does not list as they were.
pub proof fn law_catalogue_keeps_unlisted(
    products: Map<Seq<char>, Seq<char>>,
    entries: Seq<(Seq<char>, Seq<char>)>,
    barcode: Seq<char>,
)
    requires
        forall|l: int| 0 <= l < entries.len() ==> entries[l].0 != barcode,
    ensures
        catalogue_after(products, entries).dom().contains(barcode) == products.dom().contains(barcode),
        catalogue_after(products, entries)[barcode] == products[barcode],
    decreases entries.len(),
{
    if entries.len() > 0 {
        law_catalogue_keeps_unlisted(products, entries.drop_last(), barcode);
    }
}

/// One more article packed on order `id` by the scan, or none.
pub open spec fn scan_gain(st: AppStateView, req: crate::model::ScanRequestView, id: Seq<char>) -> int {
    if scan_order(st, req) == Some(id) && packing_outcome(st.orders[id].items, req.barcode)
        == Packing::Packed {
        1
    } else {
        0
    }
}

/// The articles packed over the orders `ids` of `orders`.
pub open spec fn packed_over(orders: Map<Seq<char>, OrderView>, ids: Seq<Seq<char>>) -> int
    decreases ids.len(),
{
    if ids.len() == 0 {
        0
    } else {
        packed_over(orders, ids.drop_last()) + packed_total(orders[ids.last()].items)
    }
}

proof fn lemma_scan_gain(st: AppStateView, req: crate::model::ScanRequestView, id: Seq<char>)
    requires
        st.orders.dom().contains(id),
    ensures
        packed_total(after_scan(st, req).orders[id].items) == packed_total(st.orders[id].items)
            + scan_gain(st, req, id),
{
    if scan_gain(st, req, id) == 1 {
        let items = st.orders[id].items;
        let i = line_of(items, req.barcode);
        let k = choose|k: int| 0 <= k < items.len() && items[k].barcode == req.barcode;
        lemma_first_line_exists(items, req.barcode, k);
        lemma_packed_total_update(
            items,
            i,
            OrderItemView { packed_qty: (items[i].packed_qty + 1) as u32, ..items[i] },
        );
    }
}

proof fn lemma_packed_over(st: AppStateView, req: crate::model::ScanRequestView, ids: Seq<Seq<char>>)
    requires
        ids.no_duplicates(),
        forall|i: int| 0 <= i < ids.len() ==> st.orders.dom().contains(#[trigger] ids[i]),
    ensures
        packed_over(after_scan(st, req).orders, ids) == packed_over(st.orders, ids) + if scan_order(
            st,
            req,
        ) is Some && ids.contains(scan_order(st, req)->0) {
            scan_gain(st, req, scan_order(st, req)->0)
        } else {
            0
        },
    decreases ids.len(),
{
    if ids.len() > 0 {
        let rest = ids.drop_last();
        assert(rest.no_duplicates());
        lemma_packed_over(st, req, rest);
        lemma_scan_gain(st, req, ids.last());
        if let Some(t) = scan_order(st, req) {
            if ids.last() == t {
                assert(!rest.contains(t)) by {
                    if rest.contains(t) {
                        let j = choose|j: int| 0 <= j < rest.len() && rest[j] == t;
                        assert(ids[j] == ids[ids.len() - 1]);
                    }
                }
                assert(ids.contains(t));
            } else {
                assert(scan_gain(st, req, ids.last()) == 0);
                assert(ids.contains(t) <==> rest.contains(t)) by {
                    if ids.contains(t) {
                        let j = choose|j: int| 0 <= j < ids.len() && ids[j] == t;
                        assert(rest[j] == t);
                    }
                }
            }
        } else {
            assert(scan_gain(st, req, ids.last()) == 0);
        }
    }
}

/// Over any set of held orders, listed without repeats, a scan never lowers
/// the number of articles packed and raises it by at most one.
pub proof fn law_scan_packs_at_most_one_overall(
    st: AppStateView,
    req: crate::model::ScanRequestView,
    ids: Seq<Seq<char>>,
)
    requires
        ids.no_duplicates(),
        forall|i: int| 0 <= i < ids.len() ==> st.orders.dom().contains(#[trigger] ids[i]),
    ensures
        packed_over(st.orders, ids) <= packed_over(after_scan(st, req).orders, ids),
        packed_over(after_scan(st, req).orders, ids) <= packed_over(st.orders, ids) + 1,
{
    lemma_packed_over(st, req, ids);
}

/// A scan keeps the set of orders, and every line of every order keeps its
/// barcode, name and ordered quantity; packed quantities never go down.
pub proof fn law_scan_keeps_order_lines(st: AppStateView, req: crate::model::ScanRequestView)
    ensures
        after_scan(st, req).orders.dom() == st.orders.dom(),
        forall|id: Seq<char>|
            #[trigger] st.orders.dom().contains(id) ==> after_scan(st, req).orders[id].items.len()
                == st.orders[id].items.len(),
        forall|id: Seq<char>, k: int|
            st.orders.dom().contains(id) && 0 <= k < st.orders[id].items.len() ==> {
                let before = #[trigger] st.orders[id].items[k];
                let now = after_scan(st, req).orders[id].items[k];
                &&& now.barcode == before.barcode
                &&& now.name == before.name
                &&& now.target_qty == before.target_qty
                &&& now.packed_qty >= before.packed_qty
            },
{
    if let Some(t) = scan_order(st, req) {
        let items = st.orders[t].items;
        if packing_outcome(items, req.barcode) == Packing::Packed {
            let k = choose|k: int| 0 <= k < items.len() && items[k].barcode == req.barcode;
            lemma_first_line_exists(items, req.barcode, k);
        }
        assert(after_scan(st, req).orders.dom() =~= st.orders.dom());
    }
}

proof fn lemma_cells_after_append(
    cells: Map<(u32, u16), CellValueView>,
    a: Seq<CellWriteView>,
    b: Seq<CellWriteView>,
)
    ensures
        cells_after(cells, a + b) == cells_after(cells_after(cells, a), b),
    decreases b.len(),
{
    if b.len() == 0 {
        assert(a + b =~= a);
    } else {
        assert((a + b).drop_last() =~= a + b.drop_last());
        assert((a + b).last() == b.last());
        lemma_cells_after_append(cells, a, b.drop_last());
    }
}

/// Writes that all go to other rows leave row `row` as it was.
proof fn lemma_cells_after_other_rows(
    cells: Map<(u32, u16), CellValueView>,
    writes: Seq<CellWriteView>,
    row: u32,
    col: u16,
)
    requires
        forall|i: int| 0 <= i < writes.len() ==> (#[trigger] writes[i]).row != row,
    ensures
        cells_after(cells, writes).dom().contains((row, col)) == cells.dom().contains((row, col)),
        cells_after(cells, writes)[(row, col)] == cells[(row, col)],
    decreases writes.len(),
{
    if writes.len() > 0 {
        assert(writes.last().row != row);
        lemma_cells_after_other_rows(cells, writes.drop_last(), row, col);
    }
}

/// The writes for the listed barcodes from the `k`-th on.
pub open spec fn later_writes(
    rows: Seq<(String, crate::model::ScanRecord)>,
    products: Map<Seq<char>, Seq<char>>,
    k: int,
) -> Seq<CellWriteView>
    decreases rows.len(),
{
    if rows.len() == 0 || rows.len() <= k {
        seq![]
    } else {
        later_writes(rows.drop_last(), products, k) + row_writes(
            rows.len() - 1,
            rows.last().0@,
            rows.last().1@,
            products,
        )
    }
}

proof fn lemma_row_writes_row(
    r: int,
    barcode: Seq<char>,
    record: crate::model::ScanRecordView,
    products: Map<Seq<char>, Seq<char>>,
)
    ensures
        forall|i: int| 0 <= i < row_writes(r, barcode, record, products).len()
            ==> (#[trigger] row_writes(r, barcode, record, products)[i]).row == (r + 1) as u32,
{
}

proof fn lemma_split_data_writes(
    rows: Seq<(String, crate::model::ScanRecord)>,
    products: Map<Seq<char>, Seq<char>>,
    k: int,
)
    requires
        0 <= k <= rows.len(),
        rows.len() < u32::MAX,
    ensures
        data_writes(rows, products) == data_writes(rows.take(k), products) + later_writes(rows, products, k),
        forall|i: int| 0 <= i < later_writes(rows, products, k).len()
            ==> k + 1 <= (#[trigger] later_writes(rows, products, k)[i]).row <= rows.len(),
    decreases rows.len(),
{
    if rows.len() == k {
        assert(rows.take(k) =~= rows);
        assert(data_writes(rows, products) + seq![] =~= data_writes(rows, products));
    } else {
        let rest = rows.drop_last();
        lemma_split_data_writes(rest, products, k);
        assert(rest.take(k) =~= rows.take(k));
        let last = row_writes(rows.len() - 1, rows.last().0@, rows.last().1@, products);
        lemma_row_writes_row(rows.len() - 1, rows.last().0@, rows.last().1@, products);
        assert(data_writes(rows, products) =~= data_writes(rows.take(k), products) + later_writes(
            rows,
            products,
            k,
        ));
        let lw = later_writes(rows, products, k);
        let lw0 = later_writes(rest, products, k);
        assert forall|i: int| 0 <= i < lw.len() implies k + 1 <= (#[trigger] lw[i]).row <= rows.len() by {
            if i < lw0.len() {
                assert(lw[i] == lw0[i]);
            } else {
                assert(lw[i] == last[i - lw0.len()]);
            }
        }
    }
}

/// Every write of the header and of the first `r` listed barcodes goes to a
/// row before `r + 1`.
proof fn lemma_earlier_rows(
    rows: Seq<(String, crate::model::ScanRecord)>,
    products: Map<Seq<char>, Seq<char>>,
    r: int,
)
    requires
        0 <= r < rows.len(),
        rows.len() < u32::MAX,
    ensures
        forall|i: int| 0 <= i < (header_writes() + data_writes(rows.take(r), products)).len()
            ==> (#[trigger] (header_writes() + data_writes(rows.take(r), products))[i]).row <= r,
{
    let front = rows.take(r);
    lemma_split_data_writes(front, products, 0);
    assert(front.take(0) =~= Seq::<(String, crate::model::ScanRecord)>::empty());
    let lw = later_writes(front, products, 0);
    assert(data_writes(front, products) =~= lw);
    let all = header_writes() + data_writes(front, products);
    assert forall|i: int| 0 <= i < all.len() implies (#[trigger] all[i]).row <= r by {
        if i >= header_writes().len() {
            assert(all[i] == lw[i - header_writes().len()]);
        }
    }
}

/// The anomaly's reason of a record, or the empty text when it has none.
pub open spec fn reason_text(rec: crate::model::ScanRecordView) -> Seq<char> {
    match rec.anomaly_reason {
        Some(t) => t,
        None => Seq::empty(),
    }
}

/// The cells of a row after its writes, on a sheet where the row was empty.
pub open spec fn row_block_holds(
    cells: Map<(u32, u16), CellValueView>,
    row: u32,
    rec: crate::model::ScanRecordView,
) -> bool {
    &&& cells.dom().contains((row, 2u16))
    &&& cells[(row, 2u16)] == CellValueView::Number(rec.count)
    &&& rec.last_worker.len() > 0 ==> cells.dom().contains((row, 3u16))
        && cells[(row, 3u16)] == CellValueView::Text(rec.last_worker)
    &&& rec.last_worker.len() == 0 ==> !cells.dom().contains((row, 3u16))
    &&& cells.dom().contains((row, 4u16))
    &&& cells[(row, 4u16)] == CellValueView::Text(if rec.is_anomaly { "Oui"@ } else { "Non"@ })
    &&& reason_text(rec).len() > 0 ==> cells.dom().contains((row, 5u16))
        && cells[(row, 5u16)] == CellValueView::Text(reason_text(rec))
    &&& reason_text(rec).len() == 0 ==> !cells.dom().contains((row, 5u16))
}

/// The first two cells of a barcode's row: the barcode under "Barcode" and
/// its catalogue name (or "Inconnu") under "Produit"; an empty text leaves
/// its cell empty.
pub open spec fn row_head_holds(
    cells: Map<(u32, u16), CellValueView>,
    row: u32,
    barcode: Seq<char>,
    products: Map<Seq<char>, Seq<char>>,
) -> bool {
    let name = if products.dom().contains(barcode) {
        products[barcode]
    } else {
        "Inconnu"@
    };
    &&& barcode.len() > 0 ==> cells.dom().contains((row, 0u16))
        && cells[(row, 0u16)] == CellValueView::Text(barcode)
    &&& barcode.len() == 0 ==> !cells.dom().contains((row, 0u16))
    &&& name.len() > 0 ==> cells.dom().contains((row, 1u16))
        && cells[(row, 1u16)] == CellValueView::Text(name)
    &&& name.len() == 0 ==> !cells.dom().contains((row, 1u16))
}

proof fn lemma_cells_after_step(cells: Map<(u32, u16), CellValueView>, ws: Seq<CellWriteView>, k: int)
    requires
        0 <= k < ws.len(),
    ensures
        cells_after(cells, ws.take(k + 1)) == crate::sheet::cells_after_write(
            cells_after(cells, ws.take(k)),
            ws[k],
        ),
{
    assert(ws.take(k + 1).drop_last() =~= ws.take(k));
    assert(ws.take(k + 1).last() == ws[k]);
}

proof fn lemma_row_block(
    cells: Map<(u32, u16), CellValueView>,
    r: int,
    barcode: Seq<char>,
    rec: crate::model::ScanRecordView,
    products: Map<Seq<char>, Seq<char>>,
)
    requires
        !cells.dom().contains(((r + 1) as u32, 0u16)),
        !cells.dom().contains(((r + 1) as u32, 1u16)),
        !cells.dom().contains(((r + 1) as u32, 3u16)),
        !cells.dom().contains(((r + 1) as u32, 5u16)),
    ensures
        row_block_holds(cells_after(cells, row_writes(r, barcode, rec, products)), (r + 1) as u32, rec),
        row_head_holds(cells_after(cells, row_writes(r, barcode, rec, products)), (r + 1) as u32, barcode, products),
{
    reveal_strlit("Inconnu");
    reveal_strlit("Oui");
    reveal_strlit("Non");
    let row = (r + 1) as u32;
    let mine = row_writes(r, barcode, rec, products);
    assert(mine.take(0) =~= Seq::<CellWriteView>::empty());
    lemma_cells_after_step(cells, mine, 0);
    lemma_cells_after_step(cells, mine, 1);
    lemma_cells_after_step(cells, mine, 2);
    lemma_cells_after_step(cells, mine, 3);
    lemma_cells_after_step(cells, mine, 4);
    let c3 = cells_after(cells, mine.take(3));
    let c4 = cells_after(cells, mine.take(4));
    let c5 = cells_after(cells, mine.take(5));
    assert(c3.dom().contains((row, 2u16)) && c3[(row, 2u16)] == CellValueView::Number(rec.count));
    assert(!c3.dom().contains((row, 3u16)));
    assert(!c3.dom().contains((row, 5u16)));
    assert(flag_text(rec.is_anomaly).len() > 0);
    let c1 = cells_after(cells, mine.take(1));
    let c2 = cells_after(cells, mine.take(2));
    assert(row_head_holds(c2, row, barcode, products));
    assert(row_head_holds(c5, row, barcode, products));
    assert(row_block_holds(c5, row, rec) || mine.len() == 6);
    if mine.len() == 5 {
        assert(mine.take(5) =~= mine);
    } else {
        lemma_cells_after_step(cells, mine, 5);
        assert(mine.take(6) =~= mine);
    }
}

/// In the export sheet, the row of each listed barcode holds the barcode
/// under "Barcode", its catalogue name (or "Inconnu") under "Produit", its count
/// under "Quantité", its last worker under "Dernier Opérateur", its anomaly
/// flag under "Anomalie" and the anomaly's reason under "Motif" (an empty
/// text leaves its cell empty).
pub proof fn law_export_row_cells(
    rows: Seq<(String, crate::model::ScanRecord)>,
    products: Map<Seq<char>, Seq<char>>,
    r: int,
)
    requires
        0 <= r < rows.len(),
        rows.len() < u32::MAX,
    ensures
        ({
            let cells = cells_after(Map::empty(), sheet_writes(rows, products));
            let row = (r + 1) as u32;
            &&& row_block_holds(cells, row, rows[r].1@)
            &&& row_head_holds(cells, row, rows[r].0@, products)
        }),
{
    let row = (r + 1) as u32;
    let rec = rows[r].1@;
    let front = header_writes() + data_writes(rows.take(r), products);
    let mine = row_writes(r, rows[r].0@, rec, products);
    let later = later_writes(rows, products, r + 1);
    lemma_split_data_writes(rows, products, r + 1);
    let upto = rows.take(r + 1);
    assert(upto.drop_last() =~= rows.take(r));
    assert(upto.last() == rows[r]);
    assert(data_writes(upto, products) == data_writes(rows.take(r), products) + mine);
    assert(sheet_writes(rows, products) =~= front + mine + later);
    let empty = Map::<(u32, u16), CellValueView>::empty();
    lemma_cells_after_append(empty, front + mine, later);
    lemma_cells_after_append(empty, front, mine);
    let c1 = cells_after(empty, front);
    let c2 = cells_after(c1, mine);
    lemma_earlier_rows(rows, products, r);
    assert forall|col: u16| !c1.dom().contains((row, col)) by {
        lemma_cells_after_other_rows(empty, front, row, col);
    }
    assert forall|i: int| 0 <= i < later.len() implies (#[trigger] later[i]).row != row by {
        assert(r + 2 <= later[i].row);
    }
    lemma_cells_after_other_rows(c2, later, row, 2u16);
    lemma_cells_after_other_rows(c2, later, row, 3u16);
    lemma_cells_after_other_rows(c2, later, row, 4u16);
    lemma_cells_after_other_rows(c2, later, row, 5u16);
    lemma_cells_after_other_rows(c2, later, row, 0u16);
    lemma_cells_after_other_rows(c2, later, row, 1u16);
    assert(!c1.dom().contains((row, 0u16)));
    assert(!c1.dom().contains((row, 1u16)));
    assert(!c1.dom().contains((row, 3u16)));
    assert(!c1.dom().contains((row, 5u16)));
    lemma_row_block(c1, r, rows[r].0@, rec, products);
}

/// The state after the scans `reqs`, taken in order.
pub open spec fn after_scans(st: AppStateView, reqs: Seq<crate::model::ScanRequestView>) -> AppStateView
    decreases reqs.len(),
{
    if reqs.len() == 0 {
        st
    } else {
        after_scan(after_scans(st, reqs.drop_last()), reqs.last())
    }
}

proof fn lemma_inventory_scans(
    st: AppStateView,
    reqs: Seq<crate::model::ScanRequestView>,
    barcode: Seq<char>,
)
    requires
        !st.scans.dom().contains(barcode),
        reqs.len() < u32::MAX,
        forall|k: int| 0 <= k < reqs.len() ==> (#[trigger] reqs[k]).barcode == barcode,
        forall|k: int|
            0 <= k < reqs.len() ==> match (#[trigger] reqs[k]).order_id {
                Some(id) => !st.orders.dom().contains(id),
                None => true,
            },
    ensures
        ({
            let post = after_scans(st, reqs);
            &&& post.orders == st.orders
            &&& post.products == st.products
            &&& post.windows == st.windows
            &&& post.access_token == st.access_token
            &&& reqs.len() == 0 ==> post.scans == st.scans
            &&& reqs.len() > 0 ==> {
                &&& post.scans.dom().contains(barcode)
                &&& post.scans[barcode].count == reqs.len()
                &&& post.scans[barcode].last_worker == reqs.last().worker
                &&& post.scans[barcode].is_anomaly == !st.products.dom().contains(barcode)
            }
            &&& forall|other: Seq<char>|
                #![trigger post.scans.dom().contains(other)]
                other != barcode ==> (post.scans.dom().contains(other)
                    == st.scans.dom().contains(other)) && (st.scans.dom().contains(other)
                    ==> post.scans[other] == st.scans[other])
        }),
    decreases reqs.len(),
{
    if reqs.len() > 0 {
        let rest = reqs.drop_last();
        lemma_inventory_scans(st, rest, barcode);
        let mid = after_scans(st, rest);
        let last = reqs.last();
        assert(last == reqs[reqs.len() - 1]);
        assert(scan_order(mid, last) is None);
        if rest.len() > 0 {
            assert(rest.last() == reqs[reqs.len() - 2]);
        }
        let post = after_scans(st, reqs);
        assert(post == after_scan(mid, last));
        assert(post.scans == recorded_scans(mid.scans, mid.products, barcode, last.worker));
        assert forall|other: Seq<char>| other != barcode implies (post.scans.dom().contains(other)
            == st.scans.dom().contains(other)) && (st.scans.dom().contains(other)
            ==> post.scans[other] == st.scans[other]) by {
            assert(post.scans.dom().contains(other) == mid.scans.dom().contains(other));
            assert(mid.scans.dom().contains(other) == st.scans.dom().contains(other));
            if mid.scans.dom().contains(other) {
                assert(post.scans[other] == mid.scans[other]);
            }
        }
    }
}

/// Duplicate scans are grouped: after `n` inventory scans of a barcode not
/// seen before (none of them naming an order that is held), the barcode has
/// one record, counted `n`, with the worker of the last scan and the anomaly
/// flag decided by the catalogue at the first scan; nothing else changes.
pub proof fn law_inventory_scans_are_grouped(
    st: AppStateView,
    reqs: Seq<crate::model::ScanRequestView>,
    barcode: Seq<char>,
)
    requires
        !st.scans.dom().contains(barcode),
        1 <= reqs.len() < u32::MAX,
        forall|k: int| 0 <= k < reqs.len() ==> (#[trigger] reqs[k]).barcode == barcode,
        forall|k: int|
            0 <= k < reqs.len() ==> match (#[trigger] reqs[k]).order_id {
                Some(id) => !st.orders.dom().contains(id),
                None => true,
            },
    ensures
        after_scans(st, reqs).scans.dom().contains(barcode),
        after_scans(st, reqs).scans[barcode].count == reqs.len(),
        after_scans(st, reqs).scans[barcode].last_worker == reqs.last().worker,
        after_scans(st, reqs).scans[barcode].is_anomaly == !st.products.dom().contains(barcode),
        after_scans(st, reqs).orders == st.orders,
        forall|other: Seq<char>|
            #![trigger after_scans(st, reqs).scans.dom().contains(other)]
            other != barcode ==> (after_scans(st, reqs).scans.dom().contains(other)
                == st.scans.dom().contains(other)) && (st.scans.dom().contains(other)
                ==> after_scans(st, reqs).scans[other] == st.scans[other]),
{
    lemma_inventory_scans(st, reqs, barcode);
}

/// What any scan keeps: no line goes beyond its target if none did, the
/// set of orders stays, and over any held orders listed without repeats the
/// number of articles packed never falls and rises by at most one.
pub open spec fn scan_keeps_orders(pre: Map<Seq<char>, OrderView>, post: Map<Seq<char>, OrderView>) -> bool {
    &&& within_targets(pre) ==> within_targets(post)
    &&& post.dom() == pre.dom()
    &&& forall|ids: Seq<Seq<char>>|
        ids.no_duplicates() && (forall|i: int| 0 <= i < ids.len() ==> pre.dom().contains(#[trigger] ids[i]))
            ==> packed_over(pre, ids) <= #[trigger] packed_over(post, ids) <= packed_over(pre, ids) + 1
}

/// Every scan keeps the orders as `scan_keeps_orders` says.
pub proof fn law_scan_keeps_orders(st: AppStateView, req: crate::model::ScanRequestView)
    ensures
        scan_keeps_orders(st.orders, after_scan(st, req).orders),
{
    if within_targets(st.orders) {
        law_scans_keep_within_targets(st, req);
    }
    law_scan_keeps_order_lines(st, req);
    assert forall|ids: Seq<Seq<char>>|
        ids.no_duplicates() && (forall|i: int| 0 <= i < ids.len() ==> st.orders.dom().contains(#[trigger] ids[i]))
        implies packed_over(st.orders, ids) <= #[trigger] packed_over(after_scan(st, req).orders, ids)
            <= packed_over(st.orders, ids) + 1 by {
        law_scan_packs_at_most_one_overall(st, req, ids);
    }
}

/// A refused request changes nothing.
pub proof fn law_refused_request_changes_nothing(st: AppStateView, client: Seq<char>, now: i128)
    requires
        !admission(st, client, now).0,
    ensures
        admission(st, client, now).1 == st,
{
    assert(st.windows.insert(client, st.windows[client]) =~= st.windows);
}

/// No rate window ever counts more than one request beyond the allowance.
pub proof fn law_window_count_bounded(st: AppStateView, client: Seq<char>, now: i128)
    requires
        forall|c: Seq<char>| #[trigger] st.windows.dom().contains(c) ==> st.windows[c].1 <= WINDOW_ALLOWANCE + 1,
    ensures
        forall|c: Seq<char>|
            #[trigger] admission(st, client, now).1.windows.dom().contains(c)
                ==> admission(st, client, now).1.windows[c].1 <= WINDOW_ALLOWANCE + 1,
{
}

/// Within a window, each request that passes is counted, so at most the
/// allowance plus one requests pass before the window closes.
pub proof fn law_admitted_request_is_counted(st: AppStateView, client: Seq<char>, now: i128)
    requires
        st.windows.dom().contains(client),
        now - st.windows[client].0 < WINDOW_NANOS,
        admission(st, client, now).0,
    ensures
        admission(st, client, now).1.windows[client] == (st.windows[client].0, (st.windows[client].1 + 1) as u32),
        st.windows[client].1 <= WINDOW_ALLOWANCE,
{
}

/// A request from a client with no window, or a second or more after its
/// window opened, always passes and opens a new window with one request.
pub proof fn law_new_window_admits(st: AppStateView, client: Seq<char>, now: i128)
    requires
        st.windows.dom().contains(client) ==> now - st.windows[client].0 >= WINDOW_NANOS,
    ensures
        admission(st, client, now).0,
        admission(st, client, now).1.windows[client] == (now, 1u32),
{
}

} // verus!
