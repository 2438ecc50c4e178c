//! The concurrent maps (`dashmap::DashMap`) in which the engine keeps its
//! state, and the calls into them.
//!
//! What each map holds is given a name (one per map type, since a name has
//! no generics), and every method that the engine calls has a wrapper whose
//! contract says, over that name, what the method does. The maps live in private fields of `AppState` and are only
//! changed through the `&mut` wrappers here, so the names follow every change.
use vstd::prelude::*;
use dashmap::DashMap;
use crate::model::{Order, OrderView, ScanRecord, ScanRecordView};

verus! {

#[verifier::external_type_specification]
#[verifier::external_body]
#[verifier::reject_recursive_types(K)]
#[verifier::reject_recursive_types(V)]
#[verifier::reject_recursive_types(S)]
pub struct ExDashMap<K, V, S>(dashmap::DashMap<K, V, S>);

/// What a barcode-to-product-name map holds, keyed by the barcode's characters.
pub uninterp spec fn product_names(m: DashMap<String, String>) -> Map<Seq<char>, Seq<char>>;

/// What a barcode-to-scan-record map holds.
pub uninterp spec fn scan_records(m: DashMap<String, ScanRecord>) -> Map<Seq<char>, ScanRecordView>;

/// What an order-id-to-order map holds.
pub uninterp spec fn orders_held(m: DashMap<String, Order>) -> Map<Seq<char>, OrderView>;

/// What a client-to-rate-window map holds: for each client, the start of its
/// current one-second window (in nanoseconds since the epoch) and the number
/// of requests counted in it.
pub uninterp spec fn rate_windows(m: DashMap<String, (i128, u32)>) -> Map<Seq<char>, (i128, u32)>;

/// A barcode with its scan record, as listed from the scan records.
pub type ScanEntry = (String, ScanRecord);

/// An order id with its order, as listed from the orders.
pub type OrderEntry = (String, Order);

/// `entries` lists the finitely many entries of `held`, each exactly once,
/// in some order: every listed key is held with the listed value, no key is
/// listed twice, and as many entries are listed as are held.
pub open spec fn lists_table<V: View>(entries: Seq<(String, V)>, held: Map<Seq<char>, V::V>) -> bool {
    &&& held.dom().finite()
    &&& entries.len() == held.dom().len()
    &&& forall|i: int| 0 <= i < entries.len() ==> {
        &&& held.dom().contains(#[trigger] entries[i].0@)
        &&& held[entries[i].0@] == entries[i].1@
    }
    &&& forall|i: int, j: int|
        0 <= i < j < entries.len() ==> #[trigger] entries[i].0@ != #[trigger] entries[j].0@
}

/// A listing of a table names every key the table holds.
pub proof fn lemma_listing_covers<V: View>(entries: Seq<(String, V)>, held: Map<Seq<char>, V::V>, key: Seq<char>)
    requires
        lists_table(entries, held),
        held.dom().contains(key),
    ensures
        exists|i: int| 0 <= i < entries.len() && #[trigger] entries[i].0@ == key,
{
    let keys = entries.map_values(|e: (String, V)| e.0@);
    assert(keys.no_duplicates()) by {
        assert forall|i: int, j: int| 0 <= i < keys.len() && 0 <= j < keys.len() && i != j
            implies keys[i] != keys[j] by {
            if i < j {
                assert(entries[i].0@ != entries[j].0@);
            } else {
                assert(entries[j].0@ != entries[i].0@);
            }
        }
    }
    keys.unique_seq_to_set();
    assert(keys.to_set().subset_of(held.dom())) by {
        assert forall|k: Seq<char>| keys.to_set().contains(k) implies held.dom().contains(k) by {
            let i = choose|i: int| 0 <= i < keys.len() && keys[i] == k;
            assert(held.dom().contains(entries[i].0@));
        }
    }
    if !keys.to_set().contains(key) {
        keys.to_set().lemma_subset_not_in_lt(held.dom(), key);
        assert(false);
    }
    let i = choose|i: int| 0 <= i < keys.len() && keys[i] == key;
    assert(entries[i].0@ == key);
}

// ---------------------------------------------------------------- products

/// `DashMap::new` for the product catalogue: the new map is empty.
#[verifier::external_body]
pub(crate) fn products_new() -> (table: DashMap<String, String>)
    ensures
        product_names(table).dom().is_empty(),
{
    DashMap::new()
}

/// `DashMap::insert` on the product catalogue: the key now maps to the value,
/// all other keys are untouched (an existing entry is replaced).
#[verifier::external_body]
pub(crate) fn products_insert(table: &mut DashMap<String, String>, barcode: String, name: String)
    ensures
        product_names(*final(table)) == product_names(*old(table)).insert(barcode@, name@),
{
    table.insert(barcode, name);
}

/// `DashMap::get` on the product catalogue, cloning the value found: `Some`
/// exactly when the key is present, with its value.
#[verifier::external_body]
pub(crate) fn products_get(table: &DashMap<String, String>, barcode: &String) -> (found: Option<String>)
    ensures
        found is Some <==> product_names(*table).dom().contains(barcode@),
        found matches Some(n) ==> n@ == product_names(*table)[barcode@],
{
    table.get(barcode).map(|r| r.value().clone())
}

// ---------------------------------------------------------------- scans

/// `DashMap::new` for the scan records: the new map is empty.
#[verifier::external_body]
pub(crate) fn scans_new() -> (table: DashMap<String, ScanRecord>)
    ensures
        scan_records(table).dom().is_empty(),
{
    DashMap::new()
}

/// `DashMap::insert` on the scan records.
#[verifier::external_body]
pub(crate) fn scans_insert(table: &mut DashMap<String, ScanRecord>, barcode: String, record: ScanRecord)
    ensures
        scan_records(*final(table)) == scan_records(*old(table)).insert(barcode@, record@),
{
    table.insert(barcode, record);
}

/// `DashMap::get` on the scan records, cloning the record found.
#[verifier::external_body]
pub(crate) fn scans_get(table: &DashMap<String, ScanRecord>, barcode: &String) -> (found: Option<ScanRecord>)
    ensures
        found is Some <==> scan_records(*table).dom().contains(barcode@),
        found matches Some(r) ==> r@ == scan_records(*table)[barcode@],
{
    table.get(barcode).map(|r| r.value().clone())
}

/// `DashMap::remove` on the scan records: the key is gone, all other keys
/// are untouched.
#[verifier::external_body]
pub(crate) fn scans_remove(table: &mut DashMap<String, ScanRecord>, barcode: &String)
    ensures
        scan_records(*final(table)) == scan_records(*old(table)).remove(barcode@),
{
    table.remove(barcode);
}

/// `DashMap::iter` on the scan records, cloning each entry. The map holds
/// finitely many entries; each comes out exactly once, in an order that
/// depends on the map's per-process hasher and is left open here.
#[verifier::external_body]
pub(crate) fn scans_entries(table: &DashMap<String, ScanRecord>) -> (entries: Vec<ScanEntry>)
    ensures
        lists_table(entries@, scan_records(*table)),
{
    table.iter().map(|e| (e.key().clone(), e.value().clone())).collect()
}

// ---------------------------------------------------------------- orders

/// `DashMap::new` for the orders: the new map is empty.
#[verifier::external_body]
pub(crate) fn orders_new() -> (table: DashMap<String, Order>)
    ensures
        orders_held(table).dom().is_empty(),
{
    DashMap::new()
}

/// `DashMap::insert` on the orders.
#[verifier::external_body]
pub(crate) fn orders_insert(table: &mut DashMap<String, Order>, id: String, order: Order)
    ensures
        orders_held(*final(table)) == orders_held(*old(table)).insert(id@, order@),
{
    table.insert(id, order);
}

/// `DashMap::get` on the orders, cloning the order found.
#[verifier::external_body]
pub(crate) fn orders_get(table: &DashMap<String, Order>, id: &String) -> (found: Option<Order>)
    ensures
        found is Some <==> orders_held(*table).dom().contains(id@),
        found matches Some(o) ==> o@ == orders_held(*table)[id@],
{
    table.get(id).map(|r| r.value().clone())
}

/// `DashMap::iter` on the orders, cloning each entry; as for the scan
/// records, each entry comes out once, in an order left open here.
#[verifier::external_body]
pub(crate) fn orders_entries(table: &DashMap<String, Order>) -> (entries: Vec<OrderEntry>)
    ensures
        lists_table(entries@, orders_held(*table)),
{
    table.iter().map(|e| (e.key().clone(), e.value().clone())).collect()
}

// ---------------------------------------------------------------- rate windows

/// `DashMap::new` for the rate windows: the new map is empty.
#[verifier::external_body]
pub(crate) fn windows_new() -> (table: DashMap<String, (i128, u32)>)
    ensures
        rate_windows(table).dom().is_empty(),
{
    DashMap::new()
}

/// `DashMap::insert` on the rate windows.
#[verifier::external_body]
pub(crate) fn windows_insert(table: &mut DashMap<String, (i128, u32)>, client: String, window: (i128, u32))
    ensures
        rate_windows(*final(table)) == rate_windows(*old(table)).insert(client@, window),
{
    table.insert(client, window);
}

/// `DashMap::get` on the rate windows, copying the window found.
#[verifier::external_body]
pub(crate) fn windows_get(table: &DashMap<String, (i128, u32)>, client: &String) -> (found: Option<(i128, u32)>)
    ensures
        found is Some <==> rate_windows(*table).dom().contains(client@),
        found matches Some(w) ==> w == rate_windows(*table)[client@],
{
    table.get(client).map(|r| *r.value())
}

} // verus!
