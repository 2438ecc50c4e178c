use raf::model::{Order, OrderItem, OrderRequest, ProductMetadata, ScanRequest};
use raf::packing::{pack_item, reply_for_packing, Packing};
use raf::state::AppState;

fn s(text: &str) -> String {
    text.to_string()
}

fn scan(barcode: &str, worker: &str, order_id: Option<&str>) -> ScanRequest {
    ScanRequest { barcode: s(barcode), worker: s(worker), order_id: order_id.map(s) }
}

fn item(barcode: &str, name: &str, target: u32, packed: u32) -> OrderItem {
    OrderItem { barcode: s(barcode), name: s(name), target_qty: target, packed_qty: packed }
}

#[test]
fn test_receive_scan_logic() {
    // 1. Setup state
    let token = "test-token".to_string();
    let mut state = AppState::new(token.clone());

    // 2. Add a dummy order
    let order_id = "ORD-1".to_string();
    let order = Order {
        id: order_id.clone(),
        status: "Active".to_string(),
        items: vec![OrderItem {
            barcode: "123".to_string(),
            name: "Test Item".to_string(),
            target_qty: 2,
            packed_qty: 0,
        }],
    };
    state.insert_order(order);

    // The request carries the token in the X-Jard-Token header.
    assert!(state.is_authorized(Some(token.clone()), None));

    // 3. Test Correct Scan
    let response = state.receive_scan(ScanRequest {
        barcode: "123".to_string(),
        worker: "TestWorker".to_string(),
        order_id: Some(order_id.clone()),
    });
    assert_eq!(response.http_status, 200);

    // 4. Test Incorrect Scan (Article not in order)
    let response = state.receive_scan(ScanRequest {
        barcode: "999".to_string(),
        worker: "TestWorker".to_string(),
        order_id: Some(order_id.clone()),
    });
    assert_eq!(response.http_status, 400);
}

#[test]
fn order_scan_packs_until_complete() {
    let mut state = AppState::new(s("t"));
    state.create_order(OrderRequest { id: s("ORD-7"), items: vec![(s("A1"), s("Vis M3"), 2)] });

    let r = state.receive_scan(scan("A1", "Sami", Some("ORD-7")));
    assert_eq!((r.http_status, r.status.as_str(), r.message.as_str()), (200, "ok", "Correct: Vis M3"));
    let r = state.receive_scan(scan("A1", "Sami", Some("ORD-7")));
    assert_eq!(r.http_status, 200);
    let r = state.receive_scan(scan("A1", "Sami", Some("ORD-7")));
    assert_eq!((r.http_status, r.status.as_str(), r.message.as_str()), (400, "error", "Déjà complet!"));

    let orders = state.list_orders();
    assert_eq!(orders.len(), 1);
    assert_eq!(orders[0].items[0].packed_qty, 2);
    assert_eq!(orders[0].items[0].target_qty, 2);
    // Order scans never touch the inventory records.
    assert!(state.list_scans().is_empty());
}

#[test]
fn foreign_article_is_refused_and_changes_nothing() {
    let mut state = AppState::new(s("t"));
    state.create_order(OrderRequest { id: s("O"), items: vec![(s("A"), s("Alpha"), 1)] });
    let r = state.receive_scan(scan("Z", "w", Some("O")));
    assert_eq!((r.http_status, r.status.as_str(), r.message.as_str()), (400, "error", "ARTICLE INCORRECT"));
    let orders = state.list_orders();
    assert_eq!(orders[0].items[0].packed_qty, 0);
    assert!(state.list_scans().is_empty());
}

#[test]
fn only_the_first_line_of_a_barcode_counts() {
    let mut items = vec![item("X", "first", 1, 1), item("X", "second", 5, 0)];
    let (outcome, name) = pack_item(&mut items, &s("X"));
    assert_eq!(outcome, Packing::AlreadyComplete);
    assert_eq!(name, "first");
    assert_eq!(items[1].packed_qty, 0);

    let mut items = vec![item("Y", "y", 3, 1), item("X", "x1", 2, 0), item("X", "x2", 2, 0)];
    let (outcome, name) = pack_item(&mut items, &s("X"));
    assert_eq!(outcome, Packing::Packed);
    assert_eq!(name, "x1");
    assert_eq!((items[0].packed_qty, items[1].packed_qty, items[2].packed_qty), (1, 1, 0));

    let (outcome, name) = pack_item(&mut items, &s("nope"));
    assert_eq!(outcome, Packing::NotInOrder);
    assert_eq!(name, "Inconnu");
}

#[test]
fn packing_replies() {
    let r = reply_for_packing(Packing::Packed, &s("Colle"));
    assert_eq!((r.http_status, r.status.as_str(), r.message.as_str()), (200, "ok", "Correct: Colle"));
    let r = reply_for_packing(Packing::NotInOrder, &s("Colle"));
    assert_eq!((r.http_status, r.message.as_str()), (400, "ARTICLE INCORRECT"));
}

#[test]
fn inventory_scans_count_and_flag_unknown_products() {
    let mut state = AppState::new(s("t"));
    state.update_products(vec![ProductMetadata { barcode: s("K1"), name: s("Known") }]);

    let r = state.receive_scan(scan("U1", "Ali", None));
    assert_eq!((r.http_status, r.status.as_str(), r.message.as_str()), (200, "ok", "Scanné"));
    state.receive_scan(scan("K1", "Ali", None));
    state.receive_scan(scan("K1", "Nora", None));
    // An order id that is not held falls back to inventory counting.
    state.receive_scan(scan("K1", "Nora", Some("NO-SUCH-ORDER")));

    let mut lines = state.list_scans();
    lines.sort_by(|a, b| a.barcode.cmp(&b.barcode));
    assert_eq!(lines.len(), 2);
    assert_eq!(lines[0].barcode, "K1");
    assert_eq!(lines[0].count, 3);
    assert_eq!(lines[0].last_worker, "Nora");
    assert_eq!(lines[0].product_name, "Known");
    assert!(!lines[0].is_anomaly);
    assert_eq!(lines[0].anomaly_reason, None);
    assert_eq!(lines[1].barcode, "U1");
    assert_eq!(lines[1].count, 1);
    assert_eq!(lines[1].product_name, "Produit inconnu");
    assert!(lines[1].is_anomaly);
    assert_eq!(lines[1].anomaly_reason, Some(s("Inconnu")));
}

#[test]
fn anomaly_flag_is_decided_at_first_scan() {
    let mut state = AppState::new(s("t"));
    state.receive_scan(scan("B", "w", None));
    state.update_products(vec![ProductMetadata { barcode: s("B"), name: s("Bee") }]);
    state.receive_scan(scan("B", "w", None));
    let lines = state.list_scans();
    assert_eq!(lines[0].count, 2);
    assert!(lines[0].is_anomaly);
    assert_eq!(lines[0].product_name, "Bee");
}

#[test]
fn delete_then_rescan_starts_at_one() {
    let mut state = AppState::new(s("t"));
    state.receive_scan(scan("D", "w", None));
    state.receive_scan(scan("D", "w", None));
    state.delete_scan(&s("D"));
    assert!(state.list_scans().is_empty());
    state.receive_scan(scan("D", "w", None));
    assert_eq!(state.list_scans()[0].count, 1);
}

#[test]
fn created_order_is_listed_unpacked() {
    let mut state = AppState::new(s("t"));
    state.create_order(OrderRequest {
        id: s("C-1"),
        items: vec![(s("a"), s("A"), 3), (s("b"), s("B"), 1)],
    });
    state.create_order(OrderRequest { id: s("C-2"), items: vec![] });
    let mut orders = state.list_orders();
    orders.sort_by(|a, b| a.id.cmp(&b.id));
    assert_eq!(orders.len(), 2);
    assert_eq!(orders[0].id, "C-1");
    assert_eq!(orders[0].status, "Active");
    assert_eq!(orders[0].items.len(), 2);
    assert_eq!(orders[0].items[0].barcode, "a");
    assert_eq!(orders[0].items[0].name, "A");
    assert_eq!(orders[0].items[0].target_qty, 3);
    assert_eq!(orders[0].items[0].packed_qty, 0);
    assert_eq!(orders[0].items[1].barcode, "b");
    assert_eq!(orders[1].id, "C-2");
    assert!(orders[1].items.is_empty());

    // Registering again under the same id replaces the order.
    state.create_order(OrderRequest { id: s("C-2"), items: vec![(s("z"), s("Z"), 9)] });
    let orders = state.list_orders();
    assert_eq!(orders.len(), 2);
}

#[test]
fn later_catalogue_entry_wins() {
    let mut state = AppState::new(s("t"));
    state.update_products(vec![
        ProductMetadata { barcode: s("P"), name: s("old") },
        ProductMetadata { barcode: s("P"), name: s("new") },
    ]);
    state.receive_scan(scan("P", "w", None));
    assert_eq!(state.list_scans()[0].product_name, "new");
}

#[test]
fn restored_records_and_lookups() {
    let mut state = AppState::new(s("t"));
    state.insert_scan_record(
        s("R"),
        raf::model::ScanRecord { count: 7, last_worker: s("Ana"), is_anomaly: false, anomaly_reason: None },
    );
    state.receive_scan(scan("R", "Bo", None));
    let rec = state.scan_record(&s("R")).unwrap();
    assert_eq!((rec.count, rec.last_worker.as_str()), (8, "Bo"));
    assert!(state.scan_record(&s("none")).is_none());
    state.create_order(OrderRequest { id: s("Q"), items: vec![(s("a"), s("A"), 1)] });
    state.receive_scan(scan("a", "Bo", Some("Q")));
    assert_eq!(state.order(&s("Q")).unwrap().items[0].packed_qty, 1);
    assert!(state.order(&s("nope")).is_none());
}

#[test]
fn repeated_inventory_scans_are_grouped() {
    let mut state = AppState::new(s("t"));
    let workers = ["A", "B", "C", "D", "E"];
    for w in workers.iter() {
        state.receive_scan(scan("G", w, None));
    }
    let lines = state.list_scans();
    assert_eq!(lines.len(), 1);
    assert_eq!(lines[0].count, 5);
    assert_eq!(lines[0].last_worker, "E");
}
