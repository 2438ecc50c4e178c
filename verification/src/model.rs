//! The records that the fulfilment engine keeps and exchanges, with their
//! mathematical views.
use vstd::prelude::*;

verus! {

/// What the engine remembers of a barcode scanned outside any order.
#[derive(Debug, Clone)]
pub struct ScanRecord {
    pub count: u32,
    pub last_worker: String,
    pub is_anomaly: bool,
    pub anomaly_reason: Option<String>,
}

pub struct ScanRecordView {
    pub count: u32,
    pub last_worker: Seq<char>,
    pub is_anomaly: bool,
    pub anomaly_reason: Option<Seq<char>>,
}

pub open spec fn opt_string_view(s: Option<String>) -> Option<Seq<char>> {
    match s {
        Some(t) => Some(t@),
        None => None,
    }
}

impl View for ScanRecord {
    type V = ScanRecordView;

    open spec fn view(&self) -> ScanRecordView {
        ScanRecordView {
            count: self.count,
            last_worker: self.last_worker@,
            is_anomaly: self.is_anomaly,
            anomaly_reason: opt_string_view(self.anomaly_reason),
        }
    }
}

/// One line of an order: an article, how many of it the customer ordered,
/// and how many have been packed so far.
#[derive(Debug, Clone)]
pub struct OrderItem {
    pub barcode: String,
    pub name: String,
    pub target_qty: u32,
    pub packed_qty: u32,
}

pub struct OrderItemView {
    pub barcode: Seq<char>,
    pub name: Seq<char>,
    pub target_qty: u32,
    pub packed_qty: u32,
}

impl View for OrderItem {
    type V = OrderItemView;

    open spec fn view(&self) -> OrderItemView {
        OrderItemView {
            barcode: self.barcode@,
            name: self.name@,
            target_qty: self.target_qty,
            packed_qty: self.packed_qty,
        }
    }
}

/// A customer order under preparation.
#[derive(Debug, Clone)]
pub struct Order {
    pub id: String,
    pub items: Vec<OrderItem>,
    /// "Active" or "Complete".
    pub status: String,
}

pub struct OrderView {
    pub id: Seq<char>,
    pub items: Seq<OrderItemView>,
    pub status: Seq<char>,
}

pub open spec fn items_view(items: Seq<OrderItem>) -> Seq<OrderItemView> {
    items.map_values(|it: OrderItem| it@)
}

impl View for Order {
    type V = OrderView;

    open spec fn view(&self) -> OrderView {
        OrderView { id: self.id@, items: items_view(self.items@), status: self.status@ }
    }
}

/// An order as it is submitted: an id and lines of (barcode, name, quantity).
#[derive(Debug)]
pub struct OrderRequest {
    pub id: String,
    pub items: Vec<(String, String, u32)>,
}

pub struct OrderRequestView {
    pub id: Seq<char>,
    pub items: Seq<(Seq<char>, Seq<char>, u32)>,
}

impl View for OrderRequest {
    type V = OrderRequestView;

    open spec fn view(&self) -> OrderRequestView {
        OrderRequestView {
            id: self.id@,
            items: self.items@.map_values(|l: (String, String, u32)| (l.0@, l.1@, l.2)),
        }
    }
}

/// A barcode read by a worker, possibly against an order.
#[derive(Debug)]
pub struct ScanRequest {
    pub barcode: String,
    pub worker: String,
    pub order_id: Option<String>,
}

pub struct ScanRequestView {
    pub barcode: Seq<char>,
    pub worker: Seq<char>,
    pub order_id: Option<Seq<char>>,
}

impl View for ScanRequest {
    type V = ScanRequestView;

    open spec fn view(&self) -> ScanRequestView {
        ScanRequestView {
            barcode: self.barcode@,
            worker: self.worker@,
            order_id: opt_string_view(self.order_id),
        }
    }
}

/// The catalogue name of a barcode.
#[derive(Debug)]
pub struct ProductMetadata {
    pub barcode: String,
    pub name: String,
}

/// The order that an order request describes: status "Active", one line per
/// requested line, in the same order, with nothing packed yet.
pub open spec fn order_from_request(req: OrderRequestView) -> OrderView {
    OrderView {
        id: req.id,
        items: Seq::new(
            req.items.len(),
            |i: int|
                OrderItemView {
                    barcode: req.items[i].0,
                    name: req.items[i].1,
                    target_qty: req.items[i].2,
                    packed_qty: 0,
                },
        ),
        status: "Active"@,
    }
}

impl Order {
    /// Builds the order that a request describes.
    pub fn from_request(req: OrderRequest) -> (order: Order)
        ensures
            order@ == order_from_request(req@),
    {
        let OrderRequest { id, items } = req;
        let ghost lines = items@;
        let mut out: Vec<OrderItem> = Vec::new();
        let mut rest = items;
        // Take the lines from the back, then reverse, so that each line moves once.
        let mut reversed: Vec<OrderItem> = Vec::new();
        while rest.len() > 0
            invariant
                rest@ == lines.take(lines.len() - reversed.len()),
                reversed.len() <= lines.len(),
                forall|j: int|
                    0 <= j < reversed.len() ==> #[trigger] reversed@[j]@ == (OrderItemView {
                        barcode: lines[lines.len() - 1 - j].0@,
                        name: lines[lines.len() - 1 - j].1@,
                        target_qty: lines[lines.len() - 1 - j].2,
                        packed_qty: 0,
                    }),
            decreases rest.len(),
        {
            let (barcode, name, qty) = rest.pop().unwrap();
            reversed.push(OrderItem { barcode, name, target_qty: qty, packed_qty: 0 });
        }
        while reversed.len() > 0
            invariant
                out.len() + reversed.len() == lines.len(),
                forall|j: int|
                    0 <= j < reversed.len() ==> #[trigger] reversed@[j]@ == (OrderItemView {
                        barcode: lines[lines.len() - 1 - j].0@,
                        name: lines[lines.len() - 1 - j].1@,
                        target_qty: lines[lines.len() - 1 - j].2,
                        packed_qty: 0,
                    }),
                forall|j: int|
                    0 <= j < out.len() ==> #[trigger] out@[j]@ == (OrderItemView {
                        barcode: lines[j].0@,
                        name: lines[j].1@,
                        target_qty: lines[j].2,
                        packed_qty: 0,
                    }),
            decreases reversed.len(),
        {
            let item = reversed.pop().unwrap();
            out.push(item);
        }
        let order = Order { id, items: out, status: String::from_str("Active") };
        proof {
            assert(order@.items =~= order_from_request(req@).items);
        }
        order
    }
}

} // verus!
