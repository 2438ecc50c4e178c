//! Checking a scanned article against an order: the "zero-error" rule.
use vstd::prelude::*;
use crate::model::{OrderItem, OrderItemView, items_view};

verus! {

/// What a scan against an order amounts to.
#[derive(Debug, Clone, Copy, PartialEq, Eq, Structural)]
pub enum Packing {
    /// The article is on the order and still owed: one more is packed.
    Packed,
    /// The article is on the order but its quantity is already packed.
    AlreadyComplete,
    /// The article is not on the order.
    NotInOrder,
}

/// Line `i` is the first line of `items` for `barcode`.
pub open spec fn is_first_line(items: Seq<OrderItemView>, barcode: Seq<char>, i: int) -> bool {
    &&& 0 <= i < items.len()
    &&& items[i].barcode == barcode
    &&& forall|j: int| 0 <= j < i ==> items[j].barcode != barcode
}

/// Some line of `items` is for `barcode`.
pub open spec fn orders_article(items: Seq<OrderItemView>, barcode: Seq<char>) -> bool {
    exists|i: int| 0 <= i < items.len() && items[i].barcode == barcode
}

/// The first line of `items` for `barcode` (meaningful when there is one).
pub open spec fn line_of(items: Seq<OrderItemView>, barcode: Seq<char>) -> int {
    choose|i: int| is_first_line(items, barcode, i)
}

/// The outcome of scanning `barcode` against an order with lines `items`:
/// only the first line for the barcode counts.
pub open spec fn packing_outcome(items: Seq<OrderItemView>, barcode: Seq<char>) -> Packing {
    if !orders_article(items, barcode) {
        Packing::NotInOrder
    } else if items[line_of(items, barcode)].packed_qty < items[line_of(items, barcode)].target_qty {
        Packing::Packed
    } else {
        Packing::AlreadyComplete
    }
}

/// The lines after the scan: one more packed on the first line for the
/// barcode when it is owed, otherwise unchanged.
pub open spec fn packed_items(items: Seq<OrderItemView>, barcode: Seq<char>) -> Seq<OrderItemView> {
    if packing_outcome(items, barcode) == Packing::Packed {
        let i = line_of(items, barcode);
        items.update(i, OrderItemView { packed_qty: (items[i].packed_qty + 1) as u32, ..items[i] })
    } else {
        items
    }
}

/// The article name reported for the scan: that of the first line for the
/// barcode, or "Inconnu" when the order has none.
pub open spec fn line_name(items: Seq<OrderItemView>, barcode: Seq<char>) -> Seq<char> {
    if orders_article(items, barcode) {
        items[line_of(items, barcode)].name
    } else {
        "Inconnu"@
    }
}

/// A first line for a barcode is the one that `line_of` picks.
pub proof fn lemma_first_line_is_line_of(items: Seq<OrderItemView>, barcode: Seq<char>, i: int)
    requires
        is_first_line(items, barcode, i),
    ensures
        orders_article(items, barcode),
        line_of(items, barcode) == i,
{
    let k = line_of(items, barcode);
    assert(is_first_line(items, barcode, k));
    if k < i {
        assert(items[k].barcode != barcode);
    }
    if i < k {
        assert(items[i].barcode != barcode);
    }
}

/// When some line is for the barcode, there is a first one.
pub proof fn lemma_first_line_exists(items: Seq<OrderItemView>, barcode: Seq<char>, k: int)
    requires
        0 <= k < items.len(),
        items[k].barcode == barcode,
    ensures
        is_first_line(items, barcode, line_of(items, barcode)),
    decreases k,
{
    if exists|j: int| 0 <= j < k && items[j].barcode == barcode {
        let j = choose|j: int| 0 <= j < k && items[j].barcode == barcode;
        lemma_first_line_exists(items, barcode, j);
    } else {
        assert(is_first_line(items, barcode, k));
    }
}

/// Scans `barcode` against the order lines `items`: finds the first line for
/// the barcode and packs one more on it if it is still owed. Returns the
/// outcome and the article name to report.
pub fn pack_item(items: &mut Vec<OrderItem>, barcode: &String) -> (result: (Packing, String))
    ensures
        result.0 == packing_outcome(items_view(old(items)@), barcode@),
        items_view(final(items)@) == packed_items(items_view(old(items)@), barcode@),
        result.1@ == line_name(items_view(old(items)@), barcode@),
{
    let ghost lines = items_view(items@);
    let n = items.len();
    let mut i: usize = 0;
    while i < n
        invariant
            n == items.len(),
            lines == items_view(items@),
            items@ == old(items)@,
            i <= n,
            forall|j: int| 0 <= j < i ==> lines[j].barcode != barcode@,
        decreases n - i,
    {
        if items[i].barcode == *barcode {
            proof {
                assert(is_first_line(lines, barcode@, i as int));
                lemma_first_line_is_line_of(lines, barcode@, i as int);
            }
            let name = items[i].name.clone();
            if items[i].packed_qty < items[i].target_qty {
                let updated = OrderItem {
                    barcode: items[i].barcode.clone(),
                    name: items[i].name.clone(),
                    target_qty: items[i].target_qty,
                    packed_qty: items[i].packed_qty + 1,
                };
                items.set(i, updated);
                proof {
                    assert(items_view(items@) =~= packed_items(lines, barcode@));
                }
                return (Packing::Packed, name);
            } else {
                return (Packing::AlreadyComplete, name);
            }
        }
        i += 1;
    }
    proof {
        assert(!orders_article(lines, barcode@));
    }
    (Packing::NotInOrder, String::from_str("Inconnu"))
}

/// The reply sent to the scanner.
#[derive(Debug)]
pub struct ScanReply {
    /// The HTTP status code.
    pub http_status: u16,
    /// "ok" or "error".
    pub status: String,
    /// The text shown to the worker.
    pub message: String,
}

pub struct ScanReplyView {
    pub http_status: u16,
    pub status: Seq<char>,
    pub message: Seq<char>,
}

impl View for ScanReply {
    type V = ScanReplyView;

    open spec fn view(&self) -> ScanReplyView {
        ScanReplyView { http_status: self.http_status, status: self.status@, message: self.message@ }
    }
}

/// The reply to a scan against an order: green with the article's name when
/// it is packed, red otherwise.
pub open spec fn packing_reply(outcome: Packing, name: Seq<char>) -> ScanReplyView {
    match outcome {
        Packing::Packed => ScanReplyView {
            http_status: 200,
            status: "ok"@,
            message: "Correct: "@ + name,
        },
        Packing::AlreadyComplete => ScanReplyView {
            http_status: 400,
            status: "error"@,
            message: "Déjà complet!"@,
        },
        Packing::NotInOrder => ScanReplyView {
            http_status: 400,
            status: "error"@,
            message: "ARTICLE INCORRECT"@,
        },
    }
}

/// The reply to a scan recorded outside any order.
pub open spec fn recorded_reply() -> ScanReplyView {
    ScanReplyView { http_status: 200, status: "ok"@, message: "Scanné"@ }
}

/// Builds the reply to a scan against an order.
pub fn reply_for_packing(outcome: Packing, name: &String) -> (reply: ScanReply)
    ensures
        reply@ == packing_reply(outcome, name@),
{
    match outcome {
        Packing::Packed => {
            let mut message = String::from_str("Correct: ");
            message.append(name.as_str());
            ScanReply { http_status: 200, status: String::from_str("ok"), message }
        },
        Packing::AlreadyComplete => ScanReply {
            http_status: 400,
            status: String::from_str("error"),
            message: String::from_str("Déjà complet!"),
        },
        Packing::NotInOrder => ScanReply {
            http_status: 400,
            status: String::from_str("error"),
            message: String::from_str("ARTICLE INCORRECT"),
        },
    }
}

/// Builds the reply to a scan recorded outside any order.
pub fn recorded() -> (reply: ScanReply)
    ensures
        reply@ == recorded_reply(),
{
    ScanReply { http_status: 200, status: String::from_str("ok"), message: String::from_str("Scanné") }
}

} // verus!
