//! The canonical protocol's order-flow vocabulary: orders, cancels, the
//! inbound request union, and the response variants the connector emits.
use vstd::prelude::*;
use crate::decimal::Dec;

verus! {

/// Parameters of a limit order.
#[derive(Clone, Copy, Debug, PartialEq, Eq, Structural)]
pub struct LimitParams {
    pub limit_price: Dec,
    pub post_only: bool,
}

/// The order types the protocol can carry; this connector supports only
/// plain limit orders without the post-only flag.
#[derive(Clone, Copy, Debug, PartialEq, Eq, Structural)]
pub enum OrderType {
    Limit(LimitParams),
    Market,
}

/// A canonical order, immutable once submitted to the dispatcher.
#[derive(Clone, Debug, PartialEq, Eq)]
pub struct Order {
    pub id: u64,
    pub symbol: String,
    pub execution_venue: String,
    pub quantity: Dec,
    pub order_type: OrderType,
    pub exchange_order_id: Option<String>,
}

impl Order {
    /// Validity of the decimals an order carries.
    pub open spec fn wf(self) -> bool {
        &&& self.quantity.wf()
        &&& (self.order_type matches OrderType::Limit(l) ==> l.limit_price.wf())
    }
}

/// A request to cancel a previously placed order, referencing it by id.
#[derive(Clone, Copy, Debug, PartialEq, Eq, Structural)]
pub struct Cancel {
    pub cancel_id: u64,
    pub order_id: u64,
}

/// The coarse reason code of an order reject.
#[derive(Clone, Copy, Debug, PartialEq, Eq, Structural)]
pub enum OrderRejectReason {
    Unknown,
    UnsupportedOrderType,
}

#[derive(Clone, Debug, PartialEq, Eq)]
pub struct OrderAck {
    pub order_id: u64,
    pub exchange_order_id: Option<String>,
}

#[derive(Clone, Debug, PartialEq, Eq)]
pub struct OrderReject {
    pub order_id: u64,
    pub reason: OrderRejectReason,
    pub message: Option<String>,
}

#[derive(Clone, Debug, PartialEq, Eq)]
pub struct OrderCanceled {
    pub order_id: u64,
    pub cancel_id: Option<u64>,
}

#[derive(Clone, Debug, PartialEq, Eq)]
pub struct CancelReject {
    pub cancel_id: u64,
    pub order_id: u64,
    pub message: Option<String>,
}

/// A protocol response on the order-flow stream.
#[derive(Clone, Debug, PartialEq, Eq)]
pub enum Orderflow {
    OrderAck(OrderAck),
    OrderReject(OrderReject),
    OrderCanceled(OrderCanceled),
    CancelReject(CancelReject),
}

/// The inbound request union the transport hands the dispatcher.
#[derive(Clone, Debug, PartialEq, Eq)]
pub enum CptyRequest {
    Login,
    Logout,
    PlaceOrder(Order),
    CancelOrder { cancel: Cancel, original_order: Option<Order> },
}

/// What the dispatcher does for one inbound request.
#[derive(Clone, Debug, PartialEq, Eq)]
pub enum RequestAction {
    /// Login and Logout are accepted but produce no action.
    NoAction,
    /// Drive the order translator's place path.
    Place(Order),
    /// Drive the order translator's cancel path.
    CancelWith { cancel: Cancel, original_order: Option<Order> },
}

/// The dispatcher's decision for one inbound request: only orders and
/// cancels drive the order translator.
pub fn classify_request(req: CptyRequest) -> (r: RequestAction)
    ensures
        match req {
            CptyRequest::Login => r is NoAction,
            CptyRequest::Logout => r is NoAction,
            CptyRequest::PlaceOrder(o) => r matches RequestAction::Place(p) && p == o,
            CptyRequest::CancelOrder { cancel, original_order } => r
                matches RequestAction::CancelWith { cancel: c, original_order: oo } && c == cancel
                && oo == original_order,
        },
{
    match req {
        CptyRequest::Login => RequestAction::NoAction,
        CptyRequest::Logout => RequestAction::NoAction,
        CptyRequest::PlaceOrder(o) => RequestAction::Place(o),
        CptyRequest::CancelOrder { cancel, original_order } => RequestAction::CancelWith {
            cancel,
            original_order,
        },
    }
}

} // verus!
