//! The order translator: stateless decisions turning an inbound order or
//! cancel into either an immediate response or a venue-native call, and
//! turning the venue call's outcome into the one protocol response owed.
//! Each request yields exactly one response; no step retries.
use vstd::prelude::*;
use vstd::string::StringExecFns;
use crate::VertexService;
use crate::decimal::to_x18_spec;
use crate::decimal::dec_to_x18;
use crate::codec::xoid_format_spec;
use crate::codec::xoid_decode_spec;
use crate::codec::format_exchange_order_id;
use crate::codec::decode_exchange_order_id;
use crate::codec::bytes_eq;
use crate::orderflow::Cancel;
use crate::orderflow::CancelReject;
use crate::orderflow::Order;
use crate::orderflow::OrderAck;
use crate::orderflow::OrderCanceled;
use crate::orderflow::OrderReject;
use crate::orderflow::OrderRejectReason;
use crate::orderflow::OrderType;
use crate::orderflow::Orderflow;
use crate::symbology::Asset;
use crate::symbology::PerpProduct;
use crate::symbology::SymbologyV;
use crate::symbology::exec_info_lookup;
use crate::symbology::lemma_exec_info_lookup_member;
use crate::symbology::lemma_remove_entry_key_members;
use crate::symbology::load_spec;
use crate::symbology::perp_fold;
use crate::symbology::perp_step;
use crate::symbology::remove_entry_key;
use crate::symbology::PerpStep;
use crate::text::lemma_parse_dec_str;
use crate::text::parse_u32;
use crate::text::parse_u32_spec;

verus! {

/// A venue order-placement call: product id and fixed-point amount and
/// price at 18 fractional digits.
#[derive(Clone, Copy, Debug, PartialEq, Eq, Structural)]
pub struct VenuePlaceCall {
    pub product_id: u32,
    pub amount_x18: i128,
    pub price_x18: i128,
}

/// What the place path decides before any venue call.
#[derive(Clone, Debug, PartialEq, Eq)]
pub enum PlaceStep {
    /// The response to emit; the venue is never called.
    Respond(Orderflow),
    /// The venue call to make.
    Invoke(VenuePlaceCall),
}

/// The venue order-placement call's tri-state outcome: a venue-assigned
/// identifier, a decline without a specific reason, or a call error.
#[derive(Clone, Debug, PartialEq, Eq)]
pub enum VenuePlaceOutcome {
    Placed(Vec<u8>),
    Declined,
    Failed(String),
}

/// A venue cancellation call carrying the one decoded identifier.
#[derive(Clone, Debug, PartialEq, Eq)]
pub struct VenueCancelCall {
    pub digest: Vec<u8>,
}

/// What the cancel path decides before any venue call.
#[derive(Clone, Debug, PartialEq, Eq)]
pub enum CancelStep {
    /// The response to emit; the venue is never called.
    Respond(Orderflow),
    /// The venue call to make.
    Invoke(VenueCancelCall),
}

/// The venue cancellation call's outcome: the list of identifiers actually
/// cancelled, a decline, or a call error.
#[derive(Clone, Debug, PartialEq, Eq)]
pub enum VenueCancelOutcome {
    Completed(Vec<Vec<u8>>),
    Declined,
    Failed(String),
}

/// What the place path decides for an order.
pub ghost enum PlaceDecision {
    /// A corrupt symbology entry: a structural failure, fatal to the
    /// request-handling path.
    Fatal,
    /// Reject with this reason and message; the venue is never called.
    Reject(OrderRejectReason, Seq<char>),
    /// Invoke the venue with these parameters.
    Invoke { product_id: u32, amount_x18: i128, price_x18: i128 },
}

/// The place path's decision chain, in order: symbology lookup, venue
/// product id, quantity conversion, order type, price conversion.
pub open spec fn place_decision_spec(sym: SymbologyV, order: Order) -> PlaceDecision {
    match exec_info_lookup(sym.execution_info, order.symbol@, order.execution_venue@) {
        None => PlaceDecision::Reject(
            OrderRejectReason::Unknown,
            "no execution info for symbol"@,
        ),
        Some(info) => match info.exchange_symbol {
            None => PlaceDecision::Fatal,
            Some(xs) => match parse_u32_spec(xs) {
                None => PlaceDecision::Fatal,
                Some(product_id) => match to_x18_spec(order.quantity) {
                    None => PlaceDecision::Reject(
                        OrderRejectReason::Unknown,
                        "unable to cast quantity"@,
                    ),
                    Some(amount_x18) => match order.order_type {
                        OrderType::Limit(limit) => if limit.post_only {
                            PlaceDecision::Reject(
                                OrderRejectReason::UnsupportedOrderType,
                                "unsupported post-only flag"@,
                            )
                        } else {
                            match to_x18_spec(limit.limit_price) {
                                None => PlaceDecision::Reject(
                                    OrderRejectReason::Unknown,
                                    "unable to cast price"@,
                                ),
                                Some(price_x18) => PlaceDecision::Invoke {
                                    product_id,
                                    amount_x18,
                                    price_x18,
                                },
                            }
                        },
                        _ => PlaceDecision::Reject(
                            OrderRejectReason::UnsupportedOrderType,
                            "unsupported order type"@,
                        ),
                    },
                },
            },
        },
    }
}

/// Builds the one reject a failed validation step owes.
pub fn order_reject(order_id: u64, reason: OrderRejectReason, message: &str) -> (r: Orderflow)
    ensures
        r matches Orderflow::OrderReject(rej) && rej.order_id == order_id && rej.reason == reason
            && (rej.message matches Some(m) && m@ == message@),
{
    Orderflow::OrderReject(
        OrderReject { order_id, reason, message: Some(String::from_str(message)) },
    )
}

/// Builds the one cancel reject a failed cancel step owes.
pub fn cancel_reject(cancel: &Cancel, message: &str) -> (r: Orderflow)
    ensures
        r matches Orderflow::CancelReject(cr) && cr.cancel_id == cancel.cancel_id && cr.order_id
            == cancel.order_id && (cr.message matches Some(m) && m@ == message@),
{
    Orderflow::CancelReject(
        CancelReject {
            cancel_id: cancel.cancel_id,
            order_id: cancel.order_id,
            message: Some(String::from_str(message)),
        },
    )
}

impl VertexService {
    /// Validates an order against the symbology snapshot and decides the
    /// place path: either the one reject owed, or the venue call to make.
    /// A symbology entry without a numeric venue product id is a structural
    /// failure and surfaces as an error, never as a reject.
    pub fn place_order(&self, order: &Order) -> (r: Result<PlaceStep, String>)
        requires
            order.wf(),
        ensures
            match place_decision_spec(self.vertex_symbology@, *order) {
                PlaceDecision::Fatal => r is Err,
                PlaceDecision::Reject(reason, msg) => r matches Ok(PlaceStep::Respond(
                    Orderflow::OrderReject(rej),
                )) && rej.order_id == order.id && rej.reason == reason && (rej.message
                    matches Some(m) && m@ == msg),
                PlaceDecision::Invoke { product_id, amount_x18, price_x18 } => r matches Ok(
                    PlaceStep::Invoke(c),
                ) && c.product_id == product_id && c.amount_x18 == amount_x18 && c.price_x18
                    == price_x18,
            },
    {
        let info = match self.vertex_symbology.lookup_execution_info(
            order.symbol.as_str(),
            order.execution_venue.as_str(),
        ) {
            Some(info) => info,
            None => {
                return Ok(
                    PlaceStep::Respond(
                        order_reject(
                            order.id,
                            OrderRejectReason::Unknown,
                            "no execution info for symbol",
                        ),
                    ),
                );
            },
        };
        let product_id: u32 = match &info.exchange_symbol {
            Some(s) => match parse_u32(s.as_str()) {
                Some(product_id) => product_id,
                None => {
                    return Err(String::from_str("venue product id for symbol is not numeric"));
                },
            },
            None => {
                return Err(String::from_str("unexpected no product id for symbol"));
            },
        };
        let amount_x18 = match dec_to_x18(&order.quantity) {
            Some(amount_x18) => amount_x18,
            None => {
                return Ok(
                    PlaceStep::Respond(
                        order_reject(order.id, OrderRejectReason::Unknown, "unable to cast quantity"),
                    ),
                );
            },
        };
        let limit = match order.order_type {
            OrderType::Limit(limit) => {
                if limit.post_only {
                    return Ok(
                        PlaceStep::Respond(
                            order_reject(
                                order.id,
                                OrderRejectReason::UnsupportedOrderType,
                                "unsupported post-only flag",
                            ),
                        ),
                    );
                }
                limit
            },
            _ => {
                return Ok(
                    PlaceStep::Respond(
                        order_reject(
                            order.id,
                            OrderRejectReason::UnsupportedOrderType,
                            "unsupported order type",
                        ),
                    ),
                );
            },
        };
        let price_x18 = match dec_to_x18(&limit.limit_price) {
            Some(price_x18) => price_x18,
            None => {
                return Ok(
                    PlaceStep::Respond(
                        order_reject(order.id, OrderRejectReason::Unknown, "unable to cast price"),
                    ),
                );
            },
        };
        Ok(PlaceStep::Invoke(VenuePlaceCall { product_id, amount_x18, price_x18 }))
    }
}

/// Maps the venue order-placement outcome to the one response owed: an ack
/// carrying the formatted exchange order id on success, a reject otherwise.
pub fn place_order_outcome(order_id: u64, outcome: &VenuePlaceOutcome) -> (r: Orderflow)
    ensures
        match *outcome {
            VenuePlaceOutcome::Placed(digest) => r matches Orderflow::OrderAck(ack)
                && ack.order_id == order_id && (ack.exchange_order_id matches Some(x) && x@
                == xoid_format_spec(digest@)),
            VenuePlaceOutcome::Declined => r matches Orderflow::OrderReject(rej) && rej.order_id
                == order_id && rej.reason == OrderRejectReason::Unknown && (rej.message
                matches Some(m) && m@ == "unable to place order"@),
            VenuePlaceOutcome::Failed(e) => r matches Orderflow::OrderReject(rej) && rej.order_id
                == order_id && rej.reason == OrderRejectReason::Unknown && (rej.message
                matches Some(m) && m@ == "unable to place order: "@ + e@),
        },
{
    match outcome {
        VenuePlaceOutcome::Placed(digest) => {
            let exchange_order_id = format_exchange_order_id(digest.as_slice());
            Orderflow::OrderAck(OrderAck { order_id, exchange_order_id: Some(exchange_order_id) })
        },
        VenuePlaceOutcome::Declined => order_reject(
            order_id,
            OrderRejectReason::Unknown,
            "unable to place order",
        ),
        VenuePlaceOutcome::Failed(e) => {
            let message = String::from_str("unable to place order: ").concat(e.as_str());
            Orderflow::OrderReject(
                OrderReject {
                    order_id,
                    reason: OrderRejectReason::Unknown,
                    message: Some(message),
                },
            )
        },
    }
}

/// What the cancel path decides for a cancel and the original order the
/// caller resolved for it.
pub ghost enum CancelDecision {
    /// Reject with this message; the venue is never called.
    Reject(Seq<char>),
    /// Invoke the venue with the one decoded identifier.
    Invoke(Seq<u8>),
}

/// The cancel path's decision chain: the original order must be supplied,
/// must carry an exchange order id, and that id must decode back into raw
/// identifier bytes.
pub open spec fn cancel_decision_spec(cancel: Cancel, original_order: Option<Order>) -> CancelDecision {
    match original_order {
        None => CancelDecision::Reject("no original order"@),
        Some(orig) => match orig.exchange_order_id {
            None => CancelDecision::Reject("no exchange order id"@),
            Some(xoid) => match xoid_decode_spec(xoid@) {
                None => CancelDecision::Reject("invalid exchange order id"@),
                Some(digest) => CancelDecision::Invoke(digest),
            },
        },
    }
}

impl VertexService {
    /// Decides the cancel path: either the one cancel reject owed, or the
    /// venue cancellation call carrying the decoded identifier.
    pub fn cancel_order(&self, cancel: &Cancel, original_order: &Option<Order>) -> (r: CancelStep)
        ensures
            match cancel_decision_spec(*cancel, *original_order) {
                CancelDecision::Reject(msg) => r matches CancelStep::Respond(
                    Orderflow::CancelReject(cr),
                ) && cr.cancel_id == cancel.cancel_id && cr.order_id == cancel.order_id
                    && (cr.message matches Some(m) && m@ == msg),
                CancelDecision::Invoke(digest) => r matches CancelStep::Invoke(c) && c.digest@
                    == digest,
            },
    {
        let orig = match original_order {
            Some(orig) => orig,
            None => {
                return CancelStep::Respond(cancel_reject(cancel, "no original order"));
            },
        };
        let xoid = match &orig.exchange_order_id {
            Some(xoid) => xoid,
            None => {
                return CancelStep::Respond(cancel_reject(cancel, "no exchange order id"));
            },
        };
        match decode_exchange_order_id(xoid.as_str()) {
            Some(digest) => CancelStep::Invoke(VenueCancelCall { digest }),
            None => CancelStep::Respond(cancel_reject(cancel, "invalid exchange order id")),
        }
    }
}

/// The one response a cancel owes, as the protocol sees it.
pub ghost enum CancelResponseV {
    Canceled { order_id: u64, cancel_id: Option<u64> },
    Rejected { cancel_id: u64, order_id: u64, message: Seq<char> },
}

/// The response owed for each venue cancellation outcome: the venue's list
/// of actually-cancelled identifiers must carry an exact match.
pub open spec fn cancel_outcome_spec(
    cancel: Cancel,
    original_order_id: u64,
    digest: Seq<u8>,
    outcome: VenueCancelOutcome,
) -> CancelResponseV {
    match outcome {
        VenueCancelOutcome::Completed(cancelled) => if exists|k: int|
            0 <= k < cancelled@.len() && (#[trigger] cancelled@[k])@ == digest {
            CancelResponseV::Canceled {
                order_id: original_order_id,
                cancel_id: Some(cancel.cancel_id),
            }
        } else {
            CancelResponseV::Rejected {
                cancel_id: cancel.cancel_id,
                order_id: cancel.order_id,
                message: "order didn't cancel"@,
            }
        },
        _ => CancelResponseV::Rejected {
            cancel_id: cancel.cancel_id,
            order_id: cancel.order_id,
            message: "unable to cancel order"@,
        },
    }
}

/// A response value carries exactly what a cancel-response shape states.
pub open spec fn matches_cancel_response(r: Orderflow, v: CancelResponseV) -> bool {
    match v {
        CancelResponseV::Canceled { order_id, cancel_id } => r matches Orderflow::OrderCanceled(
            oc,
        ) && oc.order_id == order_id && oc.cancel_id == cancel_id,
        CancelResponseV::Rejected { cancel_id, order_id, message } => r
            matches Orderflow::CancelReject(cr) && cr.cancel_id == cancel_id && cr.order_id
            == order_id && (cr.message matches Some(m) && m@ == message),
    }
}

/// Maps the venue cancellation outcome to the one response owed: a decline
/// or error rejects; a completed call is scanned for an exact identifier
/// match, and only a match confirms the cancel.
pub fn cancel_order_outcome(
    cancel: &Cancel,
    original_order_id: u64,
    digest: &Vec<u8>,
    outcome: &VenueCancelOutcome,
) -> (r: Orderflow)
    ensures
        matches_cancel_response(
            r,
            cancel_outcome_spec(*cancel, original_order_id, digest@, *outcome),
        ),
{
    match outcome {
        VenueCancelOutcome::Completed(cancelled) => {
            let mut k: usize = 0;
            while k < cancelled.len()
                invariant
                    k <= cancelled@.len(),
                    *outcome matches VenueCancelOutcome::Completed(c) && c == *cancelled,
                    forall|j: int| 0 <= j < k ==> (#[trigger] cancelled@[j])@ != digest@,
                decreases cancelled@.len() - k,
            {
                if bytes_eq(&cancelled[k], digest) {
                    proof {
                        assert(exists|j: int|
                            0 <= j < cancelled@.len() && (#[trigger] cancelled@[j])@ == digest@)
                            by {
                            assert((cancelled@[k as int])@ == digest@);
                        };
                    }
                    return Orderflow::OrderCanceled(
                        OrderCanceled {
                            order_id: original_order_id,
                            cancel_id: Some(cancel.cancel_id),
                        },
                    );
                }
                k = k + 1;
            }
            cancel_reject(cancel, "order didn't cancel")
        },
        VenueCancelOutcome::Declined => cancel_reject(cancel, "unable to cancel order"),
        VenueCancelOutcome::Failed(_) => cancel_reject(cancel, "unable to cancel order"),
    }
}

/// The cancel path end to end: the decision's immediate reject, or the
/// response its venue outcome owes.
pub open spec fn cancel_response_spec(
    cancel: Cancel,
    original_order: Option<Order>,
    outcome: VenueCancelOutcome,
) -> CancelResponseV {
    match cancel_decision_spec(cancel, original_order) {
        CancelDecision::Reject(msg) => CancelResponseV::Rejected {
            cancel_id: cancel.cancel_id,
            order_id: cancel.order_id,
            message: msg,
        },
        CancelDecision::Invoke(digest) => match original_order {
            Some(orig) => cancel_outcome_spec(cancel, orig.id, digest, outcome),
            None => CancelResponseV::Rejected {
                cancel_id: cancel.cancel_id,
                order_id: cancel.order_id,
                message: "no original order"@,
            },
        },
    }
}

/// For every cancel — whatever the original order supplied and, when the
/// venue is invoked, whatever its outcome — the cancel path owes exactly
/// one response, and it is an OrderCanceled or a CancelReject: never both,
/// never neither.
pub proof fn lemma_cancel_exactly_one(
    cancel: Cancel,
    original_order: Option<Order>,
    outcome: VenueCancelOutcome,
)
    ensures
        cancel_response_spec(cancel, original_order, outcome) is Canceled
            || cancel_response_spec(cancel, original_order, outcome) is Rejected,
        !(cancel_response_spec(cancel, original_order, outcome) is Canceled
            && cancel_response_spec(cancel, original_order, outcome) is Rejected),
{
}

/// For every order whose (symbol, venue) pair is absent from the loaded
/// symbology, the place path decides exactly one reject with reason
/// Unknown, and never the venue call.
pub proof fn lemma_place_unknown_symbol(sym: SymbologyV, order: Order)
    requires
        exec_info_lookup(sym.execution_info, order.symbol@, order.execution_venue@) is None,
    ensures
        place_decision_spec(sym, order) == PlaceDecision::Reject(
            OrderRejectReason::Unknown,
            "no execution info for symbol"@,
        ),
{
}

/// For every non-limit or post-only limit order that passes the earlier
/// steps of the chain — its symbology entry resolves with a numeric venue
/// product id and its quantity converts — the place path decides exactly
/// one reject with reason UnsupportedOrderType, and never the venue call.
pub proof fn lemma_place_unsupported_type(sym: SymbologyV, order: Order)
    requires
        exec_info_lookup(sym.execution_info, order.symbol@, order.execution_venue@) matches Some(
            info,
        ) && info.exchange_symbol matches Some(xs) && parse_u32_spec(xs) is Some,
        to_x18_spec(order.quantity) is Some,
        order.order_type matches OrderType::Limit(l) ==> l.post_only,
    ensures
        place_decision_spec(sym, order) matches PlaceDecision::Reject(reason, msg) && reason
            == OrderRejectReason::UnsupportedOrderType,
{
}

/// Every execution-info row a loaded snapshot holds carries an exchange
/// symbol that parses back to a venue product id.
proof fn lemma_perp_fold_symbols_parse(assets: Seq<Asset>, perps: Seq<PerpProduct>)
    ensures
        forall|i: int|
            0 <= i < perp_fold(assets, perps).1.len() ==> ((#[trigger] perp_fold(
                assets,
                perps,
            ).1[i]).info.exchange_symbol matches Some(xs) && parse_u32_spec(xs) is Some),
    decreases perps.len(),
{
    if perps.len() > 0 {
        lemma_perp_fold_symbols_parse(assets, perps.drop_last());
        let e = perp_fold(assets, perps).1;
        let rest = perp_fold(assets, perps.drop_last()).1;
        let item = perps.last();
        match perp_step(assets, item) {
            PerpStep::Skip => {},
            PerpStep::Full(tp, info) => {
                lemma_remove_entry_key_members(rest, tp.base, "VERTEX"@);
            },
        }
        assert forall|i: int|
            0 <= i < e.len() implies ((#[trigger] e[i]).info.exchange_symbol matches Some(xs)
            && parse_u32_spec(xs) is Some) by {
            match perp_step(assets, item) {
                PerpStep::Skip => {
                    assert(e[i] == rest[i]);
                },
                PerpStep::Full(tp, info) => {
                    let removed = remove_entry_key(rest, tp.base, "VERTEX"@);
                    if i < removed.len() {
                        assert(e[i] == removed[i]);
                        let j = choose|j: int| 0 <= j < rest.len() && rest[j] == removed[i];
                        assert(rest[j].info.exchange_symbol matches Some(xs) && parse_u32_spec(
                            xs,
                        ) is Some);
                    } else {
                        lemma_parse_dec_str(item.product_id);
                    }
                },
            }
        };
    }
}

/// On a snapshot the symbology loader built, the place path never takes
/// its structural-failure branch: the loader writes each exchange symbol
/// as the decimal rendering of its venue product id, and that rendering
/// always parses back.
pub proof fn lemma_place_never_fatal_on_loaded(
    assets: Seq<Asset>,
    perps: Seq<PerpProduct>,
    order: Order,
)
    ensures
        !(place_decision_spec(load_spec(assets, perps), order) is Fatal),
{
    let sym = load_spec(assets, perps);
    match exec_info_lookup(sym.execution_info, order.symbol@, order.execution_venue@) {
        None => {},
        Some(info) => {
            lemma_exec_info_lookup_member(
                sym.execution_info,
                order.symbol@,
                order.execution_venue@,
            );
            lemma_perp_fold_symbols_parse(assets, perps);
            let i = choose|i: int|
                0 <= i < sym.execution_info.len() && exec_info_lookup(
                    sym.execution_info,
                    order.symbol@,
                    order.execution_venue@,
                ) == Some((#[trigger] sym.execution_info[i]).info);
            assert(sym.execution_info[i].info == info);
            assert(perp_fold(assets, perps).1[i] == sym.execution_info[i]);
        },
    }
}

} // verus!
