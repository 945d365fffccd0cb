use vertex_cpty::VertexService;
use vertex_cpty::codec::{decode_exchange_order_id, format_exchange_order_id};
use vertex_cpty::decimal::{dec_from_x18, dec_to_x18, Dec, MAX_MANTISSA};
use vertex_cpty::order_entry::{
    cancel_order_outcome, place_order_outcome, CancelStep, PlaceStep, VenueCancelOutcome,
    VenuePlaceOutcome,
};
use vertex_cpty::orderflow::{
    classify_request, Cancel, CptyRequest, LimitParams, Order, OrderRejectReason, OrderType,
    Orderflow, RequestAction,
};
use vertex_cpty::positions::{CptyResponse, RawBalance, SubaccountInfo};
use vertex_cpty::symbology::{
    load_symbology, Asset, MinOrderQuantityUnit, PerpProduct, ProductCatalog, SpotProduct,
};

fn dec(mantissa: i128, scale: u32) -> Dec {
    Dec { mantissa, scale }
}

fn sample_assets() -> Vec<Asset> {
    vec![
        Asset {
            product_id: 0,
            symbol: "USDC".to_string(),
            market_type: Some("spot".to_string()),
            ticker_id: None,
        },
        Asset {
            product_id: 7,
            symbol: "BTC".to_string(),
            market_type: Some("perp".to_string()),
            ticker_id: Some("BTC-PERP_USDC".to_string()),
        },
    ]
}

fn sample_catalog() -> ProductCatalog {
    ProductCatalog {
        spot_products: vec![SpotProduct { product_id: 0 }],
        perp_products: vec![PerpProduct {
            product_id: 7,
            price_increment_x18: 100_000_000_000_000_000,
            size_increment: 1_000_000_000_000_000,
            min_size: 10_000_000_000_000_000,
        }],
    }
}

fn sample_service() -> VertexService {
    VertexService {
        account_id: "test-account".to_string(),
        vertex_symbology: load_symbology(&sample_assets(), &sample_catalog()),
    }
}

fn limit_order(id: u64, symbol: &str, quantity: Dec, price: Dec, post_only: bool) -> Order {
    Order {
        id,
        symbol: symbol.to_string(),
        execution_venue: "VERTEX".to_string(),
        quantity,
        order_type: OrderType::Limit(LimitParams { limit_price: price, post_only }),
        exchange_order_id: None,
    }
}

fn expect_order_reject(r: &Orderflow, order_id: u64, reason: OrderRejectReason, message: &str) {
    match r {
        Orderflow::OrderReject(rej) => {
            assert_eq!(rej.order_id, order_id);
            assert_eq!(rej.reason, reason);
            assert_eq!(rej.message, Some(message.to_string()));
        }
        other => panic!("expected an order reject, got {:?}", other),
    }
}

fn expect_cancel_reject(r: &Orderflow, cancel: &Cancel, message: &str) {
    match r {
        Orderflow::CancelReject(cr) => {
            assert_eq!(cr.cancel_id, cancel.cancel_id);
            assert_eq!(cr.order_id, cancel.order_id);
            assert_eq!(cr.message, Some(message.to_string()));
        }
        other => panic!("expected a cancel reject, got {:?}", other),
    }
}

#[test]
fn perp_symbology_snapshot() {
    let snapshot = load_symbology(&sample_assets(), &sample_catalog());
    assert_eq!(snapshot.products.len(), 1);
    assert_eq!(snapshot.products[0].0, 0);
    assert_eq!(snapshot.products[0].1.symbol, "USDC");
    assert_eq!(snapshot.tradable_products.len(), 1);
    assert_eq!(snapshot.tradable_products[0].0, 7);
    assert_eq!(snapshot.tradable_products[0].1.base, "BTC-USDC");
    assert_eq!(snapshot.tradable_products[0].1.quote, "USDC");
    assert_eq!(snapshot.execution_info.len(), 1);
    let entry = &snapshot.execution_info[0];
    assert_eq!(entry.product.base, "BTC-USDC");
    assert_eq!(entry.venue, "VERTEX");
    assert_eq!(entry.info.execution_venue, "VERTEX");
    assert_eq!(entry.info.exchange_symbol, Some("7".to_string()));
    assert_eq!(entry.info.tick_size, dec(1, 1));
    assert_eq!(entry.info.step_size, dec(1, 3));
    assert_eq!(entry.info.min_order_quantity, dec(1, 2));
    assert_eq!(entry.info.min_order_quantity_unit, MinOrderQuantityUnit::Base);
    assert!(!entry.info.is_delisted);
    assert_eq!(entry.info.initial_margin, None);
    assert_eq!(entry.info.maintenance_margin, None);
}

#[test]
fn symbology_load_deterministic() {
    let s1 = load_symbology(&sample_assets(), &sample_catalog());
    let s2 = load_symbology(&sample_assets(), &sample_catalog());
    assert_eq!(s1, s2);
}

#[test]
fn symbology_invalid_fixed_point_excluded() {
    let mut catalog = sample_catalog();
    catalog.perp_products[0].price_increment_x18 = MAX_MANTISSA + 1;
    let snapshot = load_symbology(&sample_assets(), &catalog);
    assert!(snapshot.tradable_products.is_empty());
    assert!(snapshot.execution_info.is_empty());
}

#[test]
fn symbology_unrecognized_tag_defaults_to_spot() {
    let assets = vec![
        Asset {
            product_id: 3,
            symbol: "WETH".to_string(),
            market_type: Some("futures".to_string()),
            ticker_id: None,
        },
        Asset {
            product_id: 4,
            symbol: "WBTC".to_string(),
            market_type: None,
            ticker_id: None,
        },
        Asset {
            product_id: 5,
            symbol: "SKIPPED".to_string(),
            market_type: Some("perp".to_string()),
            ticker_id: None,
        },
    ];
    let catalog = ProductCatalog { spot_products: vec![], perp_products: vec![] };
    let snapshot = load_symbology(&assets, &catalog);
    assert_eq!(snapshot.products.len(), 2);
    assert_eq!(snapshot.products[0].0, 3);
    assert_eq!(snapshot.products[0].1.symbol, "WETH");
    assert_eq!(snapshot.products[1].0, 4);
    assert_eq!(snapshot.products[1].1.symbol, "WBTC");
}

#[test]
fn symbology_negative_book_parameter_excluded() {
    let mut catalog = sample_catalog();
    catalog.perp_products[0].min_size = -1;
    let snapshot = load_symbology(&sample_assets(), &catalog);
    assert!(snapshot.tradable_products.is_empty());
    assert!(snapshot.execution_info.is_empty());
}

#[test]
fn symbology_duplicate_keys_keep_last_row() {
    let mut assets = sample_assets();
    assets.push(Asset {
        product_id: 0,
        symbol: "USDC2".to_string(),
        market_type: Some("spot".to_string()),
        ticker_id: None,
    });
    let mut catalog = sample_catalog();
    catalog.perp_products.push(PerpProduct {
        product_id: 7,
        price_increment_x18: 200_000_000_000_000_000,
        size_increment: 1_000_000_000_000_000,
        min_size: 10_000_000_000_000_000,
    });
    let snapshot = load_symbology(&assets, &catalog);
    assert_eq!(snapshot.products.len(), 1);
    assert_eq!(snapshot.products[0].0, 0);
    assert_eq!(snapshot.products[0].1.symbol, "USDC2");
    assert_eq!(snapshot.tradable_products.len(), 1);
    assert_eq!(snapshot.tradable_products[0].0, 7);
    assert_eq!(snapshot.execution_info.len(), 1);
    assert_eq!(snapshot.execution_info[0].info.tick_size, dec(2, 1));
}

#[test]
fn symbology_skips_unknown_and_bad_tickers() {
    let mut assets = sample_assets();
    assets.push(Asset {
        product_id: 11,
        symbol: "ETH".to_string(),
        market_type: Some("perp".to_string()),
        ticker_id: Some("ETH-PERP_USDT".to_string()),
    });
    let mut catalog = sample_catalog();
    catalog.perp_products.push(PerpProduct {
        product_id: 9,
        price_increment_x18: 1,
        size_increment: 1,
        min_size: 1,
    });
    catalog.perp_products.push(PerpProduct {
        product_id: 11,
        price_increment_x18: 1,
        size_increment: 1,
        min_size: 1,
    });
    let snapshot = load_symbology(&assets, &catalog);
    assert_eq!(snapshot.tradable_products.len(), 1);
    assert_eq!(snapshot.tradable_products[0].0, 7);
    assert_eq!(snapshot.execution_info.len(), 1);
}

#[test]
fn place_success_ack_hex() {
    let service = sample_service();
    let order = limit_order(1, "BTC-USDC", dec(15, 1), dec(2000025, 2), false);
    let step = service.place_order(&order).unwrap();
    match step {
        PlaceStep::Invoke(call) => {
            assert_eq!(call.product_id, 7);
            assert_eq!(call.amount_x18, 1_500_000_000_000_000_000);
            assert_eq!(call.price_x18, 20_000_250_000_000_000_000_000);
        }
        other => panic!("expected a venue call, got {:?}", other),
    }
    let digest = vec![0xABu8; 32];
    let response = place_order_outcome(order.id, &VenuePlaceOutcome::Placed(digest));
    match response {
        Orderflow::OrderAck(ack) => {
            assert_eq!(ack.order_id, 1);
            let expected = format!("0x{}", "ab".repeat(32));
            assert_eq!(ack.exchange_order_id, Some(expected));
        }
        other => panic!("expected an ack, got {:?}", other),
    }
}

#[test]
fn place_unknown_symbol_rejects() {
    let service = sample_service();
    let order = limit_order(2, "ETH-USDC", dec(1, 0), dec(1, 0), false);
    match service.place_order(&order).unwrap() {
        PlaceStep::Respond(r) => expect_order_reject(
            &r,
            2,
            OrderRejectReason::Unknown,
            "no execution info for symbol",
        ),
        other => panic!("expected a reject, got {:?}", other),
    }
}

#[test]
fn place_unknown_venue_rejects() {
    let service = sample_service();
    let mut order = limit_order(3, "BTC-USDC", dec(1, 0), dec(1, 0), false);
    order.execution_venue = "OTHER".to_string();
    match service.place_order(&order).unwrap() {
        PlaceStep::Respond(r) => expect_order_reject(
            &r,
            3,
            OrderRejectReason::Unknown,
            "no execution info for symbol",
        ),
        other => panic!("expected a reject, got {:?}", other),
    }
}

#[test]
fn place_unsupported_order_type() {
    let service = sample_service();
    let mut market = limit_order(4, "BTC-USDC", dec(1, 0), dec(1, 0), false);
    market.order_type = OrderType::Market;
    match service.place_order(&market).unwrap() {
        PlaceStep::Respond(r) => expect_order_reject(
            &r,
            4,
            OrderRejectReason::UnsupportedOrderType,
            "unsupported order type",
        ),
        other => panic!("expected a reject, got {:?}", other),
    }
    let post_only = limit_order(5, "BTC-USDC", dec(1, 0), dec(1, 0), true);
    match service.place_order(&post_only).unwrap() {
        PlaceStep::Respond(r) => expect_order_reject(
            &r,
            5,
            OrderRejectReason::UnsupportedOrderType,
            "unsupported post-only flag",
        ),
        other => panic!("expected a reject, got {:?}", other),
    }
}

#[test]
fn place_cast_failures() {
    let service = sample_service();
    let order = limit_order(6, "BTC-USDC", dec(1, 28), dec(1, 0), false);
    match service.place_order(&order).unwrap() {
        PlaceStep::Respond(r) => {
            expect_order_reject(&r, 6, OrderRejectReason::Unknown, "unable to cast quantity")
        }
        other => panic!("expected a reject, got {:?}", other),
    }
    let order = limit_order(7, "BTC-USDC", dec(1, 0), dec(1, 28), false);
    match service.place_order(&order).unwrap() {
        PlaceStep::Respond(r) => {
            expect_order_reject(&r, 7, OrderRejectReason::Unknown, "unable to cast price")
        }
        other => panic!("expected a reject, got {:?}", other),
    }
    let order = limit_order(8, "BTC-USDC", dec(MAX_MANTISSA, 0), dec(1, 0), false);
    match service.place_order(&order).unwrap() {
        PlaceStep::Respond(r) => {
            expect_order_reject(&r, 8, OrderRejectReason::Unknown, "unable to cast quantity")
        }
        other => panic!("expected a reject, got {:?}", other),
    }
}

#[test]
fn place_venue_decline_and_error() {
    let declined = place_order_outcome(9, &VenuePlaceOutcome::Declined);
    expect_order_reject(&declined, 9, OrderRejectReason::Unknown, "unable to place order");
    let failed = place_order_outcome(9, &VenuePlaceOutcome::Failed("boom".to_string()));
    expect_order_reject(&failed, 9, OrderRejectReason::Unknown, "unable to place order: boom");
}

#[test]
fn place_fatal_on_corrupt_symbology() {
    let mut service = sample_service();
    service.vertex_symbology.execution_info[0].info.exchange_symbol = Some("x7".to_string());
    let order = limit_order(10, "BTC-USDC", dec(1, 0), dec(1, 0), false);
    assert!(service.place_order(&order).is_err());
    service.vertex_symbology.execution_info[0].info.exchange_symbol = None;
    assert!(service.place_order(&order).is_err());
}

#[test]
fn cancel_round_trip() {
    let service = sample_service();
    let cancel = Cancel { cancel_id: 21, order_id: 1 };
    let mut original = limit_order(1, "BTC-USDC", dec(1, 0), dec(1, 0), false);
    original.exchange_order_id = Some(format!("0x{}", "ab".repeat(32)));
    let digest = match service.cancel_order(&cancel, &Some(original.clone())) {
        CancelStep::Invoke(call) => {
            assert_eq!(call.digest, vec![0xABu8; 32]);
            call.digest
        }
        other => panic!("expected a venue call, got {:?}", other),
    };
    let response = cancel_order_outcome(
        &cancel,
        original.id,
        &digest,
        &VenueCancelOutcome::Completed(vec![vec![0x01u8; 32], digest.clone()]),
    );
    match response {
        Orderflow::OrderCanceled(oc) => {
            assert_eq!(oc.order_id, 1);
            assert_eq!(oc.cancel_id, Some(21));
        }
        other => panic!("expected an order canceled, got {:?}", other),
    }
}

#[test]
fn cancel_decode_failure() {
    let service = sample_service();
    let cancel = Cancel { cancel_id: 22, order_id: 2 };
    let mut original = limit_order(2, "BTC-USDC", dec(1, 0), dec(1, 0), false);
    original.exchange_order_id = Some(format!("0x{}", "zz".repeat(32)));
    match service.cancel_order(&cancel, &Some(original.clone())) {
        CancelStep::Respond(r) => expect_cancel_reject(&r, &cancel, "invalid exchange order id"),
        other => panic!("expected a reject, got {:?}", other),
    }
    original.exchange_order_id = Some("ab".repeat(32));
    match service.cancel_order(&cancel, &Some(original.clone())) {
        CancelStep::Respond(r) => expect_cancel_reject(&r, &cancel, "invalid exchange order id"),
        other => panic!("expected a reject, got {:?}", other),
    }
    original.exchange_order_id = Some("0xabcd".to_string());
    match service.cancel_order(&cancel, &Some(original)) {
        CancelStep::Respond(r) => expect_cancel_reject(&r, &cancel, "invalid exchange order id"),
        other => panic!("expected a reject, got {:?}", other),
    }
}

#[test]
fn cancel_missing_order_or_id() {
    let service = sample_service();
    let cancel = Cancel { cancel_id: 23, order_id: 3 };
    match service.cancel_order(&cancel, &None) {
        CancelStep::Respond(r) => expect_cancel_reject(&r, &cancel, "no original order"),
        other => panic!("expected a reject, got {:?}", other),
    }
    let original = limit_order(3, "BTC-USDC", dec(1, 0), dec(1, 0), false);
    match service.cancel_order(&cancel, &Some(original)) {
        CancelStep::Respond(r) => expect_cancel_reject(&r, &cancel, "no exchange order id"),
        other => panic!("expected a reject, got {:?}", other),
    }
}

#[test]
fn cancel_venue_outcomes() {
    let cancel = Cancel { cancel_id: 24, order_id: 4 };
    let digest = vec![0xABu8; 32];
    let no_match = cancel_order_outcome(
        &cancel,
        4,
        &digest,
        &VenueCancelOutcome::Completed(vec![vec![0x01u8; 32]]),
    );
    expect_cancel_reject(&no_match, &cancel, "order didn't cancel");
    let empty = cancel_order_outcome(&cancel, 4, &digest, &VenueCancelOutcome::Completed(vec![]));
    expect_cancel_reject(&empty, &cancel, "order didn't cancel");
    let declined = cancel_order_outcome(&cancel, 4, &digest, &VenueCancelOutcome::Declined);
    expect_cancel_reject(&declined, &cancel, "unable to cancel order");
    let failed = cancel_order_outcome(
        &cancel,
        4,
        &digest,
        &VenueCancelOutcome::Failed("oops".to_string()),
    );
    expect_cancel_reject(&failed, &cancel, "unable to cancel order");
}

#[test]
fn account_summary_keeps_only_positive() {
    let service = sample_service();
    let info = SubaccountInfo {
        spot_balances: vec![
            RawBalance { product_id: 0, amount: 5_000_000_000_000_000_000 },
            RawBalance { product_id: 0, amount: 0 },
            RawBalance { product_id: 0, amount: -3_000_000_000_000_000_000 },
            RawBalance { product_id: 9, amount: 1_000_000_000_000_000_000 },
        ],
        perp_balances: vec![
            RawBalance { product_id: 7, amount: 2_500_000_000_000_000_000 },
            RawBalance { product_id: 7, amount: -1 },
        ],
    };
    match service.update_account_summary(&info, 1_700_000_000, 123_456_789) {
        CptyResponse::UpdateAccountSummary(summary) => {
            assert_eq!(summary.account, "test-account");
            assert_eq!(summary.timestamp, 1_700_000_000);
            assert_eq!(summary.timestamp_ns, 123_456_789);
            assert!(summary.is_snapshot);
            assert_eq!(summary.balances.len(), 1);
            assert_eq!(summary.balances[0].0.symbol, "USDC");
            assert_eq!(summary.balances[0].1, dec(5, 0));
            assert_eq!(summary.positions.len(), 1);
            assert_eq!(summary.positions[0].0.base, "BTC-USDC");
            assert_eq!(summary.positions[0].1, dec(25, 1));
            for (_, q) in &summary.balances {
                assert!(q.mantissa > 0);
            }
            for (_, q) in &summary.positions {
                assert!(q.mantissa > 0);
            }
        }
        other => panic!("expected an account summary, got {:?}", other),
    }
}

#[test]
fn account_summary_drops_unconvertible_amounts() {
    let service = sample_service();
    let info = SubaccountInfo {
        spot_balances: vec![RawBalance { product_id: 0, amount: MAX_MANTISSA + 1 }],
        perp_balances: vec![RawBalance { product_id: 7, amount: MAX_MANTISSA + 1 }],
    };
    match service.update_account_summary(&info, 0, 0) {
        CptyResponse::UpdateAccountSummary(summary) => {
            assert!(summary.balances.is_empty());
            assert!(summary.positions.is_empty());
        }
        other => panic!("expected an account summary, got {:?}", other),
    }
}

#[test]
fn decimal_matches_reference() {
    let samples: Vec<i128> = vec![
        0,
        1,
        -1,
        100_000_000_000_000_000,
        1_500_000_000_000_000_000,
        123_456_789,
        -42_000_000_000_000_000_000,
        MAX_MANTISSA,
        -MAX_MANTISSA,
    ];
    for raw in samples {
        let ours = dec_from_x18(raw).unwrap();
        let reference = rust_decimal::Decimal::try_from_i128_with_scale(raw, 18)
            .unwrap()
            .normalize();
        assert_eq!(ours.mantissa, reference.mantissa(), "mantissa for {}", raw);
        assert_eq!(ours.scale, reference.scale(), "scale for {}", raw);
    }
    assert!(dec_from_x18(MAX_MANTISSA + 1).is_none());
    assert!(rust_decimal::Decimal::try_from_i128_with_scale(MAX_MANTISSA + 1, 18).is_err());
    assert!(dec_from_x18(-MAX_MANTISSA - 1).is_none());
}

#[test]
fn decimal_fixed_point_conversions() {
    assert_eq!(dec_from_x18(100_000_000_000_000_000), Some(dec(1, 1)));
    assert_eq!(dec_from_x18(0), Some(dec(0, 0)));
    assert_eq!(dec_from_x18(-2_000_000_000_000_000_000), Some(dec(-2, 0)));
    assert_eq!(dec_to_x18(&dec(15, 1)), Some(1_500_000_000_000_000_000));
    assert_eq!(dec_to_x18(&dec(2000025, 2)), Some(20_000_250_000_000_000_000_000));
    assert_eq!(dec_to_x18(&dec(0, 0)), Some(0));
    assert_eq!(dec_to_x18(&dec(1, 28)), None);
    assert_eq!(dec_to_x18(&dec(MAX_MANTISSA, 0)), None);
    assert_eq!(dec_to_x18(&dec(10_000_000_000, 28)), Some(1));
    assert_eq!(dec_to_x18(&dec(-10_000_000_000, 28)), Some(-1));
    let round_trips: Vec<i128> = vec![0, 1, -1, 100_000_000_000_000_000, MAX_MANTISSA, -MAX_MANTISSA];
    for raw in round_trips {
        assert_eq!(dec_to_x18(&dec_from_x18(raw).unwrap()), Some(raw));
    }
}

#[test]
fn exchange_order_id_codec() {
    let digest: Vec<u8> = (0u8..32).collect();
    let formatted = format_exchange_order_id(&digest);
    assert!(formatted.starts_with("0x"));
    assert_eq!(formatted.len(), 2 + 64);
    assert_eq!(&formatted[2..6], "0001");
    let decoded = decode_exchange_order_id(&formatted).unwrap();
    assert_eq!(decoded, digest);
    let upper = formatted.to_uppercase().replace("0X", "0x");
    assert_eq!(decode_exchange_order_id(&upper).unwrap(), digest);
    assert!(decode_exchange_order_id("0x").is_none());
    assert!(decode_exchange_order_id("").is_none());
}

#[test]
fn classify_request_routes() {
    assert_eq!(classify_request(CptyRequest::Login), RequestAction::NoAction);
    assert_eq!(classify_request(CptyRequest::Logout), RequestAction::NoAction);
    let order = limit_order(30, "BTC-USDC", dec(1, 0), dec(1, 0), false);
    assert_eq!(
        classify_request(CptyRequest::PlaceOrder(order.clone())),
        RequestAction::Place(order.clone())
    );
    let cancel = Cancel { cancel_id: 31, order_id: 30 };
    assert_eq!(
        classify_request(CptyRequest::CancelOrder {
            cancel,
            original_order: Some(order.clone())
        }),
        RequestAction::CancelWith { cancel, original_order: Some(order) }
    );
}
