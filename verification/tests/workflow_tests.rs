use marketplace_core::EscrowStatus;
use marketplace_core::MarketplaceApp;
use marketplace_core::MarketplaceAppError;
use marketplace_core::MarketplaceAppEvent;
use marketplace_core::Order;
use marketplace_core::Product;
use marketplace_core::SellerInfo;

fn approved_seller_app() -> MarketplaceApp {
    let mut app = MarketplaceApp::init();
    app.setup_marketplace(
        String::from("0xAdmin"),
        String::from("Shop"),
        String::from("tools"),
    )
    .unwrap();
    let seller_id = app
        .request_seller_access(
            String::from("0xA"),
            String::from("Acme"),
            String::from("tools"),
            String::from("sig"),
            100,
        )
        .unwrap();
    assert_eq!(seller_id, "seller_1");
    app.admin_approve_seller(seller_id, 110).unwrap();
    app
}

#[test]
fn setup_returns_confirmation_message() {
    let mut app = MarketplaceApp::init();
    let message = app
        .setup_marketplace(
            String::from("0xAdmin"),
            String::from("Shop"),
            String::from("tools"),
        )
        .unwrap();
    assert_eq!(message, "Marketplace 'Shop' initialized successfully");
    assert_eq!(app.get_admin_wallet(), "0xAdmin");
    let (admin, store, goods) = app.get_marketplace_info();
    assert_eq!(admin, "0xAdmin");
    assert_eq!(store, "Shop");
    assert_eq!(goods, "tools");
}

#[test]
fn request_approve_add_purchase_scenario() {
    // Submit a seller request for wallet 0xA, approve it, add a product
    // with three units, buy one: two units remain and a single pending
    // order exists.
    let mut app = approved_seller_app();
    let product_id = app
        .add_product(
            String::from("0xA"),
            String::from("Widget"),
            String::from("a widget"),
            3,
            String::from("10"),
            String::from("img"),
            String::from("tools"),
            String::from("ship"),
            String::from("sig"),
            120,
        )
        .unwrap();
    assert_eq!(product_id, "prod_1");
    let order_id = app
        .purchase_product(
            product_id.clone(),
            String::from("0xBuyer"),
            String::from("10"),
            String::from("sig"),
            130,
        )
        .unwrap();
    assert_eq!(order_id, "order_1");

    let products: Vec<(String, Product)> = app.get_products();
    assert_eq!(products.len(), 1);
    assert_eq!(products[0].0, "prod_1");
    assert_eq!(products[0].1.quantity, 2);
    assert_eq!(products[0].1.seller_id, "seller_1");

    let orders: Vec<(String, Order)> = app.get_orders();
    assert_eq!(orders.len(), 1);
    assert_eq!(orders[0].0, "order_1");
    assert_eq!(orders[0].1.escrow_status, EscrowStatus::Pending);
    assert_eq!(orders[0].1.buyer_wallet, "0xBuyer");
    assert_eq!(orders[0].1.product_id, "prod_1");
    assert_eq!(orders[0].1.seller_id, "seller_1");
    assert_eq!(orders[0].1.delivered_at, None);
}

#[test]
fn purchase_of_exhausted_product_fails_and_changes_nothing() {
    // A purchase against a product with no stock is rejected, creates no
    // order, and leaves the counters where they were.
    let mut app = approved_seller_app();
    let empty_id = app
        .add_product(
            String::from("0xA"),
            String::from("Gone"),
            String::from("sold out"),
            0,
            String::from("10"),
            String::from("img"),
            String::from("tools"),
            String::from("ship"),
            String::from("sig"),
            120,
        )
        .unwrap();
    let result = app.purchase_product(
        empty_id.clone(),
        String::from("0xBuyer"),
        String::from("10"),
        String::from("sig"),
        130,
    );
    assert_eq!(result, Err(MarketplaceAppError::InsufficientQuantity));
    assert_eq!(app.get_orders().len(), 0);
    let products = app.get_products();
    assert_eq!(products[0].1.quantity, 0);

    // The order counter did not move: the next successful purchase still
    // opens order_1, and the next product is still prod_2.
    let stocked_id = app
        .add_product(
            String::from("0xA"),
            String::from("Stocked"),
            String::from("in stock"),
            1,
            String::from("10"),
            String::from("img"),
            String::from("tools"),
            String::from("ship"),
            String::from("sig"),
            140,
        )
        .unwrap();
    assert_eq!(stocked_id, "prod_2");
    let order_id = app
        .purchase_product(
            stocked_id,
            String::from("0xBuyer"),
            String::from("10"),
            String::from("sig"),
            150,
        )
        .unwrap();
    assert_eq!(order_id, "order_1");
}

#[test]
fn purchase_of_unknown_product_reports_not_found() {
    let mut app = approved_seller_app();
    let result = app.purchase_product(
        String::from("prod_77"),
        String::from("0xBuyer"),
        String::from("10"),
        String::from("sig"),
        130,
    );
    assert_eq!(
        result,
        Err(MarketplaceAppError::ProductNotFound(String::from("prod_77")))
    );
}

#[test]
fn add_product_for_unknown_wallet_reports_seller_not_found() {
    let mut app = approved_seller_app();
    let result = app.add_product(
        String::from("0xNobody"),
        String::from("Widget"),
        String::from("a widget"),
        3,
        String::from("10"),
        String::from("img"),
        String::from("tools"),
        String::from("ship"),
        String::from("sig"),
        120,
    );
    assert_eq!(
        result,
        Err(MarketplaceAppError::SellerNotFound(String::from("0xNobody")))
    );
}

#[test]
fn approve_of_unknown_request_reports_seller_not_found() {
    let mut app = MarketplaceApp::init();
    let result = app.admin_approve_seller(String::from("seller_9"), 100);
    assert_eq!(
        result,
        Err(MarketplaceAppError::SellerNotFound(String::from("seller_9")))
    );
}

#[test]
fn get_order_of_unknown_id_reports_not_found() {
    // An id that was never created comes back as a typed error, not an
    // abort.
    let app = MarketplaceApp::init();
    let result = app.get_order(String::from("order_404"));
    assert_eq!(
        result.err(),
        Some(MarketplaceAppError::OrderNotFound(String::from("order_404")))
    );
}

#[test]
fn confirm_delivery_releases_escrow_once() {
    let mut app = approved_seller_app();
    let product_id = app
        .add_product(
            String::from("0xA"),
            String::from("Widget"),
            String::from("a widget"),
            3,
            String::from("10"),
            String::from("img"),
            String::from("tools"),
            String::from("ship"),
            String::from("sig"),
            120,
        )
        .unwrap();
    let order_id = app
        .purchase_product(
            product_id,
            String::from("0xBuyer"),
            String::from("10"),
            String::from("sig"),
            130,
        )
        .unwrap();
    app.confirm_delivery(order_id.clone(), String::from("sig"), 140)
        .unwrap();
    let order = app.get_order(order_id).unwrap();
    assert_eq!(order.escrow_status, EscrowStatus::Released);
    assert_eq!(order.delivered_at, Some(140));

    let missing = app.confirm_delivery(String::from("order_9"), String::from("sig"), 150);
    assert_eq!(
        missing,
        Err(MarketplaceAppError::OrderNotFound(String::from("order_9")))
    );
}

#[test]
fn delivery_payload_carries_order_buyer_and_amount() {
    let mut app = approved_seller_app();
    let product_id = app
        .add_product(
            String::from("0xA"),
            String::from("Widget"),
            String::from("a widget"),
            3,
            String::from("10"),
            String::from("img"),
            String::from("tools"),
            String::from("ship"),
            String::from("sig"),
            120,
        )
        .unwrap();
    let order_id = app
        .purchase_product(
            product_id,
            String::from("0xB"),
            String::from("10"),
            String::from("sig"),
            130,
        )
        .unwrap();
    let payload = app.get_delivery_payload(order_id).unwrap();
    assert_eq!(payload, "confirm/order_1?buyer=0xB&amount=10");

    let missing = app.get_delivery_payload(String::from("order_9"));
    assert_eq!(
        missing,
        Err(MarketplaceAppError::OrderNotFound(String::from("order_9")))
    );
}

#[test]
fn approval_is_idempotent_and_monotonic() {
    // Once approved, a request never returns to pending; a second approval
    // is a no-op and does not refresh the seller record.
    let mut app = approved_seller_app();
    let sellers_before: Vec<(String, SellerInfo)> = app.get_sellers();
    assert_eq!(sellers_before.len(), 1);
    assert_eq!(sellers_before[0].1.approved_at, 110);

    app.admin_approve_seller(String::from("seller_1"), 999)
        .unwrap();
    let sellers_after = app.get_sellers();
    assert_eq!(sellers_after.len(), 1);
    assert_eq!(sellers_after[0].1.approved_at, 110);
    assert_eq!(app.get_pending_seller_requests().len(), 0);
}

#[test]
fn pending_requests_are_filtered_and_id_ordered() {
    let mut app = MarketplaceApp::init();
    for (wallet, ts) in [("0xA", 100), ("0xB", 101), ("0xC", 102)] {
        app.request_seller_access(
            String::from(wallet),
            String::from("Co"),
            String::from("details"),
            String::from("sig"),
            ts,
        )
        .unwrap();
    }
    app.admin_approve_seller(String::from("seller_2"), 110)
        .unwrap();
    let pending = app.get_pending_seller_requests();
    assert_eq!(pending.len(), 2);
    assert_eq!(pending[0].id, "seller_1");
    assert_eq!(pending[1].id, "seller_3");
    assert!(!pending[0].approved);
    assert!(!pending[1].approved);
}

#[test]
fn events_record_each_transition_in_order() {
    let mut app = approved_seller_app();
    let events = app.events();
    assert_eq!(events.len(), 3);
    assert!(matches!(
        &events[0],
        MarketplaceAppEvent::MarketplaceInitialized { store_name, .. } if store_name == "Shop"
    ));
    assert!(matches!(
        &events[1],
        MarketplaceAppEvent::SellerRequested { seller_id, wallet }
            if seller_id == "seller_1" && wallet == "0xA"
    ));
    assert!(matches!(
        &events[2],
        MarketplaceAppEvent::SellerApproved { seller_id } if seller_id == "seller_1"
    ));
}

#[test]
fn events_cover_catalog_and_escrow_transitions() {
    let mut app = approved_seller_app();
    let product_id = app
        .add_product(
            String::from("0xA"),
            String::from("Widget"),
            String::from("a widget"),
            3,
            String::from("10"),
            String::from("img"),
            String::from("tools"),
            String::from("ship"),
            String::from("sig"),
            120,
        )
        .unwrap();
    let order_id = app
        .purchase_product(
            product_id,
            String::from("0xBuyer"),
            String::from("10"),
            String::from("sig"),
            130,
        )
        .unwrap();
    app.confirm_delivery(order_id, String::from("sig"), 140)
        .unwrap();
    let events = app.events();
    assert_eq!(events.len(), 6);
    assert!(matches!(
        &events[3],
        MarketplaceAppEvent::ProductAdded { product_id, seller_id }
            if product_id == "prod_1" && seller_id == "seller_1"
    ));
    assert!(matches!(
        &events[4],
        MarketplaceAppEvent::OrderCreated { order_id, buyer_wallet }
            if order_id == "order_1" && buyer_wallet == "0xBuyer"
    ));
    assert!(matches!(
        &events[5],
        MarketplaceAppEvent::DeliveryConfirmed { order_id } if order_id == "order_1"
    ));
}

#[test]
fn reconcile_request_applies_last_write_wins_even_to_approval() {
    // The request rule is plain last-write-wins on the timestamp: a remote
    // version written later wins even when it withdraws the approval. This
    // is the one path on which an approval does not survive.
    let mut app = approved_seller_app();
    let remote = marketplace_core::SellerRequest {
        id: String::from("seller_1"),
        wallet_address: String::from("0xA"),
        company_name: String::from("Acme"),
        company_details: String::from("tools"),
        signature: String::from("sig"),
        timestamp: 500,
        approved: false,
    };
    app.reconcile_seller_request(String::from("seller_1"), remote);
    let pending = app.get_pending_seller_requests();
    assert_eq!(pending.len(), 1);
    assert_eq!(pending[0].timestamp, 500);

    // A remote version written earlier loses, approved or not.
    let stale = marketplace_core::SellerRequest {
        id: String::from("seller_1"),
        wallet_address: String::from("0xA"),
        company_name: String::from("Old"),
        company_details: String::from("tools"),
        signature: String::from("sig"),
        timestamp: 10,
        approved: true,
    };
    app.reconcile_seller_request(String::from("seller_1"), stale);
    let still_pending = app.get_pending_seller_requests();
    assert_eq!(still_pending.len(), 1);
    assert_eq!(still_pending[0].timestamp, 500);
}

#[test]
fn replicas_converge_after_exchanging_seller_records() {
    // Two replicas approve the same seller request at different times,
    // then exchange their records: both converge to the later approval.
    let mut replica_a = MarketplaceApp::init();
    let mut replica_b = MarketplaceApp::init();
    for app in [&mut replica_a, &mut replica_b] {
        app.request_seller_access(
            String::from("0xA"),
            String::from("Acme"),
            String::from("tools"),
            String::from("sig"),
            100,
        )
        .unwrap();
    }
    replica_a
        .admin_approve_seller(String::from("seller_1"), 200)
        .unwrap();
    replica_b
        .admin_approve_seller(String::from("seller_1"), 300)
        .unwrap();

    let seller_from_a = replica_a.get_sellers().remove(0).1;
    let seller_from_b = replica_b.get_sellers().remove(0).1;
    replica_a.reconcile_seller(String::from("seller_1"), seller_from_b);
    replica_b.reconcile_seller(String::from("seller_1"), seller_from_a);

    let converged_a = replica_a.get_sellers().remove(0).1;
    let converged_b = replica_b.get_sellers().remove(0).1;
    assert_eq!(converged_a.approved_at, 300);
    assert_eq!(converged_b.approved_at, 300);
    assert_eq!(converged_a.id, converged_b.id);
    assert_eq!(converged_a.wallet_address, converged_b.wallet_address);
    assert_eq!(converged_a.company_name, converged_b.company_name);
}

#[test]
fn reconcile_adopts_out_of_band_entries_in_key_order() {
    // A product that another replica created is adopted as it came, and
    // listings stay deterministically ordered by id.
    let mut app = approved_seller_app();
    app.add_product(
        String::from("0xA"),
        String::from("Widget"),
        String::from("a widget"),
        3,
        String::from("10"),
        String::from("img"),
        String::from("tools"),
        String::from("ship"),
        String::from("sig"),
        120,
    )
    .unwrap();
    let remote = Product {
        id: String::from("item_7"),
        seller_id: String::from("seller_9"),
        name: String::from("Remote"),
        description: String::from("from elsewhere"),
        quantity: 5,
        price: String::from("3"),
        image_url: String::from("img"),
        category: String::from("tools"),
        shipping_info: String::from("ship"),
        created_at: 50,
    };
    app.reconcile_product(String::from("item_7"), remote);
    let products = app.get_products();
    assert_eq!(products.len(), 2);
    assert_eq!(products[0].0, "item_7");
    assert_eq!(products[1].0, "prod_1");
}

#[test]
fn reconcile_order_keeps_released_local_on_tie() {
    let mut app = approved_seller_app();
    let product_id = app
        .add_product(
            String::from("0xA"),
            String::from("Widget"),
            String::from("a widget"),
            3,
            String::from("10"),
            String::from("img"),
            String::from("tools"),
            String::from("ship"),
            String::from("sig"),
            120,
        )
        .unwrap();
    let order_id = app
        .purchase_product(
            product_id,
            String::from("0xB"),
            String::from("10"),
            String::from("sig"),
            130,
        )
        .unwrap();
    app.confirm_delivery(order_id.clone(), String::from("sig"), 140)
        .unwrap();

    // A concurrent, undelivered version of the same order created at the
    // same time does not undo the release.
    let mut remote = app.get_order(order_id.clone()).unwrap();
    remote.escrow_status = EscrowStatus::Pending;
    remote.delivered_at = None;
    app.reconcile_order(order_id.clone(), remote);
    let kept = app.get_order(order_id).unwrap();
    assert_eq!(kept.escrow_status, EscrowStatus::Released);
    assert_eq!(kept.delivered_at, Some(140));
}

#[test]
fn id_rendering_appends_the_counter_in_decimal() {
    assert_eq!(marketplace_core::text::make_id("seller_", 1), "seller_1");
    assert_eq!(marketplace_core::text::make_id("order_", 1234), "order_1234");
    assert_eq!(marketplace_core::text::make_id("x_", 0), "x_0");
    assert_eq!(
        marketplace_core::text::make_id("p_", u64::MAX),
        "p_18446744073709551615"
    );
}

#[test]
fn string_order_is_lexicographic() {
    assert!(marketplace_core::text::str_lt("", "a"));
    assert!(marketplace_core::text::str_lt("a", "b"));
    assert!(marketplace_core::text::str_lt("ab", "b"));
    assert!(marketplace_core::text::str_lt("prod_1", "prod_10"));
    assert!(!marketplace_core::text::str_lt("b", "ab"));
    assert!(!marketplace_core::text::str_lt("a", "a"));
}
