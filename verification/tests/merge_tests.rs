use marketplace_core::EscrowStatus;
use marketplace_core::Mergeable;
use marketplace_core::Order;
use marketplace_core::Product;
use marketplace_core::SellerInfo;
use marketplace_core::SellerRequest;

fn request(ts: u64, wallet: &str) -> SellerRequest {
    SellerRequest {
        id: String::from("seller_1"),
        wallet_address: String::from(wallet),
        company_name: String::from("Acme"),
        company_details: String::from("tools"),
        signature: String::from("sig"),
        timestamp: ts,
        approved: false,
    }
}

fn seller(ts: u64, name: &str) -> SellerInfo {
    SellerInfo {
        id: String::from("seller_1"),
        wallet_address: String::from("0xA"),
        company_name: String::from(name),
        company_details: String::from("tools"),
        approved_at: ts,
    }
}

fn product(ts: u64, qty: u32) -> Product {
    Product {
        id: String::from("prod_1"),
        seller_id: String::from("seller_1"),
        name: String::from("Widget"),
        description: String::from("a widget"),
        quantity: qty,
        price: String::from("10"),
        image_url: String::from("img"),
        category: String::from("tools"),
        shipping_info: String::from("ship"),
        created_at: ts,
    }
}

fn order(ts: u64, delivered: Option<u64>) -> Order {
    Order {
        id: String::from("order_1"),
        buyer_wallet: String::from("0xB"),
        product_id: String::from("prod_1"),
        seller_id: String::from("seller_1"),
        amount: String::from("10"),
        escrow_status: EscrowStatus::Pending,
        qr_payload: String::from("payload"),
        created_at: ts,
        delivered_at: delivered,
    }
}

#[test]
fn seller_request_merge_is_idempotent() {
    let mut a = request(5, "0xA");
    let b = request(5, "0xA");
    a.merge(&b);
    assert_eq!(a.timestamp, 5);
    assert_eq!(a.wallet_address, "0xA");
    assert!(!a.approved);
}

#[test]
fn seller_request_merge_commutes_on_distinct_timestamps() {
    let early = request(5, "0xEarly");
    let late = request(9, "0xLate");
    let mut left = early.clone();
    left.merge(&late);
    let mut right = late.clone();
    right.merge(&early);
    assert_eq!(left.wallet_address, "0xLate");
    assert_eq!(right.wallet_address, "0xLate");
    assert_eq!(left.timestamp, 9);
    assert_eq!(right.timestamp, 9);
}

#[test]
fn seller_request_merge_tie_takes_remote() {
    // On equal timestamps the rule is not commutative: the remote side
    // wins from either end.
    let ours = request(5, "0xOurs");
    let theirs = request(5, "0xTheirs");
    let mut local = ours.clone();
    local.merge(&theirs);
    assert_eq!(local.wallet_address, "0xTheirs");
    let mut other = theirs.clone();
    other.merge(&ours);
    assert_eq!(other.wallet_address, "0xOurs");
}

#[test]
fn seller_request_merge_is_associative() {
    let a = request(3, "0xA");
    let b = request(9, "0xB");
    let c = request(6, "0xC");
    let mut grouped_left = a.clone();
    grouped_left.merge(&b);
    grouped_left.merge(&c);
    let mut bc = b.clone();
    bc.merge(&c);
    let mut grouped_right = a.clone();
    grouped_right.merge(&bc);
    assert_eq!(grouped_left.wallet_address, grouped_right.wallet_address);
    assert_eq!(grouped_left.timestamp, grouped_right.timestamp);
    assert_eq!(grouped_left.wallet_address, "0xB");
}

#[test]
fn seller_info_merge_takes_later_approval() {
    let mut a = seller(100, "First");
    let b = seller(200, "Second");
    a.merge(&b);
    assert_eq!(a.company_name, "Second");
    assert_eq!(a.approved_at, 200);

    let mut c = seller(200, "Second");
    let d = seller(100, "First");
    c.merge(&d);
    assert_eq!(c.company_name, "Second");
    assert_eq!(c.approved_at, 200);
}

#[test]
fn seller_info_merge_is_idempotent() {
    let mut a = seller(100, "Acme");
    let b = seller(100, "Acme");
    a.merge(&b);
    assert_eq!(a.company_name, "Acme");
    assert_eq!(a.approved_at, 100);
}

#[test]
fn product_merge_takes_later_created() {
    let mut a = product(10, 7);
    let b = product(20, 3);
    a.merge(&b);
    assert_eq!(a.quantity, 3);
    assert_eq!(a.created_at, 20);

    let mut c = product(20, 3);
    let d = product(10, 7);
    c.merge(&d);
    assert_eq!(c.quantity, 3);
}

#[test]
fn product_merge_tie_takes_remote() {
    let mut a = product(10, 7);
    let b = product(10, 3);
    a.merge(&b);
    assert_eq!(a.quantity, 3);
}

#[test]
fn escrow_status_merge_takes_remote() {
    // The escrow rule always takes the remote value, so it is commutative
    // only for equal statuses: concurrent Released and Refunded resolve to
    // whichever arrived last.
    let mut a = EscrowStatus::Released;
    a.merge(&EscrowStatus::Refunded);
    assert_eq!(a, EscrowStatus::Refunded);

    let mut b = EscrowStatus::Refunded;
    b.merge(&EscrowStatus::Released);
    assert_eq!(b, EscrowStatus::Released);

    let mut c = EscrowStatus::Pending;
    c.merge(&EscrowStatus::Pending);
    assert_eq!(c, EscrowStatus::Pending);
}

#[test]
fn order_merge_takes_later_created() {
    let mut a = order(10, None);
    let b = order(20, None);
    a.merge(&b);
    assert_eq!(a.created_at, 20);
}

#[test]
fn order_merge_tie_prefers_delivered() {
    let mut undelivered = order(10, None);
    let delivered = order(10, Some(15));
    undelivered.merge(&delivered);
    assert_eq!(undelivered.delivered_at, Some(15));

    // From the other side the delivered version also survives.
    let mut kept = order(10, Some(15));
    let remote_undelivered = order(10, None);
    kept.merge(&remote_undelivered);
    assert_eq!(kept.delivered_at, Some(15));
}

#[test]
fn order_merge_tie_without_delivery_keeps_local() {
    let mut local = order(10, None);
    local.buyer_wallet = String::from("0xLocal");
    let mut remote = order(10, None);
    remote.buyer_wallet = String::from("0xRemote");
    local.merge(&remote);
    assert_eq!(local.buyer_wallet, "0xLocal");
}

#[test]
fn order_merge_is_associative_across_tie_breaks() {
    let a = order(10, Some(12));
    let b = order(10, None);
    let c = order(9, Some(11));
    let mut grouped_left = a.clone();
    grouped_left.merge(&b);
    grouped_left.merge(&c);
    let mut bc = b.clone();
    bc.merge(&c);
    let mut grouped_right = a.clone();
    grouped_right.merge(&bc);
    assert_eq!(grouped_left.created_at, grouped_right.created_at);
    assert_eq!(grouped_left.delivered_at, grouped_right.delivered_at);
    assert_eq!(grouped_left.delivered_at, Some(12));
}
