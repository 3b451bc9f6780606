//! The replicated entity types of the marketplace and their merge policies.
//!
//! Every type carries a last-write-wins rule keyed on one of its timestamp
//! fields; `Order` adds a tie-break that prefers a delivered version, and
//! `EscrowStatus` unconditionally takes the remote value.

use vstd::prelude::*;

use crate::mergeable::Mergeable;

verus! {

/// An onboarding request from a prospective seller.
#[derive(Clone, Debug)]
pub struct SellerRequest {
    pub id: String,
    pub wallet_address: String,
    pub company_name: String,
    pub company_details: String,
    pub signature: String,
    pub timestamp: u64,
    pub approved: bool,
}

/// The abstract contents of a `SellerRequest`.
pub ghost struct SellerRequestView {
    pub id: Seq<char>,
    pub wallet_address: Seq<char>,
    pub company_name: Seq<char>,
    pub company_details: Seq<char>,
    pub signature: Seq<char>,
    pub timestamp: u64,
    pub approved: bool,
}

impl View for SellerRequest {
    type V = SellerRequestView;

    open spec fn view(&self) -> SellerRequestView {
        SellerRequestView {
            id: self.id@,
            wallet_address: self.wallet_address@,
            company_name: self.company_name@,
            company_details: self.company_details@,
            signature: self.signature@,
            timestamp: self.timestamp,
            approved: self.approved,
        }
    }
}

impl Mergeable for SellerRequest {
    /// Last write wins on `timestamp`; the remote version wins ties.
    open spec fn merged(local: SellerRequestView, remote: SellerRequestView) -> SellerRequestView {
        if remote.timestamp >= local.timestamp {
            remote
        } else {
            local
        }
    }

    fn merge(&mut self, other: &Self) {
        if other.timestamp >= self.timestamp {
            *self = other.duplicate();
        }
    }

    fn duplicate(&self) -> (r: Self) {
        SellerRequest {
            id: self.id.clone(),
            wallet_address: self.wallet_address.clone(),
            company_name: self.company_name.clone(),
            company_details: self.company_details.clone(),
            signature: self.signature.clone(),
            timestamp: self.timestamp,
            approved: self.approved,
        }
    }
}

/// A seller admitted to the marketplace, derived from an approved request.
#[derive(Clone, Debug)]
pub struct SellerInfo {
    pub id: String,
    pub wallet_address: String,
    pub company_name: String,
    pub company_details: String,
    pub approved_at: u64,
}

/// The abstract contents of a `SellerInfo`.
pub ghost struct SellerInfoView {
    pub id: Seq<char>,
    pub wallet_address: Seq<char>,
    pub company_name: Seq<char>,
    pub company_details: Seq<char>,
    pub approved_at: u64,
}

impl View for SellerInfo {
    type V = SellerInfoView;

    open spec fn view(&self) -> SellerInfoView {
        SellerInfoView {
            id: self.id@,
            wallet_address: self.wallet_address@,
            company_name: self.company_name@,
            company_details: self.company_details@,
            approved_at: self.approved_at,
        }
    }
}

impl Mergeable for SellerInfo {
    /// Last write wins on `approved_at`; the remote version wins ties.
    open spec fn merged(local: SellerInfoView, remote: SellerInfoView) -> SellerInfoView {
        if remote.approved_at >= local.approved_at {
            remote
        } else {
            local
        }
    }

    fn merge(&mut self, other: &Self) {
        if other.approved_at >= self.approved_at {
            *self = other.duplicate();
        }
    }

    fn duplicate(&self) -> (r: Self) {
        SellerInfo {
            id: self.id.clone(),
            wallet_address: self.wallet_address.clone(),
            company_name: self.company_name.clone(),
            company_details: self.company_details.clone(),
            approved_at: self.approved_at,
        }
    }
}

/// A catalog entry with a mutable stock level.
#[derive(Clone, Debug)]
pub struct Product {
    pub id: String,
    pub seller_id: String,
    pub name: String,
    pub description: String,
    pub quantity: u32,
    pub price: String,
    pub image_url: String,
    pub category: String,
    pub shipping_info: String,
    pub created_at: u64,
}

/// The abstract contents of a `Product`.
pub ghost struct ProductView {
    pub id: Seq<char>,
    pub seller_id: Seq<char>,
    pub name: Seq<char>,
    pub description: Seq<char>,
    pub quantity: u32,
    pub price: Seq<char>,
    pub image_url: Seq<char>,
    pub category: Seq<char>,
    pub shipping_info: Seq<char>,
    pub created_at: u64,
}

impl View for Product {
    type V = ProductView;

    open spec fn view(&self) -> ProductView {
        ProductView {
            id: self.id@,
            seller_id: self.seller_id@,
            name: self.name@,
            description: self.description@,
            quantity: self.quantity,
            price: self.price@,
            image_url: self.image_url@,
            category: self.category@,
            shipping_info: self.shipping_info@,
            created_at: self.created_at,
        }
    }
}

impl Mergeable for Product {
    /// Last write wins on `created_at`; the remote version wins ties.
    open spec fn merged(local: ProductView, remote: ProductView) -> ProductView {
        if remote.created_at >= local.created_at {
            remote
        } else {
            local
        }
    }

    fn merge(&mut self, other: &Self) {
        if other.created_at >= self.created_at {
            *self = other.duplicate();
        }
    }

    fn duplicate(&self) -> (r: Self) {
        Product {
            id: self.id.clone(),
            seller_id: self.seller_id.clone(),
            name: self.name.clone(),
            description: self.description.clone(),
            quantity: self.quantity,
            price: self.price.clone(),
            image_url: self.image_url.clone(),
            category: self.category.clone(),
            shipping_info: self.shipping_info.clone(),
            created_at: self.created_at,
        }
    }
}

/// Where an order's payment stands: held, paid out, or returned.
#[derive(Clone, Copy, Debug, PartialEq, Eq, Structural)]
pub enum EscrowStatus {
    Pending,
    Released,
    Refunded,
}

impl View for EscrowStatus {
    type V = EscrowStatus;

    open spec fn view(&self) -> EscrowStatus {
        *self
    }
}

impl Mergeable for EscrowStatus {
    /// The remote value always wins. Standing alone this rule is not
    /// commutative: two concurrent transitions out of `Pending` resolve to
    /// whichever version arrives last.
    open spec fn merged(local: EscrowStatus, remote: EscrowStatus) -> EscrowStatus {
        remote
    }

    fn merge(&mut self, other: &Self) {
        *self = *other;
    }

    fn duplicate(&self) -> (r: Self) {
        *self
    }
}

/// A purchase and its escrow lifecycle record.
#[derive(Clone, Debug)]
pub struct Order {
    pub id: String,
    pub buyer_wallet: String,
    pub product_id: String,
    pub seller_id: String,
    pub amount: String,
    pub escrow_status: EscrowStatus,
    pub qr_payload: String,
    pub created_at: u64,
    pub delivered_at: Option<u64>,
}

/// The abstract contents of an `Order`.
pub ghost struct OrderView {
    pub id: Seq<char>,
    pub buyer_wallet: Seq<char>,
    pub product_id: Seq<char>,
    pub seller_id: Seq<char>,
    pub amount: Seq<char>,
    pub escrow_status: EscrowStatus,
    pub qr_payload: Seq<char>,
    pub created_at: u64,
    pub delivered_at: Option<u64>,
}

impl View for Order {
    type V = OrderView;

    open spec fn view(&self) -> OrderView {
        OrderView {
            id: self.id@,
            buyer_wallet: self.buyer_wallet@,
            product_id: self.product_id@,
            seller_id: self.seller_id@,
            amount: self.amount@,
            escrow_status: self.escrow_status,
            qr_payload: self.qr_payload@,
            created_at: self.created_at,
            delivered_at: self.delivered_at,
        }
    }
}

impl Mergeable for Order {
    /// Last write wins on `created_at`, the remote version winning strictly
    /// later timestamps; on a tie, a version with `delivered_at` set wins
    /// over one without, and otherwise the local version is kept.
    open spec fn merged(local: OrderView, remote: OrderView) -> OrderView {
        if remote.created_at > local.created_at {
            remote
        } else if remote.created_at == local.created_at && remote.delivered_at is Some
            && local.delivered_at is None {
            remote
        } else {
            local
        }
    }

    fn merge(&mut self, other: &Self) {
        if other.created_at > self.created_at {
            *self = other.duplicate();
        } else if other.created_at == self.created_at && other.delivered_at.is_some()
            && self.delivered_at.is_none() {
            *self = other.duplicate();
        }
    }

    fn duplicate(&self) -> (r: Self) {
        Order {
            id: self.id.clone(),
            buyer_wallet: self.buyer_wallet.clone(),
            product_id: self.product_id.clone(),
            seller_id: self.seller_id.clone(),
            amount: self.amount.clone(),
            escrow_status: self.escrow_status,
            qr_payload: self.qr_payload.clone(),
            created_at: self.created_at,
            delivered_at: self.delivered_at,
        }
    }
}

/// An order's internal consistency: a released escrow always carries the
/// delivery time.
pub open spec fn order_consistent(o: OrderView) -> bool {
    o.escrow_status == EscrowStatus::Released ==> o.delivered_at is Some
}

} // verus!
