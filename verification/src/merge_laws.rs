//! The algebraic laws of the merge policies.
//!
//! Reconciliation must give every replica the same state whatever order
//! remote versions arrive in and however often they are repeated, so each
//! entity's merge rule is proved idempotent and associative, and commutative
//! for versions with distinct timestamps. On equal timestamps the rules
//! break ties by position — the remote version wins for the last-write-wins
//! types, the local one for `Order` — so two versions that differ only in
//! payload do not commute; the tie lemmas state that behaviour exactly.

use vstd::prelude::*;

use crate::entities::EscrowStatus;
use crate::entities::Order;
use crate::entities::OrderView;
use crate::entities::Product;
use crate::entities::ProductView;
use crate::entities::SellerInfo;
use crate::entities::SellerInfoView;
use crate::entities::SellerRequest;
use crate::entities::SellerRequestView;
use crate::mergeable::Mergeable;

verus! {

/// Merging a seller request with itself changes nothing.
pub proof fn seller_request_merge_idempotent(v: SellerRequestView)
    ensures
        SellerRequest::merged(v, v) == v,
{
}

/// Seller request versions with distinct timestamps merge the same way
/// from either side.
pub proof fn seller_request_merge_commutative(a: SellerRequestView, b: SellerRequestView)
    requires
        a.timestamp != b.timestamp,
    ensures
        SellerRequest::merged(a, b) == SellerRequest::merged(b, a),
{
}

/// On a timestamp tie the remote seller request wins, from either side.
pub proof fn seller_request_merge_tie_takes_remote(a: SellerRequestView, b: SellerRequestView)
    requires
        a.timestamp == b.timestamp,
    ensures
        SellerRequest::merged(a, b) == b,
        SellerRequest::merged(b, a) == a,
{
}

/// Merging seller requests in either grouping resolves to the same version.
pub proof fn seller_request_merge_associative(
    a: SellerRequestView,
    b: SellerRequestView,
    c: SellerRequestView,
)
    ensures
        SellerRequest::merged(SellerRequest::merged(a, b), c) == SellerRequest::merged(
            a,
            SellerRequest::merged(b, c),
        ),
{
}

/// Merging a seller record with itself changes nothing.
pub proof fn seller_info_merge_idempotent(v: SellerInfoView)
    ensures
        SellerInfo::merged(v, v) == v,
{
}

/// Seller records with distinct approval times merge the same way from
/// either side.
pub proof fn seller_info_merge_commutative(a: SellerInfoView, b: SellerInfoView)
    requires
        a.approved_at != b.approved_at,
    ensures
        SellerInfo::merged(a, b) == SellerInfo::merged(b, a),
{
}

/// On an approval-time tie the remote seller record wins, from either side.
pub proof fn seller_info_merge_tie_takes_remote(a: SellerInfoView, b: SellerInfoView)
    requires
        a.approved_at == b.approved_at,
    ensures
        SellerInfo::merged(a, b) == b,
        SellerInfo::merged(b, a) == a,
{
}

/// Merging seller records in either grouping resolves to the same version.
pub proof fn seller_info_merge_associative(a: SellerInfoView, b: SellerInfoView, c: SellerInfoView)
    ensures
        SellerInfo::merged(SellerInfo::merged(a, b), c) == SellerInfo::merged(
            a,
            SellerInfo::merged(b, c),
        ),
{
}

/// Merging a product with itself changes nothing.
pub proof fn product_merge_idempotent(v: ProductView)
    ensures
        Product::merged(v, v) == v,
{
}

/// Product versions with distinct creation times merge the same way from
/// either side.
pub proof fn product_merge_commutative(a: ProductView, b: ProductView)
    requires
        a.created_at != b.created_at,
    ensures
        Product::merged(a, b) == Product::merged(b, a),
{
}

/// On a creation-time tie the remote product wins, from either side.
pub proof fn product_merge_tie_takes_remote(a: ProductView, b: ProductView)
    requires
        a.created_at == b.created_at,
    ensures
        Product::merged(a, b) == b,
        Product::merged(b, a) == a,
{
}

/// Merging products in either grouping resolves to the same version.
pub proof fn product_merge_associative(a: ProductView, b: ProductView, c: ProductView)
    ensures
        Product::merged(Product::merged(a, b), c) == Product::merged(a, Product::merged(b, c)),
{
}

/// Merging an escrow status with itself changes nothing.
pub proof fn escrow_status_merge_idempotent(v: EscrowStatus)
    ensures
        EscrowStatus::merged(v, v) == v,
{
}

/// The escrow rule always takes the remote value, so from the other side it
/// always takes the other value: the rule is commutative only for equal
/// statuses.
pub proof fn escrow_status_merge_takes_remote(a: EscrowStatus, b: EscrowStatus)
    ensures
        EscrowStatus::merged(a, b) == b,
        EscrowStatus::merged(b, a) == a,
{
}

/// Merging escrow statuses in either grouping resolves to the last one.
pub proof fn escrow_status_merge_associative(a: EscrowStatus, b: EscrowStatus, c: EscrowStatus)
    ensures
        EscrowStatus::merged(EscrowStatus::merged(a, b), c) == EscrowStatus::merged(
            a,
            EscrowStatus::merged(b, c),
        ),
{
}

/// Merging an order with itself changes nothing.
pub proof fn order_merge_idempotent(v: OrderView)
    ensures
        Order::merged(v, v) == v,
{
}

/// Order versions with distinct creation times merge the same way from
/// either side.
pub proof fn order_merge_commutative(a: OrderView, b: OrderView)
    requires
        a.created_at != b.created_at,
    ensures
        Order::merged(a, b) == Order::merged(b, a),
{
}

/// On a creation-time tie a delivered order wins over an undelivered one
/// from either side; when both or neither are delivered, each side keeps
/// its local version.
pub proof fn order_merge_tie_prefers_delivered(a: OrderView, b: OrderView)
    requires
        a.created_at == b.created_at,
    ensures
        a.delivered_at is Some && b.delivered_at is None ==> Order::merged(a, b) == a
            && Order::merged(b, a) == a,
        a.delivered_at is None && b.delivered_at is Some ==> Order::merged(a, b) == b
            && Order::merged(b, a) == b,
        (a.delivered_at is Some) == (b.delivered_at is Some) ==> Order::merged(a, b) == a
            && Order::merged(b, a) == b,
{
}

/// Merging orders in either grouping resolves to the same version.
pub proof fn order_merge_associative(a: OrderView, b: OrderView, c: OrderView)
    ensures
        Order::merged(Order::merged(a, b), c) == Order::merged(a, Order::merged(b, c)),
{
}

/// The order merge keeps the internal consistency of its inputs: when both
/// versions carry a delivery time with a released escrow, so does the
/// resolved one.
pub proof fn order_merge_preserves_consistency(a: OrderView, b: OrderView)
    requires
        crate::entities::order_consistent(a),
        crate::entities::order_consistent(b),
    ensures
        crate::entities::order_consistent(Order::merged(a, b)),
{
}

} // verus!
