//! Replicated state and conflict resolution for a decentralized marketplace.
//!
//! Each replica of the marketplace holds a local copy of the state and
//! applies mutations locally; when a remote version of an entity arrives,
//! a per-entity merge policy reconciles the two versions deterministically.

use vstd::prelude::*;

pub mod entities;
pub mod marketplace;
pub mod merge_laws;
pub mod mergeable;
pub mod replicated_map;
pub mod text;

verus! {

pub use crate::entities::EscrowStatus;
pub use crate::entities::Order;
pub use crate::entities::Product;
pub use crate::entities::SellerInfo;
pub use crate::entities::SellerRequest;
pub use crate::marketplace::MarketplaceApp;
pub use crate::marketplace::MarketplaceAppError;
pub use crate::marketplace::MarketplaceAppEvent;
pub use crate::mergeable::Mergeable;

} // verus!
