//! The marketplace application state and its workflows.
//!
//! One value of [`MarketplaceApp`] is one replica's copy of the whole
//! marketplace: seller onboarding requests and records, the product
//! catalog, and the order/escrow records, each in its own replicated map,
//! together with the id counters and the events the workflows emit.
//!
//! Mutating operations take the current logical time as an argument: the
//! clock is an external collaborator of this core, supplied by the host
//! that drives a replica.

use vstd::prelude::*;

use crate::entities::EscrowStatus;
use crate::entities::Order;
use crate::entities::OrderView;
use crate::entities::Product;
use crate::entities::ProductView;
use crate::entities::SellerInfo;
use crate::entities::SellerInfoView;
use crate::entities::SellerRequest;
use crate::entities::SellerRequestView;
use crate::entities::order_consistent;
use crate::mergeable::Mergeable;
use crate::replicated_map::ReplicatedMap;
use crate::text::dec_rep;
use crate::text::lemma_lex_lt_irreflexive;
use crate::text::lemma_lex_lt_transitive;
use crate::text::lex_lt;
use crate::text::make_id;
use crate::text::str_eq;

verus! {

/// A notification describing one state transition, kept for an external
/// observer to collect.
pub enum MarketplaceAppEvent {
    MarketplaceInitialized { admin_wallet: String, store_name: String },
    SellerRequested { seller_id: String, wallet: String },
    SellerApproved { seller_id: String },
    ProductAdded { product_id: String, seller_id: String },
    OrderCreated { order_id: String, buyer_wallet: String },
    DeliveryConfirmed { order_id: String },
}

/// The abstract contents of a `MarketplaceAppEvent`.
pub ghost enum MarketplaceAppEventView {
    MarketplaceInitialized { admin_wallet: Seq<char>, store_name: Seq<char> },
    SellerRequested { seller_id: Seq<char>, wallet: Seq<char> },
    SellerApproved { seller_id: Seq<char> },
    ProductAdded { product_id: Seq<char>, seller_id: Seq<char> },
    OrderCreated { order_id: Seq<char>, buyer_wallet: Seq<char> },
    DeliveryConfirmed { order_id: Seq<char> },
}

impl View for MarketplaceAppEvent {
    type V = MarketplaceAppEventView;

    open spec fn view(&self) -> MarketplaceAppEventView {
        match self {
            MarketplaceAppEvent::MarketplaceInitialized { admin_wallet, store_name } => {
                MarketplaceAppEventView::MarketplaceInitialized {
                    admin_wallet: admin_wallet@,
                    store_name: store_name@,
                }
            },
            MarketplaceAppEvent::SellerRequested { seller_id, wallet } => {
                MarketplaceAppEventView::SellerRequested {
                    seller_id: seller_id@,
                    wallet: wallet@,
                }
            },
            MarketplaceAppEvent::SellerApproved { seller_id } => {
                MarketplaceAppEventView::SellerApproved { seller_id: seller_id@ }
            },
            MarketplaceAppEvent::ProductAdded { product_id, seller_id } => {
                MarketplaceAppEventView::ProductAdded {
                    product_id: product_id@,
                    seller_id: seller_id@,
                }
            },
            MarketplaceAppEvent::OrderCreated { order_id, buyer_wallet } => {
                MarketplaceAppEventView::OrderCreated {
                    order_id: order_id@,
                    buyer_wallet: buyer_wallet@,
                }
            },
            MarketplaceAppEvent::DeliveryConfirmed { order_id } => {
                MarketplaceAppEventView::DeliveryConfirmed { order_id: order_id@ }
            },
        }
    }
}

/// A typed, recoverable failure of a marketplace operation.
#[derive(Clone, Debug, PartialEq, Eq)]
pub enum MarketplaceAppError {
    Unauthorized,
    SellerNotFound(String),
    ProductNotFound(String),
    OrderNotFound(String),
    InsufficientQuantity,
    InvalidSignature,
}

/// The abstract state of one replica of the marketplace.
#[verifier::ext_equal]
pub ghost struct MarketplaceAppView {
    pub admin_wallet: Seq<char>,
    pub store_name: Seq<char>,
    pub type_of_goods: Seq<char>,
    pub seller_requests: Map<Seq<char>, SellerRequestView>,
    pub sellers: Map<Seq<char>, SellerInfoView>,
    pub products: Map<Seq<char>, ProductView>,
    pub orders: Map<Seq<char>, OrderView>,
    pub seller_counter: u64,
    pub product_counter: u64,
    pub order_counter: u64,
    pub events: Seq<MarketplaceAppEventView>,
}

/// The id of the `n`-th seller request created on this replica.
pub open spec fn seller_id_seq(n: nat) -> Seq<char> {
    "seller_"@ + dec_rep(n)
}

/// The id of the `n`-th product created on this replica.
pub open spec fn product_id_seq(n: nat) -> Seq<char> {
    "prod_"@ + dec_rep(n)
}

/// The id of the `n`-th order created on this replica.
pub open spec fn order_id_seq(n: nat) -> Seq<char> {
    "order_"@ + dec_rep(n)
}

/// The opaque delivery-confirmation payload of an order. Its only contract
/// is that it carries the order id, the buyer identity and the amount.
pub open spec fn qr_payload_seq(order_id: Seq<char>, buyer: Seq<char>, amount: Seq<char>) -> Seq<
    char,
> {
    "confirm/"@ + order_id + "?buyer="@ + buyer + "&amount="@ + amount
}

/// Whether the seller record under key `k` belongs to wallet `w`.
pub open spec fn wallet_matches(
    m: Map<Seq<char>, SellerInfoView>,
    k: Seq<char>,
    w: Seq<char>,
) -> bool {
    m.contains_key(k) && m[k].wallet_address == w
}

/// Whether `k` is the first key in id order whose seller record belongs to
/// wallet `w`.
pub open spec fn is_first_seller_for_wallet(
    m: Map<Seq<char>, SellerInfoView>,
    w: Seq<char>,
    k: Seq<char>,
) -> bool {
    wallet_matches(m, k, w) && forall|q: Seq<char>| wallet_matches(m, q, w) ==> !lex_lt(q, k)
}

/// One replica of the marketplace.
pub struct MarketplaceApp {
    admin_wallet: String,
    store_name: String,
    type_of_goods: String,
    seller_requests: ReplicatedMap<SellerRequest>,
    sellers: ReplicatedMap<SellerInfo>,
    products: ReplicatedMap<Product>,
    orders: ReplicatedMap<Order>,
    seller_counter: u64,
    product_counter: u64,
    order_counter: u64,
    events: Vec<MarketplaceAppEvent>,
}

impl View for MarketplaceApp {
    type V = MarketplaceAppView;

    closed spec fn view(&self) -> MarketplaceAppView {
        MarketplaceAppView {
            admin_wallet: self.admin_wallet@,
            store_name: self.store_name@,
            type_of_goods: self.type_of_goods@,
            seller_requests: self.seller_requests.as_map(),
            sellers: self.sellers.as_map(),
            products: self.products.as_map(),
            orders: self.orders.as_map(),
            seller_counter: self.seller_counter,
            product_counter: self.product_counter,
            order_counter: self.order_counter,
            events: self.events@.map_values(|e: MarketplaceAppEvent| e@),
        }
    }
}

impl MarketplaceApp {
    /// The state is well formed: every map keeps its entries key-ordered,
    /// every entity sits under its own id, and a released order always
    /// carries its delivery time.
    pub closed spec fn wf(&self) -> bool {
        &&& self.seller_requests.wf()
        &&& self.sellers.wf()
        &&& self.products.wf()
        &&& self.orders.wf()
        &&& forall|k: Seq<char>|
            #[trigger] self@.seller_requests.contains_key(k) ==> self@.seller_requests[k].id == k
        &&& forall|k: Seq<char>|
            #[trigger] self@.sellers.contains_key(k) ==> self@.sellers[k].id == k
        &&& forall|k: Seq<char>|
            #[trigger] self@.products.contains_key(k) ==> self@.products[k].id == k
        &&& forall|k: Seq<char>|
            #[trigger] self@.orders.contains_key(k) ==> self@.orders[k].id == k
                && order_consistent(self@.orders[k])
    }

    /// A fresh, empty replica; `setup_marketplace` gives it its store
    /// identity.
    pub fn init() -> (app: MarketplaceApp)
        ensures
            app.wf(),
            app@.admin_wallet == Seq::<char>::empty(),
            app@.store_name == Seq::<char>::empty(),
            app@.type_of_goods == Seq::<char>::empty(),
            app@.seller_requests == Map::<Seq<char>, SellerRequestView>::empty(),
            app@.sellers == Map::<Seq<char>, SellerInfoView>::empty(),
            app@.products == Map::<Seq<char>, ProductView>::empty(),
            app@.orders == Map::<Seq<char>, OrderView>::empty(),
            app@.seller_counter == 0,
            app@.product_counter == 0,
            app@.order_counter == 0,
            app@.events == Seq::<MarketplaceAppEventView>::empty(),
    {
        let app = MarketplaceApp {
            admin_wallet: String::new(),
            store_name: String::new(),
            type_of_goods: String::new(),
            seller_requests: ReplicatedMap::new(),
            sellers: ReplicatedMap::new(),
            products: ReplicatedMap::new(),
            orders: ReplicatedMap::new(),
            seller_counter: 0,
            product_counter: 0,
            order_counter: 0,
            events: Vec::new(),
        };
        proof {
            assert(app@.events =~= Seq::<MarketplaceAppEventView>::empty());
        }
        app
    }

    /// Records the store identity and the admin wallet.
    pub fn setup_marketplace(
        &mut self,
        admin_wallet: String,
        store_name: String,
        type_of_goods: String,
    ) -> (r: Result<String, MarketplaceAppError>)
        requires
            old(self).wf(),
        ensures
            final(self).wf(),
            r matches Ok(m) && m@ == "Marketplace '"@ + store_name@
                + "' initialized successfully"@,
            final(self)@ == (MarketplaceAppView {
                admin_wallet: admin_wallet@,
                store_name: store_name@,
                type_of_goods: type_of_goods@,
                events: old(self)@.events.push(
                    MarketplaceAppEventView::MarketplaceInitialized {
                        admin_wallet: admin_wallet@,
                        store_name: store_name@,
                    },
                ),
                ..old(self)@
            }),
    {
        let mut message = String::from_str("Marketplace '");
        message.append(store_name.as_str());
        message.append("' initialized successfully");
        self.admin_wallet = admin_wallet.clone();
        self.store_name = store_name.clone();
        self.type_of_goods = type_of_goods;
        self.events.push(
            MarketplaceAppEvent::MarketplaceInitialized {
                admin_wallet,
                store_name,
            },
        );
        proof {
            assert(self@.events =~= old(self)@.events.push(
                MarketplaceAppEventView::MarketplaceInitialized {
                    admin_wallet: self.admin_wallet@,
                    store_name: self.store_name@,
                },
            ));
            assert(self@ =~= (MarketplaceAppView {
                admin_wallet: self.admin_wallet@,
                store_name: self.store_name@,
                type_of_goods: self.type_of_goods@,
                events: self@.events,
                ..old(self)@
            }));
        }
        Ok(message)
    }

    /// The admin wallet, the store name, and the kind of goods sold.
    pub fn get_marketplace_info(&self) -> (r: (String, String, String))
        ensures
            r.0@ == self@.admin_wallet,
            r.1@ == self@.store_name,
            r.2@ == self@.type_of_goods,
    {
        (self.admin_wallet.clone(), self.store_name.clone(), self.type_of_goods.clone())
    }

    /// Files an onboarding request for a seller. Repeated calls from the
    /// same wallet file independent requests.
    pub fn request_seller_access(
        &mut self,
        wallet_address: String,
        company_name: String,
        company_details: String,
        signature: String,
        now: u64,
    ) -> (r: Result<String, MarketplaceAppError>)
        requires
            old(self).wf(),
            old(self)@.seller_counter < u64::MAX,
        ensures
            final(self).wf(),
            r matches Ok(id) && ({
                let n = (old(self)@.seller_counter + 1) as u64;
                let idv = seller_id_seq(n as nat);
                &&& id@ == idv
                &&& final(self)@ == (MarketplaceAppView {
                    seller_requests: old(self)@.seller_requests.insert(
                        idv,
                        SellerRequestView {
                            id: idv,
                            wallet_address: wallet_address@,
                            company_name: company_name@,
                            company_details: company_details@,
                            signature: signature@,
                            timestamp: now,
                            approved: false,
                        },
                    ),
                    seller_counter: n,
                    events: old(self)@.events.push(
                        MarketplaceAppEventView::SellerRequested {
                            seller_id: idv,
                            wallet: wallet_address@,
                        },
                    ),
                    ..old(self)@
                })
            }),
            forall|k: Seq<char>|
                ({
                    &&& #[trigger] old(self)@.seller_requests.contains_key(k)
                    &&& old(self)@.seller_requests[k].approved
                    &&& k != seller_id_seq((old(self)@.seller_counter + 1) as nat)
                }) ==> final(self)@.seller_requests.contains_key(k)
                    && final(self)@.seller_requests[k].approved,
    {
        self.seller_counter = self.seller_counter + 1;
        let seller_id = make_id("seller_", self.seller_counter);
        let request = SellerRequest {
            id: seller_id.clone(),
            wallet_address: wallet_address.clone(),
            company_name,
            company_details,
            signature,
            timestamp: now,
            approved: false,
        };
        let ghost reqv = request@;
        self.seller_requests.insert(seller_id.clone(), request);
        self.events.push(
            MarketplaceAppEvent::SellerRequested {
                seller_id: seller_id.clone(),
                wallet: wallet_address,
            },
        );
        proof {
            let idv = seller_id@;
            assert(reqv.id == idv);
            assert(self@.seller_requests == old(self)@.seller_requests.insert(idv, reqv));
            assert forall|k: Seq<char>| #[trigger]
                self@.seller_requests.contains_key(k) implies self@.seller_requests[k].id
                == k by {
                if k != idv {
                    assert(old(self)@.seller_requests.contains_key(k));
                } else {
                    assert(self@.seller_requests[k] == reqv);
                }
            }
            assert(self@.events =~= old(self)@.events.push(
                MarketplaceAppEventView::SellerRequested {
                    seller_id: idv,
                    wallet: wallet_address@,
                },
            ));
            assert(self@ =~= (MarketplaceAppView {
                seller_requests: self@.seller_requests,
                seller_counter: self.seller_counter,
                events: self@.events,
                ..old(self)@
            }));
        }
        Ok(seller_id)
    }

    /// Approves a seller request and derives the seller record from it.
    /// Approving an already-approved request is a no-op, so approval is
    /// idempotent and an approved request never returns to pending.
    pub fn admin_approve_seller(&mut self, seller_id: String, now: u64) -> (r: Result<
        (),
        MarketplaceAppError,
    >)
        requires
            old(self).wf(),
        ensures
            final(self).wf(),
            match r {
                Ok(_) => old(self)@.seller_requests.contains_key(seller_id@) && ({
                    let req = old(self)@.seller_requests[seller_id@];
                    if req.approved {
                        final(self)@ == old(self)@
                    } else {
                        final(self)@ == (MarketplaceAppView {
                            seller_requests: old(self)@.seller_requests.insert(
                                seller_id@,
                                SellerRequestView { approved: true, ..req },
                            ),
                            sellers: old(self)@.sellers.insert(
                                seller_id@,
                                SellerInfoView {
                                    id: seller_id@,
                                    wallet_address: req.wallet_address,
                                    company_name: req.company_name,
                                    company_details: req.company_details,
                                    approved_at: now,
                                },
                            ),
                            events: old(self)@.events.push(
                                MarketplaceAppEventView::SellerApproved {
                                    seller_id: seller_id@,
                                },
                            ),
                            ..old(self)@
                        })
                    }
                }),
                Err(e) => e matches MarketplaceAppError::SellerNotFound(sid) && sid@ == seller_id@
                    && !old(self)@.seller_requests.contains_key(seller_id@) && final(self)@ == old(
                    self,
                )@,
            },
            forall|k: Seq<char>|
                ({
                    &&& #[trigger] old(self)@.seller_requests.contains_key(k)
                    &&& old(self)@.seller_requests[k].approved
                }) ==> final(self)@.seller_requests.contains_key(k)
                    && final(self)@.seller_requests[k].approved,
    {
        let request = match self.seller_requests.get(&seller_id) {
            None => {
                return Err(MarketplaceAppError::SellerNotFound(seller_id));
            },
            Some(found) => found.duplicate(),
        };
        if request.approved {
            return Ok(());
        }
        let mut updated = request.duplicate();
        updated.approved = true;
        let ghost updv = updated@;
        self.seller_requests.insert(seller_id.clone(), updated);
        let seller_info = SellerInfo {
            id: seller_id.clone(),
            wallet_address: request.wallet_address,
            company_name: request.company_name,
            company_details: request.company_details,
            approved_at: now,
        };
        let ghost infv = seller_info@;
        self.sellers.insert(seller_id.clone(), seller_info);
        self.events.push(MarketplaceAppEvent::SellerApproved { seller_id: seller_id.clone() });
        proof {
            let idv = seller_id@;
            let req = old(self)@.seller_requests[idv];
            assert(old(self)@.seller_requests.contains_key(idv));
            assert(req.id == idv);
            assert(updv.id == idv);
            assert(self@.seller_requests == old(self)@.seller_requests.insert(idv, updv));
            assert(self@.sellers == old(self)@.sellers.insert(idv, infv));
            assert forall|k: Seq<char>| #[trigger]
                self@.seller_requests.contains_key(k) implies self@.seller_requests[k].id
                == k by {
                if k != idv {
                    assert(old(self)@.seller_requests.contains_key(k));
                } else {
                    assert(self@.seller_requests[k] == updv);
                }
            }
            assert forall|k: Seq<char>| #[trigger] self@.sellers.contains_key(
                k,
            ) implies self@.sellers[k].id == k by {
                if k != idv {
                    assert(old(self)@.sellers.contains_key(k));
                } else {
                    assert(self@.sellers[k] == infv);
                }
            }
            assert(self@.events =~= old(self)@.events.push(
                MarketplaceAppEventView::SellerApproved { seller_id: idv },
            ));
            assert(self@ =~= (MarketplaceAppView {
                seller_requests: self@.seller_requests,
                sellers: self@.sellers,
                events: self@.events,
                ..old(self)@
            }));
            assert(self@.seller_requests[idv] =~= (SellerRequestView { approved: true, ..req }));
        }
        Ok(())
    }

    /// The first approved seller, in id order, whose record carries the
    /// given wallet.
    fn find_seller_by_wallet(&self, wallet: &String) -> (r: Result<String, MarketplaceAppError>)
        requires
            self.wf(),
        ensures
            match r {
                Ok(id) => is_first_seller_for_wallet(self@.sellers, wallet@, id@),
                Err(e) => e matches MarketplaceAppError::SellerNotFound(w) && w@ == wallet@ && (
                forall|q: Seq<char>| !wallet_matches(self@.sellers, q, wallet@)),
            },
    {
        let entries = self.sellers.entries();
        let n = entries.len();
        let mut i: usize = 0;
        while i < n
            invariant
                self.wf(),
                n == entries@.len(),
                i <= n,
                entries@.len() == self.sellers.spec_len(),
                forall|j: int|
                    0 <= j < entries@.len() ==> self@.sellers.contains_key(
                        #[trigger] entries@[j].0@,
                    ) && entries@[j].1@ == self@.sellers[entries@[j].0@],
                forall|k: Seq<char>|
                    self@.sellers.contains_key(k) ==> exists|j: int|
                        0 <= j < entries@.len() && #[trigger] entries@[j].0@ == k,
                forall|a: int, b: int|
                    0 <= a < b < entries@.len() ==> lex_lt(entries@[a].0@, entries@[b].0@),
                forall|j: int| 0 <= j < i ==> #[trigger] entries@[j].1@.wallet_address != wallet@,
            decreases n - i,
        {
            if str_eq(entries[i].1.wallet_address.as_str(), wallet.as_str()) {
                let id = entries[i].0.clone();
                proof {
                    let ki = entries@[i as int].0@;
                    assert(wallet_matches(self@.sellers, ki, wallet@));
                    assert forall|q: Seq<char>| wallet_matches(
                        self@.sellers,
                        q,
                        wallet@,
                    ) implies !lex_lt(q, ki) by {
                        let j = choose|j: int|
                            0 <= j < entries@.len() && #[trigger] entries@[j].0@ == q;
                        assert(entries@[j].1@ == self@.sellers[q]);
                        if j < i {
                            assert(false);
                        } else if j == i as int {
                            lemma_lex_lt_irreflexive(ki);
                        } else {
                            assert(lex_lt(ki, q));
                            if lex_lt(q, ki) {
                                lemma_lex_lt_transitive(ki, q, ki);
                                lemma_lex_lt_irreflexive(ki);
                            }
                        }
                    }
                }
                return Ok(id);
            }
            i = i + 1;
        }
        proof {
            assert forall|q: Seq<char>| !wallet_matches(self@.sellers, q, wallet@) by {
                if wallet_matches(self@.sellers, q, wallet@) {
                    let j = choose|j: int|
                        0 <= j < entries@.len() && #[trigger] entries@[j].0@ == q;
                    assert(entries@[j].1@ == self@.sellers[q]);
                }
            }
        }
        Err(MarketplaceAppError::SellerNotFound(wallet.clone()))
    }

    /// Adds a product to the catalog for the seller holding the given
    /// wallet.
    pub fn add_product(
        &mut self,
        seller_wallet: String,
        name: String,
        description: String,
        quantity: u32,
        price: String,
        image_url: String,
        category: String,
        shipping_info: String,
        _signature: String,
        now: u64,
    ) -> (r: Result<String, MarketplaceAppError>)
        requires
            old(self).wf(),
            old(self)@.product_counter < u64::MAX,
        ensures
            final(self).wf(),
            match r {
                Ok(id) => ({
                    let n = (old(self)@.product_counter + 1) as u64;
                    let pid = product_id_seq(n as nat);
                    &&& id@ == pid
                    &&& exists|sk: Seq<char>|
                        is_first_seller_for_wallet(old(self)@.sellers, seller_wallet@, sk)
                            && final(self)@ == (MarketplaceAppView {
                            products: old(self)@.products.insert(
                                pid,
                                ProductView {
                                    id: pid,
                                    seller_id: sk,
                                    name: name@,
                                    description: description@,
                                    quantity: quantity,
                                    price: price@,
                                    image_url: image_url@,
                                    category: category@,
                                    shipping_info: shipping_info@,
                                    created_at: now,
                                },
                            ),
                            product_counter: n,
                            events: old(self)@.events.push(
                                MarketplaceAppEventView::ProductAdded {
                                    product_id: pid,
                                    seller_id: sk,
                                },
                            ),
                            ..old(self)@
                        })
                }),
                Err(e) => e matches MarketplaceAppError::SellerNotFound(w) && w@ == seller_wallet@
                    && (forall|q: Seq<char>| !wallet_matches(old(self)@.sellers, q, seller_wallet@))
                    && final(self)@ == old(self)@,
            },
    {
        let seller_id = match self.find_seller_by_wallet(&seller_wallet) {
            Err(e) => {
                return Err(e);
            },
            Ok(id) => id,
        };
        self.product_counter = self.product_counter + 1;
        let product_id = make_id("prod_", self.product_counter);
        let product = Product {
            id: product_id.clone(),
            seller_id: seller_id.clone(),
            name,
            description,
            quantity,
            price,
            image_url,
            category,
            shipping_info,
            created_at: now,
        };
        self.products.insert(product_id.clone(), product);
        self.events.push(
            MarketplaceAppEvent::ProductAdded {
                product_id: product_id.clone(),
                seller_id: seller_id.clone(),
            },
        );
        proof {
            let pid = product_id@;
            assert forall|k: Seq<char>| #[trigger] self@.products.contains_key(
                k,
            ) implies self@.products[k].id == k by {
                if k != pid {
                    assert(old(self)@.products.contains_key(k));
                }
            }
            assert(self@.events =~= old(self)@.events.push(
                MarketplaceAppEventView::ProductAdded {
                    product_id: pid,
                    seller_id: seller_id@,
                },
            ));
            assert(self@ =~= (MarketplaceAppView {
                products: self@.products,
                product_counter: self.product_counter,
                events: self@.events,
                ..old(self)@
            }));
        }
        Ok(product_id)
    }

    /// The opaque delivery-confirmation payload for a fresh order.
    fn generate_qr_payload(&self, order_id: &str, buyer_wallet: &str, amount: &str) -> (s: String)
        ensures
            s@ == qr_payload_seq(order_id@, buyer_wallet@, amount@),
    {
        let mut s = String::from_str("confirm/");
        s.append(order_id);
        s.append("?buyer=");
        s.append(buyer_wallet);
        s.append("&amount=");
        s.append(amount);
        proof {
            assert(s@ =~= qr_payload_seq(order_id@, buyer_wallet@, amount@));
        }
        s
    }

    /// Buys one unit of a product: the stock is decremented by exactly one
    /// and an order is opened with its escrow pending. A purchase against
    /// exhausted stock is rejected and changes nothing.
    pub fn purchase_product(
        &mut self,
        product_id: String,
        buyer_wallet: String,
        amount: String,
        _signature: String,
        now: u64,
    ) -> (r: Result<String, MarketplaceAppError>)
        requires
            old(self).wf(),
            old(self)@.order_counter < u64::MAX,
        ensures
            final(self).wf(),
            match r {
                Ok(oid) => old(self)@.products.contains_key(product_id@) && old(
                    self,
                )@.products[product_id@].quantity > 0 && ({
                    let p = old(self)@.products[product_id@];
                    let n = (old(self)@.order_counter + 1) as u64;
                    let oidv = order_id_seq(n as nat);
                    &&& oid@ == oidv
                    &&& final(self)@ == (MarketplaceAppView {
                        products: old(self)@.products.insert(
                            product_id@,
                            ProductView { quantity: (p.quantity - 1) as u32, ..p },
                        ),
                        orders: old(self)@.orders.insert(
                            oidv,
                            OrderView {
                                id: oidv,
                                buyer_wallet: buyer_wallet@,
                                product_id: product_id@,
                                seller_id: p.seller_id,
                                amount: amount@,
                                escrow_status: EscrowStatus::Pending,
                                qr_payload: qr_payload_seq(oidv, buyer_wallet@, amount@),
                                created_at: now,
                                delivered_at: None,
                            },
                        ),
                        order_counter: n,
                        events: old(self)@.events.push(
                            MarketplaceAppEventView::OrderCreated {
                                order_id: oidv,
                                buyer_wallet: buyer_wallet@,
                            },
                        ),
                        ..old(self)@
                    })
                }),
                Err(e) => final(self)@ == old(self)@ && match e {
                    MarketplaceAppError::ProductNotFound(p) => p@ == product_id@ && !old(
                        self,
                    )@.products.contains_key(product_id@),
                    MarketplaceAppError::InsufficientQuantity => old(
                        self,
                    )@.products.contains_key(product_id@) && old(
                        self,
                    )@.products[product_id@].quantity == 0,
                    _ => false,
                },
            },
    {
        let mut product = match self.products.get(&product_id) {
            None => {
                return Err(MarketplaceAppError::ProductNotFound(product_id));
            },
            Some(found) => found.duplicate(),
        };
        if product.quantity == 0 {
            return Err(MarketplaceAppError::InsufficientQuantity);
        }
        product.quantity = product.quantity - 1;
        let seller_id = product.seller_id.clone();
        let ghost prodv = product@;
        self.products.insert(product_id.clone(), product);
        self.order_counter = self.order_counter + 1;
        let order_id = make_id("order_", self.order_counter);
        let qr_payload = self.generate_qr_payload(
            order_id.as_str(),
            buyer_wallet.as_str(),
            amount.as_str(),
        );
        let order = Order {
            id: order_id.clone(),
            buyer_wallet: buyer_wallet.clone(),
            product_id: product_id.clone(),
            seller_id,
            amount,
            escrow_status: EscrowStatus::Pending,
            qr_payload,
            created_at: now,
            delivered_at: None,
        };
        let ghost ordv = order@;
        self.orders.insert(order_id.clone(), order);
        self.events.push(
            MarketplaceAppEvent::OrderCreated {
                order_id: order_id.clone(),
                buyer_wallet: buyer_wallet,
            },
        );
        proof {
            let pidv = product_id@;
            let oidv = order_id@;
            assert(old(self)@.products.contains_key(pidv));
            assert(prodv.id == pidv);
            assert(ordv.id == oidv);
            assert(self@.products == old(self)@.products.insert(pidv, prodv));
            assert(self@.orders == old(self)@.orders.insert(oidv, ordv));
            assert forall|k: Seq<char>| #[trigger] self@.products.contains_key(
                k,
            ) implies self@.products[k].id == k by {
                if k != pidv {
                    assert(old(self)@.products.contains_key(k));
                } else {
                    assert(self@.products[k] == prodv);
                }
            }
            assert forall|k: Seq<char>| #[trigger] self@.orders.contains_key(
                k,
            ) implies self@.orders[k].id == k && order_consistent(self@.orders[k]) by {
                if k != oidv {
                    assert(old(self)@.orders.contains_key(k));
                } else {
                    assert(self@.orders[k] == ordv);
                }
            }
            assert(self@.events =~= old(self)@.events.push(
                MarketplaceAppEventView::OrderCreated {
                    order_id: oidv,
                    buyer_wallet: buyer_wallet@,
                },
            ));
            assert(self@.products[pidv] =~= (ProductView {
                quantity: (old(self)@.products[pidv].quantity - 1) as u32,
                ..old(self)@.products[pidv]
            }));
            assert(self@ =~= (MarketplaceAppView {
                products: self@.products,
                orders: self@.orders,
                order_counter: self.order_counter,
                events: self@.events,
                ..old(self)@
            }));
        }
        Ok(order_id)
    }

    /// The delivery-confirmation payload stored on an order.
    pub fn get_delivery_payload(&self, order_id: String) -> (r: Result<
        String,
        MarketplaceAppError,
    >)
        requires
            self.wf(),
        ensures
            match r {
                Ok(p) => self@.orders.contains_key(order_id@) && p@
                    == self@.orders[order_id@].qr_payload,
                Err(e) => e matches MarketplaceAppError::OrderNotFound(oid) && oid@ == order_id@
                    && !self@.orders.contains_key(order_id@),
            },
    {
        match self.orders.get(&order_id) {
            None => Err(MarketplaceAppError::OrderNotFound(order_id)),
            Some(order) => Ok(order.qr_payload.clone()),
        }
    }

    /// Confirms delivery of an order: its escrow is released and the
    /// delivery time recorded, in one step.
    pub fn confirm_delivery(&mut self, order_id: String, _buyer_signature: String, now: u64) -> (r:
        Result<(), MarketplaceAppError>)
        requires
            old(self).wf(),
        ensures
            final(self).wf(),
            match r {
                Ok(_) => old(self)@.orders.contains_key(order_id@) && ({
                    let o = old(self)@.orders[order_id@];
                    final(self)@ == (MarketplaceAppView {
                        orders: old(self)@.orders.insert(
                            order_id@,
                            OrderView {
                                escrow_status: EscrowStatus::Released,
                                delivered_at: Some(now),
                                ..o
                            },
                        ),
                        events: old(self)@.events.push(
                            MarketplaceAppEventView::DeliveryConfirmed { order_id: order_id@ },
                        ),
                        ..old(self)@
                    })
                }),
                Err(e) => e matches MarketplaceAppError::OrderNotFound(oid) && oid@ == order_id@
                    && !old(self)@.orders.contains_key(order_id@) && final(self)@ == old(self)@,
            },
    {
        let mut order = match self.orders.get(&order_id) {
            None => {
                return Err(MarketplaceAppError::OrderNotFound(order_id));
            },
            Some(found) => found.duplicate(),
        };
        order.escrow_status = EscrowStatus::Released;
        order.delivered_at = Some(now);
        self.orders.insert(order_id.clone(), order);
        self.events.push(MarketplaceAppEvent::DeliveryConfirmed { order_id: order_id.clone() });
        proof {
            let oidv = order_id@;
            assert forall|k: Seq<char>| #[trigger] self@.orders.contains_key(
                k,
            ) implies self@.orders[k].id == k && order_consistent(self@.orders[k]) by {
                if k != oidv {
                    assert(old(self)@.orders.contains_key(k));
                }
            }
            assert(self@.events =~= old(self)@.events.push(
                MarketplaceAppEventView::DeliveryConfirmed { order_id: oidv },
            ));
            assert(self@.orders[oidv] =~= (OrderView {
                escrow_status: EscrowStatus::Released,
                delivered_at: Some(now),
                ..old(self)@.orders[oidv]
            }));
            assert(self@ =~= (MarketplaceAppView {
                orders: self@.orders,
                events: self@.events,
                ..old(self)@
            }));
        }
        Ok(())
    }

    /// All products, keyed by id, in ascending id order.
    pub fn get_products(&self) -> (r: Vec<(String, Product)>)
        requires
            self.wf(),
        ensures
            forall|i: int|
                0 <= i < r@.len() ==> self@.products.contains_key(#[trigger] r@[i].0@) && r@[i].1@
                    == self@.products[r@[i].0@],
            forall|k: Seq<char>|
                self@.products.contains_key(k) ==> exists|i: int|
                    0 <= i < r@.len() && #[trigger] r@[i].0@ == k,
            forall|i: int, j: int| 0 <= i < j < r@.len() ==> lex_lt(r@[i].0@, r@[j].0@),
    {
        self.products.entries()
    }

    /// All seller records, keyed by id, in ascending id order.
    pub fn get_sellers(&self) -> (r: Vec<(String, SellerInfo)>)
        requires
            self.wf(),
        ensures
            forall|i: int|
                0 <= i < r@.len() ==> self@.sellers.contains_key(#[trigger] r@[i].0@) && r@[i].1@
                    == self@.sellers[r@[i].0@],
            forall|k: Seq<char>|
                self@.sellers.contains_key(k) ==> exists|i: int|
                    0 <= i < r@.len() && #[trigger] r@[i].0@ == k,
            forall|i: int, j: int| 0 <= i < j < r@.len() ==> lex_lt(r@[i].0@, r@[j].0@),
    {
        self.sellers.entries()
    }

    /// All orders, keyed by id, in ascending id order.
    pub fn get_orders(&self) -> (r: Vec<(String, Order)>)
        requires
            self.wf(),
        ensures
            forall|i: int|
                0 <= i < r@.len() ==> self@.orders.contains_key(#[trigger] r@[i].0@) && r@[i].1@
                    == self@.orders[r@[i].0@],
            forall|k: Seq<char>|
                self@.orders.contains_key(k) ==> exists|i: int|
                    0 <= i < r@.len() && #[trigger] r@[i].0@ == k,
            forall|i: int, j: int| 0 <= i < j < r@.len() ==> lex_lt(r@[i].0@, r@[j].0@),
    {
        self.orders.entries()
    }

    /// The seller requests not yet approved, in ascending id order.
    #[verifier::rlimit(50)]
    pub fn get_pending_seller_requests(&self) -> (r: Vec<SellerRequest>)
        requires
            self.wf(),
        ensures
            forall|i: int|
                0 <= i < r@.len() ==> self@.seller_requests.contains_key(#[trigger] r@[i]@.id)
                    && r@[i]@ == self@.seller_requests[r@[i]@.id] && !r@[i]@.approved,
            forall|k: Seq<char>|
                self@.seller_requests.contains_key(k) && !self@.seller_requests[k].approved
                    ==> exists|i: int| 0 <= i < r@.len() && #[trigger] r@[i]@.id == k,
            forall|i: int, j: int| 0 <= i < j < r@.len() ==> lex_lt(r@[i]@.id, r@[j]@.id),
    {
        let entries = self.seller_requests.entries();
        let n = entries.len();
        let mut r: Vec<SellerRequest> = Vec::new();
        let mut i: usize = 0;
        while i < n
            invariant
                self.wf(),
                n == entries@.len(),
                i <= n,
                entries@.len() == self.seller_requests.spec_len(),
                forall|j: int|
                    0 <= j < entries@.len() ==> self@.seller_requests.contains_key(
                        #[trigger] entries@[j].0@,
                    ) && entries@[j].1@ == self@.seller_requests[entries@[j].0@],
                forall|k: Seq<char>|
                    self@.seller_requests.contains_key(k) ==> exists|j: int|
                        0 <= j < entries@.len() && #[trigger] entries@[j].0@ == k,
                forall|a: int, b: int|
                    0 <= a < b < entries@.len() ==> lex_lt(entries@[a].0@, entries@[b].0@),
                forall|a: int|
                    0 <= a < r@.len() ==> exists|j: int|
                        0 <= j < i && #[trigger] r@[a]@ == entries@[j].1@,
                forall|a: int| 0 <= a < r@.len() ==> !(#[trigger] r@[a]@.approved),
                forall|j: int|
                    0 <= j < i && !(#[trigger] entries@[j].1@.approved) ==> exists|a: int|
                        0 <= a < r@.len() && r@[a]@ == entries@[j].1@,
                forall|a: int, b: int| 0 <= a < b < r@.len() ==> lex_lt(r@[a]@.id, r@[b]@.id),
            decreases n - i,
        {
            if !entries[i].1.approved {
                proof {
                    let cur = entries@[i as int].1@;
                    assert(cur.id == entries@[i as int].0@);
                    assert forall|a: int| 0 <= a < r@.len() implies lex_lt(r@[a]@.id, cur.id) by {
                        let j = choose|j: int|
                            0 <= j < i && #[trigger] r@[a]@ == entries@[j].1@;
                        assert(entries@[j].1@.id == entries@[j].0@);
                        assert(lex_lt(entries@[j].0@, entries@[i as int].0@));
                    }
                }
                let ghost r_pre = r@;
                r.push(entries[i].1.duplicate());
                proof {
                    assert(r@[r@.len() - 1]@ == entries@[i as int].1@);
                    assert forall|j: int|
                        0 <= j < i + 1 && !(#[trigger] entries@[j].1@.approved) implies exists|
                            a: int,
                        | 0 <= a < r@.len() && r@[a]@ == entries@[j].1@ by {
                        if j < i {
                            let a = choose|a: int|
                                0 <= a < r_pre.len() && r_pre[a]@ == entries@[j].1@;
                            assert(r@[a]@ == entries@[j].1@);
                        } else {
                            assert(r@[r@.len() - 1]@ == entries@[j].1@);
                        }
                    }
                }
            }
            i = i + 1;
        }
        proof {
            assert forall|k: Seq<char>|
                self@.seller_requests.contains_key(k) && !self@.seller_requests[k].approved
                    implies exists|i: int| 0 <= i < r@.len() && #[trigger] r@[i]@.id == k by {
                let j = choose|j: int| 0 <= j < entries@.len() && #[trigger] entries@[j].0@ == k;
                assert(entries@[j].1@ == self@.seller_requests[k]);
                assert(!entries@[j].1@.approved);
                let a = choose|a: int| 0 <= a < r@.len() && #[trigger] r@[a]@ == entries@[j].1@;
                assert(r@[a]@.id == k);
            }
            assert forall|i: int|
                0 <= i < r@.len() implies self@.seller_requests.contains_key(#[trigger] r@[i]@.id)
                && r@[i]@ == self@.seller_requests[r@[i]@.id] && !r@[i]@.approved by {
                let j = choose|j: int| 0 <= j < n && #[trigger] r@[i]@ == entries@[j].1@;
                assert(entries@[j].1@.id == entries@[j].0@);
            }
        }
        r
    }

    /// Looks one order up by id.
    pub fn get_order(&self, order_id: String) -> (r: Result<Order, MarketplaceAppError>)
        requires
            self.wf(),
        ensures
            match r {
                Ok(o) => self@.orders.contains_key(order_id@) && o@ == self@.orders[order_id@],
                Err(e) => e matches MarketplaceAppError::OrderNotFound(oid) && oid@ == order_id@
                    && !self@.orders.contains_key(order_id@),
            },
    {
        match self.orders.get(&order_id) {
            None => Err(MarketplaceAppError::OrderNotFound(order_id)),
            Some(order) => Ok(order.duplicate()),
        }
    }

    /// The admin wallet recorded at setup.
    pub fn get_admin_wallet(&self) -> (r: String)
        ensures
            r@ == self@.admin_wallet,
    {
        self.admin_wallet.clone()
    }

    /// A released escrow always carries its delivery time; once an order is
    /// released, no operation that keeps the state well formed clears it.
    pub proof fn lemma_released_order_has_delivery(&self, k: Seq<char>)
        requires
            self.wf(),
            self@.orders.contains_key(k),
            self@.orders[k].escrow_status == EscrowStatus::Released,
        ensures
            self@.orders[k].delivered_at is Some,
    {
    }

    /// Resolves a seller request version received from another replica.
    ///
    /// When both versions carry `approved`, so does the resolved one; a
    /// remote version with a later timestamp wins outright, approved or
    /// not.
    pub fn reconcile_seller_request(&mut self, key: String, remote: SellerRequest)
        requires
            old(self).wf(),
            remote@.id == key@,
        ensures
            final(self).wf(),
            old(self)@.seller_requests.contains_key(key@) ==> final(self)@
                == (MarketplaceAppView {
                seller_requests: old(self)@.seller_requests.insert(
                    key@,
                    SellerRequest::merged(old(self)@.seller_requests[key@], remote@),
                ),
                ..old(self)@
            }),
            !old(self)@.seller_requests.contains_key(key@) ==> final(self)@
                == (MarketplaceAppView {
                seller_requests: old(self)@.seller_requests.insert(key@, remote@),
                ..old(self)@
            }),
            ({
                &&& old(self)@.seller_requests.contains_key(key@)
                &&& old(self)@.seller_requests[key@].approved
                &&& remote@.approved
            }) ==> final(self)@.seller_requests[key@].approved,
    {
        let ghost remv = remote@;
        self.seller_requests.reconcile(&key, remote);
        proof {
            let kv = key@;
            if old(self)@.seller_requests.contains_key(kv) {
                let l = old(self)@.seller_requests[kv];
                assert(SellerRequest::merged(l, remv) == l || SellerRequest::merged(l, remv)
                    == remv);
            }
            assert forall|k: Seq<char>| #[trigger]
                self@.seller_requests.contains_key(k) implies self@.seller_requests[k].id
                == k by {
                if k != kv {
                    assert(old(self)@.seller_requests.contains_key(k));
                }
            }
            assert(self@ =~= (MarketplaceAppView {
                seller_requests: self@.seller_requests,
                ..old(self)@
            }));
        }
    }

    /// Resolves a seller record version received from another replica.
    pub fn reconcile_seller(&mut self, key: String, remote: SellerInfo)
        requires
            old(self).wf(),
            remote@.id == key@,
        ensures
            final(self).wf(),
            old(self)@.sellers.contains_key(key@) ==> final(self)@ == (MarketplaceAppView {
                sellers: old(self)@.sellers.insert(
                    key@,
                    SellerInfo::merged(old(self)@.sellers[key@], remote@),
                ),
                ..old(self)@
            }),
            !old(self)@.sellers.contains_key(key@) ==> final(self)@ == (MarketplaceAppView {
                sellers: old(self)@.sellers.insert(key@, remote@),
                ..old(self)@
            }),
    {
        let ghost remv = remote@;
        self.sellers.reconcile(&key, remote);
        proof {
            let kv = key@;
            if old(self)@.sellers.contains_key(kv) {
                let l = old(self)@.sellers[kv];
                assert(SellerInfo::merged(l, remv) == l || SellerInfo::merged(l, remv) == remv);
            }
            assert forall|k: Seq<char>| #[trigger] self@.sellers.contains_key(
                k,
            ) implies self@.sellers[k].id == k by {
                if k != kv {
                    assert(old(self)@.sellers.contains_key(k));
                }
            }
            assert(self@ =~= (MarketplaceAppView { sellers: self@.sellers, ..old(self)@ }));
        }
    }

    /// Resolves a product version received from another replica.
    pub fn reconcile_product(&mut self, key: String, remote: Product)
        requires
            old(self).wf(),
            remote@.id == key@,
        ensures
            final(self).wf(),
            old(self)@.products.contains_key(key@) ==> final(self)@ == (MarketplaceAppView {
                products: old(self)@.products.insert(
                    key@,
                    Product::merged(old(self)@.products[key@], remote@),
                ),
                ..old(self)@
            }),
            !old(self)@.products.contains_key(key@) ==> final(self)@ == (MarketplaceAppView {
                products: old(self)@.products.insert(key@, remote@),
                ..old(self)@
            }),
    {
        let ghost remv = remote@;
        self.products.reconcile(&key, remote);
        proof {
            let kv = key@;
            if old(self)@.products.contains_key(kv) {
                let l = old(self)@.products[kv];
                assert(Product::merged(l, remv) == l || Product::merged(l, remv) == remv);
            }
            assert forall|k: Seq<char>| #[trigger] self@.products.contains_key(
                k,
            ) implies self@.products[k].id == k by {
                if k != kv {
                    assert(old(self)@.products.contains_key(k));
                }
            }
            assert(self@ =~= (MarketplaceAppView { products: self@.products, ..old(self)@ }));
        }
    }

    /// Resolves an order version received from another replica.
    ///
    /// A released local order survives any remote version that was not
    /// created strictly later; a remote version with a strictly later
    /// creation time replaces the local order whole.
    pub fn reconcile_order(&mut self, key: String, remote: Order)
        requires
            old(self).wf(),
            remote@.id == key@,
            order_consistent(remote@),
        ensures
            final(self).wf(),
            old(self)@.orders.contains_key(key@) ==> final(self)@ == (MarketplaceAppView {
                orders: old(self)@.orders.insert(
                    key@,
                    Order::merged(old(self)@.orders[key@], remote@),
                ),
                ..old(self)@
            }),
            !old(self)@.orders.contains_key(key@) ==> final(self)@ == (MarketplaceAppView {
                orders: old(self)@.orders.insert(key@, remote@),
                ..old(self)@
            }),
            ({
                &&& old(self)@.orders.contains_key(key@)
                &&& old(self)@.orders[key@].escrow_status == EscrowStatus::Released
                &&& remote@.created_at <= old(self)@.orders[key@].created_at
            }) ==> final(self)@.orders[key@] == old(self)@.orders[key@],
    {
        let ghost remv = remote@;
        self.orders.reconcile(&key, remote);
        proof {
            let kv = key@;
            if old(self)@.orders.contains_key(kv) {
                let l = old(self)@.orders[kv];
                assert(Order::merged(l, remv) == l || Order::merged(l, remv) == remv);
            }
            assert forall|k: Seq<char>| #[trigger] self@.orders.contains_key(
                k,
            ) implies self@.orders[k].id == k && order_consistent(self@.orders[k]) by {
                if k != kv {
                    assert(old(self)@.orders.contains_key(k));
                }
            }
            assert(self@ =~= (MarketplaceAppView { orders: self@.orders, ..old(self)@ }));
        }
    }

    /// The events emitted so far, oldest first.
    pub fn events(&self) -> (r: &Vec<MarketplaceAppEvent>)
        ensures
            r@.map_values(|e: MarketplaceAppEvent| e@) == self@.events,
    {
        &self.events
    }

    /// How many seller requests this replica has created.
    pub fn seller_counter(&self) -> (r: u64)
        ensures
            r == self@.seller_counter,
    {
        self.seller_counter
    }

    /// How many products this replica has created.
    pub fn product_counter(&self) -> (r: u64)
        ensures
            r == self@.product_counter,
    {
        self.product_counter
    }

    /// How many orders this replica has created.
    pub fn order_counter(&self) -> (r: u64)
        ensures
            r == self@.order_counter,
    {
        self.order_counter
    }
}

} // verus!
