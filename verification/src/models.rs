//! The data contracts shared by the registry, the hub, and the nodes.
//!
//! Prices are carried as integer cents so that every quantity in the
//! protocol is a plain integer; timestamps are milliseconds since the
//! Unix epoch.

use vstd::prelude::*;

verus! {

/// A product, either as a catalog entry (no quantity) or as one node's
/// holding of it (quantity present).
#[derive(Debug, Clone)]
pub struct Product {
    /// The unique code identifying the product.
    pub code: String,
    /// The descriptive name of the product.
    pub name: String,
    /// The unit price, in cents.
    pub price_cents: u64,
    /// The held quantity; a catalog entry carries none.
    pub quantity: Option<u32>,
}

/// The mathematical value of a [`Product`].
pub struct ProductView {
    pub code: Seq<char>,
    pub name: Seq<char>,
    pub price_cents: u64,
    pub quantity: Option<u32>,
}

impl View for Product {
    type V = ProductView;

    open spec fn view(&self) -> ProductView {
        ProductView {
            code: self.code@,
            name: self.name@,
            price_cents: self.price_cents,
            quantity: self.quantity,
        }
    }
}

impl Product {
    /// A field-for-field copy.
    pub fn duplicate(&self) -> (r: Product)
        ensures
            r@ == self@,
    {
        Product {
            code: self.code.clone(),
            name: self.name.clone(),
            price_cents: self.price_cents,
            quantity: self.quantity,
        }
    }
}

/// A service's registration record: its identity, where to reach it, and
/// when it last signalled liveness.
#[derive(Debug, Clone)]
pub struct ServiceInfo {
    /// The unique textual identifier of the service.
    pub id: String,
    /// The IP address where the service can be reached.
    pub ip: String,
    /// The network port the service listens on.
    pub port: u16,
    /// When the last liveness signal arrived, in milliseconds since the
    /// Unix epoch.
    pub last_heartbeat: u64,
}

/// The mathematical value of a [`ServiceInfo`].
pub struct ServiceInfoView {
    pub id: Seq<char>,
    pub ip: Seq<char>,
    pub port: u16,
    pub last_heartbeat: u64,
}

impl View for ServiceInfo {
    type V = ServiceInfoView;

    open spec fn view(&self) -> ServiceInfoView {
        ServiceInfoView {
            id: self.id@,
            ip: self.ip@,
            port: self.port,
            last_heartbeat: self.last_heartbeat,
        }
    }
}

/// What a lookup reveals about a service: enough to reach it, nothing of
/// the registry's internal liveness bookkeeping.
#[derive(Debug, Clone)]
pub struct ServiceInfoLookup {
    /// The unique identifier of the service.
    pub id: String,
    /// The IP address of the service.
    pub ip: String,
    /// The network port of the service.
    pub port: u16,
}

/// The mathematical value of a [`ServiceInfoLookup`].
pub struct ServiceInfoLookupView {
    pub id: Seq<char>,
    pub ip: Seq<char>,
    pub port: u16,
}

impl View for ServiceInfoLookup {
    type V = ServiceInfoLookupView;

    open spec fn view(&self) -> ServiceInfoLookupView {
        ServiceInfoLookupView { id: self.id@, ip: self.ip@, port: self.port }
    }
}

/// One entry of the hub's answer to "who has this product": a node, the
/// quantity it reported, and the product's details.
#[derive(Debug, Clone)]
pub struct ProductAvailability {
    /// The node that reported the product available.
    pub cd_id: String,
    /// The quantity that node reported holding.
    pub quantity_available: u32,
    /// The product's details, from the hub's catalog when present there,
    /// otherwise as the node reported them.
    pub product_info: Product,
}

/// The mathematical value of a [`ProductAvailability`].
pub struct ProductAvailabilityView {
    pub cd_id: Seq<char>,
    pub quantity_available: u32,
    pub product_info: ProductView,
}

impl View for ProductAvailability {
    type V = ProductAvailabilityView;

    open spec fn view(&self) -> ProductAvailabilityView {
        ProductAvailabilityView {
            cd_id: self.cd_id@,
            quantity_available: self.quantity_available,
            product_info: self.product_info@,
        }
    }
}

/// One node's request that a peer hand over part of its stock.
#[derive(Debug, Clone)]
pub struct TransferRequest {
    /// The code of the product to transfer.
    pub product_code: String,
    /// How many units are requested.
    pub quantity: u32,
    /// The node asking for the transfer.
    pub requester_cd_id: String,
}

/// The mathematical value of a [`TransferRequest`].
pub struct TransferRequestView {
    pub product_code: Seq<char>,
    pub quantity: u32,
    pub requester_cd_id: Seq<char>,
}

impl View for TransferRequest {
    type V = TransferRequestView;

    open spec fn view(&self) -> TransferRequestView {
        TransferRequestView {
            product_code: self.product_code@,
            quantity: self.quantity,
            requester_cd_id: self.requester_cd_id@,
        }
    }
}

} // verus!
