//! Coordinated inventory across independent distribution nodes: a registry
//! tracks which nodes are alive, a hub answers "who can supply N units of
//! product P", and nodes execute peer-to-peer transfers that debit the
//! supplier and credit the requester.

mod clock;
pub mod errors;
pub mod hub;
pub mod models;
pub mod node;
pub mod registry;
pub mod table;

pub use errors::ServiceError;
pub use hub::InventoryReport;
pub use hub::InventoryReportView;
pub use models::Product;
pub use models::ProductAvailability;
pub use models::ProductAvailabilityView;
pub use models::ProductView;
pub use models::ServiceInfo;
pub use models::ServiceInfoLookup;
pub use models::ServiceInfoLookupView;
pub use models::ServiceInfoView;
pub use models::TransferRequest;
pub use models::TransferRequestView;
pub use table::ProductTable;
