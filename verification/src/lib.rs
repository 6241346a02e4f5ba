//! A record store for shipments. Records live at addresses that are derived
//! from a namespace tag and a seed, never chosen by the caller: one singleton
//! counter, and one shipment for each value that the counter has passed. A
//! shipment is created, then validated, then approved, in that order only,
//! and each step is gated by what the caller's authority vouches for.
//!
//! `address` derives locations, `record` holds the records and the lifecycle
//! of a shipment, `store` is the single point of access to them, and `laws`
//! states what holds of whole runs of operations.

pub mod address;
pub mod error;
pub mod identity;
pub mod laws;
pub mod record;
pub mod store;

pub use address::Address;
pub use error::StoreError;
pub use identity::{Authority, Identity};
pub use record::{CounterRecord, ShipmentRecord, Stage};
pub use store::{CounterHandle, ShipmentHandle, Store};
