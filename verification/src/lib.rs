//! Issuance and management of ownership records for registered digital
//! assets: asset validation, unique non-fungible certificate issuance,
//! atomic ownership transfer with an append-only audit trail, and a
//! streaming query engine that serves sorted result sets in bounded
//! batches.

pub mod asset;
pub mod clock;
pub mod common;
pub mod configs;
pub mod context;
pub mod contract;
pub mod currency;
pub mod digits;
pub mod error;
pub mod interceptors;
pub mod key;
pub mod nfc;
pub mod orchestrator;
pub mod ordering;
pub mod queries;
pub mod store;
pub mod stream;
pub mod text;
