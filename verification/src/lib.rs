//! A verified peer-to-peer loan ledger: loan records are created, funded and
//! repaid through a lifecycle engine that commits each operation atomically
//! against a key-addressed store, with signer-based authorization and a
//! native value-transfer service.

pub mod address;
pub mod codec;
pub mod errors;
pub mod table;
pub mod identity;
pub mod laws;
pub mod ledger;
pub mod record;

