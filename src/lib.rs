//! Off-chain backend of a collateral-vault system: a verified ledger mirror,
//! event codec, indexer, reconciliation, access control and instruction building.

pub mod access_control;
pub mod api;
pub mod codec;
pub mod cpi_manager;
pub mod error_handling;
pub mod indexer;
pub mod invariants;
pub mod keys;
pub mod reconciliation;
pub mod logging;
pub mod program_repo;
pub mod records;
pub mod text;
pub mod transaction_builder;
pub mod vault_repo;
pub mod wire;
