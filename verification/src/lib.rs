//! Verified core of a command-line client for a crowdfunding ("Raisin")
//! contract hosted on a smart-contract ledger.
//!
//! The library covers the contract-interaction and transaction-lifecycle
//! layer: exact conversion between human decimal amounts and on-chain
//! integer base units, construction of call descriptors against a contract
//! interface schema, tracking a broadcast transaction to a fixed
//! confirmation depth, and the orchestration of multi-step fund operations
//! (approve-then-donate, batched donations).  All chain I/O — signing,
//! broadcasting, reading — is performed by the surrounding application,
//! which runs the orchestrator as a state machine: the library decides,
//! the application performs.

pub mod address;
pub mod amount;
pub mod pending;
pub mod schema;
pub mod session;
pub mod units;
