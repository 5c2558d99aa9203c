//! A registry that tracks the lifecycle of independent appchains and
//! arbitrates their promotion through a deposit-backed community voting
//! process.
//!
//! The registry holds one [`appchain_basedata::AppchainBasedata`] record per
//! appchain, a deposit ledger keyed by appchain and voter, and a running
//! voting score per appchain.  Mutating operations enforce the lifecycle
//! state machine and its authorization policy; the query layer projects,
//! filters, sorts and paginates the records without mutating them.

pub mod appchain_anchor_callback;
pub mod appchain_basedata;
pub mod deposit;
pub mod registry;
pub mod registry_status;
pub mod sorting;
pub mod storage_key;
pub mod types;
pub mod voting_score;

pub use types::AccountId;
pub use types::AppchainId;
