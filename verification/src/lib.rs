//! Local persistence and integrity-verification layer for a sequential,
//! hash-linked block ledger: a block store keyed by header hash, a per-ledger
//! chain index holding the genesis anchor and the current tip, a chain
//! verifier that walks a ledger backward from its tip and checks per-block
//! validity and hash linkage against the genesis anchor, and a tip forwarder
//! that advances the recorded tip to a block already present in the store.

pub mod block;
pub mod catalog;
pub mod chain;
pub mod error;
pub mod forwarder;
pub mod hash;
pub mod index;
pub mod laws;
pub mod render;
pub mod store;

pub use block::BlockSummary;
pub use block::SummaryView;
pub use catalog::LedgerName;
pub use catalog::list_ledgers;
pub use catalog::valid_name;
pub use error::Error;
pub use forwarder::forward;
pub use hash::HeaderHash;
pub use hash::HASH_SIZE;
pub use index::ChainIndex;
pub use index::ChainIndexView;
pub use store::BlockStore;
pub use store::get_block;
pub use chain::FailureKind;
pub use chain::OutcomeView;
pub use chain::VerificationOutcome;
pub use chain::verify;
