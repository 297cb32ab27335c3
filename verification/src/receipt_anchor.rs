//! `ReceiptAnchor`: Merkle roots of receipt batches that anyone can verify against.

pub mod anchor;
pub mod anchor_rules;
pub mod history;
pub mod laws;
pub mod merkle;
pub mod shard;
pub mod shard_rules;
pub mod shard_set;
pub mod types;
pub mod zk_verifier;

pub use types::ReceiptAnchor;
