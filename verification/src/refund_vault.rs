//! `RefundVault`: merchant float and policy-bounded refunds.

pub mod admin;
mod bigint;
pub mod call_rules;
pub mod claim_rules;
pub mod claims;
pub mod funds;
pub mod history;
pub mod laws;
pub mod oracle;
pub mod policy;
pub mod primality;
pub mod refunds;
pub mod strategy;
pub mod token;
pub mod types;
pub mod vault_rules;
pub mod vdf;
pub mod yields;

pub use types::RefundVault;
