//! Verified core of the Accensa contracts: receipt anchoring and policy-bounded
//! refunds for x402 payments.

pub mod bytes;
pub mod error;
pub mod hash;
pub mod primitives;
pub mod receipt_anchor;
pub mod refund_vault;
