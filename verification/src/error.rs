//! The error type that both contracts report.

use vstd::prelude::*;

verus! {

/// Why a contract call was refused.
#[derive(Clone, Copy, Debug, PartialEq, Eq, Structural)]
pub enum Error {
    /// `initialize` was called twice.
    AlreadyInitialized,
    /// A call that needs an initialized contract came before `initialize`.
    NotInitialized,
    /// The required address did not authorize the call.
    Unauthorized,
    /// Legacy marker of the single-refund rule; no call reports it any more.
    AlreadyRefunded,
    /// The refund window, measured from the payment, has passed.
    WindowExpired,
    /// The vault float does not cover the amount.
    InsufficientFloat,
    /// The amount was not strictly positive.
    InvalidAmount,
    /// The vault is paused.
    Paused,
    /// No refund record exists for the payment.
    RefundNotFound,
    /// No admin transfer is pending.
    NoPendingTransfer,
    /// No yield strategy is registered.
    StrategyNotSet,
    /// Deploying would leave less than the required reserve.
    InsufficientReserve,
    /// Deploying would exceed the maximum deployment ratio.
    DeploymentExceedsMax,
    /// More principal was asked back than is deployed.
    NothingToWithdraw,
    /// The strategy had no yield to harvest.
    NothingToHarvest,
    /// A ratio in basis points was above 10,000.
    InvalidRatio,
    /// Cumulative refunds would exceed the payment.
    ExceedsPayment,
    /// A transfer would pay the vault itself.
    SelfTransfer,
    /// The token cannot be replaced while the vault holds float.
    FloatNotEmpty,
    /// The policy deadline has passed.
    RefundExpired,
    /// A guarded entry point was entered while another one was running.
    ReentrancyBlocked,
    /// The migration target is not above the stored layout version.
    InvalidMigrationVersion,
    /// The policy demands a delay proof and the claim carries none.
    VdfProofRequired,
    /// The delay proof does not verify.
    InvalidVdfProof,
    /// The claim carries a delay proof and the policy demands none.
    VdfNotConfigured,
    /// The batch does not exist, or was pruned.
    BatchNotFound,
    /// The batch, or the requested interval, is larger than the contract allows.
    BatchTooLarge,
    /// A shard call returned an unexpected shape.
    ShardCallFailed,
    /// The root equals the one anchored last.
    DuplicateRoot,
    /// The root is not in the historical ring buffer.
    RootNotFound,
    /// The Merkle proof is longer than any valid one.
    ProofTooLong,
    /// The minimum interval between anchors has not elapsed.
    AnchorRateLimited,
    /// The validity proof is malformed.
    InvalidProof,
    /// No policy change is pending.
    NoPendingPolicy,
    /// The policy timelock has not elapsed.
    TimelockNotExpired,
    /// No oracle is whitelisted.
    NoOraclesConfigured,
    /// The oracle is already whitelisted.
    OracleAlreadyAdded,
    /// The oracle is not whitelisted.
    OracleNotFound,
    /// Every whitelisted oracle reports a stale value.
    StaleOracleData,
    /// No oracle policy is installed.
    NoOraclePolicy,
    /// The oracle policy does not permit refunds now.
    OraclePolicyDenied,
    /// Reserved for payments reported from a future ledger; no call reports it.
    FuturePaidAtLedger,
}

/// The number under which callers see an error. Numbers are never reused.
pub open spec fn code_of(e: Error) -> u32 {
    match e {
        Error::AlreadyInitialized => 1,
        Error::NotInitialized => 2,
        Error::Unauthorized => 3,
        Error::AlreadyRefunded => 4,
        Error::WindowExpired => 5,
        Error::InsufficientFloat => 6,
        Error::InvalidAmount => 7,
        Error::Paused => 8,
        Error::RefundNotFound => 9,
        Error::NoPendingTransfer => 12,
        Error::StrategyNotSet => 13,
        Error::InsufficientReserve => 14,
        Error::DeploymentExceedsMax => 15,
        Error::NothingToWithdraw => 16,
        Error::NothingToHarvest => 17,
        Error::InvalidRatio => 18,
        Error::ExceedsPayment => 19,
        Error::SelfTransfer => 20,
        Error::FloatNotEmpty => 21,
        Error::RefundExpired => 23,
        Error::ReentrancyBlocked => 24,
        Error::InvalidMigrationVersion => 25,
        Error::VdfProofRequired => 309,
        Error::InvalidVdfProof => 310,
        Error::VdfNotConfigured => 311,
        Error::BatchNotFound => 100,
        Error::BatchTooLarge => 101,
        Error::ShardCallFailed => 102,
        Error::DuplicateRoot => 103,
        Error::RootNotFound => 200,
        Error::ProofTooLong => 201,
        Error::AnchorRateLimited => 202,
        Error::InvalidProof => 203,
        Error::NoPendingPolicy => 300,
        Error::TimelockNotExpired => 301,
        Error::NoOraclesConfigured => 302,
        Error::OracleAlreadyAdded => 303,
        Error::OracleNotFound => 304,
        Error::StaleOracleData => 305,
        Error::NoOraclePolicy => 306,
        Error::OraclePolicyDenied => 307,
        Error::FuturePaidAtLedger => 308,
    }
}

impl Error {
    /// The number under which callers see the error.
    pub fn code(self) -> (r: u32)
        ensures
            r == code_of(self),
    {
        match self {
            Error::AlreadyInitialized => 1,
            Error::NotInitialized => 2,
            Error::Unauthorized => 3,
            Error::AlreadyRefunded => 4,
            Error::WindowExpired => 5,
            Error::InsufficientFloat => 6,
            Error::InvalidAmount => 7,
            Error::Paused => 8,
            Error::RefundNotFound => 9,
            Error::NoPendingTransfer => 12,
            Error::StrategyNotSet => 13,
            Error::InsufficientReserve => 14,
            Error::DeploymentExceedsMax => 15,
            Error::NothingToWithdraw => 16,
            Error::NothingToHarvest => 17,
            Error::InvalidRatio => 18,
            Error::ExceedsPayment => 19,
            Error::SelfTransfer => 20,
            Error::FloatNotEmpty => 21,
            Error::RefundExpired => 23,
            Error::ReentrancyBlocked => 24,
            Error::InvalidMigrationVersion => 25,
            Error::VdfProofRequired => 309,
            Error::InvalidVdfProof => 310,
            Error::VdfNotConfigured => 311,
            Error::BatchNotFound => 100,
            Error::BatchTooLarge => 101,
            Error::ShardCallFailed => 102,
            Error::DuplicateRoot => 103,
            Error::RootNotFound => 200,
            Error::ProofTooLong => 201,
            Error::AnchorRateLimited => 202,
            Error::InvalidProof => 203,
            Error::NoPendingPolicy => 300,
            Error::TimelockNotExpired => 301,
            Error::NoOraclesConfigured => 302,
            Error::OracleAlreadyAdded => 303,
            Error::OracleNotFound => 304,
            Error::StaleOracleData => 305,
            Error::NoOraclePolicy => 306,
            Error::OraclePolicyDenied => 307,
            Error::FuturePaidAtLedger => 308,
        }
    }
}

/// No two errors share a number.
pub proof fn law_codes_are_distinct(a: Error, b: Error)
    ensures
        code_of(a) == code_of(b) ==> a == b,
{
}

/// The error that callers see under a number, if there is one.
pub open spec fn error_of(code: int) -> Option<Error> {
    if code == 1 {
        Some(Error::AlreadyInitialized)
    } else if code == 2 {
        Some(Error::NotInitialized)
    } else if code == 3 {
        Some(Error::Unauthorized)
    } else if code == 4 {
        Some(Error::AlreadyRefunded)
    } else if code == 5 {
        Some(Error::WindowExpired)
    } else if code == 6 {
        Some(Error::InsufficientFloat)
    } else if code == 7 {
        Some(Error::InvalidAmount)
    } else if code == 8 {
        Some(Error::Paused)
    } else if code == 9 {
        Some(Error::RefundNotFound)
    } else if code == 12 {
        Some(Error::NoPendingTransfer)
    } else if code == 13 {
        Some(Error::StrategyNotSet)
    } else if code == 14 {
        Some(Error::InsufficientReserve)
    } else if code == 15 {
        Some(Error::DeploymentExceedsMax)
    } else if code == 16 {
        Some(Error::NothingToWithdraw)
    } else if code == 17 {
        Some(Error::NothingToHarvest)
    } else if code == 18 {
        Some(Error::InvalidRatio)
    } else if code == 19 {
        Some(Error::ExceedsPayment)
    } else if code == 20 {
        Some(Error::SelfTransfer)
    } else if code == 21 {
        Some(Error::FloatNotEmpty)
    } else if code == 23 {
        Some(Error::RefundExpired)
    } else if code == 24 {
        Some(Error::ReentrancyBlocked)
    } else if code == 25 {
        Some(Error::InvalidMigrationVersion)
    } else if code == 100 {
        Some(Error::BatchNotFound)
    } else if code == 101 {
        Some(Error::BatchTooLarge)
    } else if code == 102 {
        Some(Error::ShardCallFailed)
    } else if code == 103 {
        Some(Error::DuplicateRoot)
    } else if code == 200 {
        Some(Error::RootNotFound)
    } else if code == 201 {
        Some(Error::ProofTooLong)
    } else if code == 202 {
        Some(Error::AnchorRateLimited)
    } else if code == 203 {
        Some(Error::InvalidProof)
    } else if code == 300 {
        Some(Error::NoPendingPolicy)
    } else if code == 301 {
        Some(Error::TimelockNotExpired)
    } else if code == 302 {
        Some(Error::NoOraclesConfigured)
    } else if code == 303 {
        Some(Error::OracleAlreadyAdded)
    } else if code == 304 {
        Some(Error::OracleNotFound)
    } else if code == 305 {
        Some(Error::StaleOracleData)
    } else if code == 306 {
        Some(Error::NoOraclePolicy)
    } else if code == 307 {
        Some(Error::OraclePolicyDenied)
    } else if code == 308 {
        Some(Error::FuturePaidAtLedger)
    } else if code == 309 {
        Some(Error::VdfProofRequired)
    } else if code == 310 {
        Some(Error::InvalidVdfProof)
    } else if code == 311 {
        Some(Error::VdfNotConfigured)
    } else {
        None
    }
}

/// Numbers and errors belong together: a number gives the error that gives the number.
pub proof fn law_numbers_and_errors_belong_together(e: Error, code: u32)
    ensures
        error_of(code_of(e) as int) == Some(e),
        error_of(code as int) matches Some(known) ==> code_of(known) == code,
{
}

} // verus!
