use vstd::prelude::*;

verus! {

/// Every way in which a call into the protocol can be refused.
#[derive(Clone, Copy, Debug, PartialEq, Eq, Structural)]
pub enum Error {
    NotInitialized,
    Unauthorized,
    InvalidAmount,
    InvalidPremium,
    InvalidDuration,
    PolicyNotFound,
    ClaimNotFound,
    PolicyNotActive,
    PolicyExpired,
    ClaimExceedsCoverage,
    InvalidClaimAmount,
    NoPendingClaim,
    ContractPaused,
    InsufficientContractBalance,
    OracleVerificationFailed,
    OracleNotRegistered,
    OracleConditionNotMet,
    CoverageDecrease,
    PolicyAlreadyExpired,
    AdminAlreadyExists,
    AdminNotFound,
    InvalidThreshold,
    AlreadyVoted,
    PolicyNotRenewable,
    RenewalGracePeriodExpired,
    MaxPoliciesReached,
    PremiumMismatch,
    InsufficientLiquidity,
    InsufficientPoolReserve,
    ProviderNotFound,
    AlreadyInitialized,
    Overflow,
}

} // verus!
