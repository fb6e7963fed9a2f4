//! Verified core of a parametric insurance protocol: policies, premiums,
//! claims, multi-signature claim voting, an oracle registry, and a
//! liquidity pool that takes premiums and funds payouts.
//!
//! Every contract entry point works on an [`Env`]: the contract's stored
//! data, the ledger facts of the current invocation, and a log of the
//! effects (authorisations, token transfers, calls to the pool, events)
//! that the host must carry out on the contract's behalf. A refused call
//! leaves the stored data as it found it.

pub mod types;
pub mod error;
pub mod premium;
pub mod policy;
pub mod multisig;
pub mod storage;
pub mod env;
pub mod oracle;
pub mod contract;
pub mod limits;
pub mod risk_pool;
pub mod laws;

pub use contract::{StellarInsure, MAX_POLICIES, RENEWAL_GRACE_PERIOD};
pub use env::{Effect, Env, Event, Ledger};
pub use error::Error;
pub use oracle::{OracleError, OracleResult};
pub use risk_pool::RiskPool;
pub use storage::Storage;
pub use types::{
    Address, AdminAddedEvent, AdminRemovedEvent, AutomaticClaimTriggeredEvent,
    BeneficiaryChangedEvent, Claim, ClaimProcessedEvent, ClaimSubmittedEvent, ClaimVoteCastEvent,
    ClaimVotes, ContractPausedEvent, ContractUnpausedEvent, LiquidityAddedEvent,
    LiquidityWithdrawnEvent, OracleRegisteredEvent, OracleRemovedEvent,
    OracleTriggerEvaluatedEvent, PayoutEvent, Policy, PolicyCancelledEvent, PolicyCreatedEvent,
    PolicyExpiredEvent, PolicyExtendedEvent, PolicyModifiedCoverageEvent, PolicyRenewedEvent,
    PolicyStatus, PolicyType, PoolStats, PremiumPaidEvent, ProviderPosition, Providers,
    RiskPoolSetEvent, Symbol, ThresholdUpdatedEvent, TreasuryStats, YieldClaimedEvent,
    YieldDistributionEvent,
};
