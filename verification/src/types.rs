use vstd::prelude::*;

verus! {

/// An account or contract on the ledger, known to the protocol only by
/// its identity: the protocol never reads anything but whether two
/// addresses are the same.
#[derive(Clone, Copy, Debug, PartialEq, Eq, Structural, Hash)]
pub struct Address(pub u64);

/// A short identifier for a kind of oracle (such as `Weather`).
pub type Symbol = String;

/// The insured risk; it selects the annual premium rate.
#[derive(Clone, Copy, Debug, PartialEq, Eq, Structural)]
pub enum PolicyType {
    Weather,
    SmartContract,
    Flight,
    Health,
    Asset,
}

/// Where a policy stands in its life cycle.
#[derive(Clone, Copy, Debug, PartialEq, Eq, Structural)]
pub enum PolicyStatus {
    Active,
    Expired,
    Cancelled,
    ClaimPending,
    ClaimApproved,
    ClaimRejected,
}

/// An insurance policy as stored by the protocol.
#[derive(Clone, Debug)]
pub struct Policy {
    pub id: u64,
    pub policyholder: Address,
    pub beneficiary: Address,
    pub policy_type: PolicyType,
    pub coverage_amount: i128,
    pub premium: i128,
    pub start_time: u64,
    pub end_time: u64,
    pub trigger_condition: String,
    pub status: PolicyStatus,
    pub claim_amount: i128,
    pub total_claimed: i128,
}

/// The latest claim filed against a policy.
#[derive(Clone, Debug)]
pub struct Claim {
    pub policy_id: u64,
    pub claim_amount: i128,
    pub proof: String,
    pub timestamp: u64,
    pub approved: bool,
}

/// A liquidity provider's stake in the pool and the yield owed to it.
#[derive(Clone, Copy, Debug, PartialEq, Eq, Structural)]
pub struct ProviderPosition {
    pub provider: Address,
    pub contribution: i128,
    pub accrued_yield: i128,
}

/// Summary figures of the liquidity pool.
#[derive(Clone, Copy, Debug, PartialEq, Eq, Structural)]
pub struct PoolStats {
    pub total_liquidity: i128,
    pub total_yield_distributed: i128,
    pub provider_count: u32,
}

/// Summary figures of the protocol's treasury.
#[derive(Clone, Copy, Debug, PartialEq, Eq, Structural)]
pub struct TreasuryStats {
    pub total_premium_collected: i128,
    pub total_payouts_distributed: i128,
    pub current_balance: i128,
}

/// The ordered list of registered liquidity providers.
#[derive(Clone, Debug)]
pub struct Providers(pub Vec<Address>);

/// Approval and rejection votes cast by admins on a pending claim.
#[derive(Clone, Debug)]
pub struct ClaimVotes {
    pub approvals: Vec<Address>,
    pub rejections: Vec<Address>,
}

#[derive(Clone, Debug, PartialEq, Eq)]
pub struct PolicyCreatedEvent {
    pub policy_id: u64,
    pub policyholder: Address,
    pub policy_type: PolicyType,
    pub coverage_amount: i128,
    pub premium: i128,
    pub start_time: u64,
    pub end_time: u64,
    pub trigger_condition: String,
}

#[derive(Clone, Copy, Debug, PartialEq, Eq, Structural)]
pub struct PremiumPaidEvent {
    pub policy_id: u64,
    pub policyholder: Address,
    pub amount: i128,
}

#[derive(Clone, Debug, PartialEq, Eq)]
pub struct ClaimSubmittedEvent {
    pub policy_id: u64,
    pub policyholder: Address,
    pub claim_amount: i128,
    pub proof: String,
    pub timestamp: u64,
}

#[derive(Clone, Copy, Debug, PartialEq, Eq, Structural)]
pub struct ClaimProcessedEvent {
    pub policy_id: u64,
    pub policyholder: Address,
    pub claim_amount: i128,
    pub approved: bool,
    pub status: PolicyStatus,
}

#[derive(Clone, Copy, Debug, PartialEq, Eq, Structural)]
pub struct PolicyCancelledEvent {
    pub policy_id: u64,
    pub policyholder: Address,
}

#[derive(Clone, Copy, Debug, PartialEq, Eq, Structural)]
pub struct YieldDistributionEvent {
    pub amount: i128,
    pub total_liquidity_before: i128,
}

#[derive(Clone, Copy, Debug, PartialEq, Eq, Structural)]
pub struct LiquidityAddedEvent {
    pub provider: Address,
    pub amount: i128,
    pub new_contribution: i128,
    pub pool_balance: i128,
}

#[derive(Clone, Copy, Debug, PartialEq, Eq, Structural)]
pub struct LiquidityWithdrawnEvent {
    pub provider: Address,
    pub amount: i128,
    pub remaining_contribution: i128,
    pub pool_balance: i128,
}

#[derive(Clone, Copy, Debug, PartialEq, Eq, Structural)]
pub struct YieldClaimedEvent {
    pub provider: Address,
    pub amount: i128,
}

#[derive(Clone, Copy, Debug, PartialEq, Eq, Structural)]
pub struct ContractPausedEvent {
    pub admin: Address,
    pub timestamp: u64,
}

#[derive(Clone, Copy, Debug, PartialEq, Eq, Structural)]
pub struct ContractUnpausedEvent {
    pub admin: Address,
    pub timestamp: u64,
}

#[derive(Clone, Copy, Debug, PartialEq, Eq, Structural)]
pub struct AdminAddedEvent {
    pub caller: Address,
    pub new_admin: Address,
}

#[derive(Clone, Copy, Debug, PartialEq, Eq, Structural)]
pub struct AdminRemovedEvent {
    pub caller: Address,
    pub removed_admin: Address,
}

#[derive(Clone, Copy, Debug, PartialEq, Eq, Structural)]
pub struct ThresholdUpdatedEvent {
    pub caller: Address,
    pub new_threshold: u32,
}

#[derive(Clone, Copy, Debug, PartialEq, Eq, Structural)]
pub struct ClaimVoteCastEvent {
    pub policy_id: u64,
    pub voter: Address,
    pub approve: bool,
    pub approval_count: u32,
    pub rejection_count: u32,
}

#[derive(Clone, Copy, Debug, PartialEq, Eq, Structural)]
pub struct RiskPoolSetEvent {
    pub caller: Address,
    pub risk_pool: Address,
}

#[derive(Clone, Copy, Debug, PartialEq, Eq, Structural)]
pub struct PolicyExpiredEvent {
    pub policy_id: u64,
    pub policyholder: Address,
    pub end_time: u64,
    pub expired_at: u64,
}

#[derive(Clone, Copy, Debug, PartialEq, Eq, Structural)]
pub struct PolicyRenewedEvent {
    pub policy_id: u64,
    pub policyholder: Address,
    pub new_end_time: u64,
    pub renewal_premium: i128,
}

#[derive(Clone, Copy, Debug, PartialEq, Eq, Structural)]
pub struct PayoutEvent {
    pub policy_id: u64,
    pub policyholder: Address,
    pub amount: i128,
}

#[derive(Clone, Copy, Debug, PartialEq, Eq, Structural)]
pub struct PolicyModifiedCoverageEvent {
    pub policy_id: u64,
    pub policyholder: Address,
    pub old_coverage: i128,
    pub new_coverage: i128,
    pub additional_premium: i128,
}

#[derive(Clone, Copy, Debug, PartialEq, Eq, Structural)]
pub struct PolicyExtendedEvent {
    pub policy_id: u64,
    pub policyholder: Address,
    pub old_end_time: u64,
    pub new_end_time: u64,
    pub additional_premium: i128,
}

#[derive(Clone, Copy, Debug, PartialEq, Eq, Structural)]
pub struct BeneficiaryChangedEvent {
    pub policy_id: u64,
    pub old_beneficiary: Address,
    pub new_beneficiary: Address,
}

#[derive(Clone, Debug, PartialEq, Eq)]
pub struct OracleRegisteredEvent {
    pub oracle_type: Symbol,
    pub oracle_address: Address,
    pub admin: Address,
}

#[derive(Clone, Debug, PartialEq, Eq)]
pub struct OracleRemovedEvent {
    pub oracle_type: Symbol,
    pub admin: Address,
}

#[derive(Clone, Debug, PartialEq, Eq)]
pub struct OracleTriggerEvaluatedEvent {
    pub policy_id: u64,
    pub oracle_type: Symbol,
    pub condition_met: bool,
    pub details: String,
}

#[derive(Clone, Debug, PartialEq, Eq)]
pub struct AutomaticClaimTriggeredEvent {
    pub policy_id: u64,
    pub policyholder: Address,
    pub oracle_type: Symbol,
    pub claim_amount: i128,
}

} // verus!
