use vstd::prelude::*;

use crate::storage::{Storage, StorageView};
use crate::types::{
    Address, AdminAddedEvent, AdminRemovedEvent, AutomaticClaimTriggeredEvent,
    BeneficiaryChangedEvent, ClaimProcessedEvent, ClaimSubmittedEvent, ClaimVoteCastEvent,
    ContractPausedEvent, ContractUnpausedEvent, LiquidityAddedEvent, LiquidityWithdrawnEvent,
    OracleRegisteredEvent, OracleRemovedEvent, OracleTriggerEvaluatedEvent, PayoutEvent,
    PolicyCancelledEvent, PolicyCreatedEvent, PolicyExpiredEvent, PolicyExtendedEvent,
    PolicyModifiedCoverageEvent, PolicyRenewedEvent, PremiumPaidEvent, RiskPoolSetEvent,
    ThresholdUpdatedEvent, YieldClaimedEvent, YieldDistributionEvent,
};

verus! {

/// Facts about the current invocation that the host supplies.
#[derive(Clone, Copy, Debug, PartialEq, Eq, Structural)]
pub struct Ledger {
    /// Ledger close time, in seconds.
    pub timestamp: u64,
    /// Address of the contract being invoked.
    pub current_contract: Address,
    /// The invoked contract's balance of the premium token, as read when
    /// the invocation began (zero when no premium token is configured).
    pub token_balance: i128,
}

/// An event the contract publishes.
#[derive(Clone, Debug, PartialEq, Eq)]
pub enum Event {
    PolicyCreated(PolicyCreatedEvent),
    PremiumPaid(PremiumPaidEvent),
    ClaimSubmitted(ClaimSubmittedEvent),
    ClaimProcessed(ClaimProcessedEvent),
    PolicyCancelled(PolicyCancelledEvent),
    ContractPaused(ContractPausedEvent),
    ContractUnpaused(ContractUnpausedEvent),
    AdminAdded(AdminAddedEvent),
    AdminRemoved(AdminRemovedEvent),
    ThresholdUpdated(ThresholdUpdatedEvent),
    ClaimVoteCast(ClaimVoteCastEvent),
    RiskPoolSet(RiskPoolSetEvent),
    PolicyExpired(PolicyExpiredEvent),
    PolicyRenewed(PolicyRenewedEvent),
    Payout(PayoutEvent),
    CoverageIncreased(PolicyModifiedCoverageEvent),
    DurationExtended(PolicyExtendedEvent),
    BeneficiaryChanged(BeneficiaryChangedEvent),
    OracleRegistered(OracleRegisteredEvent),
    OracleRemoved(OracleRemovedEvent),
    OracleTriggerEvaluated(OracleTriggerEvaluatedEvent),
    AutomaticClaimTriggered(AutomaticClaimTriggeredEvent),
    LiquidityAdded(LiquidityAddedEvent),
    LiquidityWithdrawn(LiquidityWithdrawnEvent),
    YieldDistributed(YieldDistributionEvent),
    YieldClaimed(YieldClaimedEvent),
}

/// Something the host must do for the contract, in the order logged.
#[derive(Clone, Debug, PartialEq, Eq)]
pub enum Effect {
    /// The invocation must carry `address`'s authorisation; the host aborts
    /// the whole invocation when it does not.
    RequireAuth(Address),
    /// Move `amount` of `token` from `from` to `to`.
    Transfer { token: Address, from: Address, to: Address, amount: i128 },
    /// Call the pool's `add_liquidity(provider, amount)`.
    PoolAddLiquidity { pool: Address, provider: Address, amount: i128 },
    /// Call the pool's `distribute_yield(amount)`.
    PoolDistributeYield { pool: Address, amount: i128 },
    /// Call the pool's `fund_payout(recipient, amount)`.
    PoolFundPayout { pool: Address, recipient: Address, amount: i128 },
    /// Replace the contract's code by the code with this hash.
    UpdateContractCode([u8; 32]),
    /// Publish an event.
    Publish(Event),
}

/// One invocation of a contract: its stored data, the ledger facts, and
/// the effects logged so far.
pub struct Env {
    pub storage: Storage,
    pub ledger: Ledger,
    pub effects: Vec<Effect>,
}

/// `after` is `before` with its stored data replaced by `storage` and
/// `effects` appended to its log.
pub open spec fn outcome(before: Env, after: Env, storage: StorageView, effects: Seq<Effect>) -> bool {
    &&& after.ledger == before.ledger
    &&& after.storage@ =~= storage
    &&& after.effects@ =~= before.effects@ + effects
}

impl Env {
    /// An invocation on `storage` with no effects logged yet.
    pub fn new(storage: Storage, ledger: Ledger) -> (env: Env)
        ensures
            env.storage == storage,
            env.ledger == ledger,
            env.effects@ == Seq::<Effect>::empty(),
    {
        Env { storage, ledger, effects: Vec::new() }
    }

    /// Appends `effect` to the log.
    pub fn emit(&mut self, effect: Effect)
        ensures
            final(self).storage == old(self).storage,
            final(self).ledger == old(self).ledger,
            final(self).effects@ == old(self).effects@.push(effect),
    {
        self.effects.push(effect);
    }
}

} // verus!
