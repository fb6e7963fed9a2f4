use vstd::prelude::*;

use crate::env::{outcome, Effect, Env, Event};
use crate::error::Error;
use crate::premium::{calculate_premium, premium_result};
use crate::multisig::{
    approvals_suffice, other_than, rejection_forced, rejections_suffice, require_admin, threshold_reached,
    vec_contains, without_address,
};
use crate::oracle::{
    FlightOracle, OracleProvider, OracleResult, PriceOracle, SmartContractOracle, WeatherOracle,
};
use crate::storage::{self, with_oracle, without_oracle, StorageView, VotesView};
use crate::env::Ledger;
use crate::limits::{
    limits_create_policy, limits_evaluate_oracle_trigger, limits_extend_duration, limits_increase_coverage,
    limits_pay_premium, limits_process_claim, limits_renew_policy, limits_submit_claim, limits_upgrade,
    limits_vote_claim,
};
use crate::types::{
    Address, AutomaticClaimTriggeredEvent, Claim, ClaimProcessedEvent, ClaimSubmittedEvent,
    BeneficiaryChangedEvent, ContractPausedEvent, ContractUnpausedEvent, OracleRegisteredEvent,
    OracleRemovedEvent, OracleTriggerEvaluatedEvent, PayoutEvent, Policy, PolicyCancelledEvent,
    PolicyCreatedEvent, PolicyExpiredEvent, PolicyExtendedEvent, PolicyModifiedCoverageEvent,
    PolicyStatus, PolicyType, PremiumPaidEvent, RiskPoolSetEvent, Symbol, AdminAddedEvent,
    AdminRemovedEvent, ClaimVoteCastEvent, ClaimVotes, PolicyRenewedEvent, ThresholdUpdatedEvent,
    TreasuryStats,
};

verus! {

/// The insurance contract.
pub struct StellarInsure;

/// Policy cap set at initialisation.
pub const MAX_POLICIES: u64 = 1_000_000;

/// How long after expiry a policy can still be renewed: seven days.
pub const RENEWAL_GRACE_PERIOD: u64 = 604_800;

/// `x` is representable as an `i128`.
pub open spec fn fits_i128(x: int) -> bool {
    i128::MIN <= x <= i128::MAX
}

/// What has been paid on `policy` lies between nothing and its coverage.
pub open spec fn cover_respected(policy: Policy) -> bool {
    0 <= policy.total_claimed <= policy.coverage_amount
}

/// A pending claim on policy `policy_id` is on record, positive, and within
/// the coverage left.
pub open spec fn claim_in_cover(s: StorageView, policy_id: u64) -> bool {
    s.policies[policy_id].status == PolicyStatus::ClaimPending ==> {
        &&& s.claims.contains_key(policy_id)
        &&& 0 < s.claims[policy_id].claim_amount <= s.policies[policy_id].remaining()
    }
}

/// Policy `policy_id` awaits a decision on a claim that is on record.
pub open spec fn pending_claim_on_record(s: StorageView, policy_id: u64) -> bool {
    &&& s.policies.contains_key(policy_id)
    &&& s.policies[policy_id].status == PolicyStatus::ClaimPending
    &&& s.claims.contains_key(policy_id)
}

/// No policy has paid, or can be asked to pay, beyond its coverage.
pub open spec fn claims_sound(s: StorageView) -> bool {
    forall|policy_id: u64| #[trigger] s.policies.contains_key(policy_id) ==> {
        &&& cover_respected(s.policies[policy_id])
        &&& claim_in_cover(s, policy_id)
    }
}

/// Every stored policy has an id below the policy counter, so the next
/// policy created never lands on one that exists.
pub open spec fn ids_issued(s: StorageView) -> bool {
    forall|policy_id: u64| #[trigger] s.policies.contains_key(policy_id) ==> policy_id < s.counter_value()
}

/// The admin set is non-empty and free of repeats, and the approval
/// threshold lies between one and its size.
pub open spec fn admin_config_valid(s: StorageView) -> bool {
    &&& s.admins_value().len() >= 1
    &&& s.admins_value().no_duplicates()
    &&& 1 <= s.threshold_value() <= s.admins_value().len()
}

/// Leaving `x` out of a repeat-free sequence that holds it removes exactly
/// one element and keeps the rest repeat-free.
pub proof fn lemma_filter_out_one(s: Seq<Address>, x: Address)
    requires
        s.no_duplicates(),
        s.contains(x),
    ensures
        s.filter(other_than(x)).len() == s.len() - 1,
        s.filter(other_than(x)).no_duplicates(),
    decreases s.len(),
{
    reveal(Seq::filter);
    let f = other_than(x);
    let init = s.drop_last();
    if s.last() == x {
        assert(!init.contains(x)) by {
            if init.contains(x) {
                let j = choose|j: int| 0 <= j < init.len() && init[j] == x;
                assert(s[j] == s[s.len() - 1]);
            }
        }
        lemma_filter_keeps_all(init, x);
        assert(init.no_duplicates()) by {
            assert forall|i: int, j: int| 0 <= i < init.len() && 0 <= j < init.len() && i != j implies init[i] != init[j] by {
                assert(init[i] == s[i] && init[j] == s[j]);
            }
        }
    } else {
        assert(init.contains(x)) by {
            let j = choose|j: int| 0 <= j < s.len() && s[j] == x;
            assert(j != s.len() - 1);
            assert(init[j] == x);
        }
        assert(init.no_duplicates()) by {
            assert forall|i: int, j: int| 0 <= i < init.len() && 0 <= j < init.len() && i != j implies init[i] != init[j] by {
                assert(init[i] == s[i] && init[j] == s[j]);
            }
        }
        lemma_filter_out_one(init, x);
        let g = init.filter(f);
        assert(!g.contains(s.last())) by {
            if g.contains(s.last()) {
                let j = choose|j: int| 0 <= j < g.len() && g[j] == s.last();
                init.lemma_filter_contains_rev(f, s.last());
                let k = choose|k: int| 0 <= k < init.len() && init[k] == s.last();
                assert(s[k] == s[s.len() - 1]);
            }
        }
        assert(s.filter(f) == g.push(s.last()));
        assert(g.push(s.last()).no_duplicates()) by {
            assert forall|i: int, j: int| 0 <= i < g.len() + 1 && 0 <= j < g.len() + 1 && i != j implies g.push(s.last())[i] != g.push(s.last())[j] by {
                if i < g.len() && j < g.len() {
                } else if i == g.len() {
                    assert(g[j] != s.last());
                } else {
                    assert(g[i] != s.last());
                }
            }
        }
    }
}

/// Leaving out an element that does not occur keeps every element.
pub proof fn lemma_filter_keeps_all(s: Seq<Address>, x: Address)
    requires
        !s.contains(x),
    ensures
        s.filter(other_than(x)) == s,
    decreases s.len(),
{
    reveal(Seq::filter);
    if s.len() > 0 {
        assert(!s.drop_last().contains(x)) by {
            if s.drop_last().contains(x) {
                let j = choose|j: int| 0 <= j < s.drop_last().len() && s.drop_last()[j] == x;
                assert(s[j] == x);
            }
        }
        lemma_filter_keeps_all(s.drop_last(), x);
        assert(s.last() != x) by {
            assert(s[s.len() - 1] == s.last());
        }
        assert(s.drop_last().push(s.last()) =~= s);
    }
}

/// On every claim under vote, no admin's vote is counted twice, whether
/// as an approval or a rejection.
pub open spec fn votes_distinct(s: StorageView) -> bool {
    forall|policy_id: u64| #[trigger] s.claim_votes.contains_key(policy_id) ==>
        (s.claim_votes[policy_id].approvals + s.claim_votes[policy_id].rejections).no_duplicates()
}

/// Adding the vote of an admin who has not voted keeps the votes repeat-free.
pub proof fn lemma_new_vote_distinct(votes: VotesView, voter: Address, approve: bool)
    requires
        (votes.approvals + votes.rejections).no_duplicates(),
        !votes.approvals.contains(voter),
        !votes.rejections.contains(voter),
    ensures
        (with_vote(votes, voter, approve).approvals + with_vote(votes, voter, approve).rejections).no_duplicates(),
{
    let a = votes.approvals;
    let r = votes.rejections;
    let both = a + r;
    let after = with_vote(votes, voter, approve);
    let joined = after.approvals + after.rejections;
    assert(!both.contains(voter)) by {
        if both.contains(voter) {
            let j = choose|j: int| 0 <= j < both.len() && both[j] == voter;
            if j < a.len() {
                assert(a[j] == voter);
            } else {
                assert(r[j - a.len()] == voter);
            }
        }
    }
    if approve {
        // joined is `a`, then the voter, then `r`.
        assert forall|i: int, j: int| 0 <= i < joined.len() && 0 <= j < joined.len() && i != j implies joined[i] != joined[j] by {
            let bi = if i < a.len() { i } else if i == a.len() { -1 } else { i - 1 };
            let bj = if j < a.len() { j } else if j == a.len() { -1 } else { j - 1 };
            if bi >= 0 {
                assert(joined[i] == both[bi]);
            }
            if bj >= 0 {
                assert(joined[j] == both[bj]);
            }
        }
    } else {
        assert(joined =~= both.push(voter));
        assert forall|i: int, j: int| 0 <= i < joined.len() && 0 <= j < joined.len() && i != j implies joined[i] != joined[j] by {
            if i < both.len() && j < both.len() {
                assert(joined[i] == both[i] && joined[j] == both[j]);
            } else if i == both.len() {
                assert(joined[j] == both[j]);
            } else {
                assert(joined[i] == both[i]);
            }
        }
    }
}

/// `policy` is in force by status but its term has passed at `now`.
pub open spec fn lapses(policy: Policy, now: u64) -> bool {
    policy.status == PolicyStatus::Active && now > policy.end_time
}

/// `policy` marked as expired.
pub open spec fn expired(policy: Policy) -> Policy {
    Policy { status: PolicyStatus::Expired, ..policy }
}

/// The event published when `policy` is found to have expired at `now`.
pub open spec fn expiry_event(policy_id: u64, policy: Policy, now: u64) -> Effect {
    Effect::Publish(
        Event::PolicyExpired(
            PolicyExpiredEvent {
                policy_id,
                policyholder: policy.policyholder,
                end_time: policy.end_time,
                expired_at: now,
            },
        ),
    )
}

/// `s` with the policy `policy_id` replaced by `policy`.
pub open spec fn with_policy(s: StorageView, policy_id: u64, policy: Policy) -> StorageView {
    StorageView { policies: s.policies.insert(policy_id, policy), ..s }
}

/// The policy `create_policy` stores.
pub open spec fn new_policy(
    id: u64,
    policyholder: Address,
    policy_type: PolicyType,
    coverage_amount: i128,
    premium: i128,
    now: u64,
    duration: u64,
    trigger_condition: String,
) -> Policy {
    Policy {
        id,
        policyholder,
        beneficiary: policyholder,
        policy_type,
        coverage_amount,
        premium,
        start_time: now,
        end_time: (now + duration) as u64,
        trigger_condition,
        status: PolicyStatus::Active,
        claim_amount: 0,
        total_claimed: 0,
    }
}

/// Why `create_policy` refuses its arguments once the caller has
/// authorised, if it does.
pub open spec fn create_policy_refusal(
    s: StorageView,
    policy_type: PolicyType,
    coverage_amount: i128,
    premium: i128,
    duration: u64,
) -> Option<Error> {
    if coverage_amount <= 0 {
        Some(Error::InvalidAmount)
    } else if premium <= 0 {
        Some(Error::InvalidPremium)
    } else if duration == 0 {
        Some(Error::InvalidDuration)
    } else if s.counter_value() >= s.max_policies_value() {
        Some(Error::MaxPoliciesReached)
    } else {
        match premium_result(policy_type, coverage_amount, duration) {
            Err(e) => Some(e),
            Ok(p) => if p != premium {
                Some(Error::PremiumMismatch)
            } else {
                None
            },
        }
    }
}

/// Where a payout of `amount` to `recipient` comes from: the liquidity
/// pool when one is set, else the contract's own token balance, which
/// must cover it.
pub open spec fn payout_effect(s: StorageView, ledger: Ledger, recipient: Address, amount: i128) -> Result<Effect, Error> {
    match s.risk_pool {
        Some(pool) => Ok(Effect::PoolFundPayout { pool, recipient, amount }),
        None => token_payout_effect(s, ledger, recipient, amount),
    }
}

/// A payout of `amount` to `recipient` from the contract's token balance.
pub open spec fn token_payout_effect(s: StorageView, ledger: Ledger, recipient: Address, amount: i128) -> Result<Effect, Error> {
    match s.premium_token {
        None => Err(Error::NotInitialized),
        Some(token) => if ledger.token_balance < amount {
            Err(Error::InsufficientContractBalance)
        } else {
            Ok(Effect::Transfer { token, from: ledger.current_contract, to: recipient, amount })
        },
    }
}

/// What the oracle consulted for `oracle_type` reports: the weather,
/// flight and price oracles answer for their own types, the smart-contract
/// oracle for any other.
pub open spec fn oracle_details(oracle_type: Seq<char>) -> Seq<char> {
    if oracle_type == "Weather"@ {
        "weather condition verified"@
    } else if oracle_type == "Flight"@ {
        "flight condition verified"@
    } else if oracle_type == "Price"@ {
        "price condition verified"@
    } else {
        "contract condition verified"@
    }
}

/// The extra premium for raising `policy`'s coverage to `new_coverage`
/// for the rest of its term from `now`.
pub open spec fn coverage_increase_premium(policy: Policy, new_coverage: i128, now: u64) -> Result<i128, Error> {
    premium_result(
        policy.policy_type,
        (new_coverage - policy.coverage_amount) as i128,
        (policy.end_time - now) as u64,
    )
}

/// The extra premium for extending `policy` by `extra_seconds`.
pub open spec fn extension_premium(policy: Policy, extra_seconds: u64) -> Result<i128, Error> {
    premium_result(policy.policy_type, policy.coverage_amount, extra_seconds)
}

/// `total + x` is representable whenever `premium` is a price `x`.
pub open spec fn premium_fits(total: i128, premium: Result<i128, Error>) -> bool {
    match premium {
        Ok(x) => fits_i128(total + x),
        Err(_) => true,
    }
}

/// The votes recorded on the claim of `policy_id` (none when never written).
pub open spec fn votes_on(s: StorageView, policy_id: u64) -> VotesView {
    if s.claim_votes.contains_key(policy_id) {
        s.claim_votes[policy_id]
    } else {
        VotesView { approvals: Seq::empty(), rejections: Seq::empty() }
    }
}

/// `votes` with `voter`'s vote added.
pub open spec fn with_vote(votes: VotesView, voter: Address, approve: bool) -> VotesView {
    if approve {
        VotesView { approvals: votes.approvals.push(voter), ..votes }
    } else {
        VotesView { rejections: votes.rejections.push(voter), ..votes }
    }
}

/// The latest time at which `policy` can still be renewed at `now`: its
/// end time, or, once that has passed, the time from which the renewal runs.
pub open spec fn renewal_base(policy: Policy, now: u64) -> u64 {
    if now > policy.end_time {
        now
    } else {
        policy.end_time
    }
}

/// `policy` once its pending claim `claim` is approved: the claim is added
/// to what has been claimed, and the policy is closed when that reaches
/// the coverage, else back in force.
pub open spec fn settled(policy: Policy, claim: Claim) -> Policy {
    let total = policy.total_claimed + claim.claim_amount;
    Policy {
        total_claimed: total as i128,
        status: if total >= policy.coverage_amount {
            PolicyStatus::ClaimApproved
        } else {
            PolicyStatus::Active
        },
        claim_amount: 0,
        ..policy
    }
}

/// `policy` once its pending claim is rejected.
pub open spec fn rejected(policy: Policy) -> Policy {
    Policy { status: PolicyStatus::ClaimRejected, claim_amount: 0, ..policy }
}

/// The effect that pays `amount` to `recipient` (see [`payout_effect`]).
pub(crate) fn plan_payout(env: &Env, recipient: Address, amount: i128) -> (result: Result<Effect, Error>)
    ensures
        result == payout_effect(env.storage@, env.ledger, recipient, amount),
{
    match storage::get_risk_pool(&env.storage) {
        Some(pool) => Ok(Effect::PoolFundPayout { pool, recipient, amount }),
        None => plan_payout_from_balance(env, recipient, amount),
    }
}

/// The effect that pays `amount` to `recipient` from the contract's balance.
pub(crate) fn plan_payout_from_balance(env: &Env, recipient: Address, amount: i128) -> (result: Result<Effect, Error>)
    ensures
        result == token_payout_effect(env.storage@, env.ledger, recipient, amount),
{
    let token = match storage::get_premium_token(&env.storage) {
        Some(t) => t,
        None => {
            return Err(Error::NotInitialized);
        },
    };
    if env.ledger.token_balance < amount {
        return Err(Error::InsufficientContractBalance);
    }
    Ok(Effect::Transfer { token, from: env.ledger.current_contract, to: recipient, amount })
}

/// Marks `policy` (stored under `policy_id`) as expired when its term has
/// passed while it was still active, storing it and publishing the expiry.
fn expire_policy_if_needed(env: &mut Env, policy: &mut Policy, policy_id: u64)
    ensures
        if lapses(*old(policy), old(env).ledger.timestamp) {
            &&& *final(policy) == expired(*old(policy))
            &&& outcome(
                *old(env),
                *final(env),
                with_policy(old(env).storage@, policy_id, expired(*old(policy))),
                seq![expiry_event(policy_id, *old(policy), old(env).ledger.timestamp)],
            )
        } else {
            &&& *final(policy) == *old(policy)
            &&& outcome(*old(env), *final(env), old(env).storage@, seq![])
        },
{
    if policy.status == PolicyStatus::Active && policy.is_expired(env.ledger.timestamp) {
        let expired_at = env.ledger.timestamp;
        policy.status = PolicyStatus::Expired;
        storage::set_policy(&mut env.storage, policy_id, policy);
        env.emit(
            Effect::Publish(
                Event::PolicyExpired(
                    PolicyExpiredEvent {
                        policy_id,
                        policyholder: policy.policyholder,
                        end_time: policy.end_time,
                        expired_at,
                    },
                ),
            ),
        );
    }
}

impl StellarInsure {
    /// Installs `admin` as primary administrator and sole member of the
    /// admin set, with an approval threshold of one, no policies, and the
    /// default policy cap.
    pub fn init(env: &mut Env, admin: Address)
        ensures
            admin_config_valid(final(env).storage@),
            outcome(
                *old(env),
                *final(env),
                StorageView {
                    admin: Some(admin),
                    admins: Some(seq![admin]),
                    threshold: Some(1),
                    policy_counter: Some(0),
                    max_policies: Some(MAX_POLICIES),
                    ..old(env).storage@
                },
                seq![],
            ),
    {
        storage::set_admin(&mut env.storage, &admin);
        let mut admins: Vec<Address> = Vec::new();
        admins.push(admin);
        storage::set_admins(&mut env.storage, &admins);
        storage::set_threshold(&mut env.storage, 1);
        storage::set_policy_counter(&mut env.storage, 0);
        storage::set_max_policies(&mut env.storage, MAX_POLICIES);
    }

    /// Sets the policy cap (primary administrator only; the cap must be positive).
    pub fn set_max_policies(env: &mut Env, admin: Address, max_policies: u64) -> (result: Result<(), Error>)
        requires
            old(env).storage@.admin is Some,
        ensures
            result == (if Some(admin) != old(env).storage@.admin {
                Err(Error::Unauthorized)
            } else if max_policies == 0 {
                Err(Error::InvalidAmount)
            } else {
                Ok(())
            }),
            outcome(
                *old(env),
                *final(env),
                if result is Ok {
                    StorageView { max_policies: Some(max_policies), ..old(env).storage@ }
                } else {
                    old(env).storage@
                },
                seq![Effect::RequireAuth(admin)],
            ),
    {
        env.emit(Effect::RequireAuth(admin));
        let current_admin = storage::get_admin(&env.storage);
        if admin != current_admin {
            return Err(Error::Unauthorized);
        }
        if max_policies == 0 {
            return Err(Error::InvalidAmount);
        }
        storage::set_max_policies(&mut env.storage, max_policies);
        Ok(())
    }

    /// The policy cap.
    pub fn get_max_policies(env: &Env) -> (max_policies: u64)
        ensures
            max_policies == env.storage@.max_policies_value(),
    {
        storage::get_max_policies(&env.storage)
    }

    /// Sets the premium token; the caller must be the primary administrator.
    pub fn set_premium_token(env: &mut Env, admin: Address, token: Address)
        requires
            old(env).storage@.admin == Some(admin),
        ensures
            outcome(
                *old(env),
                *final(env),
                StorageView { premium_token: Some(token), ..old(env).storage@ },
                seq![Effect::RequireAuth(admin)],
            ),
    {
        env.emit(Effect::RequireAuth(admin));
        storage::set_premium_token(&mut env.storage, &token);
    }

    /// Sets the liquidity pool; the caller must be the primary administrator.
    pub fn set_risk_pool(env: &mut Env, admin: Address, risk_pool: Address)
        requires
            old(env).storage@.admin == Some(admin),
        ensures
            outcome(
                *old(env),
                *final(env),
                StorageView { risk_pool: Some(risk_pool), ..old(env).storage@ },
                seq![
                    Effect::RequireAuth(admin),
                    Effect::Publish(Event::RiskPoolSet(RiskPoolSetEvent { caller: admin, risk_pool })),
                ],
            ),
    {
        env.emit(Effect::RequireAuth(admin));
        storage::set_risk_pool(&mut env.storage, &risk_pool);
        env.emit(Effect::Publish(Event::RiskPoolSet(RiskPoolSetEvent { caller: admin, risk_pool })));
    }

    /// Creates a policy for `policyholder`, whose id is the number of
    /// policies created before it. The quoted `premium` must be exactly the
    /// premium for the cover requested; the policy starts now, runs for
    /// `duration` seconds, and pays out to the policyholder.
    pub fn create_policy(
        env: &mut Env,
        policyholder: Address,
        policy_type: PolicyType,
        coverage_amount: i128,
        premium: i128,
        duration: u64,
        trigger_condition: String,
    ) -> (result: Result<u64, Error>)
        requires
            limits_create_policy(old(env).storage@, old(env).ledger, policy_type, coverage_amount, premium, duration),
        ensures
            claims_sound(old(env).storage@) ==> claims_sound(final(env).storage@),
            ids_issued(old(env).storage@) ==> ids_issued(final(env).storage@),
            result is Ok ==> {
                &&& premium_result(policy_type, coverage_amount, duration) == Ok::<i128, Error>(premium)
                &&& final(env).storage@.policies[result->Ok_0].premium == premium
            },
            ({
                let s = old(env).storage@;
                let now = old(env).ledger.timestamp;
                let id = s.counter_value();
                let policy = new_policy(id, policyholder, policy_type, coverage_amount, premium, now, duration, trigger_condition);
                if s.paused_value() {
                    &&& result == Err::<u64, Error>(Error::ContractPaused)
                    &&& outcome(*old(env), *final(env), s, seq![])
                } else {
                    match create_policy_refusal(s, policy_type, coverage_amount, premium, duration) {
                        Some(e) => {
                            &&& result == Err::<u64, Error>(e)
                            &&& outcome(*old(env), *final(env), s, seq![Effect::RequireAuth(policyholder)])
                        },
                        None => {
                            &&& result == Ok::<u64, Error>(id)
                            &&& outcome(
                                *old(env),
                                *final(env),
                                StorageView {
                                    policies: s.policies.insert(id, policy),
                                    policy_counter: Some((id + 1) as u64),
                                    ..s
                                },
                                seq![
                                    Effect::RequireAuth(policyholder),
                                    Effect::Publish(Event::PolicyCreated(PolicyCreatedEvent {
                                        policy_id: id,
                                        policyholder,
                                        policy_type,
                                        coverage_amount,
                                        premium,
                                        start_time: now,
                                        end_time: (now + duration) as u64,
                                        trigger_condition,
                                    })),
                                ],
                            )
                        },
                    }
                }
            }),
    {
        if storage::is_paused(&env.storage) {
            return Err(Error::ContractPaused);
        }
        env.emit(Effect::RequireAuth(policyholder));
        if coverage_amount <= 0 {
            return Err(Error::InvalidAmount);
        }
        if premium <= 0 {
            return Err(Error::InvalidPremium);
        }
        if duration == 0 {
            return Err(Error::InvalidDuration);
        }
        let policy_id = storage::get_policy_counter(&env.storage);
        let max_policies = storage::get_max_policies(&env.storage);
        if policy_id >= max_policies {
            return Err(Error::MaxPoliciesReached);
        }
        let calculated_premium = match calculate_premium(&policy_type, coverage_amount, duration) {
            Ok(p) => p,
            Err(e) => {
                return Err(e);
            },
        };
        if premium != calculated_premium {
            return Err(Error::PremiumMismatch);
        }
        let next_id = policy_id + 1;
        let now = env.ledger.timestamp;
        let event = Event::PolicyCreated(
            PolicyCreatedEvent {
                policy_id,
                policyholder,
                policy_type,
                coverage_amount,
                premium,
                start_time: now,
                end_time: now + duration,
                trigger_condition: trigger_condition.clone(),
            },
        );
        let policy = Policy {
            id: policy_id,
            policyholder,
            beneficiary: policyholder,
            policy_type,
            coverage_amount,
            premium,
            start_time: now,
            end_time: now + duration,
            trigger_condition,
            status: PolicyStatus::Active,
            claim_amount: 0,
            total_claimed: 0,
        };
        storage::set_policy(&mut env.storage, policy_id, &policy);
        storage::set_policy_counter(&mut env.storage, next_id);
        env.emit(Effect::Publish(event));
        Ok(policy_id)
    }

    /// Pays the premium of an active, unexpired policy. The payment goes to
    /// the liquidity pool when one is set (which also takes it as liquidity
    /// of this contract and distributes it as yield), else to this contract.
    pub fn pay_premium(env: &mut Env, policy_id: u64, amount: i128) -> (result: Result<(), Error>)
        requires
            limits_pay_premium(old(env).storage@, old(env).ledger, policy_id, amount),
        ensures
            claims_sound(old(env).storage@) ==> claims_sound(final(env).storage@),
            ids_issued(old(env).storage@) ==> ids_issued(final(env).storage@),
            result is Ok ==> ({
                let p = old(env).storage@.policies[policy_id];
                &&& amount == p.premium
                &&& p.status == PolicyStatus::Active
                &&& old(env).ledger.timestamp <= p.end_time
                &&& final(env).storage@.total_premium_value() == old(env).storage@.total_premium_value() + amount
                &&& final(env).storage@.policies == old(env).storage@.policies
            }),
            ({
                let s = old(env).storage@;
                let ledger = old(env).ledger;
                let p = s.policies[policy_id];
                if s.paused_value() {
                    result == Err::<(), Error>(Error::ContractPaused) && outcome(*old(env), *final(env), s, seq![])
                } else if !s.policies.contains_key(policy_id) {
                    result == Err::<(), Error>(Error::PolicyNotFound) && outcome(*old(env), *final(env), s, seq![])
                } else if p.status != PolicyStatus::Active || lapses(p, ledger.timestamp) {
                    result == Err::<(), Error>(Error::PolicyNotActive) && outcome(*old(env), *final(env), s, seq![])
                } else if amount != p.premium {
                    result == Err::<(), Error>(Error::InvalidPremium)
                        && outcome(*old(env), *final(env), s, seq![Effect::RequireAuth(p.policyholder)])
                } else {
                    match s.premium_token {
                        None => result == Err::<(), Error>(Error::NotInitialized)
                            && outcome(*old(env), *final(env), s, seq![Effect::RequireAuth(p.policyholder)]),
                        Some(token) => {
                            let transfer = Effect::Transfer {
                                token,
                                from: p.policyholder,
                                to: match s.risk_pool {
                                    Some(pool) => pool,
                                    None => ledger.current_contract,
                                },
                                amount,
                            };
                            let pool_calls = match s.risk_pool {
                                Some(pool) => seq![
                                    Effect::PoolAddLiquidity { pool, provider: ledger.current_contract, amount },
                                    Effect::PoolDistributeYield { pool, amount },
                                ],
                                None => seq![],
                            };
                            &&& result is Ok
                            &&& outcome(
                                *old(env),
                                *final(env),
                                StorageView { total_premium: Some((s.total_premium_value() + amount) as i128), ..s },
                                seq![Effect::RequireAuth(p.policyholder), transfer] + pool_calls + seq![
                                    Effect::Publish(Event::PremiumPaid(PremiumPaidEvent {
                                        policy_id,
                                        policyholder: p.policyholder,
                                        amount,
                                    })),
                                ],
                            )
                        },
                    }
                }
            }),
    {
        if storage::is_paused(&env.storage) {
            return Err(Error::ContractPaused);
        }
        let policy = match storage::get_policy(&env.storage, policy_id) {
            Ok(p) => p,
            Err(e) => {
                return Err(e);
            },
        };
        // A policy whose term has passed would be marked expired here; that
        // refuses the payment, and a refused call keeps nothing it changed.
        if policy.status != PolicyStatus::Active || policy.is_expired(env.ledger.timestamp) {
            return Err(Error::PolicyNotActive);
        }
        env.emit(Effect::RequireAuth(policy.policyholder));
        if amount != policy.premium {
            return Err(Error::InvalidPremium);
        }
        let token = match storage::get_premium_token(&env.storage) {
            Some(t) => t,
            None => {
                return Err(Error::NotInitialized);
            },
        };
        let pool = storage::get_risk_pool(&env.storage);
        let destination = match pool {
            Some(p) => p,
            None => env.ledger.current_contract,
        };
        env.emit(Effect::Transfer { token, from: policy.policyholder, to: destination, amount });
        match pool {
            Some(p) => {
                let contract = env.ledger.current_contract;
                env.emit(Effect::PoolAddLiquidity { pool: p, provider: contract, amount });
                env.emit(Effect::PoolDistributeYield { pool: p, amount });
            },
            None => {},
        }
        let total_premium = storage::get_total_premium(&env.storage);
        storage::set_total_premium(&mut env.storage, total_premium + amount);
        env.emit(
            Effect::Publish(
                Event::PremiumPaid(PremiumPaidEvent { policy_id, policyholder: policy.policyholder, amount }),
            ),
        );
        Ok(())
    }

    /// Files a claim of `claim_amount` against an active policy; the
    /// amount must be positive, within the remaining coverage, and the
    /// policy's term must not have passed. The policy then awaits a decision.
    pub fn submit_claim(env: &mut Env, policy_id: u64, claim_amount: i128, proof: String) -> (result: Result<(), Error>)
        requires
            limits_submit_claim(old(env).storage@, policy_id),
        ensures
            claims_sound(old(env).storage@) ==> claims_sound(final(env).storage@),
            ids_issued(old(env).storage@) ==> ids_issued(final(env).storage@),
            result is Ok ==> ({
                let p = old(env).storage@.policies[policy_id];
                &&& p.status == PolicyStatus::Active
                &&& 0 < claim_amount <= p.coverage_amount - p.total_claimed
                &&& old(env).ledger.timestamp <= p.end_time
                &&& final(env).storage@.policies[policy_id].status == PolicyStatus::ClaimPending
                &&& final(env).storage@.claims[policy_id].claim_amount == claim_amount
                &&& !final(env).storage@.claims[policy_id].approved
            }),
            ({
                let s = old(env).storage@;
                let now = old(env).ledger.timestamp;
                let p = s.policies[policy_id];
                let auth = Effect::RequireAuth(p.policyholder);
                if s.paused_value() {
                    result == Err::<(), Error>(Error::ContractPaused) && outcome(*old(env), *final(env), s, seq![])
                } else if !s.policies.contains_key(policy_id) {
                    result == Err::<(), Error>(Error::PolicyNotFound) && outcome(*old(env), *final(env), s, seq![])
                } else if p.status != PolicyStatus::Active {
                    result == Err::<(), Error>(Error::PolicyNotActive) && outcome(*old(env), *final(env), s, seq![])
                } else if claim_amount > p.remaining() {
                    result == Err::<(), Error>(Error::ClaimExceedsCoverage) && outcome(*old(env), *final(env), s, seq![auth])
                } else if claim_amount <= 0 {
                    result == Err::<(), Error>(Error::InvalidClaimAmount) && outcome(*old(env), *final(env), s, seq![auth])
                } else if now > p.end_time {
                    result == Err::<(), Error>(Error::PolicyExpired) && outcome(*old(env), *final(env), s, seq![auth])
                } else {
                    &&& result is Ok
                    &&& outcome(
                        *old(env),
                        *final(env),
                        StorageView {
                            policies: s.policies.insert(policy_id, Policy { claim_amount, status: PolicyStatus::ClaimPending, ..p }),
                            claims: s.claims.insert(policy_id, Claim { policy_id, claim_amount, proof, timestamp: now, approved: false }),
                            ..s
                        },
                        seq![
                            auth,
                            Effect::Publish(Event::ClaimSubmitted(ClaimSubmittedEvent {
                                policy_id,
                                policyholder: p.policyholder,
                                claim_amount,
                                proof,
                                timestamp: now,
                            })),
                        ],
                    )
                }
            }),
    {
        if storage::is_paused(&env.storage) {
            return Err(Error::ContractPaused);
        }
        let mut policy = match storage::get_policy(&env.storage, policy_id) {
            Ok(p) => p,
            Err(e) => {
                return Err(e);
            },
        };
        if policy.status != PolicyStatus::Active {
            return Err(Error::PolicyNotActive);
        }
        env.emit(Effect::RequireAuth(policy.policyholder));
        if claim_amount > policy.remaining_coverage() {
            return Err(Error::ClaimExceedsCoverage);
        }
        if claim_amount <= 0 {
            return Err(Error::InvalidClaimAmount);
        }
        let now = env.ledger.timestamp;
        // An expired policy would be marked so here; the claim is refused
        // and a refused call keeps nothing it changed.
        if now > policy.end_time {
            return Err(Error::PolicyExpired);
        }
        policy.claim_amount = claim_amount;
        policy.status = PolicyStatus::ClaimPending;
        let event = Event::ClaimSubmitted(
            ClaimSubmittedEvent {
                policy_id,
                policyholder: policy.policyholder,
                claim_amount,
                proof: proof.clone(),
                timestamp: now,
            },
        );
        storage::set_policy(&mut env.storage, policy_id, &policy);
        storage::set_claim(
            &mut env.storage,
            policy_id,
            &Claim { policy_id, claim_amount, proof, timestamp: now, approved: false },
        );
        env.emit(Effect::Publish(event));
        Ok(())
    }

    /// Decides a pending claim (primary administrator). An approval adds
    /// the claim to what has been paid on the policy, closes the policy
    /// once its coverage is used up (else puts it back in force) and pays
    /// the policyholder; a rejection marks the policy as rejected.
    pub fn process_claim(env: &mut Env, policy_id: u64, approved: bool) -> (result: Result<(), Error>)
        requires
            limits_process_claim(old(env).storage@, old(env).ledger, policy_id, approved),
        ensures
            claims_sound(old(env).storage@) ==> claims_sound(final(env).storage@),
            ids_issued(old(env).storage@) ==> ids_issued(final(env).storage@),
            result is Ok && approved ==> ({
                let p = old(env).storage@.policies[policy_id];
                let c = old(env).storage@.claims[policy_id];
                let q = final(env).storage@.policies[policy_id];
                &&& p.status == PolicyStatus::ClaimPending
                &&& q.total_claimed == p.total_claimed + c.claim_amount
                &&& (q.status == PolicyStatus::ClaimApproved <==> q.total_claimed >= p.coverage_amount)
                &&& (q.status == PolicyStatus::Active <==> q.total_claimed < p.coverage_amount)
                &&& q.claim_amount == 0
                &&& final(env).storage@.claims[policy_id].approved
                &&& final(env).storage@.total_payouts_value() == old(env).storage@.total_payouts_value() + c.claim_amount
            }),
            result is Ok && !approved ==> final(env).storage@.policies[policy_id].status == PolicyStatus::ClaimRejected
                && final(env).storage@.policies[policy_id].total_claimed == old(env).storage@.policies[policy_id].total_claimed,
            ({
                let s = old(env).storage@;
                let ledger = old(env).ledger;
                let admin = s.admin->0;
                let p = s.policies[policy_id];
                let c = s.claims[policy_id];
                let auth = Effect::RequireAuth(admin);
                if !s.policies.contains_key(policy_id) {
                    result == Err::<(), Error>(Error::PolicyNotFound) && outcome(*old(env), *final(env), s, seq![auth])
                } else if !s.claims.contains_key(policy_id) {
                    result == Err::<(), Error>(Error::ClaimNotFound) && outcome(*old(env), *final(env), s, seq![auth])
                } else if p.status != PolicyStatus::ClaimPending {
                    result == Err::<(), Error>(Error::NoPendingClaim) && outcome(*old(env), *final(env), s, seq![auth])
                } else if !approved {
                    let q = rejected(p);
                    &&& result is Ok
                    &&& outcome(
                        *old(env),
                        *final(env),
                        StorageView { policies: s.policies.insert(policy_id, q), ..s },
                        seq![
                            auth,
                            Effect::Publish(Event::ClaimProcessed(ClaimProcessedEvent {
                                policy_id,
                                policyholder: p.policyholder,
                                claim_amount: c.claim_amount,
                                approved: false,
                                status: q.status,
                            })),
                        ],
                    )
                } else {
                    let q = settled(p, c);
                    match payout_effect(s, ledger, p.policyholder, c.claim_amount) {
                        Err(e) => result == Err::<(), Error>(e) && outcome(*old(env), *final(env), s, seq![auth]),
                        Ok(pay) => {
                            &&& result is Ok
                            &&& outcome(
                                *old(env),
                                *final(env),
                                StorageView {
                                    policies: s.policies.insert(policy_id, q),
                                    claims: s.claims.insert(policy_id, Claim { approved: true, ..c }),
                                    total_payouts: Some((s.total_payouts_value() + c.claim_amount) as i128),
                                    ..s
                                },
                                seq![auth, pay,
                                    Effect::Publish(Event::Payout(PayoutEvent {
                                        policy_id,
                                        policyholder: p.policyholder,
                                        amount: c.claim_amount,
                                    })),
                                    Effect::Publish(Event::ClaimProcessed(ClaimProcessedEvent {
                                        policy_id,
                                        policyholder: p.policyholder,
                                        claim_amount: c.claim_amount,
                                        approved: true,
                                        status: q.status,
                                    })),
                                ],
                            )
                        },
                    }
                }
            }),
    {
        let admin = storage::get_admin(&env.storage);
        env.emit(Effect::RequireAuth(admin));
        let mut policy = match storage::get_policy(&env.storage, policy_id) {
            Ok(p) => p,
            Err(e) => {
                return Err(e);
            },
        };
        let mut claim = match storage::get_claim(&env.storage, policy_id) {
            Ok(c) => c,
            Err(e) => {
                return Err(e);
            },
        };
        if policy.status != PolicyStatus::ClaimPending {
            return Err(Error::NoPendingClaim);
        }
        if approved {
            claim.approved = true;
            policy.total_claimed = policy.total_claimed + claim.claim_amount;
            if policy.total_claimed >= policy.coverage_amount {
                policy.status = PolicyStatus::ClaimApproved;
            } else {
                policy.status = PolicyStatus::Active;
            }
            policy.claim_amount = 0;
            let payout = match plan_payout(env, policy.policyholder, claim.claim_amount) {
                Ok(effect) => effect,
                Err(e) => {
                    return Err(e);
                },
            };
            env.emit(payout);
            let total_payouts = storage::get_total_payouts(&env.storage);
            storage::set_total_payouts(&mut env.storage, total_payouts + claim.claim_amount);
            env.emit(
                Effect::Publish(
                    Event::Payout(
                        PayoutEvent { policy_id, policyholder: policy.policyholder, amount: claim.claim_amount },
                    ),
                ),
            );
        } else {
            policy.status = PolicyStatus::ClaimRejected;
            policy.claim_amount = 0;
        }
        storage::set_policy(&mut env.storage, policy_id, &policy);
        storage::set_claim(&mut env.storage, policy_id, &claim);
        env.emit(
            Effect::Publish(
                Event::ClaimProcessed(
                    ClaimProcessedEvent {
                        policy_id,
                        policyholder: policy.policyholder,
                        claim_amount: claim.claim_amount,
                        approved,
                        status: policy.status,
                    },
                ),
            ),
        );
        Ok(())
    }

    /// Asks the oracle for `oracle_type` whether the condition named by
    /// `parameter` holds. The oracles in place confirm every condition.
    pub fn verify_oracle_condition(env: &Env, oracle_type: Symbol, parameter: Symbol) -> (result: Result<OracleResult, Error>)
        ensures
            result matches Ok(r) && r.is_verified && r.details@ == oracle_details(oracle_type@),
    {
        let weather = "Weather".to_owned();
        let flight = "Flight".to_owned();
        let price = "Price".to_owned();
        let answer = if oracle_type == weather {
            WeatherOracle::verify_condition(env, parameter)
        } else if oracle_type == flight {
            FlightOracle::verify_condition(env, parameter)
        } else if oracle_type == price {
            PriceOracle::verify_condition(env, parameter)
        } else {
            SmartContractOracle::verify_condition(env, parameter)
        };
        match answer {
            Ok(r) => Ok(r),
            Err(_) => Err(Error::OracleVerificationFailed),
        }
    }

    /// Registers `oracle_address` as the oracle of `oracle_type` (primary
    /// administrator only).
    pub fn register_oracle(env: &mut Env, admin: Address, oracle_type: Symbol, oracle_address: Address) -> (result: Result<(), Error>)
        requires
            old(env).storage@.admin is Some,
        ensures
            ({
                let s = old(env).storage@;
                if Some(admin) != s.admin {
                    result == Err::<(), Error>(Error::Unauthorized) && outcome(*old(env), *final(env), s, seq![Effect::RequireAuth(admin)])
                } else {
                    &&& result is Ok
                    &&& outcome(
                        *old(env),
                        *final(env),
                        with_oracle(s, oracle_type@, oracle_address),
                        seq![
                            Effect::RequireAuth(admin),
                            Effect::Publish(Event::OracleRegistered(OracleRegisteredEvent { oracle_type, oracle_address, admin })),
                        ],
                    )
                }
            }),
    {
        env.emit(Effect::RequireAuth(admin));
        let current_admin = storage::get_admin(&env.storage);
        if admin != current_admin {
            return Err(Error::Unauthorized);
        }
        storage::set_oracle_address(&mut env.storage, &oracle_type, &oracle_address);
        env.emit(Effect::Publish(Event::OracleRegistered(OracleRegisteredEvent { oracle_type, oracle_address, admin })));
        Ok(())
    }

    /// Replaces the oracle of an already registered `oracle_type` (primary
    /// administrator only).
    pub fn update_oracle(env: &mut Env, admin: Address, oracle_type: Symbol, oracle_address: Address) -> (result: Result<(), Error>)
        requires
            old(env).storage@.admin is Some,
        ensures
            ({
                let s = old(env).storage@;
                if Some(admin) != s.admin {
                    result == Err::<(), Error>(Error::Unauthorized) && outcome(*old(env), *final(env), s, seq![Effect::RequireAuth(admin)])
                } else if !s.oracles.contains_key(oracle_type@) {
                    result == Err::<(), Error>(Error::OracleNotRegistered) && outcome(*old(env), *final(env), s, seq![Effect::RequireAuth(admin)])
                } else {
                    &&& result is Ok
                    &&& outcome(
                        *old(env),
                        *final(env),
                        with_oracle(s, oracle_type@, oracle_address),
                        seq![
                            Effect::RequireAuth(admin),
                            Effect::Publish(Event::OracleRegistered(OracleRegisteredEvent { oracle_type, oracle_address, admin })),
                        ],
                    )
                }
            }),
    {
        env.emit(Effect::RequireAuth(admin));
        let current_admin = storage::get_admin(&env.storage);
        if admin != current_admin {
            return Err(Error::Unauthorized);
        }
        if storage::get_oracle_address(&env.storage, &oracle_type).is_none() {
            return Err(Error::OracleNotRegistered);
        }
        storage::set_oracle_address(&mut env.storage, &oracle_type, &oracle_address);
        env.emit(Effect::Publish(Event::OracleRegistered(OracleRegisteredEvent { oracle_type, oracle_address, admin })));
        Ok(())
    }

    /// Unregisters the oracle of `oracle_type` (primary administrator only).
    pub fn remove_oracle(env: &mut Env, admin: Address, oracle_type: Symbol) -> (result: Result<(), Error>)
        requires
            old(env).storage@.admin is Some,
        ensures
            ({
                let s = old(env).storage@;
                if Some(admin) != s.admin {
                    result == Err::<(), Error>(Error::Unauthorized) && outcome(*old(env), *final(env), s, seq![Effect::RequireAuth(admin)])
                } else if !s.oracles.contains_key(oracle_type@) {
                    result == Err::<(), Error>(Error::OracleNotRegistered) && outcome(*old(env), *final(env), s, seq![Effect::RequireAuth(admin)])
                } else {
                    &&& result is Ok
                    &&& outcome(
                        *old(env),
                        *final(env),
                        without_oracle(s, oracle_type@),
                        seq![
                            Effect::RequireAuth(admin),
                            Effect::Publish(Event::OracleRemoved(OracleRemovedEvent { oracle_type, admin })),
                        ],
                    )
                }
            }),
    {
        env.emit(Effect::RequireAuth(admin));
        let current_admin = storage::get_admin(&env.storage);
        if admin != current_admin {
            return Err(Error::Unauthorized);
        }
        if storage::get_oracle_address(&env.storage, &oracle_type).is_none() {
            return Err(Error::OracleNotRegistered);
        }
        storage::remove_oracle_address(&mut env.storage, &oracle_type);
        env.emit(Effect::Publish(Event::OracleRemoved(OracleRemovedEvent { oracle_type, admin })));
        Ok(())
    }

    /// The oracle registered for `oracle_type`, if any.
    pub fn get_oracle(env: &Env, oracle_type: Symbol) -> (oracle: Option<Address>)
        ensures
            oracle == env.storage@.oracles.get(oracle_type@),
    {
        storage::get_oracle_address(&env.storage, &oracle_type)
    }

    /// The registered oracle types.
    pub fn get_oracle_types(env: &Env) -> (oracle_types: Vec<Symbol>)
        ensures
            storage::symbol_views(oracle_types@) == env.storage@.oracle_types_value(),
    {
        storage::get_oracle_types(&env.storage)
    }

    /// Settles a pending claim on the word of a registered oracle: when the
    /// oracle confirms the trigger condition the claim is approved and paid
    /// in full and the policy closed; otherwise the call is refused.
    pub fn evaluate_oracle_trigger(env: &mut Env, policy_id: u64, oracle_type: Symbol, parameter: Symbol) -> (result: Result<(), Error>)
        requires
            limits_evaluate_oracle_trigger(old(env).storage@, old(env).ledger, policy_id, oracle_type@),
        ensures
            claims_sound(old(env).storage@) ==> claims_sound(final(env).storage@),
            ids_issued(old(env).storage@) ==> ids_issued(final(env).storage@),
            ({
                let s = old(env).storage@;
                let ledger = old(env).ledger;
                let p = s.policies[policy_id];
                let c = s.claims[policy_id];
                if s.paused_value() {
                    result == Err::<(), Error>(Error::ContractPaused) && outcome(*old(env), *final(env), s, seq![])
                } else if !s.policies.contains_key(policy_id) {
                    result == Err::<(), Error>(Error::PolicyNotFound) && outcome(*old(env), *final(env), s, seq![])
                } else if p.status != PolicyStatus::ClaimPending {
                    result == Err::<(), Error>(Error::NoPendingClaim) && outcome(*old(env), *final(env), s, seq![])
                } else if !s.oracles.contains_key(oracle_type@) {
                    result == Err::<(), Error>(Error::OracleNotRegistered) && outcome(*old(env), *final(env), s, seq![])
                } else if !s.claims.contains_key(policy_id) {
                    result == Err::<(), Error>(Error::ClaimNotFound) && outcome(*old(env), *final(env), s, seq![])
                } else {
                    match payout_effect(s, ledger, p.policyholder, c.claim_amount) {
                        Err(e) => result == Err::<(), Error>(e) && outcome(*old(env), *final(env), s, seq![]),
                        Ok(pay) => {
                            &&& result is Ok
                            &&& exists|details: String| #![trigger details@] {
                                &&& details@ == oracle_details(oracle_type@)
                                &&& outcome(
                                    *old(env),
                                    *final(env),
                                    StorageView {
                                        policies: s.policies.insert(policy_id, Policy { status: PolicyStatus::ClaimApproved, ..p }),
                                        claims: s.claims.insert(policy_id, Claim { approved: true, ..c }),
                                        total_payouts: Some((s.total_payouts_value() + c.claim_amount) as i128),
                                        ..s
                                    },
                                    seq![
                                        Effect::Publish(Event::OracleTriggerEvaluated(OracleTriggerEvaluatedEvent {
                                            policy_id,
                                            oracle_type,
                                            condition_met: true,
                                            details,
                                        })),
                                        pay,
                                        Effect::Publish(Event::AutomaticClaimTriggered(AutomaticClaimTriggeredEvent {
                                            policy_id,
                                            policyholder: p.policyholder,
                                            oracle_type,
                                            claim_amount: c.claim_amount,
                                        })),
                                        Effect::Publish(Event::Payout(PayoutEvent {
                                            policy_id,
                                            policyholder: p.policyholder,
                                            amount: c.claim_amount,
                                        })),
                                    ],
                                )
                            }
                        },
                    }
                }
            }),
    {
        if storage::is_paused(&env.storage) {
            return Err(Error::ContractPaused);
        }
        let mut policy = match storage::get_policy(&env.storage, policy_id) {
            Ok(p) => p,
            Err(e) => {
                return Err(e);
            },
        };
        if policy.status != PolicyStatus::ClaimPending {
            return Err(Error::NoPendingClaim);
        }
        if storage::get_oracle_address(&env.storage, &oracle_type).is_none() {
            return Err(Error::OracleNotRegistered);
        }
        let verdict = match Self::verify_oracle_condition(env, oracle_type.clone(), parameter) {
            Ok(r) => r,
            Err(e) => {
                return Err(e);
            },
        };
        if !verdict.is_verified {
            return Err(Error::OracleConditionNotMet);
        }
        let mut claim = match storage::get_claim(&env.storage, policy_id) {
            Ok(c) => c,
            Err(e) => {
                return Err(e);
            },
        };
        let payout = match plan_payout(env, policy.policyholder, claim.claim_amount) {
            Ok(effect) => effect,
            Err(e) => {
                return Err(e);
            },
        };
        policy.status = PolicyStatus::ClaimApproved;
        claim.approved = true;
        let details = verdict.details;
        let ghost d = details;
        env.emit(
            Effect::Publish(
                Event::OracleTriggerEvaluated(
                    OracleTriggerEvaluatedEvent {
                        policy_id,
                        oracle_type: oracle_type.clone(),
                        condition_met: true,
                        details,
                    },
                ),
            ),
        );
        env.emit(payout);
        let total_payouts = storage::get_total_payouts(&env.storage);
        storage::set_total_payouts(&mut env.storage, total_payouts + claim.claim_amount);
        storage::set_policy(&mut env.storage, policy_id, &policy);
        storage::set_claim(&mut env.storage, policy_id, &claim);
        env.emit(
            Effect::Publish(
                Event::AutomaticClaimTriggered(
                    AutomaticClaimTriggeredEvent {
                        policy_id,
                        policyholder: policy.policyholder,
                        oracle_type,
                        claim_amount: claim.claim_amount,
                    },
                ),
            ),
        );
        env.emit(
            Effect::Publish(
                Event::Payout(
                    PayoutEvent { policy_id, policyholder: policy.policyholder, amount: claim.claim_amount },
                ),
            ),
        );
        Ok(())
    }

    /// Cancels an active policy at its holder's request.
    pub fn cancel_policy(env: &mut Env, policy_id: u64) -> (result: Result<(), Error>)
        ensures
            claims_sound(old(env).storage@) ==> claims_sound(final(env).storage@),
            ids_issued(old(env).storage@) ==> ids_issued(final(env).storage@),
            ({
                let s = old(env).storage@;
                let p = s.policies[policy_id];
                if s.paused_value() {
                    result == Err::<(), Error>(Error::ContractPaused) && outcome(*old(env), *final(env), s, seq![])
                } else if !s.policies.contains_key(policy_id) {
                    result == Err::<(), Error>(Error::PolicyNotFound) && outcome(*old(env), *final(env), s, seq![])
                } else if p.status != PolicyStatus::Active {
                    result == Err::<(), Error>(Error::PolicyNotActive)
                        && outcome(*old(env), *final(env), s, seq![Effect::RequireAuth(p.policyholder)])
                } else {
                    &&& result is Ok
                    &&& outcome(
                        *old(env),
                        *final(env),
                        with_policy(s, policy_id, Policy { status: PolicyStatus::Cancelled, ..p }),
                        seq![
                            Effect::RequireAuth(p.policyholder),
                            Effect::Publish(Event::PolicyCancelled(PolicyCancelledEvent { policy_id, policyholder: p.policyholder })),
                        ],
                    )
                }
            }),
    {
        if storage::is_paused(&env.storage) {
            return Err(Error::ContractPaused);
        }
        let mut policy = match storage::get_policy(&env.storage, policy_id) {
            Ok(p) => p,
            Err(e) => {
                return Err(e);
            },
        };
        env.emit(Effect::RequireAuth(policy.policyholder));
        if policy.status != PolicyStatus::Active {
            return Err(Error::PolicyNotActive);
        }
        policy.status = PolicyStatus::Cancelled;
        storage::set_policy(&mut env.storage, policy_id, &policy);
        env.emit(
            Effect::Publish(
                Event::PolicyCancelled(PolicyCancelledEvent { policy_id, policyholder: policy.policyholder }),
            ),
        );
        Ok(())
    }

    /// Raises the coverage of an active, unexpired policy; the holder pays
    /// the premium of the added cover for the rest of the term.
    pub fn increase_coverage(env: &mut Env, policy_id: u64, new_coverage: i128) -> (result: Result<(), Error>)
        requires
            limits_increase_coverage(old(env).storage@, old(env).ledger, policy_id, new_coverage),
        ensures
            claims_sound(old(env).storage@) ==> claims_sound(final(env).storage@),
            ids_issued(old(env).storage@) ==> ids_issued(final(env).storage@),
            result is Ok ==> ({
                let p = old(env).storage@.policies[policy_id];
                let quote = premium_result(
                    p.policy_type,
                    (new_coverage - p.coverage_amount) as i128,
                    (p.end_time - old(env).ledger.timestamp) as u64,
                );
                &&& new_coverage > p.coverage_amount
                &&& old(env).ledger.timestamp < p.end_time
                &&& quote is Ok
                &&& final(env).storage@.total_premium_value() == old(env).storage@.total_premium_value() + quote->Ok_0
                &&& final(env).storage@.policies[policy_id].coverage_amount == new_coverage
                &&& final(env).storage@.policies[policy_id].end_time == p.end_time
            }),
            ({
                let s = old(env).storage@;
                let ledger = old(env).ledger;
                let p = s.policies[policy_id];
                let auth = Effect::RequireAuth(p.policyholder);
                if s.paused_value() {
                    result == Err::<(), Error>(Error::ContractPaused) && outcome(*old(env), *final(env), s, seq![])
                } else if !s.policies.contains_key(policy_id) {
                    result == Err::<(), Error>(Error::PolicyNotFound) && outcome(*old(env), *final(env), s, seq![])
                } else if p.status != PolicyStatus::Active || lapses(p, ledger.timestamp) {
                    result == Err::<(), Error>(Error::PolicyNotActive) && outcome(*old(env), *final(env), s, seq![])
                } else if new_coverage <= p.coverage_amount {
                    result == Err::<(), Error>(Error::CoverageDecrease) && outcome(*old(env), *final(env), s, seq![auth])
                } else if ledger.timestamp >= p.end_time {
                    result == Err::<(), Error>(Error::PolicyAlreadyExpired) && outcome(*old(env), *final(env), s, seq![auth])
                } else {
                    match coverage_increase_premium(p, new_coverage, ledger.timestamp) {
                        Err(e) => result == Err::<(), Error>(e) && outcome(*old(env), *final(env), s, seq![auth]),
                        Ok(additional) => match s.premium_token {
                            None => result == Err::<(), Error>(Error::NotInitialized) && outcome(*old(env), *final(env), s, seq![auth]),
                            Some(token) => {
                                &&& result is Ok
                                &&& outcome(
                                    *old(env),
                                    *final(env),
                                    StorageView {
                                        total_premium: Some((s.total_premium_value() + additional) as i128),
                                        policies: s.policies.insert(policy_id, Policy { coverage_amount: new_coverage, ..p }),
                                        ..s
                                    },
                                    seq![
                                        auth,
                                        Effect::Transfer { token, from: p.policyholder, to: ledger.current_contract, amount: additional },
                                        Effect::Publish(Event::CoverageIncreased(PolicyModifiedCoverageEvent {
                                            policy_id,
                                            policyholder: p.policyholder,
                                            old_coverage: p.coverage_amount,
                                            new_coverage,
                                            additional_premium: additional,
                                        })),
                                    ],
                                )
                            },
                        },
                    }
                }
            }),
    {
        if storage::is_paused(&env.storage) {
            return Err(Error::ContractPaused);
        }
        let mut policy = match storage::get_policy(&env.storage, policy_id) {
            Ok(p) => p,
            Err(e) => {
                return Err(e);
            },
        };
        let now = env.ledger.timestamp;
        // A lapsed policy would be marked expired here, which refuses the
        // change; a refused call keeps nothing it changed.
        if policy.status != PolicyStatus::Active || policy.is_expired(now) {
            return Err(Error::PolicyNotActive);
        }
        env.emit(Effect::RequireAuth(policy.policyholder));
        if new_coverage <= policy.coverage_amount {
            return Err(Error::CoverageDecrease);
        }
        if now >= policy.end_time {
            return Err(Error::PolicyAlreadyExpired);
        }
        let coverage_delta = new_coverage - policy.coverage_amount;
        let remaining_duration = policy.end_time - now;
        let additional_premium = match calculate_premium(&policy.policy_type, coverage_delta, remaining_duration) {
            Ok(p) => p,
            Err(e) => {
                return Err(e);
            },
        };
        let token = match storage::get_premium_token(&env.storage) {
            Some(t) => t,
            None => {
                return Err(Error::NotInitialized);
            },
        };
        let contract = env.ledger.current_contract;
        env.emit(Effect::Transfer { token, from: policy.policyholder, to: contract, amount: additional_premium });
        let total_premium = storage::get_total_premium(&env.storage);
        storage::set_total_premium(&mut env.storage, total_premium + additional_premium);
        let old_coverage = policy.coverage_amount;
        policy.coverage_amount = new_coverage;
        storage::set_policy(&mut env.storage, policy_id, &policy);
        env.emit(
            Effect::Publish(
                Event::CoverageIncreased(
                    PolicyModifiedCoverageEvent {
                        policy_id,
                        policyholder: policy.policyholder,
                        old_coverage,
                        new_coverage,
                        additional_premium,
                    },
                ),
            ),
        );
        Ok(())
    }

    /// Extends an active, unexpired policy by `extra_seconds`; the holder
    /// pays the premium of the full coverage for the added time.
    pub fn extend_duration(env: &mut Env, policy_id: u64, extra_seconds: u64) -> (result: Result<(), Error>)
        requires
            limits_extend_duration(old(env).storage@, old(env).ledger, policy_id, extra_seconds),
        ensures
            claims_sound(old(env).storage@) ==> claims_sound(final(env).storage@),
            ids_issued(old(env).storage@) ==> ids_issued(final(env).storage@),
            result is Ok ==> ({
                let p = old(env).storage@.policies[policy_id];
                &&& premium_result(p.policy_type, p.coverage_amount, extra_seconds) is Ok
                &&& final(env).storage@.total_premium_value() == old(env).storage@.total_premium_value()
                    + premium_result(p.policy_type, p.coverage_amount, extra_seconds)->Ok_0
                &&& final(env).storage@.policies[policy_id].end_time == p.end_time + extra_seconds
                &&& final(env).storage@.policies[policy_id].coverage_amount == p.coverage_amount
            }),
            ({
                let s = old(env).storage@;
                let ledger = old(env).ledger;
                let p = s.policies[policy_id];
                let auth = Effect::RequireAuth(p.policyholder);
                if s.paused_value() {
                    result == Err::<(), Error>(Error::ContractPaused) && outcome(*old(env), *final(env), s, seq![])
                } else if extra_seconds == 0 {
                    result == Err::<(), Error>(Error::InvalidDuration) && outcome(*old(env), *final(env), s, seq![])
                } else if !s.policies.contains_key(policy_id) {
                    result == Err::<(), Error>(Error::PolicyNotFound) && outcome(*old(env), *final(env), s, seq![])
                } else if p.status != PolicyStatus::Active || lapses(p, ledger.timestamp) {
                    result == Err::<(), Error>(Error::PolicyNotActive) && outcome(*old(env), *final(env), s, seq![])
                } else if ledger.timestamp >= p.end_time {
                    result == Err::<(), Error>(Error::PolicyAlreadyExpired) && outcome(*old(env), *final(env), s, seq![auth])
                } else {
                    match extension_premium(p, extra_seconds) {
                        Err(e) => result == Err::<(), Error>(e) && outcome(*old(env), *final(env), s, seq![auth]),
                        Ok(additional) => match s.premium_token {
                            None => result == Err::<(), Error>(Error::NotInitialized) && outcome(*old(env), *final(env), s, seq![auth]),
                            Some(token) => {
                                let new_end = (p.end_time + extra_seconds) as u64;
                                &&& result is Ok
                                &&& outcome(
                                    *old(env),
                                    *final(env),
                                    StorageView {
                                        total_premium: Some((s.total_premium_value() + additional) as i128),
                                        policies: s.policies.insert(policy_id, Policy { end_time: new_end, ..p }),
                                        ..s
                                    },
                                    seq![
                                        auth,
                                        Effect::Transfer { token, from: p.policyholder, to: ledger.current_contract, amount: additional },
                                        Effect::Publish(Event::DurationExtended(PolicyExtendedEvent {
                                            policy_id,
                                            policyholder: p.policyholder,
                                            old_end_time: p.end_time,
                                            new_end_time: new_end,
                                            additional_premium: additional,
                                        })),
                                    ],
                                )
                            },
                        },
                    }
                }
            }),
    {
        if storage::is_paused(&env.storage) {
            return Err(Error::ContractPaused);
        }
        if extra_seconds == 0 {
            return Err(Error::InvalidDuration);
        }
        let mut policy = match storage::get_policy(&env.storage, policy_id) {
            Ok(p) => p,
            Err(e) => {
                return Err(e);
            },
        };
        let now = env.ledger.timestamp;
        // A lapsed policy would be marked expired here, which refuses the
        // change; a refused call keeps nothing it changed.
        if policy.status != PolicyStatus::Active || policy.is_expired(now) {
            return Err(Error::PolicyNotActive);
        }
        env.emit(Effect::RequireAuth(policy.policyholder));
        if now >= policy.end_time {
            return Err(Error::PolicyAlreadyExpired);
        }
        let additional_premium = match calculate_premium(&policy.policy_type, policy.coverage_amount, extra_seconds) {
            Ok(p) => p,
            Err(e) => {
                return Err(e);
            },
        };
        let token = match storage::get_premium_token(&env.storage) {
            Some(t) => t,
            None => {
                return Err(Error::NotInitialized);
            },
        };
        let contract = env.ledger.current_contract;
        env.emit(Effect::Transfer { token, from: policy.policyholder, to: contract, amount: additional_premium });
        let total_premium = storage::get_total_premium(&env.storage);
        storage::set_total_premium(&mut env.storage, total_premium + additional_premium);
        let old_end_time = policy.end_time;
        policy.end_time = old_end_time + extra_seconds;
        storage::set_policy(&mut env.storage, policy_id, &policy);
        env.emit(
            Effect::Publish(
                Event::DurationExtended(
                    PolicyExtendedEvent {
                        policy_id,
                        policyholder: policy.policyholder,
                        old_end_time,
                        new_end_time: policy.end_time,
                        additional_premium,
                    },
                ),
            ),
        );
        Ok(())
    }

    /// The extra premium for `coverage_delta` of cover over `duration_seconds`.
    pub fn calculate_modification_premium(
        env: &Env,
        policy_type: PolicyType,
        coverage_delta: i128,
        duration_seconds: u64,
    ) -> (result: Result<i128, Error>)
        ensures
            result == premium_result(policy_type, coverage_delta, duration_seconds),
    {
        calculate_premium(&policy_type, coverage_delta, duration_seconds)
    }

    /// Names a new beneficiary of an active, unexpired policy (policyholder only).
    pub fn change_beneficiary(env: &mut Env, policy_id: u64, new_beneficiary: Address) -> (result: Result<(), Error>)
        ensures
            claims_sound(old(env).storage@) ==> claims_sound(final(env).storage@),
            ids_issued(old(env).storage@) ==> ids_issued(final(env).storage@),
            ({
                let s = old(env).storage@;
                let p = s.policies[policy_id];
                if s.paused_value() {
                    result == Err::<(), Error>(Error::ContractPaused) && outcome(*old(env), *final(env), s, seq![])
                } else if !s.policies.contains_key(policy_id) {
                    result == Err::<(), Error>(Error::PolicyNotFound) && outcome(*old(env), *final(env), s, seq![])
                } else if p.status != PolicyStatus::Active || lapses(p, old(env).ledger.timestamp) {
                    result == Err::<(), Error>(Error::PolicyNotActive) && outcome(*old(env), *final(env), s, seq![])
                } else {
                    &&& result is Ok
                    &&& outcome(
                        *old(env),
                        *final(env),
                        with_policy(s, policy_id, Policy { beneficiary: new_beneficiary, ..p }),
                        seq![
                            Effect::RequireAuth(p.policyholder),
                            Effect::Publish(Event::BeneficiaryChanged(BeneficiaryChangedEvent {
                                policy_id,
                                old_beneficiary: p.beneficiary,
                                new_beneficiary,
                            })),
                        ],
                    )
                }
            }),
    {
        if storage::is_paused(&env.storage) {
            return Err(Error::ContractPaused);
        }
        let mut policy = match storage::get_policy(&env.storage, policy_id) {
            Ok(p) => p,
            Err(e) => {
                return Err(e);
            },
        };
        // A lapsed policy would be marked expired here, which refuses the
        // change; a refused call keeps nothing it changed.
        if policy.status != PolicyStatus::Active || policy.is_expired(env.ledger.timestamp) {
            return Err(Error::PolicyNotActive);
        }
        env.emit(Effect::RequireAuth(policy.policyholder));
        let old_beneficiary = policy.beneficiary;
        policy.beneficiary = new_beneficiary;
        storage::set_policy(&mut env.storage, policy_id, &policy);
        env.emit(
            Effect::Publish(
                Event::BeneficiaryChanged(BeneficiaryChangedEvent { policy_id, old_beneficiary, new_beneficiary }),
            ),
        );
        Ok(())
    }

    /// The premium of a prospective policy, without creating it.
    pub fn calculate_premium(
        env: &Env,
        policy_type: PolicyType,
        coverage_amount: i128,
        duration_seconds: u64,
    ) -> (result: Result<i128, Error>)
        ensures
            result == premium_result(policy_type, coverage_amount, duration_seconds),
    {
        calculate_premium(&policy_type, coverage_amount, duration_seconds)
    }

    /// The stored policy `policy_id`.
    pub fn get_policy(env: &Env, policy_id: u64) -> (result: Result<Policy, Error>)
        ensures
            match result {
                Ok(p) => env.storage@.policies.contains_key(policy_id) && p == env.storage@.policies[policy_id],
                Err(e) => !env.storage@.policies.contains_key(policy_id) && e == Error::PolicyNotFound,
            },
    {
        storage::get_policy(&env.storage, policy_id)
    }

    /// The latest claim on policy `policy_id`.
    pub fn get_claim(env: &Env, policy_id: u64) -> (result: Result<Claim, Error>)
        ensures
            match result {
                Ok(c) => env.storage@.claims.contains_key(policy_id) && c == env.storage@.claims[policy_id],
                Err(e) => !env.storage@.claims.contains_key(policy_id) && e == Error::ClaimNotFound,
            },
    {
        storage::get_claim(&env.storage, policy_id)
    }

    /// Stops policy creation, premium payment, claims and policy changes
    /// (primary administrator only); pausing a paused contract changes nothing.
    pub fn pause(env: &mut Env, admin: Address) -> (result: Result<(), Error>)
        requires
            old(env).storage@.admin is Some,
        ensures
            ({
                let s = old(env).storage@;
                let auth = Effect::RequireAuth(admin);
                if Some(admin) != s.admin {
                    result == Err::<(), Error>(Error::Unauthorized) && outcome(*old(env), *final(env), s, seq![auth])
                } else if s.paused_value() {
                    result is Ok && outcome(*old(env), *final(env), s, seq![auth])
                } else {
                    &&& result is Ok
                    &&& outcome(
                        *old(env),
                        *final(env),
                        StorageView { paused: Some(true), ..s },
                        seq![
                            auth,
                            Effect::Publish(Event::ContractPaused(ContractPausedEvent { admin, timestamp: old(env).ledger.timestamp })),
                        ],
                    )
                }
            }),
    {
        env.emit(Effect::RequireAuth(admin));
        let current_admin = storage::get_admin(&env.storage);
        if admin != current_admin {
            return Err(Error::Unauthorized);
        }
        if storage::is_paused(&env.storage) {
            return Ok(());
        }
        storage::set_paused(&mut env.storage, true);
        let timestamp = env.ledger.timestamp;
        env.emit(Effect::Publish(Event::ContractPaused(ContractPausedEvent { admin, timestamp })));
        Ok(())
    }

    /// Lifts a pause (primary administrator only); unpausing a running
    /// contract changes nothing.
    pub fn unpause(env: &mut Env, admin: Address) -> (result: Result<(), Error>)
        requires
            old(env).storage@.admin is Some,
        ensures
            ({
                let s = old(env).storage@;
                let auth = Effect::RequireAuth(admin);
                if Some(admin) != s.admin {
                    result == Err::<(), Error>(Error::Unauthorized) && outcome(*old(env), *final(env), s, seq![auth])
                } else if !s.paused_value() {
                    result is Ok && outcome(*old(env), *final(env), s, seq![auth])
                } else {
                    &&& result is Ok
                    &&& outcome(
                        *old(env),
                        *final(env),
                        StorageView { paused: Some(false), ..s },
                        seq![
                            auth,
                            Effect::Publish(Event::ContractUnpaused(ContractUnpausedEvent { admin, timestamp: old(env).ledger.timestamp })),
                        ],
                    )
                }
            }),
    {
        env.emit(Effect::RequireAuth(admin));
        let current_admin = storage::get_admin(&env.storage);
        if admin != current_admin {
            return Err(Error::Unauthorized);
        }
        if !storage::is_paused(&env.storage) {
            return Ok(());
        }
        storage::set_paused(&mut env.storage, false);
        let timestamp = env.ledger.timestamp;
        env.emit(Effect::Publish(Event::ContractUnpaused(ContractUnpausedEvent { admin, timestamp })));
        Ok(())
    }

    /// Whether the contract is paused.
    pub fn get_paused(env: &Env) -> (paused: bool)
        ensures
            paused == env.storage@.paused_value(),
    {
        storage::is_paused(&env.storage)
    }

    /// Adds `new_admin` to the admin set (admins only; no admin twice).
    pub fn add_admin(env: &mut Env, caller: Address, new_admin: Address) -> (result: Result<(), Error>)
        ensures
            admin_config_valid(old(env).storage@) ==> admin_config_valid(final(env).storage@),
            ({
                let s = old(env).storage@;
                let auth = Effect::RequireAuth(caller);
                if !s.has_admin(caller) {
                    result == Err::<(), Error>(Error::Unauthorized) && outcome(*old(env), *final(env), s, seq![auth])
                } else if s.has_admin(new_admin) {
                    result == Err::<(), Error>(Error::AdminAlreadyExists) && outcome(*old(env), *final(env), s, seq![auth])
                } else {
                    &&& result is Ok
                    &&& outcome(
                        *old(env),
                        *final(env),
                        StorageView { admins: Some(s.admins_value().push(new_admin)), ..s },
                        seq![auth, Effect::Publish(Event::AdminAdded(AdminAddedEvent { caller, new_admin }))],
                    )
                }
            }),
    {
        match require_admin(env, &caller) {
            Ok(()) => {},
            Err(e) => {
                return Err(e);
            },
        }
        if storage::is_admin(&env.storage, &new_admin) {
            return Err(Error::AdminAlreadyExists);
        }
        let mut admins = storage::get_admins(&env.storage);
        admins.push(new_admin);
        storage::set_admins(&mut env.storage, &admins);
        env.emit(Effect::Publish(Event::AdminAdded(AdminAddedEvent { caller, new_admin })));
        Ok(())
    }

    /// Removes `target` from the admin set (admins only). The last admin
    /// cannot be removed, and the threshold is lowered to the number of
    /// admins left when it would exceed it.
    pub fn remove_admin(env: &mut Env, caller: Address, target: Address) -> (result: Result<(), Error>)
        ensures
            admin_config_valid(old(env).storage@) ==> admin_config_valid(final(env).storage@),
            ({
                let s = old(env).storage@;
                let auth = Effect::RequireAuth(caller);
                let left = s.admins_value().filter(other_than(target));
                if !s.has_admin(caller) {
                    result == Err::<(), Error>(Error::Unauthorized) && outcome(*old(env), *final(env), s, seq![auth])
                } else if !s.has_admin(target) {
                    result == Err::<(), Error>(Error::AdminNotFound) && outcome(*old(env), *final(env), s, seq![auth])
                } else if s.admins_value().len() <= 1 {
                    result == Err::<(), Error>(Error::Unauthorized) && outcome(*old(env), *final(env), s, seq![auth])
                } else {
                    &&& result is Ok
                    &&& outcome(
                        *old(env),
                        *final(env),
                        StorageView {
                            admins: Some(left),
                            threshold: if s.threshold_value() > left.len() {
                                Some(left.len() as u32)
                            } else {
                                s.threshold
                            },
                            ..s
                        },
                        seq![auth, Effect::Publish(Event::AdminRemoved(AdminRemovedEvent { caller, removed_admin: target }))],
                    )
                }
            }),
    {
        match require_admin(env, &caller) {
            Ok(()) => {},
            Err(e) => {
                return Err(e);
            },
        }
        if !storage::is_admin(&env.storage, &target) {
            return Err(Error::AdminNotFound);
        }
        let admins = storage::get_admins(&env.storage);
        if admins.len() <= 1 {
            return Err(Error::Unauthorized);
        }
        let filtered = without_address(&admins, &target);
        proof {
            if admin_config_valid(old(env).storage@) {
                lemma_filter_out_one(admins@, target);
            }
        }
        let threshold = storage::get_threshold(&env.storage);
        if threshold as usize > filtered.len() {
            storage::set_threshold(&mut env.storage, filtered.len() as u32);
        }
        storage::set_admins(&mut env.storage, &filtered);
        env.emit(Effect::Publish(Event::AdminRemoved(AdminRemovedEvent { caller, removed_admin: target })));
        Ok(())
    }

    /// Sets how many approvals settle a claim (admins only); it must lie
    /// between one and the number of admins.
    pub fn set_threshold(env: &mut Env, caller: Address, threshold: u32) -> (result: Result<(), Error>)
        ensures
            admin_config_valid(old(env).storage@) ==> admin_config_valid(final(env).storage@),
            ({
                let s = old(env).storage@;
                let auth = Effect::RequireAuth(caller);
                if !s.has_admin(caller) {
                    result == Err::<(), Error>(Error::Unauthorized) && outcome(*old(env), *final(env), s, seq![auth])
                } else if threshold == 0 || threshold > s.admins_value().len() {
                    result == Err::<(), Error>(Error::InvalidThreshold) && outcome(*old(env), *final(env), s, seq![auth])
                } else {
                    &&& result is Ok
                    &&& outcome(
                        *old(env),
                        *final(env),
                        StorageView { threshold: Some(threshold), ..s },
                        seq![auth, Effect::Publish(Event::ThresholdUpdated(ThresholdUpdatedEvent { caller, new_threshold: threshold }))],
                    )
                }
            }),
    {
        match require_admin(env, &caller) {
            Ok(()) => {},
            Err(e) => {
                return Err(e);
            },
        }
        if threshold == 0 {
            return Err(Error::InvalidThreshold);
        }
        let admins = storage::get_admins(&env.storage);
        if threshold as usize > admins.len() {
            return Err(Error::InvalidThreshold);
        }
        storage::set_threshold(&mut env.storage, threshold);
        env.emit(Effect::Publish(Event::ThresholdUpdated(ThresholdUpdatedEvent { caller, new_threshold: threshold })));
        Ok(())
    }

    /// An admin's vote on a pending claim. Each admin votes once. When the
    /// approvals reach the threshold the claim is approved and paid from the
    /// contract's balance; when the admins yet to reject can no longer reach
    /// it, the claim is rejected; in both cases the votes are cleared.
    pub fn vote_claim(env: &mut Env, policy_id: u64, voter: Address, approve: bool) -> (result: Result<(), Error>)
        requires
            limits_vote_claim(old(env).storage@, old(env).ledger, policy_id, voter, approve),
        ensures
            votes_distinct(old(env).storage@) ==> votes_distinct(final(env).storage@),
            claims_sound(old(env).storage@) ==> claims_sound(final(env).storage@),
            ids_issued(old(env).storage@) ==> ids_issued(final(env).storage@),
            ({
                let s = old(env).storage@;
                let before = votes_on(s, policy_id);
                let approvals = before.approvals.len() + if approve { 1int } else { 0int };
                let rejections = before.rejections.len() + if approve { 0int } else { 1int };
                result is Ok && approvals < s.threshold_value() ==> {
                    &&& s.admins_value().len() - rejections < s.threshold_value()
                        ==> final(env).storage@.policies[policy_id].status == PolicyStatus::ClaimRejected
                    &&& s.admins_value().len() - rejections >= s.threshold_value()
                        ==> final(env).storage@.policies[policy_id].status == PolicyStatus::ClaimPending
                }
            }),
            ({
                let s = old(env).storage@;
                let ledger = old(env).ledger;
                let p = s.policies[policy_id];
                let c = s.claims[policy_id];
                let auth = Effect::RequireAuth(voter);
                let before = votes_on(s, policy_id);
                let after = with_vote(before, voter, approve);
                let cast = Effect::Publish(Event::ClaimVoteCast(ClaimVoteCastEvent {
                    policy_id,
                    voter,
                    approve,
                    approval_count: after.approvals.len() as u32,
                    rejection_count: after.rejections.len() as u32,
                }));
                if s.paused_value() {
                    result == Err::<(), Error>(Error::ContractPaused) && outcome(*old(env), *final(env), s, seq![])
                } else if !s.has_admin(voter) {
                    result == Err::<(), Error>(Error::Unauthorized) && outcome(*old(env), *final(env), s, seq![auth])
                } else if !s.policies.contains_key(policy_id) {
                    result == Err::<(), Error>(Error::PolicyNotFound) && outcome(*old(env), *final(env), s, seq![auth])
                } else if p.status != PolicyStatus::ClaimPending {
                    result == Err::<(), Error>(Error::NoPendingClaim) && outcome(*old(env), *final(env), s, seq![auth])
                } else if before.approvals.contains(voter) || before.rejections.contains(voter) {
                    result == Err::<(), Error>(Error::AlreadyVoted) && outcome(*old(env), *final(env), s, seq![auth])
                } else if approvals_suffice(s.threshold_value(), after.approvals.len() as int) {
                    if !s.claims.contains_key(policy_id) {
                        result == Err::<(), Error>(Error::ClaimNotFound) && outcome(*old(env), *final(env), s, seq![auth])
                    } else {
                        let q = settled(p, c);
                        match token_payout_effect(s, ledger, p.policyholder, c.claim_amount) {
                            Err(e) => result == Err::<(), Error>(e) && outcome(*old(env), *final(env), s, seq![auth]),
                            Ok(pay) => {
                                &&& result is Ok
                                &&& outcome(
                                    *old(env),
                                    *final(env),
                                    StorageView {
                                        policies: s.policies.insert(policy_id, q),
                                        claims: s.claims.insert(policy_id, Claim { approved: true, ..c }),
                                        total_payouts: Some((s.total_payouts_value() + c.claim_amount) as i128),
                                        claim_votes: s.claim_votes.remove(policy_id),
                                        ..s
                                    },
                                    seq![
                                        auth,
                                        cast,
                                        pay,
                                        Effect::Publish(Event::Payout(PayoutEvent {
                                            policy_id,
                                            policyholder: p.policyholder,
                                            amount: c.claim_amount,
                                        })),
                                        Effect::Publish(Event::ClaimProcessed(ClaimProcessedEvent {
                                            policy_id,
                                            policyholder: p.policyholder,
                                            claim_amount: c.claim_amount,
                                            approved: true,
                                            status: q.status,
                                        })),
                                    ],
                                )
                            },
                        }
                    }
                } else if rejections_suffice(s.threshold_value(), s.admins_value().len() as int, after.rejections.len() as int) {
                    if !s.claims.contains_key(policy_id) {
                        result == Err::<(), Error>(Error::ClaimNotFound) && outcome(*old(env), *final(env), s, seq![auth])
                    } else {
                        &&& result is Ok
                        &&& outcome(
                            *old(env),
                            *final(env),
                            StorageView {
                                policies: s.policies.insert(policy_id, rejected(p)),
                                claim_votes: s.claim_votes.remove(policy_id),
                                ..s
                            },
                            seq![
                                auth,
                                cast,
                                Effect::Publish(Event::ClaimProcessed(ClaimProcessedEvent {
                                    policy_id,
                                    policyholder: p.policyholder,
                                    claim_amount: c.claim_amount,
                                    approved: false,
                                    status: PolicyStatus::ClaimRejected,
                                })),
                            ],
                        )
                    }
                } else {
                    &&& result is Ok
                    &&& outcome(
                        *old(env),
                        *final(env),
                        StorageView { claim_votes: s.claim_votes.insert(policy_id, after), ..s },
                        seq![auth, cast],
                    )
                }
            }),
    {
        if storage::is_paused(&env.storage) {
            return Err(Error::ContractPaused);
        }
        match require_admin(env, &voter) {
            Ok(()) => {},
            Err(e) => {
                return Err(e);
            },
        }
        let mut policy = match storage::get_policy(&env.storage, policy_id) {
            Ok(p) => p,
            Err(e) => {
                return Err(e);
            },
        };
        if policy.status != PolicyStatus::ClaimPending {
            return Err(Error::NoPendingClaim);
        }
        let mut votes = match storage::get_claim_votes(&env.storage, policy_id) {
            Some(v) => v,
            None => ClaimVotes { approvals: Vec::new(), rejections: Vec::new() },
        };
        if vec_contains(&votes.approvals, &voter) || vec_contains(&votes.rejections, &voter) {
            return Err(Error::AlreadyVoted);
        }
        if approve {
            votes.approvals.push(voter);
        } else {
            votes.rejections.push(voter);
        }
        let approval_count = votes.approvals.len() as u32;
        let rejection_count = votes.rejections.len() as u32;
        let cast = Effect::Publish(
            Event::ClaimVoteCast(ClaimVoteCastEvent { policy_id, voter, approve, approval_count, rejection_count }),
        );
        proof {
            if votes_distinct(old(env).storage@) {
                lemma_new_vote_distinct(votes_on(old(env).storage@, policy_id), voter, approve);
            }
        }
        if threshold_reached(env, approval_count) {
            let mut claim = match storage::get_claim(&env.storage, policy_id) {
                Ok(c) => c,
                Err(e) => {
                    return Err(e);
                },
            };
            let payout = match plan_payout_from_balance(env, policy.policyholder, claim.claim_amount) {
                Ok(effect) => effect,
                Err(e) => {
                    return Err(e);
                },
            };
            claim.approved = true;
            policy.total_claimed = policy.total_claimed + claim.claim_amount;
            if policy.total_claimed >= policy.coverage_amount {
                policy.status = PolicyStatus::ClaimApproved;
            } else {
                policy.status = PolicyStatus::Active;
            }
            policy.claim_amount = 0;
            env.emit(cast);
            env.emit(payout);
            let total_payouts = storage::get_total_payouts(&env.storage);
            storage::set_total_payouts(&mut env.storage, total_payouts + claim.claim_amount);
            env.emit(
                Effect::Publish(
                    Event::Payout(
                        PayoutEvent { policy_id, policyholder: policy.policyholder, amount: claim.claim_amount },
                    ),
                ),
            );
            storage::set_policy(&mut env.storage, policy_id, &policy);
            storage::set_claim(&mut env.storage, policy_id, &claim);
            storage::clear_claim_votes(&mut env.storage, policy_id);
            env.emit(
                Effect::Publish(
                    Event::ClaimProcessed(
                        ClaimProcessedEvent {
                            policy_id,
                            policyholder: policy.policyholder,
                            claim_amount: claim.claim_amount,
                            approved: true,
                            status: policy.status,
                        },
                    ),
                ),
            );
        } else if rejection_forced(env, rejection_count) {
            let claim = match storage::get_claim(&env.storage, policy_id) {
                Ok(c) => c,
                Err(e) => {
                    return Err(e);
                },
            };
            policy.status = PolicyStatus::ClaimRejected;
            policy.claim_amount = 0;
            env.emit(cast);
            storage::set_policy(&mut env.storage, policy_id, &policy);
            storage::clear_claim_votes(&mut env.storage, policy_id);
            env.emit(
                Effect::Publish(
                    Event::ClaimProcessed(
                        ClaimProcessedEvent {
                            policy_id,
                            policyholder: policy.policyholder,
                            claim_amount: claim.claim_amount,
                            approved: false,
                            status: PolicyStatus::ClaimRejected,
                        },
                    ),
                ),
            );
        } else {
            storage::set_claim_votes(&mut env.storage, policy_id, &votes);
            env.emit(cast);
        }
        Ok(())
    }

    /// The admin set.
    pub fn get_admins(env: &Env) -> (admins: Vec<Address>)
        ensures
            admins@ == env.storage@.admins_value(),
    {
        storage::get_admins(&env.storage)
    }

    /// The approval threshold.
    pub fn get_threshold(env: &Env) -> (threshold: u32)
        ensures
            threshold == env.storage@.threshold_value(),
    {
        storage::get_threshold(&env.storage)
    }

    /// Renews an active or expired policy for `duration` seconds at the
    /// premium current for that term, which replaces the stored premium. An
    /// expired policy can be renewed within the grace period; the renewal
    /// runs from the policy's end, or from now once that has passed.
    pub fn renew_policy(env: &mut Env, policy_id: u64, duration: u64) -> (result: Result<(), Error>)
        requires
            limits_renew_policy(old(env).storage@, old(env).ledger, policy_id, duration),
        ensures
            claims_sound(old(env).storage@) ==> claims_sound(final(env).storage@),
            ids_issued(old(env).storage@) ==> ids_issued(final(env).storage@),
            result is Ok ==> ({
                let p = old(env).storage@.policies[policy_id];
                let now = old(env).ledger.timestamp;
                &&& final(env).storage@.policies[policy_id].end_time
                    == (if now > p.end_time { now } else { p.end_time }) + duration
                &&& final(env).storage@.policies[policy_id].end_time >= now + duration
                &&& final(env).storage@.policies[policy_id].status == PolicyStatus::Active
            }),
            ({
                let s = old(env).storage@;
                let ledger = old(env).ledger;
                let now = ledger.timestamp;
                let p = s.policies[policy_id];
                let auth = Effect::RequireAuth(p.policyholder);
                if s.paused_value() {
                    result == Err::<(), Error>(Error::ContractPaused) && outcome(*old(env), *final(env), s, seq![])
                } else if !s.policies.contains_key(policy_id) {
                    result == Err::<(), Error>(Error::PolicyNotFound) && outcome(*old(env), *final(env), s, seq![])
                } else if duration == 0 {
                    result == Err::<(), Error>(Error::InvalidDuration) && outcome(*old(env), *final(env), s, seq![auth])
                } else if p.status != PolicyStatus::Active && p.status != PolicyStatus::Expired {
                    result == Err::<(), Error>(Error::PolicyNotRenewable) && outcome(*old(env), *final(env), s, seq![auth])
                } else if now > p.end_time && now > p.end_time + RENEWAL_GRACE_PERIOD {
                    result == Err::<(), Error>(Error::RenewalGracePeriodExpired) && outcome(*old(env), *final(env), s, seq![auth])
                } else {
                    match premium_result(p.policy_type, p.coverage_amount, duration) {
                        Err(e) => result == Err::<(), Error>(e) && outcome(*old(env), *final(env), s, seq![auth]),
                        Ok(renewal) => match s.premium_token {
                            None => result == Err::<(), Error>(Error::NotInitialized) && outcome(*old(env), *final(env), s, seq![auth]),
                            Some(token) => {
                                let new_end = (renewal_base(p, now) + duration) as u64;
                                &&& result is Ok
                                &&& outcome(
                                    *old(env),
                                    *final(env),
                                    StorageView {
                                        total_premium: Some((s.total_premium_value() + renewal) as i128),
                                        policies: s.policies.insert(
                                            policy_id,
                                            Policy { premium: renewal, end_time: new_end, status: PolicyStatus::Active, ..p },
                                        ),
                                        ..s
                                    },
                                    seq![
                                        auth,
                                        Effect::Transfer { token, from: p.policyholder, to: ledger.current_contract, amount: renewal },
                                        Effect::Publish(Event::PolicyRenewed(PolicyRenewedEvent {
                                            policy_id,
                                            policyholder: p.policyholder,
                                            new_end_time: new_end,
                                            renewal_premium: renewal,
                                        })),
                                    ],
                                )
                            },
                        },
                    }
                }
            }),
    {
        if storage::is_paused(&env.storage) {
            return Err(Error::ContractPaused);
        }
        let mut policy = match storage::get_policy(&env.storage, policy_id) {
            Ok(p) => p,
            Err(e) => {
                return Err(e);
            },
        };
        env.emit(Effect::RequireAuth(policy.policyholder));
        if duration == 0 {
            return Err(Error::InvalidDuration);
        }
        if policy.status != PolicyStatus::Active && policy.status != PolicyStatus::Expired {
            return Err(Error::PolicyNotRenewable);
        }
        let current_time = env.ledger.timestamp;
        if current_time > policy.end_time {
            if current_time > policy.end_time + RENEWAL_GRACE_PERIOD {
                return Err(Error::RenewalGracePeriodExpired);
            }
        }
        let base = if current_time > policy.end_time {
            current_time
        } else {
            policy.end_time
        };
        let new_end_time = base + duration;
        let renewal_premium = match calculate_premium(&policy.policy_type, policy.coverage_amount, duration) {
            Ok(p) => p,
            Err(e) => {
                return Err(e);
            },
        };
        let token = match storage::get_premium_token(&env.storage) {
            Some(t) => t,
            None => {
                return Err(Error::NotInitialized);
            },
        };
        let contract = env.ledger.current_contract;
        env.emit(Effect::Transfer { token, from: policy.policyholder, to: contract, amount: renewal_premium });
        let total_premium = storage::get_total_premium(&env.storage);
        storage::set_total_premium(&mut env.storage, total_premium + renewal_premium);
        policy.premium = renewal_premium;
        policy.end_time = new_end_time;
        policy.status = PolicyStatus::Active;
        storage::set_policy(&mut env.storage, policy_id, &policy);
        env.emit(
            Effect::Publish(
                Event::PolicyRenewed(
                    PolicyRenewedEvent {
                        policy_id,
                        policyholder: policy.policyholder,
                        new_end_time,
                        renewal_premium,
                    },
                ),
            ),
        );
        Ok(())
    }

    /// The policy's status after marking it expired when its term has
    /// passed while it was still active (storing the change and publishing it).
    pub fn check_expiration(env: &mut Env, policy_id: u64) -> (result: Result<PolicyStatus, Error>)
        ensures
            claims_sound(old(env).storage@) ==> claims_sound(final(env).storage@),
            ids_issued(old(env).storage@) ==> ids_issued(final(env).storage@),
            ({
                let s = old(env).storage@;
                let p = s.policies[policy_id];
                s.policies.contains_key(policy_id) && (p.status != PolicyStatus::Active || old(env).ledger.timestamp <= p.end_time) ==> {
                    &&& result == Ok::<PolicyStatus, Error>(p.status)
                    &&& final(env).storage@ == s
                    &&& final(env).effects@ == old(env).effects@
                }
            }),
            ({
                let s = old(env).storage@;
                let now = old(env).ledger.timestamp;
                let p = s.policies[policy_id];
                if !s.policies.contains_key(policy_id) {
                    result == Err::<PolicyStatus, Error>(Error::PolicyNotFound) && outcome(*old(env), *final(env), s, seq![])
                } else if lapses(p, now) {
                    &&& result == Ok::<PolicyStatus, Error>(PolicyStatus::Expired)
                    &&& outcome(*old(env), *final(env), with_policy(s, policy_id, expired(p)), seq![expiry_event(policy_id, p, now)])
                } else {
                    result == Ok::<PolicyStatus, Error>(p.status) && outcome(*old(env), *final(env), s, seq![])
                }
            }),
    {
        let mut policy = match storage::get_policy(&env.storage, policy_id) {
            Ok(p) => p,
            Err(e) => {
                return Err(e);
            },
        };
        expire_policy_if_needed(env, &mut policy, policy_id);
        Ok(policy.status)
    }

    /// Schema version of the stored data (1 until an upgrade).
    pub fn version(env: &Env) -> (version: u32)
        ensures
            version == env.storage@.version_value(),
    {
        storage::get_version(&env.storage)
    }

    /// Replaces the contract's code (primary administrator), bumping the
    /// schema version.
    pub fn upgrade(env: &mut Env, new_wasm_hash: [u8; 32]) -> (result: Result<(), Error>)
        requires
            limits_upgrade(old(env).storage@),
        ensures
            result is Ok,
            outcome(
                *old(env),
                *final(env),
                StorageView { version: Some((old(env).storage@.version_value() + 1) as u32), ..old(env).storage@ },
                seq![Effect::RequireAuth(old(env).storage@.admin->0), Effect::UpdateContractCode(new_wasm_hash)],
            ),
    {
        let admin = storage::get_admin(&env.storage);
        env.emit(Effect::RequireAuth(admin));
        let current_version = storage::get_version(&env.storage);
        storage::set_version(&mut env.storage, current_version + 1);
        env.emit(Effect::UpdateContractCode(new_wasm_hash));
        Ok(())
    }

    /// Premiums collected, payouts made and the contract's token balance.
    pub fn get_treasury_stats(env: &Env) -> (result: Result<TreasuryStats, Error>)
        ensures
            result == (if env.storage@.premium_token is None {
                Err::<TreasuryStats, Error>(Error::NotInitialized)
            } else {
                Ok(TreasuryStats {
                    total_premium_collected: env.storage@.total_premium_value(),
                    total_payouts_distributed: env.storage@.total_payouts_value(),
                    current_balance: env.ledger.token_balance,
                })
            }),
    {
        if storage::get_premium_token(&env.storage).is_none() {
            return Err(Error::NotInitialized);
        }
        Ok(
            TreasuryStats {
                total_premium_collected: storage::get_total_premium(&env.storage),
                total_payouts_distributed: storage::get_total_payouts(&env.storage),
                current_balance: env.ledger.token_balance,
            },
        )
    }
}

} // verus!
