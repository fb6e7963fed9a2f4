//! The machine limits of the contract's entry points: for each entry point
//! whose arithmetic could leave its integer type, the condition under which
//! it stays in range (a call outside it aborts the invocation), and a
//! check of that condition that a host can run before the call.

use vstd::prelude::*;

use crate::contract::{
    coverage_increase_premium, extension_premium, fits_i128, lapses, payout_effect, pending_claim_on_record,
    plan_payout, plan_payout_from_balance, premium_fits, renewal_base, token_payout_effect, votes_on, with_vote,
    create_policy_refusal, StellarInsure, RENEWAL_GRACE_PERIOD,
};
use crate::env::{Env, Ledger};
use crate::error::Error;
use crate::multisig::{approvals_suffice, vec_contains};
use crate::premium::{calculate_premium, premium_result};
use crate::storage::{self, StorageView};
use crate::types::{Address, PolicyStatus, PolicyType, Symbol};

verus! {

/// `create_policy` can set the new policy's end time.
pub open spec fn limits_create_policy(
    s: StorageView,
    ledger: Ledger,
    policy_type: PolicyType,
    coverage_amount: i128,
    premium: i128,
    duration: u64,
) -> bool {
    !s.paused_value() && create_policy_refusal(s, policy_type, coverage_amount, premium, duration) is None
        ==> ledger.timestamp + duration <= u64::MAX
}

/// `pay_premium` can add the payment to the premiums collected.
pub open spec fn limits_pay_premium(s: StorageView, ledger: Ledger, policy_id: u64, amount: i128) -> bool {
    let p = s.policies[policy_id];
    ({
        &&& !s.paused_value()
        &&& s.policies.contains_key(policy_id)
        &&& p.status == PolicyStatus::Active
        &&& !lapses(p, ledger.timestamp)
        &&& amount == p.premium
        &&& s.premium_token is Some
    }) ==> fits_i128(s.total_premium_value() + amount)
}

/// `submit_claim` can work out the coverage left.
pub open spec fn limits_submit_claim(s: StorageView, policy_id: u64) -> bool {
    !s.paused_value() && s.policies.contains_key(policy_id) && s.policies[policy_id].status == PolicyStatus::Active
        ==> fits_i128(s.policies[policy_id].remaining())
}

/// `process_claim` finds an administrator and can add an approved claim to
/// what the policy has paid and to the payouts made.
pub open spec fn limits_process_claim(s: StorageView, ledger: Ledger, policy_id: u64, approved: bool) -> bool {
    &&& s.admin is Some
    &&& approved && pending_claim_on_record(s, policy_id) ==> {
        let c = s.claims[policy_id];
        &&& fits_i128(s.policies[policy_id].total_claimed + c.claim_amount)
        &&& (payout_effect(s, ledger, s.policies[policy_id].policyholder, c.claim_amount) is Ok
            ==> fits_i128(s.total_payouts_value() + c.claim_amount))
    }
}

/// `evaluate_oracle_trigger` can add the claim it pays to the payouts made.
pub open spec fn limits_evaluate_oracle_trigger(s: StorageView, ledger: Ledger, policy_id: u64, oracle_type: Seq<char>) -> bool {
    ({
        &&& !s.paused_value()
        &&& pending_claim_on_record(s, policy_id)
        &&& s.oracles.contains_key(oracle_type)
        &&& payout_effect(s, ledger, s.policies[policy_id].policyholder, s.claims[policy_id].claim_amount) is Ok
    }) ==> fits_i128(s.total_payouts_value() + s.claims[policy_id].claim_amount)
}

/// `increase_coverage` can work out the added cover and add its premium to
/// the premiums collected.
pub open spec fn limits_increase_coverage(s: StorageView, ledger: Ledger, policy_id: u64, new_coverage: i128) -> bool {
    let p = s.policies[policy_id];
    let now = ledger.timestamp;
    ({
        &&& !s.paused_value()
        &&& s.policies.contains_key(policy_id)
        &&& p.status == PolicyStatus::Active
        &&& !lapses(p, now)
        &&& new_coverage > p.coverage_amount
        &&& now < p.end_time
    }) ==> {
        &&& fits_i128(new_coverage - p.coverage_amount)
        &&& (s.premium_token is Some ==> premium_fits(s.total_premium_value(), coverage_increase_premium(p, new_coverage, now)))
    }
}

/// `extend_duration` can add the extension's premium to the premiums
/// collected and move the policy's end time.
pub open spec fn limits_extend_duration(s: StorageView, ledger: Ledger, policy_id: u64, extra_seconds: u64) -> bool {
    let p = s.policies[policy_id];
    let now = ledger.timestamp;
    ({
        &&& !s.paused_value()
        &&& extra_seconds != 0
        &&& s.policies.contains_key(policy_id)
        &&& p.status == PolicyStatus::Active
        &&& !lapses(p, now)
        &&& now < p.end_time
        &&& s.premium_token is Some
    }) ==> {
        &&& premium_fits(s.total_premium_value(), extension_premium(p, extra_seconds))
        &&& (extension_premium(p, extra_seconds) is Ok ==> p.end_time + extra_seconds <= u64::MAX)
    }
}

/// `vote_claim` can count the votes and, when the vote settles the claim,
/// add it to what the policy has paid and to the payouts made.
pub open spec fn limits_vote_claim(s: StorageView, ledger: Ledger, policy_id: u64, voter: Address, approve: bool) -> bool {
    let before = votes_on(s, policy_id);
    &&& before.approvals.len() < u32::MAX
    &&& before.rejections.len() < u32::MAX
    &&& ({
        &&& !s.paused_value()
        &&& s.has_admin(voter)
        &&& pending_claim_on_record(s, policy_id)
        &&& !before.approvals.contains(voter)
        &&& !before.rejections.contains(voter)
        &&& approvals_suffice(s.threshold_value(), with_vote(before, voter, approve).approvals.len() as int)
    }) ==> {
        let c = s.claims[policy_id];
        &&& fits_i128(s.policies[policy_id].total_claimed + c.claim_amount)
        &&& (token_payout_effect(s, ledger, s.policies[policy_id].policyholder, c.claim_amount) is Ok
            ==> fits_i128(s.total_payouts_value() + c.claim_amount))
    }
}

/// `renew_policy` can check the grace period, set the new end time and add
/// the renewal premium to the premiums collected.
pub open spec fn limits_renew_policy(s: StorageView, ledger: Ledger, policy_id: u64, duration: u64) -> bool {
    let p = s.policies[policy_id];
    let now = ledger.timestamp;
    ({
        &&& !s.paused_value()
        &&& s.policies.contains_key(policy_id)
        &&& duration != 0
        &&& (p.status == PolicyStatus::Active || p.status == PolicyStatus::Expired)
    }) ==> {
        &&& (now > p.end_time ==> p.end_time + RENEWAL_GRACE_PERIOD <= u64::MAX)
        &&& (now <= p.end_time || now <= p.end_time + RENEWAL_GRACE_PERIOD ==> {
            &&& renewal_base(p, now) + duration <= u64::MAX
            &&& (s.premium_token is Some ==> premium_fits(
                s.total_premium_value(),
                premium_result(p.policy_type, p.coverage_amount, duration),
            ))
        })
    }
}

/// `upgrade` finds an administrator and can bump the version.
pub open spec fn limits_upgrade(s: StorageView) -> bool {
    s.admin is Some && s.version_value() < u32::MAX
}

/// Whether `total + x` stays in range, `x` being a premium quote.
fn premium_sum_fits(total: i128, quote: Result<i128, Error>) -> (ok: bool)
    ensures
        ok == premium_fits(total, quote),
{
    match quote {
        Ok(x) => total.checked_add(x).is_some(),
        Err(_) => true,
    }
}

impl StellarInsure {
    /// Whether `create_policy` stays within its limits on these arguments.
    pub fn create_policy_within_limits(
        env: &Env,
        policy_type: PolicyType,
        coverage_amount: i128,
        premium: i128,
        duration: u64,
    ) -> (ok: bool)
        ensures
            ok == limits_create_policy(env.storage@, env.ledger, policy_type, coverage_amount, premium, duration),
    {
        if storage::is_paused(&env.storage) || coverage_amount <= 0 || premium <= 0 || duration == 0 {
            return true;
        }
        if storage::get_policy_counter(&env.storage) >= storage::get_max_policies(&env.storage) {
            return true;
        }
        match calculate_premium(&policy_type, coverage_amount, duration) {
            Ok(p) => p != premium || env.ledger.timestamp.checked_add(duration).is_some(),
            Err(_) => true,
        }
    }

    /// Whether `pay_premium` stays within its limits on these arguments.
    pub fn pay_premium_within_limits(env: &Env, policy_id: u64, amount: i128) -> (ok: bool)
        ensures
            ok == limits_pay_premium(env.storage@, env.ledger, policy_id, amount),
    {
        if storage::is_paused(&env.storage) {
            return true;
        }
        let p = match storage::get_policy(&env.storage, policy_id) {
            Ok(p) => p,
            Err(_) => {
                return true;
            },
        };
        if p.status != PolicyStatus::Active || p.is_expired(env.ledger.timestamp) || amount != p.premium
            || storage::get_premium_token(&env.storage).is_none() {
            return true;
        }
        storage::get_total_premium(&env.storage).checked_add(amount).is_some()
    }

    /// Whether `submit_claim` stays within its limits on this policy.
    pub fn submit_claim_within_limits(env: &Env, policy_id: u64) -> (ok: bool)
        ensures
            ok == limits_submit_claim(env.storage@, policy_id),
    {
        if storage::is_paused(&env.storage) {
            return true;
        }
        match storage::get_policy(&env.storage, policy_id) {
            Ok(p) => p.status != PolicyStatus::Active || p.coverage_amount.checked_sub(p.total_claimed).is_some(),
            Err(_) => true,
        }
    }

    /// Whether `process_claim` stays within its limits on these arguments.
    pub fn process_claim_within_limits(env: &Env, policy_id: u64, approved: bool) -> (ok: bool)
        ensures
            ok == limits_process_claim(env.storage@, env.ledger, policy_id, approved),
    {
        if env.storage.admin.is_none() {
            return false;
        }
        if !approved {
            return true;
        }
        let p = match storage::get_policy(&env.storage, policy_id) {
            Ok(p) => p,
            Err(_) => {
                return true;
            },
        };
        let c = match storage::get_claim(&env.storage, policy_id) {
            Ok(c) => c,
            Err(_) => {
                return true;
            },
        };
        if p.status != PolicyStatus::ClaimPending {
            return true;
        }
        if p.total_claimed.checked_add(c.claim_amount).is_none() {
            return false;
        }
        match plan_payout(env, p.policyholder, c.claim_amount) {
            Ok(_) => storage::get_total_payouts(&env.storage).checked_add(c.claim_amount).is_some(),
            Err(_) => true,
        }
    }

    /// Whether `evaluate_oracle_trigger` stays within its limits on these arguments.
    pub fn evaluate_oracle_trigger_within_limits(env: &Env, policy_id: u64, oracle_type: &Symbol) -> (ok: bool)
        ensures
            ok == limits_evaluate_oracle_trigger(env.storage@, env.ledger, policy_id, oracle_type@),
    {
        if storage::is_paused(&env.storage) {
            return true;
        }
        let p = match storage::get_policy(&env.storage, policy_id) {
            Ok(p) => p,
            Err(_) => {
                return true;
            },
        };
        let c = match storage::get_claim(&env.storage, policy_id) {
            Ok(c) => c,
            Err(_) => {
                return true;
            },
        };
        if p.status != PolicyStatus::ClaimPending || storage::get_oracle_address(&env.storage, oracle_type).is_none() {
            return true;
        }
        match plan_payout(env, p.policyholder, c.claim_amount) {
            Ok(_) => storage::get_total_payouts(&env.storage).checked_add(c.claim_amount).is_some(),
            Err(_) => true,
        }
    }

    /// Whether `increase_coverage` stays within its limits on these arguments.
    pub fn increase_coverage_within_limits(env: &Env, policy_id: u64, new_coverage: i128) -> (ok: bool)
        ensures
            ok == limits_increase_coverage(env.storage@, env.ledger, policy_id, new_coverage),
    {
        if storage::is_paused(&env.storage) {
            return true;
        }
        let p = match storage::get_policy(&env.storage, policy_id) {
            Ok(p) => p,
            Err(_) => {
                return true;
            },
        };
        let now = env.ledger.timestamp;
        if p.status != PolicyStatus::Active || p.is_expired(now) || new_coverage <= p.coverage_amount || now >= p.end_time {
            return true;
        }
        let delta = match new_coverage.checked_sub(p.coverage_amount) {
            Some(d) => d,
            None => {
                return false;
            },
        };
        if storage::get_premium_token(&env.storage).is_none() {
            return true;
        }
        let quote = calculate_premium(&p.policy_type, delta, p.end_time - now);
        premium_sum_fits(storage::get_total_premium(&env.storage), quote)
    }

    /// Whether `extend_duration` stays within its limits on these arguments.
    pub fn extend_duration_within_limits(env: &Env, policy_id: u64, extra_seconds: u64) -> (ok: bool)
        ensures
            ok == limits_extend_duration(env.storage@, env.ledger, policy_id, extra_seconds),
    {
        if storage::is_paused(&env.storage) || extra_seconds == 0 || storage::get_premium_token(&env.storage).is_none() {
            return true;
        }
        let p = match storage::get_policy(&env.storage, policy_id) {
            Ok(p) => p,
            Err(_) => {
                return true;
            },
        };
        let now = env.ledger.timestamp;
        if p.status != PolicyStatus::Active || p.is_expired(now) || now >= p.end_time {
            return true;
        }
        let quote = calculate_premium(&p.policy_type, p.coverage_amount, extra_seconds);
        let fits = premium_sum_fits(storage::get_total_premium(&env.storage), quote);
        match quote {
            Ok(_) => fits && p.end_time.checked_add(extra_seconds).is_some(),
            Err(_) => fits,
        }
    }

    /// Whether `vote_claim` stays within its limits on these arguments.
    pub fn vote_claim_within_limits(env: &Env, policy_id: u64, voter: Address, approve: bool) -> (ok: bool)
        ensures
            ok == limits_vote_claim(env.storage@, env.ledger, policy_id, voter, approve),
    {
        let (approvals, rejections) = match storage::get_claim_votes(&env.storage, policy_id) {
            Some(v) => (v.approvals, v.rejections),
            None => (Vec::new(), Vec::new()),
        };
        if approvals.len() >= u32::MAX as usize || rejections.len() >= u32::MAX as usize {
            return false;
        }
        if storage::is_paused(&env.storage) || !storage::is_admin(&env.storage, &voter) {
            return true;
        }
        let p = match storage::get_policy(&env.storage, policy_id) {
            Ok(p) => p,
            Err(_) => {
                return true;
            },
        };
        let c = match storage::get_claim(&env.storage, policy_id) {
            Ok(c) => c,
            Err(_) => {
                return true;
            },
        };
        if p.status != PolicyStatus::ClaimPending || vec_contains(&approvals, &voter) || vec_contains(&rejections, &voter) {
            return true;
        }
        let count: usize = if approve {
            approvals.len() + 1
        } else {
            approvals.len()
        };
        if count < storage::get_threshold(&env.storage) as usize {
            return true;
        }
        if p.total_claimed.checked_add(c.claim_amount).is_none() {
            return false;
        }
        match plan_payout_from_balance(env, p.policyholder, c.claim_amount) {
            Ok(_) => storage::get_total_payouts(&env.storage).checked_add(c.claim_amount).is_some(),
            Err(_) => true,
        }
    }

    /// Whether `renew_policy` stays within its limits on these arguments.
    pub fn renew_policy_within_limits(env: &Env, policy_id: u64, duration: u64) -> (ok: bool)
        ensures
            ok == limits_renew_policy(env.storage@, env.ledger, policy_id, duration),
    {
        if storage::is_paused(&env.storage) || duration == 0 {
            return true;
        }
        let p = match storage::get_policy(&env.storage, policy_id) {
            Ok(p) => p,
            Err(_) => {
                return true;
            },
        };
        if p.status != PolicyStatus::Active && p.status != PolicyStatus::Expired {
            return true;
        }
        let now = env.ledger.timestamp;
        let base = if now > p.end_time {
            match p.end_time.checked_add(RENEWAL_GRACE_PERIOD) {
                Some(limit) => if now > limit {
                    return true;
                },
                None => {
                    return false;
                },
            }
            now
        } else {
            p.end_time
        };
        if base.checked_add(duration).is_none() {
            return false;
        }
        if storage::get_premium_token(&env.storage).is_none() {
            return true;
        }
        let quote = calculate_premium(&p.policy_type, p.coverage_amount, duration);
        premium_sum_fits(storage::get_total_premium(&env.storage), quote)
    }

    /// Whether `upgrade` stays within its limits.
    pub fn upgrade_within_limits(env: &Env) -> (ok: bool)
        ensures
            ok == limits_upgrade(env.storage@),
    {
        env.storage.admin.is_some() && storage::get_version(&env.storage) < u32::MAX
    }
}

} // verus!
