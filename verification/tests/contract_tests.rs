use stellar_insure::{
    Address, Effect, Env, Error, Event, Ledger, PolicyStatus, PolicyType, StellarInsure, Storage,
    RENEWAL_GRACE_PERIOD,
};

const CONTRACT: Address = Address(1000);
const ONE_XLM: i128 = 10_000_000;
const ONE_YEAR_SECS: u64 = 365 * 24 * 3600;
const THIRTY_DAYS_SECS: u64 = 30 * 24 * 3600;

fn fresh_env(timestamp: u64) -> Env {
    Env::new(
        Storage::new(),
        Ledger { timestamp, current_contract: CONTRACT, token_balance: 10_000_000 },
    )
}

/// Admin, policyholder and premium token of a freshly initialised contract.
fn setup_insurance_contract() -> (Env, Address, Address, Address) {
    let mut env = fresh_env(0);
    let admin = Address(1);
    let policyholder = Address(2);
    let token = Address(3);
    StellarInsure::init(&mut env, admin);
    StellarInsure::set_premium_token(&mut env, admin, token);
    (env, admin, policyholder, token)
}

fn create_policy(env: &mut Env, policyholder: Address) -> u64 {
    StellarInsure::create_policy(
        env,
        policyholder,
        PolicyType::Weather,
        1_000_000,
        10_000,
        2_592_000,
        "temperature < 0".to_string(),
    )
    .unwrap()
}

/// Events a host would record: published events and token transfers.
fn event_count(env: &Env) -> usize {
    env.effects
        .iter()
        .filter(|e| matches!(e, Effect::Publish(_) | Effect::Transfer { .. }))
        .count()
}

fn advance(env: &mut Env, seconds: u64) {
    env.ledger.timestamp += seconds;
}

#[test]
fn test_create_policy_stores_expected_values() {
    let (mut env, _admin, policyholder, _token) = setup_insurance_contract();
    let policy_id = create_policy(&mut env, policyholder);
    let policy = StellarInsure::get_policy(&env, policy_id).unwrap();

    assert_eq!(policy_id, 0);
    assert_eq!(policy.policyholder, policyholder);
    assert_eq!(policy.coverage_amount, 1_000_000);
    assert_eq!(policy.premium, 10_000);
    assert_eq!(policy.status, PolicyStatus::Active);
}

#[test]
fn test_create_policy_emits_event() {
    let (mut env, _admin, policyholder, _token) = setup_insurance_contract();
    let events_before = event_count(&env);
    create_policy(&mut env, policyholder);
    assert_eq!(event_count(&env), events_before + 1);
}

#[test]
fn test_create_policy_rejects_zero_duration() {
    let (mut env, _admin, policyholder, _token) = setup_insurance_contract();
    let result = StellarInsure::create_policy(
        &mut env,
        policyholder,
        PolicyType::Weather,
        1_000_000,
        10_000,
        0,
        "temperature < 0".to_string(),
    );
    assert_eq!(result, Err(Error::InvalidDuration));
}

#[test]
fn test_pay_premium_emits_event() {
    let (mut env, _admin, policyholder, _token) = setup_insurance_contract();
    let policy_id = create_policy(&mut env, policyholder);
    let events_before = event_count(&env);
    StellarInsure::pay_premium(&mut env, policy_id, 10_000).unwrap();
    // one PremiumPaid event and one token transfer
    assert_eq!(event_count(&env), events_before + 2);
}

#[test]
fn test_submit_claim_sets_pending_status_and_emits_event() {
    let (mut env, _admin, policyholder, _token) = setup_insurance_contract();
    let events_before = event_count(&env);
    let policy_id = create_policy(&mut env, policyholder);
    StellarInsure::submit_claim(&mut env, policy_id, 500_000, "Weather data proof".to_string()).unwrap();

    let policy = StellarInsure::get_policy(&env, policy_id).unwrap();
    let claim = StellarInsure::get_claim(&env, policy_id).unwrap();
    assert_eq!(policy.status, PolicyStatus::ClaimPending);
    assert_eq!(claim.claim_amount, 500_000);
    assert!(!claim.approved);
    assert_eq!(event_count(&env), events_before + 2);
}

#[test]
fn test_submit_claim_rejects_zero_amount() {
    let (mut env, _admin, policyholder, _token) = setup_insurance_contract();
    let policy_id = create_policy(&mut env, policyholder);
    assert_eq!(
        StellarInsure::submit_claim(&mut env, policy_id, 0, "proof".to_string()),
        Err(Error::InvalidClaimAmount)
    );
}

#[test]
fn test_submit_claim_rejects_amount_over_coverage() {
    let (mut env, _admin, policyholder, _token) = setup_insurance_contract();
    let policy_id = create_policy(&mut env, policyholder);
    assert_eq!(
        StellarInsure::submit_claim(&mut env, policy_id, 2_000_000, "proof".to_string()),
        Err(Error::ClaimExceedsCoverage)
    );
}

#[test]
fn test_submit_claim_rejects_expired_policy() {
    let (mut env, _admin, policyholder, _token) = setup_insurance_contract();
    let policy_id = create_policy(&mut env, policyholder);
    advance(&mut env, 2_592_001);
    assert_eq!(
        StellarInsure::submit_claim(&mut env, policy_id, 500_000, "proof".to_string()),
        Err(Error::PolicyExpired)
    );
}

#[test]
fn approving_partial_claim_pays_and_reactivates_policy() {
    let (mut env, _admin, policyholder, _token) = setup_insurance_contract();
    let events_before = event_count(&env);
    let policy_id = create_policy(&mut env, policyholder);
    StellarInsure::submit_claim(&mut env, policy_id, 500_000, "proof".to_string()).unwrap();
    StellarInsure::process_claim(&mut env, policy_id, true).unwrap();

    let policy = StellarInsure::get_policy(&env, policy_id).unwrap();
    let claim = StellarInsure::get_claim(&env, policy_id).unwrap();
    // Half the coverage is paid out; the policy is back in force.
    assert_eq!(policy.status, PolicyStatus::Active);
    assert_eq!(policy.total_claimed, 500_000);
    assert!(claim.approved);
    // create + submit + payout transfer + payout + processed
    assert_eq!(event_count(&env), events_before + 5);
}

#[test]
fn test_process_claim_reject_sets_rejected_status() {
    let (mut env, _admin, policyholder, _token) = setup_insurance_contract();
    let policy_id = create_policy(&mut env, policyholder);
    StellarInsure::submit_claim(&mut env, policy_id, 500_000, "proof".to_string()).unwrap();
    StellarInsure::process_claim(&mut env, policy_id, false).unwrap();

    let policy = StellarInsure::get_policy(&env, policy_id).unwrap();
    let claim = StellarInsure::get_claim(&env, policy_id).unwrap();
    assert_eq!(policy.status, PolicyStatus::ClaimRejected);
    assert!(!claim.approved);
    assert_eq!(policy.claim_amount, 0);
}

#[test]
fn test_process_claim_requires_pending_claim() {
    let (mut env, _admin, policyholder, _token) = setup_insurance_contract();
    let policy_id = create_policy(&mut env, policyholder);
    assert_eq!(StellarInsure::process_claim(&mut env, policy_id, true), Err(Error::ClaimNotFound));
}

#[test]
fn test_cancel_policy_updates_status_and_emits_event() {
    let (mut env, _admin, policyholder, _token) = setup_insurance_contract();
    let events_before = event_count(&env);
    let policy_id = create_policy(&mut env, policyholder);
    StellarInsure::cancel_policy(&mut env, policy_id).unwrap();

    let policy = StellarInsure::get_policy(&env, policy_id).unwrap();
    assert_eq!(policy.status, PolicyStatus::Cancelled);
    assert_eq!(event_count(&env), events_before + 2);
}

// ── Emergency pause ──────────────────────────────────────────────────────────

#[test]
fn test_contract_is_not_paused_by_default() {
    let (env, _admin, _policyholder, _token) = setup_insurance_contract();
    assert!(!StellarInsure::get_paused(&env));
}

#[test]
fn test_admin_can_pause_contract() {
    let (mut env, admin, _policyholder, _token) = setup_insurance_contract();
    StellarInsure::pause(&mut env, admin).unwrap();
    assert!(StellarInsure::get_paused(&env));
}

#[test]
fn test_pause_emits_event() {
    let (mut env, admin, _policyholder, _token) = setup_insurance_contract();
    let events_before = event_count(&env);
    StellarInsure::pause(&mut env, admin).unwrap();
    assert_eq!(event_count(&env), events_before + 1);
}

#[test]
fn test_admin_can_unpause_contract() {
    let (mut env, admin, _policyholder, _token) = setup_insurance_contract();
    StellarInsure::pause(&mut env, admin).unwrap();
    assert!(StellarInsure::get_paused(&env));
    StellarInsure::unpause(&mut env, admin).unwrap();
    assert!(!StellarInsure::get_paused(&env));
}

#[test]
fn test_unpause_emits_event() {
    let (mut env, admin, _policyholder, _token) = setup_insurance_contract();
    StellarInsure::pause(&mut env, admin).unwrap();
    let events_before = event_count(&env);
    StellarInsure::unpause(&mut env, admin).unwrap();
    assert_eq!(event_count(&env), events_before + 1);
}

#[test]
fn test_pause_is_idempotent() {
    let (mut env, admin, _policyholder, _token) = setup_insurance_contract();
    StellarInsure::pause(&mut env, admin).unwrap();
    StellarInsure::pause(&mut env, admin).unwrap();
    assert!(StellarInsure::get_paused(&env));
}

#[test]
fn test_unpause_is_idempotent() {
    let (mut env, admin, _policyholder, _token) = setup_insurance_contract();
    StellarInsure::unpause(&mut env, admin).unwrap();
    assert!(!StellarInsure::get_paused(&env));
}

#[test]
fn test_non_admin_cannot_pause() {
    let (mut env, _admin, policyholder, _token) = setup_insurance_contract();
    assert_eq!(StellarInsure::pause(&mut env, policyholder), Err(Error::Unauthorized));
}

#[test]
fn test_non_admin_cannot_unpause() {
    let (mut env, admin, policyholder, _token) = setup_insurance_contract();
    StellarInsure::pause(&mut env, admin).unwrap();
    assert_eq!(StellarInsure::unpause(&mut env, policyholder), Err(Error::Unauthorized));
}

#[test]
fn test_create_policy_blocked_when_paused() {
    let (mut env, admin, policyholder, _token) = setup_insurance_contract();
    StellarInsure::pause(&mut env, admin).unwrap();
    let result = StellarInsure::create_policy(
        &mut env,
        policyholder,
        PolicyType::Weather,
        1_000_000,
        10_000,
        2_592_000,
        "temperature < 0".to_string(),
    );
    assert_eq!(result, Err(Error::ContractPaused));
}

#[test]
fn test_pay_premium_blocked_when_paused() {
    let (mut env, admin, policyholder, _token) = setup_insurance_contract();
    let policy_id = create_policy(&mut env, policyholder);
    StellarInsure::pause(&mut env, admin).unwrap();
    assert_eq!(StellarInsure::pay_premium(&mut env, policy_id, 10_000), Err(Error::ContractPaused));
}

#[test]
fn test_submit_claim_blocked_when_paused() {
    let (mut env, admin, policyholder, _token) = setup_insurance_contract();
    let policy_id = create_policy(&mut env, policyholder);
    StellarInsure::pause(&mut env, admin).unwrap();
    assert_eq!(
        StellarInsure::submit_claim(&mut env, policy_id, 500_000, "proof".to_string()),
        Err(Error::ContractPaused)
    );
}

#[test]
fn test_cancel_policy_blocked_when_paused() {
    let (mut env, admin, policyholder, _token) = setup_insurance_contract();
    let policy_id = create_policy(&mut env, policyholder);
    StellarInsure::pause(&mut env, admin).unwrap();
    assert_eq!(StellarInsure::cancel_policy(&mut env, policy_id), Err(Error::ContractPaused));
}

#[test]
fn admin_processes_claims_while_paused() {
    let (mut env, admin, policyholder, _token) = setup_insurance_contract();
    let policy_id = create_policy(&mut env, policyholder);
    StellarInsure::submit_claim(&mut env, policy_id, 500_000, "proof".to_string()).unwrap();
    StellarInsure::pause(&mut env, admin).unwrap();
    StellarInsure::process_claim(&mut env, policy_id, true).unwrap();

    let policy = StellarInsure::get_policy(&env, policy_id).unwrap();
    assert_eq!(policy.total_claimed, 500_000);
    assert_eq!(policy.status, PolicyStatus::Active);
    assert!(StellarInsure::get_paused(&env));
}

#[test]
fn test_operations_resume_after_unpause() {
    let (mut env, admin, policyholder, _token) = setup_insurance_contract();
    StellarInsure::pause(&mut env, admin).unwrap();
    StellarInsure::unpause(&mut env, admin).unwrap();
    let policy_id = create_policy(&mut env, policyholder);
    let policy = StellarInsure::get_policy(&env, policy_id).unwrap();
    assert_eq!(policy.status, PolicyStatus::Active);
}

// ── Multi-signature admin ────────────────────────────────────────────────────

#[test]
fn test_init_creates_admin_list_with_threshold_one() {
    let (env, admin, _policyholder, _token) = setup_insurance_contract();
    let admins = StellarInsure::get_admins(&env);
    assert_eq!(admins.len(), 1);
    assert_eq!(admins[0], admin);
    assert_eq!(StellarInsure::get_threshold(&env), 1);
}

#[test]
fn test_add_admin_extends_admin_list() {
    let (mut env, admin, _policyholder, _token) = setup_insurance_contract();
    StellarInsure::add_admin(&mut env, admin, Address(10)).unwrap();
    assert_eq!(StellarInsure::get_admins(&env).len(), 2);
}

#[test]
fn test_add_duplicate_admin_fails() {
    let (mut env, admin, _policyholder, _token) = setup_insurance_contract();
    assert_eq!(StellarInsure::add_admin(&mut env, admin, admin), Err(Error::AdminAlreadyExists));
}

#[test]
fn test_non_admin_cannot_add_admin() {
    let (mut env, _admin, policyholder, _token) = setup_insurance_contract();
    assert_eq!(StellarInsure::add_admin(&mut env, policyholder, Address(10)), Err(Error::Unauthorized));
}

#[test]
fn test_remove_admin_shrinks_admin_list() {
    let (mut env, admin, _policyholder, _token) = setup_insurance_contract();
    let second_admin = Address(10);
    StellarInsure::add_admin(&mut env, admin, second_admin).unwrap();
    assert_eq!(StellarInsure::get_admins(&env).len(), 2);
    StellarInsure::remove_admin(&mut env, admin, second_admin).unwrap();
    assert_eq!(StellarInsure::get_admins(&env).len(), 1);
}

#[test]
fn test_cannot_remove_last_admin() {
    let (mut env, admin, _policyholder, _token) = setup_insurance_contract();
    assert_eq!(StellarInsure::remove_admin(&mut env, admin, admin), Err(Error::Unauthorized));
}

#[test]
fn test_remove_nonexistent_admin_fails() {
    let (mut env, admin, _policyholder, _token) = setup_insurance_contract();
    assert_eq!(StellarInsure::remove_admin(&mut env, admin, Address(99)), Err(Error::AdminNotFound));
}

#[test]
fn test_set_threshold_updates_correctly() {
    let (mut env, admin, _policyholder, _token) = setup_insurance_contract();
    StellarInsure::add_admin(&mut env, admin, Address(10)).unwrap();
    StellarInsure::set_threshold(&mut env, admin, 2).unwrap();
    assert_eq!(StellarInsure::get_threshold(&env), 2);
}

#[test]
fn test_threshold_zero_is_invalid() {
    let (mut env, admin, _policyholder, _token) = setup_insurance_contract();
    assert_eq!(StellarInsure::set_threshold(&mut env, admin, 0), Err(Error::InvalidThreshold));
}

#[test]
fn test_threshold_exceeds_admin_count_is_invalid() {
    let (mut env, admin, _policyholder, _token) = setup_insurance_contract();
    assert_eq!(StellarInsure::set_threshold(&mut env, admin, 2), Err(Error::InvalidThreshold));
}

#[test]
fn test_remove_admin_lowers_threshold_if_needed() {
    let (mut env, admin, _policyholder, _token) = setup_insurance_contract();
    let second_admin = Address(10);
    StellarInsure::add_admin(&mut env, admin, second_admin).unwrap();
    StellarInsure::set_threshold(&mut env, admin, 2).unwrap();
    StellarInsure::remove_admin(&mut env, admin, second_admin).unwrap();
    assert_eq!(StellarInsure::get_threshold(&env), 1);
}

#[test]
fn single_admin_vote_on_full_claim_approves() {
    let (mut env, admin, policyholder, _token) = setup_insurance_contract();
    let policy_id = create_policy(&mut env, policyholder);
    // Full coverage claimed: the approval exhausts the policy.
    StellarInsure::submit_claim(&mut env, policy_id, 1_000_000, "proof".to_string()).unwrap();
    StellarInsure::vote_claim(&mut env, policy_id, admin, true).unwrap();
    let policy = StellarInsure::get_policy(&env, policy_id).unwrap();
    assert_eq!(policy.status, PolicyStatus::ClaimApproved);
}

#[test]
fn test_vote_claim_rejection_forced_with_one_admin() {
    let (mut env, admin, policyholder, _token) = setup_insurance_contract();
    let policy_id = create_policy(&mut env, policyholder);
    StellarInsure::submit_claim(&mut env, policy_id, 500_000, "proof".to_string()).unwrap();
    StellarInsure::vote_claim(&mut env, policy_id, admin, false).unwrap();
    let policy = StellarInsure::get_policy(&env, policy_id).unwrap();
    assert_eq!(policy.status, PolicyStatus::ClaimRejected);
}

#[test]
fn votes_below_threshold_leave_claim_pending() {
    let (mut env, admin, policyholder, _token) = setup_insurance_contract();
    let second_admin = Address(10);
    StellarInsure::add_admin(&mut env, admin, second_admin).unwrap();
    StellarInsure::set_threshold(&mut env, admin, 2).unwrap();
    let policy_id = create_policy(&mut env, policyholder);
    StellarInsure::submit_claim(&mut env, policy_id, 1_000_000, "proof".to_string()).unwrap();

    StellarInsure::vote_claim(&mut env, policy_id, admin, true).unwrap();
    let policy = StellarInsure::get_policy(&env, policy_id).unwrap();
    assert_eq!(policy.status, PolicyStatus::ClaimPending);

    StellarInsure::vote_claim(&mut env, policy_id, second_admin, true).unwrap();
    let policy = StellarInsure::get_policy(&env, policy_id).unwrap();
    assert_eq!(policy.status, PolicyStatus::ClaimApproved);
}

#[test]
fn test_vote_claim_rejection_forced_multi_admin() {
    let (mut env, admin, policyholder, _token) = setup_insurance_contract();
    let second_admin = Address(10);
    let third_admin = Address(11);
    StellarInsure::add_admin(&mut env, admin, second_admin).unwrap();
    StellarInsure::add_admin(&mut env, admin, third_admin).unwrap();
    StellarInsure::set_threshold(&mut env, admin, 2).unwrap();
    let policy_id = create_policy(&mut env, policyholder);
    StellarInsure::submit_claim(&mut env, policy_id, 500_000, "proof".to_string()).unwrap();

    StellarInsure::vote_claim(&mut env, policy_id, admin, false).unwrap();
    StellarInsure::vote_claim(&mut env, policy_id, second_admin, false).unwrap();
    let policy = StellarInsure::get_policy(&env, policy_id).unwrap();
    assert_eq!(policy.status, PolicyStatus::ClaimRejected);
}

#[test]
fn test_non_admin_cannot_vote_on_claim() {
    let (mut env, _admin, policyholder, _token) = setup_insurance_contract();
    let policy_id = create_policy(&mut env, policyholder);
    StellarInsure::submit_claim(&mut env, policy_id, 500_000, "proof".to_string()).unwrap();
    assert_eq!(StellarInsure::vote_claim(&mut env, policy_id, policyholder, true), Err(Error::Unauthorized));
}

#[test]
fn test_admin_cannot_vote_twice_on_same_claim() {
    let (mut env, admin, policyholder, _token) = setup_insurance_contract();
    StellarInsure::add_admin(&mut env, admin, Address(10)).unwrap();
    StellarInsure::set_threshold(&mut env, admin, 2).unwrap();
    let policy_id = create_policy(&mut env, policyholder);
    StellarInsure::submit_claim(&mut env, policy_id, 500_000, "proof".to_string()).unwrap();
    StellarInsure::vote_claim(&mut env, policy_id, admin, true).unwrap();
    assert_eq!(StellarInsure::vote_claim(&mut env, policy_id, admin, true), Err(Error::AlreadyVoted));
}

#[test]
fn test_add_admin_emits_event() {
    let (mut env, admin, _policyholder, _token) = setup_insurance_contract();
    let events_before = event_count(&env);
    StellarInsure::add_admin(&mut env, admin, Address(10)).unwrap();
    assert_eq!(event_count(&env), events_before + 1);
}

#[test]
fn test_set_threshold_emits_event() {
    let (mut env, admin, _policyholder, _token) = setup_insurance_contract();
    StellarInsure::add_admin(&mut env, admin, Address(10)).unwrap();
    let events_before = event_count(&env);
    StellarInsure::set_threshold(&mut env, admin, 2).unwrap();
    assert_eq!(event_count(&env), events_before + 1);
}

// ── Policy renewal ───────────────────────────────────────────────────────────

#[test]
fn test_renew_active_policy_extends_end_time() {
    let (mut env, _admin, policyholder, _token) = setup_insurance_contract();
    let policy_id = create_policy(&mut env, policyholder);
    let initial_end = StellarInsure::get_policy(&env, policy_id).unwrap().end_time;
    let extra: u64 = 1_000_000;
    StellarInsure::renew_policy(&mut env, policy_id, extra).unwrap();
    let renewed = StellarInsure::get_policy(&env, policy_id).unwrap();
    assert_eq!(renewed.end_time, initial_end + extra);
    assert_eq!(renewed.status, PolicyStatus::Active);
}

#[test]
fn test_renew_expired_policy_within_grace_period() {
    let (mut env, _admin, policyholder, _token) = setup_insurance_contract();
    let policy_id = create_policy(&mut env, policyholder);
    advance(&mut env, 2_592_001);
    let extra: u64 = 2_592_000;
    StellarInsure::renew_policy(&mut env, policy_id, extra).unwrap();
    let renewed = StellarInsure::get_policy(&env, policy_id).unwrap();
    assert_eq!(renewed.status, PolicyStatus::Active);
    assert!(renewed.end_time > 2_592_001);
}

#[test]
fn test_renew_expired_policy_past_grace_period_fails() {
    let (mut env, _admin, policyholder, _token) = setup_insurance_contract();
    let policy_id = create_policy(&mut env, policyholder);
    advance(&mut env, 2_592_000 + RENEWAL_GRACE_PERIOD + 1);
    assert_eq!(
        StellarInsure::renew_policy(&mut env, policy_id, 2_592_000),
        Err(Error::RenewalGracePeriodExpired)
    );
}

#[test]
fn test_renew_cancelled_policy_fails() {
    let (mut env, _admin, policyholder, _token) = setup_insurance_contract();
    let policy_id = create_policy(&mut env, policyholder);
    StellarInsure::cancel_policy(&mut env, policy_id).unwrap();
    assert_eq!(StellarInsure::renew_policy(&mut env, policy_id, 2_592_000), Err(Error::PolicyNotRenewable));
}

#[test]
fn test_renew_claim_pending_policy_fails() {
    let (mut env, _admin, policyholder, _token) = setup_insurance_contract();
    let policy_id = create_policy(&mut env, policyholder);
    StellarInsure::submit_claim(&mut env, policy_id, 500_000, "proof".to_string()).unwrap();
    assert_eq!(StellarInsure::renew_policy(&mut env, policy_id, 2_592_000), Err(Error::PolicyNotRenewable));
}

#[test]
fn test_renew_policy_emits_event() {
    let (mut env, _admin, policyholder, _token) = setup_insurance_contract();
    let policy_id = create_policy(&mut env, policyholder);
    let events_before = event_count(&env);
    StellarInsure::renew_policy(&mut env, policy_id, 2_592_000).unwrap();
    // one PolicyRenewed event and one token transfer
    assert_eq!(event_count(&env), events_before + 2);
}

#[test]
fn test_non_policyholder_cannot_renew() {
    let (mut env, _admin, policyholder, _token) = setup_insurance_contract();
    let policy_id = create_policy(&mut env, policyholder);
    assert_eq!(StellarInsure::renew_policy(&mut env, policy_id, 0), Err(Error::InvalidDuration));
    // The renewal demands the policyholder's authorisation, not anyone else's.
    assert!(env.effects.contains(&Effect::RequireAuth(policyholder)));
}

#[test]
fn test_renew_with_zero_duration_fails() {
    let (mut env, _admin, policyholder, _token) = setup_insurance_contract();
    let policy_id = create_policy(&mut env, policyholder);
    assert_eq!(StellarInsure::renew_policy(&mut env, policy_id, 0), Err(Error::InvalidDuration));
}

#[test]
fn test_renew_policy_recalculates_premium() {
    let (mut env, _admin, policyholder, _token) = setup_insurance_contract();
    let policy_id = create_policy(&mut env, policyholder);
    let initial_premium = StellarInsure::get_policy(&env, policy_id).unwrap().premium;
    let renewal_duration: u64 = 5_184_000;
    StellarInsure::renew_policy(&mut env, policy_id, renewal_duration).unwrap();
    let renewed = StellarInsure::get_policy(&env, policy_id).unwrap();
    let expected_premium =
        StellarInsure::calculate_premium(&env, PolicyType::Weather, 1_000_000, renewal_duration).unwrap();
    assert_eq!(renewed.premium, expected_premium);
    assert!(renewed.premium > initial_premium);
}

#[test]
fn test_renew_policy_updates_stored_premium() {
    let (mut env, _admin, policyholder, _token) = setup_insurance_contract();
    let policy_id = create_policy(&mut env, policyholder);
    let short_renewal: u64 = 1_296_000;
    StellarInsure::renew_policy(&mut env, policy_id, short_renewal).unwrap();
    let renewed = StellarInsure::get_policy(&env, policy_id).unwrap();
    let expected_premium =
        StellarInsure::calculate_premium(&env, PolicyType::Weather, 1_000_000, short_renewal).unwrap();
    assert_eq!(renewed.premium, expected_premium);
}

// ── Premium quotes ───────────────────────────────────────────────────────────

#[test]
fn test_calculate_premium_weather_annual() {
    let (env, _admin, _policyholder, _token) = setup_insurance_contract();
    let coverage = ONE_XLM * 1_000;
    let premium = StellarInsure::calculate_premium(&env, PolicyType::Weather, coverage, ONE_YEAR_SECS).unwrap();
    let expected = ONE_XLM * 35;
    let delta = (premium - expected).abs();
    assert!(delta <= 1, "premium={premium} expected≈{expected} delta={delta}");
}

#[test]
fn test_calculate_premium_flight_annual() {
    let (env, _admin, _policyholder, _token) = setup_insurance_contract();
    let coverage = ONE_XLM * 1_000;
    let premium = StellarInsure::calculate_premium(&env, PolicyType::Flight, coverage, ONE_YEAR_SECS).unwrap();
    let expected = ONE_XLM * 20;
    let delta = (premium - expected).abs();
    assert!(delta <= 1, "premium={premium} expected≈{expected} delta={delta}");
}

#[test]
fn test_calculate_premium_health_higher_than_flight() {
    let (env, _admin, _policyholder, _token) = setup_insurance_contract();
    let coverage = ONE_XLM * 5_000;
    let health = StellarInsure::calculate_premium(&env, PolicyType::Health, coverage, ONE_YEAR_SECS).unwrap();
    let flight = StellarInsure::calculate_premium(&env, PolicyType::Flight, coverage, ONE_YEAR_SECS).unwrap();
    assert!(health > flight, "health={health} flight={flight}");
}

#[test]
fn test_calculate_premium_duration_scaling() {
    let (env, _admin, _policyholder, _token) = setup_insurance_contract();
    let coverage = ONE_XLM * 10_000;
    let short = StellarInsure::calculate_premium(&env, PolicyType::Asset, coverage, THIRTY_DAYS_SECS).unwrap();
    let long = StellarInsure::calculate_premium(&env, PolicyType::Asset, coverage, ONE_YEAR_SECS).unwrap();
    assert!(long > short, "long={long} short={short}");
}

#[test]
fn test_calculate_premium_deterministic() {
    let (env, _admin, _policyholder, _token) = setup_insurance_contract();
    let coverage = ONE_XLM * 2_000;
    let p1 = StellarInsure::calculate_premium(&env, PolicyType::SmartContract, coverage, THIRTY_DAYS_SECS);
    let p2 = StellarInsure::calculate_premium(&env, PolicyType::SmartContract, coverage, THIRTY_DAYS_SECS);
    assert_eq!(p1, p2);
}

#[test]
fn test_calculate_premium_zero_coverage_panics() {
    let (env, _admin, _policyholder, _token) = setup_insurance_contract();
    assert_eq!(
        StellarInsure::calculate_premium(&env, PolicyType::Weather, 0, ONE_YEAR_SECS),
        Err(Error::InvalidAmount)
    );
}

#[test]
fn test_calculate_premium_zero_duration_panics() {
    let (env, _admin, _policyholder, _token) = setup_insurance_contract();
    assert_eq!(
        StellarInsure::calculate_premium(&env, PolicyType::Flight, ONE_XLM * 100, 0),
        Err(Error::InvalidDuration)
    );
}

// ── Expiration ───────────────────────────────────────────────────────────────

#[test]
fn test_check_expiration_transitions_active_to_expired() {
    let (mut env, _admin, policyholder, _token) = setup_insurance_contract();
    let policy_id = create_policy(&mut env, policyholder);
    advance(&mut env, 2_592_001);
    let status = StellarInsure::check_expiration(&mut env, policy_id).unwrap();
    assert_eq!(status, PolicyStatus::Expired);
    let policy = StellarInsure::get_policy(&env, policy_id).unwrap();
    assert_eq!(policy.status, PolicyStatus::Expired);
}

#[test]
fn test_check_expiration_active_policy_unchanged() {
    let (mut env, _admin, policyholder, _token) = setup_insurance_contract();
    let policy_id = create_policy(&mut env, policyholder);
    assert_eq!(StellarInsure::check_expiration(&mut env, policy_id).unwrap(), PolicyStatus::Active);
}

#[test]
fn test_check_expiration_emits_expired_event() {
    let (mut env, _admin, policyholder, _token) = setup_insurance_contract();
    let policy_id = create_policy(&mut env, policyholder);
    advance(&mut env, 2_592_001);
    let events_before = event_count(&env);
    StellarInsure::check_expiration(&mut env, policy_id).unwrap();
    assert_eq!(event_count(&env), events_before + 1);
}

#[test]
fn test_pay_premium_rejects_expired_policy() {
    let (mut env, _admin, policyholder, _token) = setup_insurance_contract();
    let policy_id = create_policy(&mut env, policyholder);
    advance(&mut env, 2_592_001);
    assert_eq!(StellarInsure::pay_premium(&mut env, policy_id, 10_000), Err(Error::PolicyNotActive));
}

#[test]
fn test_renew_expired_policy_via_check_expiration_then_renew() {
    let (mut env, _admin, policyholder, _token) = setup_insurance_contract();
    let policy_id = create_policy(&mut env, policyholder);
    advance(&mut env, 2_592_001);
    StellarInsure::check_expiration(&mut env, policy_id).unwrap();
    assert_eq!(StellarInsure::get_policy(&env, policy_id).unwrap().status, PolicyStatus::Expired);
    StellarInsure::renew_policy(&mut env, policy_id, 2_592_000).unwrap();
    assert_eq!(StellarInsure::get_policy(&env, policy_id).unwrap().status, PolicyStatus::Active);
}

// ── Policy modification ──────────────────────────────────────────────────────

#[test]
fn test_increase_coverage_updates_policy_and_emits_event() {
    let (mut env, _admin, policyholder, _token) = setup_insurance_contract();
    let policy_id = create_policy(&mut env, policyholder);
    let old_coverage = StellarInsure::get_policy(&env, policy_id).unwrap().coverage_amount;
    let events_before = event_count(&env);
    StellarInsure::increase_coverage(&mut env, policy_id, old_coverage * 2).unwrap();
    let policy = StellarInsure::get_policy(&env, policy_id).unwrap();
    assert_eq!(policy.coverage_amount, old_coverage * 2);
    assert!(event_count(&env) > events_before);
}

#[test]
fn test_increase_coverage_rejects_lower_amount() {
    let (mut env, _admin, policyholder, _token) = setup_insurance_contract();
    let policy_id = create_policy(&mut env, policyholder);
    let coverage = StellarInsure::get_policy(&env, policy_id).unwrap().coverage_amount;
    assert_eq!(
        StellarInsure::increase_coverage(&mut env, policy_id, coverage - 1),
        Err(Error::CoverageDecrease)
    );
}

#[test]
fn test_increase_coverage_blocked_when_paused() {
    let (mut env, admin, policyholder, _token) = setup_insurance_contract();
    let policy_id = create_policy(&mut env, policyholder);
    StellarInsure::pause(&mut env, admin).unwrap();
    assert_eq!(StellarInsure::increase_coverage(&mut env, policy_id, 2_000_000), Err(Error::ContractPaused));
}

#[test]
fn test_extend_duration_updates_end_time_and_emits_event() {
    let (mut env, _admin, policyholder, _token) = setup_insurance_contract();
    let policy_id = create_policy(&mut env, policyholder);
    let old_end = StellarInsure::get_policy(&env, policy_id).unwrap().end_time;
    let extra: u64 = 86_400;
    let events_before = event_count(&env);
    StellarInsure::extend_duration(&mut env, policy_id, extra).unwrap();
    let policy = StellarInsure::get_policy(&env, policy_id).unwrap();
    assert_eq!(policy.end_time, old_end + extra);
    assert!(event_count(&env) > events_before);
}

#[test]
fn test_extend_duration_zero_extra_fails() {
    let (mut env, _admin, policyholder, _token) = setup_insurance_contract();
    let policy_id = create_policy(&mut env, policyholder);
    assert_eq!(StellarInsure::extend_duration(&mut env, policy_id, 0), Err(Error::InvalidDuration));
}

#[test]
fn test_extend_duration_blocked_when_paused() {
    let (mut env, admin, policyholder, _token) = setup_insurance_contract();
    let policy_id = create_policy(&mut env, policyholder);
    StellarInsure::pause(&mut env, admin).unwrap();
    assert_eq!(StellarInsure::extend_duration(&mut env, policy_id, 86_400), Err(Error::ContractPaused));
}

#[test]
fn test_calculate_modification_premium_returns_positive() {
    let (env, _admin, _policyholder, _token) = setup_insurance_contract();
    let premium =
        StellarInsure::calculate_modification_premium(&env, PolicyType::Weather, ONE_XLM, 86_400u64).unwrap();
    assert!(premium > 0, "modification premium must be positive");
}

#[test]
fn test_change_beneficiary_updates_and_emits_event() {
    let (mut env, _admin, policyholder, _token) = setup_insurance_contract();
    let policy_id = create_policy(&mut env, policyholder);
    let new_beneficiary = Address(20);
    let events_before = event_count(&env);
    StellarInsure::change_beneficiary(&mut env, policy_id, new_beneficiary).unwrap();
    let policy = StellarInsure::get_policy(&env, policy_id).unwrap();
    assert_eq!(policy.beneficiary, new_beneficiary);
    assert_eq!(event_count(&env), events_before + 1);
}

#[test]
fn test_change_beneficiary_blocked_when_paused() {
    let (mut env, admin, policyholder, _token) = setup_insurance_contract();
    let policy_id = create_policy(&mut env, policyholder);
    StellarInsure::pause(&mut env, admin).unwrap();
    assert_eq!(
        StellarInsure::change_beneficiary(&mut env, policy_id, Address(20)),
        Err(Error::ContractPaused)
    );
}

#[test]
fn test_new_policy_beneficiary_defaults_to_policyholder() {
    let (mut env, _admin, policyholder, _token) = setup_insurance_contract();
    let policy_id = create_policy(&mut env, policyholder);
    assert_eq!(StellarInsure::get_policy(&env, policy_id).unwrap().beneficiary, policyholder);
}

#[test]
fn test_submit_claim_on_expired_policy_updates_status_and_rejects() {
    let (mut env, _admin, policyholder, _token) = setup_insurance_contract();
    let policy_id = create_policy(&mut env, policyholder);
    advance(&mut env, 2_592_001);
    assert_eq!(
        StellarInsure::submit_claim(&mut env, policy_id, 500_000, "proof".to_string()),
        Err(Error::PolicyExpired)
    );
}

#[test]
fn test_verify_oracle_stubs() {
    let (env, _admin, _policyholder, _token) = setup_insurance_contract();
    let weather =
        StellarInsure::verify_oracle_condition(&env, "Weather".to_string(), "MockParam".to_string()).unwrap();
    assert!(weather.is_verified);
    let flight =
        StellarInsure::verify_oracle_condition(&env, "Flight".to_string(), "MockParam".to_string()).unwrap();
    assert!(flight.is_verified);
    let contract =
        StellarInsure::verify_oracle_condition(&env, "Contract".to_string(), "MockParam".to_string()).unwrap();
    assert!(contract.is_verified);
}

// ── Premium verification and policy cap ──────────────────────────────────────

#[test]
fn test_create_policy_rejects_incorrect_premium() {
    let (mut env, _admin, policyholder, _token) = setup_insurance_contract();
    let correct_premium = StellarInsure::calculate_premium(&env, PolicyType::Weather, 1_000_000, 2_592_000).unwrap();
    let result = StellarInsure::create_policy(
        &mut env,
        policyholder,
        PolicyType::Weather,
        1_000_000,
        correct_premium - 1000,
        2_592_000,
        "temperature < 0".to_string(),
    );
    assert_eq!(result, Err(Error::PremiumMismatch));
}

#[test]
fn test_create_policy_accepts_correct_premium() {
    let (mut env, _admin, policyholder, _token) = setup_insurance_contract();
    let correct_premium = StellarInsure::calculate_premium(&env, PolicyType::Weather, 1_000_000, 2_592_000).unwrap();
    let policy_id = StellarInsure::create_policy(
        &mut env,
        policyholder,
        PolicyType::Weather,
        1_000_000,
        correct_premium,
        2_592_000,
        "temperature < 0".to_string(),
    )
    .unwrap();
    assert_eq!(StellarInsure::get_policy(&env, policy_id).unwrap().premium, correct_premium);
}

#[test]
fn test_set_max_policies() {
    let (mut env, admin, _policyholder, _token) = setup_insurance_contract();
    StellarInsure::set_max_policies(&mut env, admin, 100).unwrap();
    assert_eq!(StellarInsure::get_max_policies(&env), 100);
}

#[test]
fn test_set_max_policies_requires_admin() {
    let (mut env, _admin, policyholder, _token) = setup_insurance_contract();
    assert_eq!(StellarInsure::set_max_policies(&mut env, policyholder, 100), Err(Error::Unauthorized));
}

#[test]
fn test_create_policy_respects_max_limit() {
    let (mut env, admin, policyholder, _token) = setup_insurance_contract();
    StellarInsure::set_max_policies(&mut env, admin, 2).unwrap();
    let premium = StellarInsure::calculate_premium(&env, PolicyType::Weather, 1_000_000, 2_592_000).unwrap();
    for condition in ["condition1", "condition2"] {
        StellarInsure::create_policy(
            &mut env,
            policyholder,
            PolicyType::Weather,
            1_000_000,
            premium,
            2_592_000,
            condition.to_string(),
        )
        .unwrap();
    }
    let third = StellarInsure::create_policy(
        &mut env,
        policyholder,
        PolicyType::Weather,
        1_000_000,
        premium,
        2_592_000,
        "condition3".to_string(),
    );
    assert_eq!(third, Err(Error::MaxPoliciesReached));
}

#[test]
fn test_multiple_partial_claims_accumulate_correctly() {
    let (mut env, _admin, policyholder, _token) = setup_insurance_contract();
    let policy_id = create_policy(&mut env, policyholder);
    let coverage = StellarInsure::get_policy(&env, policy_id).unwrap().coverage_amount;

    StellarInsure::submit_claim(&mut env, policy_id, 300_000, "proof1".to_string()).unwrap();
    StellarInsure::process_claim(&mut env, policy_id, true).unwrap();
    let after_one = StellarInsure::get_policy(&env, policy_id).unwrap();
    assert_eq!(after_one.total_claimed, 300_000);
    assert_eq!(after_one.status, PolicyStatus::Active);

    StellarInsure::submit_claim(&mut env, policy_id, 400_000, "proof2".to_string()).unwrap();
    StellarInsure::process_claim(&mut env, policy_id, true).unwrap();
    let after_two = StellarInsure::get_policy(&env, policy_id).unwrap();
    assert_eq!(after_two.total_claimed, 700_000);
    assert_eq!(after_two.status, PolicyStatus::Active);

    StellarInsure::submit_claim(&mut env, policy_id, coverage - 700_000, "proof3".to_string()).unwrap();
    StellarInsure::process_claim(&mut env, policy_id, true).unwrap();
    let last = StellarInsure::get_policy(&env, policy_id).unwrap();
    assert_eq!(last.total_claimed, coverage);
    assert_eq!(last.status, PolicyStatus::ClaimApproved);
}

#[test]
fn test_partial_claim_exceeding_remaining_coverage_is_rejected() {
    let (mut env, _admin, policyholder, _token) = setup_insurance_contract();
    let policy_id = create_policy(&mut env, policyholder);
    let coverage = StellarInsure::get_policy(&env, policy_id).unwrap().coverage_amount;
    StellarInsure::submit_claim(&mut env, policy_id, coverage - 50_000, "proof1".to_string()).unwrap();
    StellarInsure::process_claim(&mut env, policy_id, true).unwrap();
    assert_eq!(
        StellarInsure::submit_claim(&mut env, policy_id, 100_000, "proof2".to_string()),
        Err(Error::ClaimExceedsCoverage)
    );
}

#[test]
fn created_policy_event_carries_the_policy_terms() {
    let (mut env, _admin, policyholder, _token) = setup_insurance_contract();
    let policy_id = create_policy(&mut env, policyholder);
    match env.effects.last() {
        Some(Effect::Publish(Event::PolicyCreated(e))) => {
            assert_eq!(e.policy_id, policy_id);
            assert_eq!(e.premium, 10_000);
            assert_eq!(e.start_time, 0);
            assert_eq!(e.end_time, 2_592_000);
            assert_eq!(e.trigger_condition, "temperature < 0");
        }
        other => panic!("unexpected last effect {other:?}"),
    }
}
