use stellar_insure::{Address, Effect, Env, Error, Event, Ledger, RiskPool, Storage};

const POOL: Address = Address(2000);

/// A freshly initialised pool with its admin and two providers.
fn setup_risk_pool() -> (Env, Address, Address, Address) {
    let mut env = Env::new(
        Storage::new(),
        Ledger { timestamp: 0, current_contract: POOL, token_balance: 0 },
    );
    let admin = Address(1);
    let provider_one = Address(2);
    let provider_two = Address(3);
    RiskPool::init(&mut env, admin).unwrap();
    (env, admin, provider_one, provider_two)
}

#[test]
fn test_risk_pool_tracks_contributions_and_stats() {
    let (mut env, _admin, provider_one, provider_two) = setup_risk_pool();
    RiskPool::add_liquidity(&mut env, provider_one, 1_000).unwrap();
    RiskPool::add_liquidity(&mut env, provider_two, 3_000).unwrap();

    let stats = RiskPool::get_pool_stats(&env);
    let position_one = RiskPool::get_provider_position(&env, provider_one);
    let position_two = RiskPool::get_provider_position(&env, provider_two);

    assert_eq!(stats.total_liquidity, 4_000);
    assert_eq!(stats.provider_count, 2);
    assert_eq!(position_one.contribution, 1_000);
    assert_eq!(position_two.contribution, 3_000);
}

#[test]
fn test_risk_pool_distributes_yield_fairly() {
    let (mut env, _admin, provider_one, provider_two) = setup_risk_pool();
    RiskPool::add_liquidity(&mut env, provider_one, 1_000).unwrap();
    RiskPool::add_liquidity(&mut env, provider_two, 3_000).unwrap();
    RiskPool::distribute_yield(&mut env, 400).unwrap();

    let position_one = RiskPool::get_provider_position(&env, provider_one);
    let position_two = RiskPool::get_provider_position(&env, provider_two);
    let stats = RiskPool::get_pool_stats(&env);

    assert_eq!(position_one.accrued_yield, 100);
    assert_eq!(position_two.accrued_yield, 300);
    assert_eq!(stats.total_yield_distributed, 400);
}

#[test]
fn test_risk_pool_claim_yield_and_withdraw() {
    let (mut env, _admin, provider_one, _provider_two) = setup_risk_pool();
    RiskPool::add_liquidity(&mut env, provider_one, 1_000).unwrap();
    RiskPool::distribute_yield(&mut env, 100).unwrap();

    let claimed = RiskPool::claim_yield(&mut env, provider_one).unwrap();
    RiskPool::withdraw_liquidity(&mut env, provider_one, 500).unwrap();
    let position = RiskPool::get_provider_position(&env, provider_one);

    assert_eq!(claimed, 100);
    assert_eq!(position.contribution, 500);
    assert_eq!(position.accrued_yield, 0);
    assert_eq!(RiskPool::get_pool_balance(&env), 500);
}

#[test]
fn test_risk_pool_rejects_over_withdrawal() {
    let (mut env, _admin, provider_one, _provider_two) = setup_risk_pool();
    RiskPool::add_liquidity(&mut env, provider_one, 100).unwrap();
    assert_eq!(
        RiskPool::withdraw_liquidity(&mut env, provider_one, 200),
        Err(Error::InsufficientLiquidity)
    );
    assert_eq!(RiskPool::get_provider_position(&env, provider_one).contribution, 100);
}

#[test]
fn test_set_reserve_ratio() {
    let (mut env, admin, _provider_one, _provider_two) = setup_risk_pool();
    RiskPool::set_reserve_ratio(&mut env, admin, 3000).unwrap();
    assert_eq!(RiskPool::get_reserve_ratio(&env), 3000);
}

#[test]
fn test_set_reserve_ratio_requires_admin() {
    let (mut env, _admin, provider_one, _provider_two) = setup_risk_pool();
    assert_eq!(
        RiskPool::set_reserve_ratio(&mut env, provider_one, 3000),
        Err(Error::Unauthorized)
    );
}

#[test]
fn test_withdraw_respects_reserve_ratio() {
    let (mut env, admin, provider_one, _provider_two) = setup_risk_pool();
    RiskPool::set_reserve_ratio(&mut env, admin, 5000).unwrap();
    RiskPool::add_liquidity(&mut env, provider_one, 1_000_000).unwrap();
    // Only 500_000 may leave while half the pool is held in reserve.
    assert_eq!(
        RiskPool::withdraw_liquidity(&mut env, provider_one, 600_000),
        Err(Error::InsufficientPoolReserve)
    );
}

#[test]
fn test_withdraw_within_reserve_succeeds() {
    let (mut env, admin, provider_one, _provider_two) = setup_risk_pool();
    RiskPool::set_reserve_ratio(&mut env, admin, 2000).unwrap();
    RiskPool::add_liquidity(&mut env, provider_one, 1_000_000).unwrap();
    RiskPool::withdraw_liquidity(&mut env, provider_one, 700_000).unwrap();
    let position = RiskPool::get_provider_position(&env, provider_one);
    assert_eq!(position.contribution, 300_000);
}

#[test]
fn test_default_reserve_ratio_is_20_percent() {
    let (env, _admin, _provider_one, _provider_two) = setup_risk_pool();
    assert_eq!(RiskPool::get_reserve_ratio(&env), 2000);
}

// ── Further scenarios ────────────────────────────────────────────────────────

#[test]
fn pool_is_initialised_once() {
    let (mut env, _admin, provider_one, _provider_two) = setup_risk_pool();
    assert_eq!(RiskPool::init(&mut env, provider_one), Err(Error::AlreadyInitialized));
}

#[test]
fn reserve_ratio_needs_an_initialised_pool() {
    let mut env = Env::new(
        Storage::new(),
        Ledger { timestamp: 0, current_contract: POOL, token_balance: 0 },
    );
    assert_eq!(RiskPool::set_reserve_ratio(&mut env, Address(1), 100), Err(Error::NotInitialized));
}

#[test]
fn reserve_ratio_above_one_hundred_percent_is_refused() {
    let (mut env, admin, _provider_one, _provider_two) = setup_risk_pool();
    assert_eq!(RiskPool::set_reserve_ratio(&mut env, admin, 10_001), Err(Error::InvalidAmount));
    RiskPool::set_reserve_ratio(&mut env, admin, 10_000).unwrap();
    assert_eq!(RiskPool::get_reserve_ratio(&env), 10_000);
}

#[test]
fn non_positive_liquidity_is_refused() {
    let (mut env, _admin, provider_one, _provider_two) = setup_risk_pool();
    assert_eq!(RiskPool::add_liquidity(&mut env, provider_one, 0), Err(Error::InvalidAmount));
    assert_eq!(RiskPool::add_liquidity(&mut env, provider_one, -5), Err(Error::InvalidAmount));
    assert_eq!(RiskPool::get_pool_balance(&env), 0);
}

#[test]
fn liquidity_overflow_is_refused() {
    let (mut env, _admin, provider_one, provider_two) = setup_risk_pool();
    RiskPool::add_liquidity(&mut env, provider_one, i128::MAX).unwrap();
    assert_eq!(RiskPool::add_liquidity(&mut env, provider_two, 1), Err(Error::Overflow));
    assert_eq!(RiskPool::get_pool_balance(&env), i128::MAX);
}

#[test]
fn unknown_provider_cannot_withdraw_or_claim() {
    let (mut env, _admin, provider_one, _provider_two) = setup_risk_pool();
    assert_eq!(
        RiskPool::withdraw_liquidity(&mut env, provider_one, 1),
        Err(Error::ProviderNotFound)
    );
    assert_eq!(RiskPool::claim_yield(&mut env, provider_one), Err(Error::ProviderNotFound));
    assert_eq!(RiskPool::withdraw_liquidity(&mut env, provider_one, 0), Err(Error::InvalidAmount));
}

#[test]
fn yield_needs_liquidity_and_a_positive_amount() {
    let (mut env, _admin, provider_one, _provider_two) = setup_risk_pool();
    assert_eq!(RiskPool::distribute_yield(&mut env, 100), Err(Error::InsufficientLiquidity));
    RiskPool::add_liquidity(&mut env, provider_one, 10).unwrap();
    assert_eq!(RiskPool::distribute_yield(&mut env, 0), Err(Error::InvalidAmount));
}

#[test]
fn yield_shares_round_down() {
    let (mut env, _admin, provider_one, provider_two) = setup_risk_pool();
    RiskPool::add_liquidity(&mut env, provider_one, 1).unwrap();
    RiskPool::add_liquidity(&mut env, provider_two, 2).unwrap();
    RiskPool::distribute_yield(&mut env, 10).unwrap();
    // 10 * 1 / 3 = 3 and 10 * 2 / 3 = 6: one unit stays uncredited.
    assert_eq!(RiskPool::get_provider_position(&env, provider_one).accrued_yield, 3);
    assert_eq!(RiskPool::get_provider_position(&env, provider_two).accrued_yield, 6);
    assert_eq!(RiskPool::get_pool_stats(&env).total_yield_distributed, 9);
}

#[test]
fn full_withdrawal_without_yield_drops_the_provider() {
    let (mut env, admin, provider_one, _provider_two) = setup_risk_pool();
    RiskPool::set_reserve_ratio(&mut env, admin, 0).unwrap();
    RiskPool::add_liquidity(&mut env, provider_one, 1_000).unwrap();
    RiskPool::withdraw_liquidity(&mut env, provider_one, 1_000).unwrap();
    assert_eq!(RiskPool::get_pool_stats(&env).provider_count, 0);
    assert_eq!(RiskPool::get_provider_position(&env, provider_one).contribution, 0);
    assert_eq!(RiskPool::get_pool_balance(&env), 0);
}

#[test]
fn fund_payout_draws_on_liquidity() {
    let (mut env, _admin, provider_one, _provider_two) = setup_risk_pool();
    RiskPool::add_liquidity(&mut env, provider_one, 1_000).unwrap();
    RiskPool::fund_payout(&mut env, Address(9), 400).unwrap();
    assert_eq!(RiskPool::get_pool_balance(&env), 600);
    assert_eq!(RiskPool::fund_payout(&mut env, Address(9), 601), Err(Error::InsufficientLiquidity));
    assert_eq!(RiskPool::fund_payout(&mut env, Address(9), 0), Err(Error::InvalidAmount));
    assert_eq!(RiskPool::get_pool_balance(&env), 600);
}

#[test]
fn adding_liquidity_publishes_the_new_balances() {
    let (mut env, _admin, provider_one, _provider_two) = setup_risk_pool();
    RiskPool::add_liquidity(&mut env, provider_one, 250).unwrap();
    RiskPool::add_liquidity(&mut env, provider_one, 50).unwrap();
    match env.effects.last() {
        Some(Effect::Publish(Event::LiquidityAdded(e))) => {
            assert_eq!(e.provider, provider_one);
            assert_eq!(e.amount, 50);
            assert_eq!(e.new_contribution, 300);
            assert_eq!(e.pool_balance, 300);
        },
        other => panic!("unexpected last effect {:?}", other),
    }
    assert!(env.effects.contains(&Effect::RequireAuth(provider_one)));
}
