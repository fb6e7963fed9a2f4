use vstd::prelude::*;

use crate::contract::fits_i128;
use crate::env::{outcome, Effect, Env, Event};
use crate::error::Error;
use crate::multisig::other_than;
use crate::storage::{self, StorageView};
use crate::types::{
    Address, LiquidityAddedEvent, LiquidityWithdrawnEvent, PoolStats, ProviderPosition,
    YieldClaimedEvent, YieldDistributionEvent,
};

verus! {

/// The liquidity pool that takes premiums as liquidity, shares them out as
/// yield to its providers, and funds claim payouts.
pub struct RiskPool;

/// Reserve ratios are quoted in basis points of the pool's liquidity.
pub const RATIO_BASIS: i128 = 10_000;

/// `provider`'s position, or an empty one.
pub open spec fn position_of(s: StorageView, provider: Address) -> ProviderPosition {
    if s.positions.contains_key(provider.0) {
        s.positions[provider.0]
    } else {
        ProviderPosition { provider, contribution: 0, accrued_yield: 0 }
    }
}

/// The part of the liquidity the pool keeps back from withdrawals.
/// (Rust's division, which rounds toward zero.)
pub open spec fn reserve_of(s: StorageView) -> int {
    let scaled = s.liquidity_value() * s.reserve_ratio_value();
    if scaled >= 0 {
        scaled / (RATIO_BASIS as int)
    } else {
        -((-scaled) / (RATIO_BASIS as int))
    }
}

/// Sum of the positive contributions of the listed providers, or `None`
/// when a partial sum leaves the `i128` range.
pub open spec fn stake_total(positions: Map<u64, ProviderPosition>, list: Seq<Address>) -> Option<int>
    decreases list.len(),
{
    if list.len() == 0 {
        Some(0)
    } else {
        match stake_total(positions, list.drop_last()) {
            None => None,
            Some(sum) => {
                let a = list.last();
                let c = if positions.contains_key(a.0) && positions[a.0].contribution > 0 {
                    positions[a.0].contribution as int
                } else {
                    0
                };
                if sum + c > i128::MAX {
                    None
                } else {
                    Some(sum + c)
                }
            },
        }
    }
}

/// A provider's share of `amount` of yield: its contribution's part of `stake`.
pub open spec fn share_of(amount: int, contribution: int, stake: int) -> int {
    if contribution > 0 {
        amount * contribution / stake
    } else {
        0
    }
}

/// Positions after crediting each listed provider with its share of
/// `amount` in proportion to `stake`, with the total credited; `None` when
/// a product or sum leaves the `i128` range.
pub open spec fn credit_all(
    positions: Map<u64, ProviderPosition>,
    list: Seq<Address>,
    amount: int,
    stake: int,
) -> Option<(Map<u64, ProviderPosition>, int)>
    decreases list.len(),
{
    if list.len() == 0 {
        Some((positions, 0))
    } else {
        match credit_all(positions, list.drop_last(), amount, stake) {
            None => None,
            Some((m, sum)) => {
                let a = list.last();
                if !m.contains_key(a.0) {
                    Some((m, sum))
                } else {
                    let p = m[a.0];
                    let sh = share_of(amount, p.contribution as int, stake);
                    if (p.contribution > 0 && !fits_i128(amount * p.contribution)) || !fits_i128(p.accrued_yield + sh)
                        || !fits_i128(sum + sh) {
                        None
                    } else {
                        Some((m.insert(a.0, ProviderPosition { accrued_yield: (p.accrued_yield + sh) as i128, ..p }), sum + sh))
                    }
                }
            },
        }
    }
}

/// `s` once `provider`'s position is `position`: an emptied position is
/// dropped together with the provider's registration.
pub open spec fn with_position(s: StorageView, provider: Address, position: ProviderPosition) -> StorageView {
    if position.contribution == 0 && position.accrued_yield == 0 {
        StorageView {
            positions: s.positions.remove(provider.0),
            providers: Some(s.providers_value().filter(other_than(provider))),
            ..s
        }
    } else {
        StorageView { positions: s.positions.insert(provider.0, position), ..s }
    }
}

/// Why a deposit of `amount` by `provider` is refused, if it is.
pub open spec fn deposit_refusal(s: StorageView, provider: Address, amount: i128) -> Option<Error> {
    let p = position_of(s, provider);
    if amount <= 0 {
        Some(Error::InvalidAmount)
    } else if !fits_i128(p.contribution + amount) || !fits_i128(s.liquidity_value() + amount) {
        Some(Error::Overflow)
    } else {
        None
    }
}

/// The pool after `provider` deposits `amount`: the provider's
/// contribution and the pool's liquidity grow by it, and a new provider is
/// registered at the end of the list.
pub open spec fn deposited(s: StorageView, provider: Address, amount: i128) -> StorageView {
    let p = position_of(s, provider);
    StorageView {
        positions: s.positions.insert(
            provider.0,
            ProviderPosition { contribution: (p.contribution + amount) as i128, ..p },
        ),
        total_liquidity: Some((s.liquidity_value() + amount) as i128),
        providers: if s.providers_value().contains(provider) {
            s.providers
        } else {
            Some(s.providers_value().push(provider))
        },
        ..s
    }
}

/// Why a withdrawal of `amount` by `provider` is refused, if it is: the
/// pool must keep its reserve out of what remains.
pub open spec fn withdrawal_refusal(s: StorageView, provider: Address, amount: i128) -> Option<Error> {
    let total = s.liquidity_value();
    if amount <= 0 {
        Some(Error::InvalidAmount)
    } else if !s.positions.contains_key(provider.0) {
        Some(Error::ProviderNotFound)
    } else if amount > s.positions[provider.0].contribution {
        Some(Error::InsufficientLiquidity)
    } else if !fits_i128(total * s.reserve_ratio_value()) || !fits_i128(total - amount) {
        Some(Error::Overflow)
    } else if total - amount < reserve_of(s) {
        Some(Error::InsufficientPoolReserve)
    } else {
        None
    }
}

/// The pool after `provider` withdraws `amount`.
pub open spec fn withdrawn(s: StorageView, provider: Address, amount: i128) -> StorageView {
    let p = s.positions[provider.0];
    with_position(
        StorageView { total_liquidity: Some((s.liquidity_value() - amount) as i128), ..s },
        provider,
        ProviderPosition { contribution: (p.contribution - amount) as i128, ..p },
    )
}

/// Stores `position` for `provider`, dropping emptied positions.
fn store_position(env: &mut Env, provider: Address, position: ProviderPosition)
    ensures
        outcome(*old(env), *final(env), with_position(old(env).storage@, provider, position), seq![]),
{
    if position.contribution == 0 && position.accrued_yield == 0 {
        storage::remove_provider(&mut env.storage, &provider);
        storage::unregister_provider(&mut env.storage, &provider);
        assert(env.storage@ =~= with_position(old(env).storage@, provider, position));
    } else {
        storage::set_provider(&mut env.storage, &provider, &position);
    }
}

impl RiskPool {
    /// Makes `admin` the pool's administrator; a pool is initialised once.
    pub fn init(env: &mut Env, admin: Address) -> (result: Result<(), Error>)
        ensures
            if old(env).storage@.risk_pool_admin is Some {
                result == Err::<(), Error>(Error::AlreadyInitialized) && outcome(*old(env), *final(env), old(env).storage@, seq![])
            } else {
                &&& result is Ok
                &&& outcome(*old(env), *final(env), StorageView { risk_pool_admin: Some(admin), ..old(env).storage@ }, seq![])
            },
    {
        if storage::has_risk_pool_admin(&env.storage) {
            return Err(Error::AlreadyInitialized);
        }
        storage::set_risk_pool_admin(&mut env.storage, &admin);
        Ok(())
    }

    /// Sets the reserve ratio, at most 100% (pool administrator only).
    pub fn set_reserve_ratio(env: &mut Env, admin: Address, ratio: u32) -> (result: Result<(), Error>)
        ensures
            ({
                let s = old(env).storage@;
                let auth = Effect::RequireAuth(admin);
                if s.risk_pool_admin is None {
                    result == Err::<(), Error>(Error::NotInitialized) && outcome(*old(env), *final(env), s, seq![auth])
                } else if s.risk_pool_admin != Some(admin) {
                    result == Err::<(), Error>(Error::Unauthorized) && outcome(*old(env), *final(env), s, seq![auth])
                } else if ratio > 10_000 {
                    result == Err::<(), Error>(Error::InvalidAmount) && outcome(*old(env), *final(env), s, seq![auth])
                } else {
                    result is Ok && outcome(*old(env), *final(env), StorageView { reserve_ratio: Some(ratio), ..s }, seq![auth])
                }
            }),
    {
        env.emit(Effect::RequireAuth(admin));
        if !storage::has_risk_pool_admin(&env.storage) {
            return Err(Error::NotInitialized);
        }
        let current = storage::get_risk_pool_admin(&env.storage);
        if current != admin {
            return Err(Error::Unauthorized);
        }
        if ratio > 10_000 {
            return Err(Error::InvalidAmount);
        }
        storage::set_reserve_ratio(&mut env.storage, ratio);
        Ok(())
    }

    /// The reserve ratio in basis points (20% unless set).
    pub fn get_reserve_ratio(env: &Env) -> (ratio: u32)
        ensures
            ratio == env.storage@.reserve_ratio_value(),
    {
        storage::get_reserve_ratio(&env.storage)
    }

    /// Adds `amount` to `provider`'s contribution and to the pool.
    pub fn add_liquidity(env: &mut Env, provider: Address, amount: i128) -> (result: Result<(), Error>)
        ensures
            ({
                let s = old(env).storage@;
                let auth = Effect::RequireAuth(provider);
                match deposit_refusal(s, provider, amount) {
                    Some(e) => result == Err::<(), Error>(e) && outcome(*old(env), *final(env), s, seq![auth]),
                    None => {
                        let t = deposited(s, provider, amount);
                        &&& result is Ok
                        &&& outcome(
                            *old(env),
                            *final(env),
                            t,
                            seq![
                                auth,
                                Effect::Publish(Event::LiquidityAdded(LiquidityAddedEvent {
                                    provider,
                                    amount,
                                    new_contribution: t.positions[provider.0].contribution,
                                    pool_balance: t.liquidity_value(),
                                })),
                            ],
                        )
                    },
                }
            }),
    {
        env.emit(Effect::RequireAuth(provider));
        if amount <= 0 {
            return Err(Error::InvalidAmount);
        }
        let position = match storage::get_provider(&env.storage, &provider) {
            Some(p) => p,
            None => ProviderPosition { provider, contribution: 0, accrued_yield: 0 },
        };
        let contribution = match position.contribution.checked_add(amount) {
            Some(c) => c,
            None => {
                return Err(Error::Overflow);
            },
        };
        let total = match storage::get_total_liquidity(&env.storage).checked_add(amount) {
            Some(t) => t,
            None => {
                return Err(Error::Overflow);
            },
        };
        let updated = ProviderPosition { contribution, ..position };
        storage::set_provider(&mut env.storage, &provider, &updated);
        storage::set_total_liquidity(&mut env.storage, total);
        storage::ensure_provider_registered(&mut env.storage, &provider);
        env.emit(
            Effect::Publish(
                Event::LiquidityAdded(
                    LiquidityAddedEvent { provider, amount, new_contribution: contribution, pool_balance: total },
                ),
            ),
        );
        Ok(())
    }

    /// Returns `amount` of `provider`'s contribution, provided the pool
    /// keeps at least its reserve afterwards.
    pub fn withdraw_liquidity(env: &mut Env, provider: Address, amount: i128) -> (result: Result<(), Error>)
        ensures
            ({
                let s = old(env).storage@;
                let auth = Effect::RequireAuth(provider);
                match withdrawal_refusal(s, provider, amount) {
                    Some(e) => result == Err::<(), Error>(e) && outcome(*old(env), *final(env), s, seq![auth]),
                    None => {
                        let remaining = s.positions[provider.0].contribution - amount;
                        &&& result is Ok
                        &&& outcome(
                            *old(env),
                            *final(env),
                            withdrawn(s, provider, amount),
                            seq![
                                auth,
                                Effect::Publish(Event::LiquidityWithdrawn(LiquidityWithdrawnEvent {
                                    provider,
                                    amount,
                                    remaining_contribution: remaining as i128,
                                    pool_balance: (s.liquidity_value() - amount) as i128,
                                })),
                            ],
                        )
                    },
                }
            }),
    {
        env.emit(Effect::RequireAuth(provider));
        if amount <= 0 {
            return Err(Error::InvalidAmount);
        }
        let position = match storage::get_provider(&env.storage, &provider) {
            Some(p) => p,
            None => {
                return Err(Error::ProviderNotFound);
            },
        };
        if amount > position.contribution {
            return Err(Error::InsufficientLiquidity);
        }
        let total = storage::get_total_liquidity(&env.storage);
        let ratio = storage::get_reserve_ratio(&env.storage);
        let scaled = match total.checked_mul(ratio as i128) {
            Some(v) => v,
            None => {
                return Err(Error::Overflow);
            },
        };
        let remaining = match total.checked_sub(amount) {
            Some(v) => v,
            None => {
                return Err(Error::Overflow);
            },
        };
        let reserve = scaled / RATIO_BASIS;
        if remaining < reserve {
            return Err(Error::InsufficientPoolReserve);
        }
        let updated = ProviderPosition { contribution: position.contribution - amount, ..position };
        storage::set_total_liquidity(&mut env.storage, remaining);
        store_position(env, provider, updated);
        env.emit(
            Effect::Publish(
                Event::LiquidityWithdrawn(
                    LiquidityWithdrawnEvent {
                        provider,
                        amount,
                        remaining_contribution: updated.contribution,
                        pool_balance: remaining,
                    },
                ),
            ),
        );
        Ok(())
    }

    /// Shares `amount` of yield out among the registered providers in
    /// proportion to their contributions (rounding each share down) and
    /// adds what was credited to the yield distributed so far.
    pub fn distribute_yield(env: &mut Env, amount: i128) -> (result: Result<(), Error>)
        ensures
            ({
                let s = old(env).storage@;
                let list = s.providers_value();
                if amount <= 0 {
                    result == Err::<(), Error>(Error::InvalidAmount) && outcome(*old(env), *final(env), s, seq![])
                } else {
                    match stake_total(s.positions, list) {
                        None => result == Err::<(), Error>(Error::Overflow) && outcome(*old(env), *final(env), s, seq![]),
                        Some(stake) => if stake <= 0 {
                            result == Err::<(), Error>(Error::InsufficientLiquidity) && outcome(*old(env), *final(env), s, seq![])
                        } else {
                            match credit_all(s.positions, list, amount as int, stake) {
                                None => result == Err::<(), Error>(Error::Overflow) && outcome(*old(env), *final(env), s, seq![]),
                                Some((positions, credited)) => if !fits_i128(s.yield_distributed_value() + credited) {
                                    result == Err::<(), Error>(Error::Overflow) && outcome(*old(env), *final(env), s, seq![])
                                } else {
                                    &&& result is Ok
                                    &&& outcome(
                                        *old(env),
                                        *final(env),
                                        StorageView {
                                            positions,
                                            total_yield_distributed: Some((s.yield_distributed_value() + credited) as i128),
                                            ..s
                                        },
                                        seq![
                                            Effect::Publish(Event::YieldDistributed(YieldDistributionEvent {
                                                amount,
                                                total_liquidity_before: s.liquidity_value(),
                                            })),
                                        ],
                                    )
                                },
                            }
                        },
                    }
                }
            }),
    {
        if amount <= 0 {
            return Err(Error::InvalidAmount);
        }
        let providers = storage::get_registered_provider_vec(&env.storage);
        let ghost list = providers@;
        let ghost start = env.storage@.positions;
        let mut stake: i128 = 0;
        let mut i: usize = 0;
        while i < providers.len()
            invariant
                i <= providers.len(),
                list == providers@,
                list == old(env).storage@.providers_value(),
                start == env.storage@.positions,
                stake_total(start, list.take(i as int)) == Some(stake as int),
                amount > 0,
                env.storage@ == old(env).storage@,
                env.effects@ == old(env).effects@,
                env.ledger == old(env).ledger,
            decreases providers.len() - i,
        {
            assert(list.take(i + 1).drop_last() =~= list.take(i as int));
            let c: i128 = match storage::get_provider(&env.storage, &providers[i]) {
                Some(p) => if p.contribution > 0 {
                    p.contribution
                } else {
                    0
                },
                None => 0,
            };
            stake = match stake.checked_add(c) {
                Some(v) => v,
                None => {
                    assert(list.take(i + 1).last() == list[i as int]);
                    assert(stake_total(start, list.take(i + 1)) is None);
                    assert(stake_total(start, list) is None) by {
                        lemma_stake_total_prefix_none(start, list, i as int + 1);
                    }
                    return Err(Error::Overflow);
                },
            };
            i += 1;
        }
        assert(list.take(list.len() as int) =~= list);
        if stake <= 0 {
            return Err(Error::InsufficientLiquidity);
        }
        let mut positions = env.storage.provider_positions.clone();
        let mut credited: i128 = 0;
        let mut j: usize = 0;
        while j < providers.len()
            invariant
                j <= providers.len(),
                list == providers@,
                list == old(env).storage@.providers_value(),
                start == env.storage@.positions,
                stake > 0,
                amount > 0,
                stake_total(start, list) == Some(stake as int),
                credit_all(start, list.take(j as int), amount as int, stake as int) == Some((positions@, credited as int)),
                env.storage@ == old(env).storage@,
                env.effects@ == old(env).effects@,
                env.ledger == old(env).ledger,
            decreases providers.len() - j,
        {
            assert(list.take(j + 1).drop_last() =~= list.take(j as int));
            assert(list.take(j + 1).last() == list[j as int]);
            let a = providers[j];
            match positions.get(&a.0) {
                None => {},
                Some(found) => {
                    let p = *found;
                    let share: i128 = if p.contribution > 0 {
                        match amount.checked_mul(p.contribution) {
                            Some(v) => v / stake,
                            None => {
                                proof {
                                    lemma_credit_all_prefix_none(start, list, j as int + 1, amount as int, stake as int);
                                }
                                return Err(Error::Overflow);
                            },
                        }
                    } else {
                        0
                    };
                    let accrued = match p.accrued_yield.checked_add(share) {
                        Some(v) => v,
                        None => {
                            proof {
                                lemma_credit_all_prefix_none(start, list, j as int + 1, amount as int, stake as int);
                            }
                            return Err(Error::Overflow);
                        },
                    };
                    credited = match credited.checked_add(share) {
                        Some(v) => v,
                        None => {
                            proof {
                                lemma_credit_all_prefix_none(start, list, j as int + 1, amount as int, stake as int);
                            }
                            return Err(Error::Overflow);
                        },
                    };
                    positions.insert(a.0, ProviderPosition { accrued_yield: accrued, ..p });
                },
            }
            j += 1;
        }
        assert(list.take(list.len() as int) =~= list);
        let total = match storage::get_total_yield_distributed(&env.storage).checked_add(credited) {
            Some(v) => v,
            None => {
                return Err(Error::Overflow);
            },
        };
        let before = storage::get_total_liquidity(&env.storage);
        env.storage.provider_positions = positions;
        storage::set_total_yield_distributed(&mut env.storage, total);
        env.emit(Effect::Publish(Event::YieldDistributed(YieldDistributionEvent { amount, total_liquidity_before: before })));
        Ok(())
    }

    /// Pays out `provider`'s accrued yield, returning the amount.
    pub fn claim_yield(env: &mut Env, provider: Address) -> (result: Result<i128, Error>)
        ensures
            ({
                let s = old(env).storage@;
                let auth = Effect::RequireAuth(provider);
                let p = s.positions[provider.0];
                if !s.positions.contains_key(provider.0) {
                    result == Err::<i128, Error>(Error::ProviderNotFound) && outcome(*old(env), *final(env), s, seq![auth])
                } else {
                    &&& result == Ok::<i128, Error>(p.accrued_yield)
                    &&& outcome(
                        *old(env),
                        *final(env),
                        with_position(s, provider, ProviderPosition { accrued_yield: 0, ..p }),
                        seq![auth, Effect::Publish(Event::YieldClaimed(YieldClaimedEvent { provider, amount: p.accrued_yield }))],
                    )
                }
            }),
    {
        env.emit(Effect::RequireAuth(provider));
        let position = match storage::get_provider(&env.storage, &provider) {
            Some(p) => p,
            None => {
                return Err(Error::ProviderNotFound);
            },
        };
        let amount = position.accrued_yield;
        store_position(env, provider, ProviderPosition { accrued_yield: 0, ..position });
        env.emit(Effect::Publish(Event::YieldClaimed(YieldClaimedEvent { provider, amount })));
        Ok(amount)
    }

    /// Takes `amount` out of the pool's liquidity to pay a claim to `recipient`.
    pub fn fund_payout(env: &mut Env, recipient: Address, amount: i128) -> (result: Result<(), Error>)
        ensures
            ({
                let s = old(env).storage@;
                if amount <= 0 {
                    result == Err::<(), Error>(Error::InvalidAmount) && outcome(*old(env), *final(env), s, seq![])
                } else if amount > s.liquidity_value() {
                    result == Err::<(), Error>(Error::InsufficientLiquidity) && outcome(*old(env), *final(env), s, seq![])
                } else {
                    &&& result is Ok
                    &&& outcome(
                        *old(env),
                        *final(env),
                        StorageView { total_liquidity: Some((s.liquidity_value() - amount) as i128), ..s },
                        seq![],
                    )
                }
            }),
    {
        if amount <= 0 {
            return Err(Error::InvalidAmount);
        }
        let total = storage::get_total_liquidity(&env.storage);
        if amount > total {
            return Err(Error::InsufficientLiquidity);
        }
        storage::set_total_liquidity(&mut env.storage, total - amount);
        Ok(())
    }

    /// `provider`'s position (empty when it has none).
    pub fn get_provider_position(env: &Env, provider: Address) -> (position: ProviderPosition)
        ensures
            position == position_of(env.storage@, provider),
    {
        match storage::get_provider(&env.storage, &provider) {
            Some(p) => p,
            None => ProviderPosition { provider, contribution: 0, accrued_yield: 0 },
        }
    }

    /// Liquidity, yield distributed and number of providers.
    pub fn get_pool_stats(env: &Env) -> (stats: PoolStats)
        requires
            env.storage@.providers_value().len() <= u32::MAX,
        ensures
            stats.total_liquidity == env.storage@.liquidity_value(),
            stats.total_yield_distributed == env.storage@.yield_distributed_value(),
            stats.provider_count == env.storage@.providers_value().len(),
    {
        storage::get_pool_stats(&env.storage)
    }

    /// The pool's liquidity.
    pub fn get_pool_balance(env: &Env) -> (balance: i128)
        ensures
            balance == env.storage@.liquidity_value(),
    {
        storage::get_total_liquidity(&env.storage)
    }
}

/// Once a prefix of the list overflows, so does the whole list.
proof fn lemma_stake_total_prefix_none(positions: Map<u64, ProviderPosition>, list: Seq<Address>, i: int)
    requires
        0 <= i <= list.len(),
        stake_total(positions, list.take(i)) is None,
    ensures
        stake_total(positions, list) is None,
    decreases list.len() - i,
{
    if i < list.len() {
        assert(list.take(i + 1).drop_last() =~= list.take(i));
        lemma_stake_total_prefix_none(positions, list, i + 1);
    } else {
        assert(list.take(i) =~= list);
    }
}

/// Once crediting a prefix of the list overflows, so does crediting the whole list.
proof fn lemma_credit_all_prefix_none(
    positions: Map<u64, ProviderPosition>,
    list: Seq<Address>,
    i: int,
    amount: int,
    stake: int,
)
    requires
        0 <= i <= list.len(),
        credit_all(positions, list.take(i), amount, stake) is None,
    ensures
        credit_all(positions, list, amount, stake) is None,
    decreases list.len() - i,
{
    if i < list.len() {
        assert(list.take(i + 1).drop_last() =~= list.take(i));
        lemma_credit_all_prefix_none(positions, list, i + 1, amount, stake);
    } else {
        assert(list.take(i) =~= list);
    }
}

} // verus!
