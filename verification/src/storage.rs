use std::collections::HashMap;

use vstd::prelude::*;

use crate::error::Error;
use crate::multisig::{other_than, vec_contains, without_address};
use crate::policy::copy_addresses;
use crate::types::{
    Address, Claim, ClaimVotes, Policy, PoolStats, ProviderPosition, Providers, Symbol,
};

verus! {

/// The data a contract keeps between invocations. Each field stands for
/// one storage key (or one family of keys); `None` and absent map entries
/// are keys that were never written, which the getters read as documented
/// defaults.
pub struct Storage {
    /// The primary administrator.
    pub admin: Option<Address>,
    /// Number of policies ever created; the next policy's id.
    pub policy_counter: Option<u64>,
    /// Policies by id.
    pub policies: HashMap<u64, Policy>,
    /// The latest claim of each policy, by policy id.
    pub claims: HashMap<u64, Claim>,
    /// Token in which premiums are paid and payouts made.
    pub premium_token: Option<Address>,
    /// Administrator of a liquidity pool.
    pub risk_pool_admin: Option<Address>,
    /// Liquidity the pool holds.
    pub total_liquidity: Option<i128>,
    /// Yield credited to providers since the pool began.
    pub total_yield_distributed: Option<i128>,
    /// Provider positions, by the provider's address.
    pub provider_positions: HashMap<u64, ProviderPosition>,
    /// Registered providers, in order of registration.
    pub providers: Option<Providers>,
    /// Emergency stop flag.
    pub paused: Option<bool>,
    /// Multi-signature admin set.
    pub admins: Option<Vec<Address>>,
    /// Approvals needed to settle a claim by vote.
    pub threshold: Option<u32>,
    /// Votes on pending claims, by policy id.
    pub claim_votes: HashMap<u64, ClaimVotes>,
    /// Schema version of the stored data.
    pub version: Option<u32>,
    /// Premiums collected since deployment.
    pub total_premium: Option<i128>,
    /// Payouts made since deployment.
    pub total_payouts: Option<i128>,
    /// Liquidity pool contract that receives premiums and funds payouts.
    pub risk_pool: Option<Address>,
    /// Cap on the number of policies.
    pub max_policies: Option<u64>,
    /// Reserve the pool keeps back from withdrawals, in basis points.
    pub reserve_ratio: Option<u32>,
    /// Oracle contract per oracle type; where a type occurs more than once
    /// the later entry is the one in force.
    pub oracle_table: Vec<(Symbol, Address)>,
    /// Registered oracle types, in order of registration.
    pub oracle_types: Option<Vec<Symbol>>,
}

/// Votes on a claim, as sequences.
pub struct VotesView {
    pub approvals: Seq<Address>,
    pub rejections: Seq<Address>,
}

/// The abstract content of [`Storage`].
#[verifier::ext_equal]
pub struct StorageView {
    pub admin: Option<Address>,
    pub policy_counter: Option<u64>,
    pub policies: Map<u64, Policy>,
    pub claims: Map<u64, Claim>,
    pub premium_token: Option<Address>,
    pub risk_pool_admin: Option<Address>,
    pub total_liquidity: Option<i128>,
    pub total_yield_distributed: Option<i128>,
    pub positions: Map<u64, ProviderPosition>,
    pub providers: Option<Seq<Address>>,
    pub paused: Option<bool>,
    pub admins: Option<Seq<Address>>,
    pub threshold: Option<u32>,
    pub claim_votes: Map<u64, VotesView>,
    pub version: Option<u32>,
    pub total_premium: Option<i128>,
    pub total_payouts: Option<i128>,
    pub risk_pool: Option<Address>,
    pub max_policies: Option<u64>,
    pub reserve_ratio: Option<u32>,
    pub oracles: Map<Seq<char>, Address>,
    pub oracle_types: Option<Seq<Seq<char>>>,
}

pub open spec fn votes_view(v: ClaimVotes) -> VotesView {
    VotesView { approvals: v.approvals@, rejections: v.rejections@ }
}

/// The views of a sequence of symbols.
pub open spec fn symbol_views(s: Seq<Symbol>) -> Seq<Seq<char>> {
    s.map_values(|x: Symbol| x@)
}

/// The oracle table read as a map: a later entry overrides an earlier one.
pub open spec fn table_map(t: Seq<(Symbol, Address)>) -> Map<Seq<char>, Address>
    decreases t.len(),
{
    if t.len() == 0 {
        Map::empty()
    } else {
        table_map(t.drop_last()).insert(t.last().0@, t.last().1)
    }
}

impl View for Storage {
    type V = StorageView;

    open spec fn view(&self) -> StorageView {
        StorageView {
            admin: self.admin,
            policy_counter: self.policy_counter,
            policies: self.policies@,
            claims: self.claims@,
            premium_token: self.premium_token,
            risk_pool_admin: self.risk_pool_admin,
            total_liquidity: self.total_liquidity,
            total_yield_distributed: self.total_yield_distributed,
            positions: self.provider_positions@,
            providers: match self.providers {
                Some(p) => Some(p.0@),
                None => None,
            },
            paused: self.paused,
            admins: match self.admins {
                Some(a) => Some(a@),
                None => None,
            },
            threshold: self.threshold,
            claim_votes: self.claim_votes@.map_values(|v: ClaimVotes| votes_view(v)),
            version: self.version,
            total_premium: self.total_premium,
            total_payouts: self.total_payouts,
            risk_pool: self.risk_pool,
            max_policies: self.max_policies,
            reserve_ratio: self.reserve_ratio,
            oracles: table_map(self.oracle_table@),
            oracle_types: match self.oracle_types {
                Some(t) => Some(symbol_views(t@)),
                None => None,
            },
        }
    }
}

/// Default policy cap.
pub const DEFAULT_MAX_POLICIES: u64 = 1_000_000;

/// Default pool reserve: 20% of liquidity.
pub const DEFAULT_RESERVE_RATIO: u32 = 2000;

impl StorageView {
    pub open spec fn version_value(self) -> u32 {
        match self.version {
            Some(v) => v,
            None => 1,
        }
    }

    pub open spec fn counter_value(self) -> u64 {
        match self.policy_counter {
            Some(v) => v,
            None => 0,
        }
    }

    pub open spec fn liquidity_value(self) -> i128 {
        match self.total_liquidity {
            Some(v) => v,
            None => 0,
        }
    }

    pub open spec fn yield_distributed_value(self) -> i128 {
        match self.total_yield_distributed {
            Some(v) => v,
            None => 0,
        }
    }

    pub open spec fn providers_value(self) -> Seq<Address> {
        match self.providers {
            Some(v) => v,
            None => Seq::empty(),
        }
    }

    pub open spec fn paused_value(self) -> bool {
        match self.paused {
            Some(v) => v,
            None => false,
        }
    }

    pub open spec fn admins_value(self) -> Seq<Address> {
        match self.admins {
            Some(v) => v,
            None => Seq::empty(),
        }
    }

    pub open spec fn threshold_value(self) -> u32 {
        match self.threshold {
            Some(v) => v,
            None => 1,
        }
    }

    pub open spec fn total_premium_value(self) -> i128 {
        match self.total_premium {
            Some(v) => v,
            None => 0,
        }
    }

    pub open spec fn total_payouts_value(self) -> i128 {
        match self.total_payouts {
            Some(v) => v,
            None => 0,
        }
    }

    pub open spec fn max_policies_value(self) -> u64 {
        match self.max_policies {
            Some(v) => v,
            None => DEFAULT_MAX_POLICIES,
        }
    }

    pub open spec fn reserve_ratio_value(self) -> u32 {
        match self.reserve_ratio {
            Some(v) => v,
            None => DEFAULT_RESERVE_RATIO,
        }
    }

    pub open spec fn oracle_types_value(self) -> Seq<Seq<char>> {
        match self.oracle_types {
            Some(v) => v,
            None => Seq::empty(),
        }
    }

    /// Whether `address` may act as an admin: a member of the admin set,
    /// or, while that set is empty, the primary administrator.
    pub open spec fn has_admin(self, address: Address) -> bool {
        if self.admins_value().len() == 0 {
            self.admin == Some(address)
        } else {
            self.admins_value().contains(address)
        }
    }
}

/// Holds of every symbol view but `k`.
pub open spec fn other_symbol(k: Seq<char>) -> spec_fn(Seq<char>) -> bool {
    |x: Seq<char>| x != k
}

/// `s` with `oracle` registered for the oracle type `k`.
pub open spec fn with_oracle(s: StorageView, k: Seq<char>, oracle: Address) -> StorageView {
    StorageView {
        oracles: s.oracles.insert(k, oracle),
        oracle_types: if s.oracle_types_value().contains(k) {
            s.oracle_types
        } else {
            Some(s.oracle_types_value().push(k))
        },
        ..s
    }
}

/// `s` with the oracle type `k` unregistered.
pub open spec fn without_oracle(s: StorageView, k: Seq<char>) -> StorageView {
    StorageView {
        oracles: s.oracles.remove(k),
        oracle_types: Some(s.oracle_types_value().filter(other_symbol(k))),
        ..s
    }
}

impl Storage {
    /// Storage in which no key has been written.
    pub fn new() -> (s: Storage)
        ensures
            s@.admin is None,
            s@.policy_counter is None,
            s@.policies == Map::<u64, Policy>::empty(),
            s@.claims == Map::<u64, Claim>::empty(),
            s@.premium_token is None,
            s@.risk_pool_admin is None,
            s@.total_liquidity is None,
            s@.total_yield_distributed is None,
            s@.positions == Map::<u64, ProviderPosition>::empty(),
            s@.providers is None,
            s@.paused is None,
            s@.admins is None,
            s@.threshold is None,
            s@.claim_votes == Map::<u64, VotesView>::empty(),
            s@.version is None,
            s@.total_premium is None,
            s@.total_payouts is None,
            s@.risk_pool is None,
            s@.max_policies is None,
            s@.reserve_ratio is None,
            s@.oracles == Map::<Seq<char>, Address>::empty(),
            s@.oracle_types is None,
    {
        let s = Storage {
            admin: None,
            policy_counter: None,
            policies: HashMap::new(),
            claims: HashMap::new(),
            premium_token: None,
            risk_pool_admin: None,
            total_liquidity: None,
            total_yield_distributed: None,
            provider_positions: HashMap::new(),
            providers: None,
            paused: None,
            admins: None,
            threshold: None,
            claim_votes: HashMap::new(),
            version: None,
            total_premium: None,
            total_payouts: None,
            risk_pool: None,
            max_policies: None,
            reserve_ratio: None,
            oracle_table: Vec::new(),
            oracle_types: None,
        };
        assert(s@.claim_votes =~= Map::<u64, VotesView>::empty());
        s
    }
}


pub fn get_version(s: &Storage) -> (version: u32)
    ensures
        version == s@.version_value(),
{
    match s.version {
        Some(v) => v,
        None => 1,
    }
}

pub fn set_version(s: &mut Storage, version: u32)
    ensures
        final(s)@ == (StorageView { version: Some(version), ..old(s)@ }),
{
    s.version = Some(version);
}

pub fn set_admin(s: &mut Storage, admin: &Address)
    ensures
        final(s)@ == (StorageView { admin: Some(*admin), ..old(s)@ }),
{
    s.admin = Some(*admin);
}

/// The primary administrator; the contract must have been initialised.
pub fn get_admin(s: &Storage) -> (admin: Address)
    requires
        s@.admin is Some,
    ensures
        Some(admin) == s@.admin,
{
    s.admin.unwrap()
}

pub fn set_policy_counter(s: &mut Storage, counter: u64)
    ensures
        final(s)@ == (StorageView { policy_counter: Some(counter), ..old(s)@ }),
{
    s.policy_counter = Some(counter);
}

pub fn get_policy_counter(s: &Storage) -> (counter: u64)
    ensures
        counter == s@.counter_value(),
{
    match s.policy_counter {
        Some(v) => v,
        None => 0,
    }
}

pub fn set_policy(s: &mut Storage, policy_id: u64, policy: &Policy)
    ensures
        final(s)@ == (StorageView { policies: old(s)@.policies.insert(policy_id, *policy), ..old(s)@ }),
{
    s.policies.insert(policy_id, policy.duplicate());
}

pub fn get_policy(s: &Storage, policy_id: u64) -> (result: Result<Policy, Error>)
    ensures
        match result {
            Ok(p) => s@.policies.contains_key(policy_id) && p == s@.policies[policy_id],
            Err(e) => !s@.policies.contains_key(policy_id) && e == Error::PolicyNotFound,
        },
{
    match s.policies.get(&policy_id) {
        Some(p) => Ok(p.duplicate()),
        None => Err(Error::PolicyNotFound),
    }
}

pub fn set_claim(s: &mut Storage, policy_id: u64, claim: &Claim)
    ensures
        final(s)@ == (StorageView { claims: old(s)@.claims.insert(policy_id, *claim), ..old(s)@ }),
{
    s.claims.insert(policy_id, claim.duplicate());
}

pub fn get_claim(s: &Storage, policy_id: u64) -> (result: Result<Claim, Error>)
    ensures
        match result {
            Ok(c) => s@.claims.contains_key(policy_id) && c == s@.claims[policy_id],
            Err(e) => !s@.claims.contains_key(policy_id) && e == Error::ClaimNotFound,
        },
{
    match s.claims.get(&policy_id) {
        Some(c) => Ok(c.duplicate()),
        None => Err(Error::ClaimNotFound),
    }
}

pub fn has_risk_pool_admin(s: &Storage) -> (present: bool)
    ensures
        present == s@.risk_pool_admin is Some,
{
    s.risk_pool_admin.is_some()
}

pub fn set_risk_pool_admin(s: &mut Storage, admin: &Address)
    ensures
        final(s)@ == (StorageView { risk_pool_admin: Some(*admin), ..old(s)@ }),
{
    s.risk_pool_admin = Some(*admin);
}

/// The pool administrator; the pool must have been initialised.
pub fn get_risk_pool_admin(s: &Storage) -> (admin: Address)
    requires
        s@.risk_pool_admin is Some,
    ensures
        Some(admin) == s@.risk_pool_admin,
{
    s.risk_pool_admin.unwrap()
}

pub fn set_total_liquidity(s: &mut Storage, amount: i128)
    ensures
        final(s)@ == (StorageView { total_liquidity: Some(amount), ..old(s)@ }),
{
    s.total_liquidity = Some(amount);
}

pub fn get_total_liquidity(s: &Storage) -> (amount: i128)
    ensures
        amount == s@.liquidity_value(),
{
    match s.total_liquidity {
        Some(v) => v,
        None => 0,
    }
}

pub fn set_total_yield_distributed(s: &mut Storage, amount: i128)
    ensures
        final(s)@ == (StorageView { total_yield_distributed: Some(amount), ..old(s)@ }),
{
    s.total_yield_distributed = Some(amount);
}

pub fn get_total_yield_distributed(s: &Storage) -> (amount: i128)
    ensures
        amount == s@.yield_distributed_value(),
{
    match s.total_yield_distributed {
        Some(v) => v,
        None => 0,
    }
}

pub fn get_provider(s: &Storage, provider: &Address) -> (position: Option<ProviderPosition>)
    ensures
        position == s@.positions.get(provider.0),
{
    match s.provider_positions.get(&provider.0) {
        Some(p) => Some(*p),
        None => None,
    }
}

pub fn set_provider(s: &mut Storage, provider: &Address, position: &ProviderPosition)
    ensures
        final(s)@ == (StorageView { positions: old(s)@.positions.insert(provider.0, *position), ..old(s)@ }),
{
    s.provider_positions.insert(provider.0, *position);
}

pub fn remove_provider(s: &mut Storage, provider: &Address)
    ensures
        final(s)@ == (StorageView { positions: old(s)@.positions.remove(provider.0), ..old(s)@ }),
{
    s.provider_positions.remove(&provider.0);
}

/// Registered providers (none when the list was never written).
pub fn get_providers(s: &Storage) -> (providers: Vec<Address>)
    ensures
        providers@ == s@.providers_value(),
{
    match &s.providers {
        Some(p) => copy_addresses(&p.0),
        None => Vec::new(),
    }
}

pub fn set_providers(s: &mut Storage, providers: &Vec<Address>)
    ensures
        final(s)@ == (StorageView { providers: Some(providers@), ..old(s)@ }),
{
    s.providers = Some(Providers(copy_addresses(providers)));
}

/// Same as [`get_providers`].
pub fn get_registered_provider_vec(s: &Storage) -> (providers: Vec<Address>)
    ensures
        providers@ == s@.providers_value(),
{
    get_providers(s)
}

pub fn get_premium_token(s: &Storage) -> (token: Option<Address>)
    ensures
        token == s@.premium_token,
{
    s.premium_token
}

pub fn set_premium_token(s: &mut Storage, token: &Address)
    ensures
        final(s)@ == (StorageView { premium_token: Some(*token), ..old(s)@ }),
{
    s.premium_token = Some(*token);
}

pub fn set_paused(s: &mut Storage, paused: bool)
    ensures
        final(s)@ == (StorageView { paused: Some(paused), ..old(s)@ }),
{
    s.paused = Some(paused);
}

pub fn get_paused(s: &Storage) -> (paused: bool)
    ensures
        paused == s@.paused_value(),
{
    match s.paused {
        Some(v) => v,
        None => false,
    }
}

/// Same as [`get_paused`].
pub fn is_paused(s: &Storage) -> (paused: bool)
    ensures
        paused == s@.paused_value(),
{
    get_paused(s)
}

/// The admin set (empty when it was never written).
pub fn get_admins(s: &Storage) -> (admins: Vec<Address>)
    ensures
        admins@ == s@.admins_value(),
{
    match &s.admins {
        Some(a) => copy_addresses(a),
        None => Vec::new(),
    }
}

pub fn set_admins(s: &mut Storage, admins: &Vec<Address>)
    ensures
        final(s)@ == (StorageView { admins: Some(admins@), ..old(s)@ }),
{
    s.admins = Some(copy_addresses(admins));
}

pub fn get_threshold(s: &Storage) -> (threshold: u32)
    ensures
        threshold == s@.threshold_value(),
{
    match s.threshold {
        Some(v) => v,
        None => 1,
    }
}

pub fn set_threshold(s: &mut Storage, threshold: u32)
    ensures
        final(s)@ == (StorageView { threshold: Some(threshold), ..old(s)@ }),
{
    s.threshold = Some(threshold);
}

pub fn get_claim_votes(s: &Storage, policy_id: u64) -> (votes: Option<ClaimVotes>)
    ensures
        match votes {
            Some(v) => s@.claim_votes.contains_key(policy_id) && votes_view(v) == s@.claim_votes[policy_id],
            None => !s@.claim_votes.contains_key(policy_id),
        },
{
    match s.claim_votes.get(&policy_id) {
        Some(v) => Some(v.duplicate()),
        None => None,
    }
}

pub fn set_claim_votes(s: &mut Storage, policy_id: u64, votes: &ClaimVotes)
    ensures
        final(s)@ == (StorageView { claim_votes: old(s)@.claim_votes.insert(policy_id, votes_view(*votes)), ..old(s)@ }),
{
    s.claim_votes.insert(policy_id, votes.duplicate());
    assert(s@.claim_votes =~= old(s)@.claim_votes.insert(policy_id, votes_view(*votes)));
}

pub fn clear_claim_votes(s: &mut Storage, policy_id: u64)
    ensures
        final(s)@ == (StorageView { claim_votes: old(s)@.claim_votes.remove(policy_id), ..old(s)@ }),
{
    s.claim_votes.remove(&policy_id);
    assert(s@.claim_votes =~= old(s)@.claim_votes.remove(policy_id));
}

pub fn get_total_premium(s: &Storage) -> (amount: i128)
    ensures
        amount == s@.total_premium_value(),
{
    match s.total_premium {
        Some(v) => v,
        None => 0,
    }
}

pub fn set_total_premium(s: &mut Storage, amount: i128)
    ensures
        final(s)@ == (StorageView { total_premium: Some(amount), ..old(s)@ }),
{
    s.total_premium = Some(amount);
}

pub fn get_total_payouts(s: &Storage) -> (amount: i128)
    ensures
        amount == s@.total_payouts_value(),
{
    match s.total_payouts {
        Some(v) => v,
        None => 0,
    }
}

pub fn set_total_payouts(s: &mut Storage, amount: i128)
    ensures
        final(s)@ == (StorageView { total_payouts: Some(amount), ..old(s)@ }),
{
    s.total_payouts = Some(amount);
}

pub fn get_risk_pool(s: &Storage) -> (pool: Option<Address>)
    ensures
        pool == s@.risk_pool,
{
    s.risk_pool
}

pub fn set_risk_pool(s: &mut Storage, risk_pool: &Address)
    ensures
        final(s)@ == (StorageView { risk_pool: Some(*risk_pool), ..old(s)@ }),
{
    s.risk_pool = Some(*risk_pool);
}

/// Liquidity, yield credited and number of registered providers.
pub fn get_pool_stats(s: &Storage) -> (stats: PoolStats)
    requires
        s@.providers_value().len() <= u32::MAX,
    ensures
        stats.total_liquidity == s@.liquidity_value(),
        stats.total_yield_distributed == s@.yield_distributed_value(),
        stats.provider_count == s@.providers_value().len(),
{
    let providers = get_registered_provider_vec(s);
    PoolStats {
        total_liquidity: get_total_liquidity(s),
        total_yield_distributed: get_total_yield_distributed(s),
        provider_count: providers.len() as u32,
    }
}

pub fn set_max_policies(s: &mut Storage, max_policies: u64)
    ensures
        final(s)@ == (StorageView { max_policies: Some(max_policies), ..old(s)@ }),
{
    s.max_policies = Some(max_policies);
}

pub fn get_max_policies(s: &Storage) -> (max_policies: u64)
    ensures
        max_policies == s@.max_policies_value(),
{
    match s.max_policies {
        Some(v) => v,
        None => DEFAULT_MAX_POLICIES,
    }
}

pub fn set_reserve_ratio(s: &mut Storage, ratio: u32)
    ensures
        final(s)@ == (StorageView { reserve_ratio: Some(ratio), ..old(s)@ }),
{
    s.reserve_ratio = Some(ratio);
}

pub fn get_reserve_ratio(s: &Storage) -> (ratio: u32)
    ensures
        ratio == s@.reserve_ratio_value(),
{
    match s.reserve_ratio {
        Some(v) => v,
        None => DEFAULT_RESERVE_RATIO,
    }
}


/// Registers `provider` at the end of the provider list unless it is
/// already there.
pub fn ensure_provider_registered(s: &mut Storage, provider: &Address)
    ensures
        final(s)@ == (StorageView {
            providers: if old(s)@.providers_value().contains(*provider) {
                old(s)@.providers
            } else {
                Some(old(s)@.providers_value().push(*provider))
            },
            ..old(s)@
        }),
{
    let mut providers = get_registered_provider_vec(s);
    if !vec_contains(&providers, provider) {
        providers.push(*provider);
        s.providers = Some(Providers(providers));
    }
}

/// Drops `provider` from the provider list.
pub fn unregister_provider(s: &mut Storage, provider: &Address)
    ensures
        final(s)@ == (StorageView {
            providers: Some(old(s)@.providers_value().filter(other_than(*provider))),
            ..old(s)@
        }),
{
    let providers = get_registered_provider_vec(s);
    let filtered = without_address(&providers, provider);
    s.providers = Some(Providers(filtered));
}

/// Whether `address` may act as an admin (see [`StorageView::has_admin`]).
pub fn is_admin(s: &Storage, address: &Address) -> (admin: bool)
    ensures
        admin == s@.has_admin(*address),
{
    let admins = get_admins(s);
    if admins.len() == 0 {
        return match s.admin {
            Some(a) => a == *address,
            None => false,
        };
    }
    vec_contains(&admins, address)
}

proof fn lemma_table_take_step(t: Seq<(Symbol, Address)>, i: int)
    requires
        0 <= i < t.len(),
    ensures
        table_map(t.take(i + 1)) == table_map(t.take(i)).insert(t[i].0@, t[i].1),
{
    assert(t.take(i + 1).drop_last() =~= t.take(i));
}

proof fn lemma_table_prefix(t: Seq<(Symbol, Address)>, i: int, k: Seq<char>)
    requires
        0 <= i <= t.len(),
        forall|j: int| i <= j < t.len() ==> t[j].0@ != k,
    ensures
        table_map(t).contains_key(k) == table_map(t.take(i)).contains_key(k),
        table_map(t).contains_key(k) ==> table_map(t)[k] == table_map(t.take(i))[k],
    decreases t.len(),
{
    if t.len() == i {
        assert(t.take(i) =~= t);
    } else {
        lemma_table_prefix(t.drop_last(), i, k);
        assert(t.drop_last().take(i) =~= t.take(i));
    }
}

proof fn lemma_table_update_last(t: Seq<(Symbol, Address)>, i: int, k: Symbol, v: Address)
    requires
        0 <= i < t.len(),
        t[i].0@ == k@,
        forall|j: int| i < j < t.len() ==> t[j].0@ != k@,
    ensures
        table_map(t.update(i, (k, v))) == table_map(t).insert(k@, v),
    decreases t.len(),
{
    let u = t.update(i, (k, v));
    if i == t.len() - 1 {
        assert(u.drop_last() =~= t.drop_last());
        assert(table_map(u) =~= table_map(t).insert(k@, v));
    } else {
        assert(u.drop_last() =~= t.drop_last().update(i, (k, v)));
        lemma_table_update_last(t.drop_last(), i, k, v);
        assert(table_map(u) =~= table_map(t).insert(k@, v));
    }
}

/// Index of the entry in force for `key`, if any.
fn find_last_entry(table: &Vec<(Symbol, Address)>, key: &Symbol) -> (found: Option<usize>)
    ensures
        match found {
            Some(i) => {
                &&& i < table@.len()
                &&& table@[i as int].0@ == key@
                &&& forall|j: int| i < j < table@.len() ==> table@[j].0@ != key@
            },
            None => forall|j: int| 0 <= j < table@.len() ==> table@[j].0@ != key@,
        },
{
    let mut i: usize = table.len();
    while i > 0
        invariant
            i <= table@.len(),
            forall|j: int| i <= j < table@.len() ==> table@[j].0@ != key@,
        decreases i,
    {
        if table[i - 1].0 == *key {
            return Some(i - 1);
        }
        i -= 1;
    }
    None
}

/// The views of a list of symbols, one more element.
proof fn lemma_symbol_views_push(s: Seq<Symbol>, x: Symbol)
    ensures
        symbol_views(s.push(x)) == symbol_views(s).push(x@),
{
    assert(symbol_views(s.push(x)) =~= symbol_views(s).push(x@));
}

/// A copy of a list of symbols.
fn copy_symbols(v: &Vec<Symbol>) -> (copy: Vec<Symbol>)
    ensures
        symbol_views(copy@) == symbol_views(v@),
{
    let mut copy: Vec<Symbol> = Vec::new();
    let mut i: usize = 0;
    while i < v.len()
        invariant
            i <= v.len(),
            symbol_views(copy@) == symbol_views(v@.take(i as int)),
        decreases v.len() - i,
    {
        proof {
            assert(v@.take(i + 1) =~= v@.take(i as int).push(v@[i as int]));
            lemma_symbol_views_push(v@.take(i as int), v@[i as int]);
        }
        let x = v[i].clone();
        proof {
            lemma_symbol_views_push(copy@, x);
        }
        copy.push(x);
        i += 1;
    }
    assert(v@.take(v.len() as int) =~= v@);
    copy
}

/// Whether a symbol with the view of `key` occurs in `v`.
fn symbols_contain(v: &Vec<Symbol>, key: &Symbol) -> (found: bool)
    ensures
        found == symbol_views(v@).contains(key@),
{
    let mut i: usize = 0;
    while i < v.len()
        invariant
            i <= v.len(),
            forall|j: int| 0 <= j < i ==> v@[j]@ != key@,
        decreases v.len() - i,
    {
        if v[i] == *key {
            assert(symbol_views(v@)[i as int] == key@);
            return true;
        }
        i += 1;
    }
    assert(!symbol_views(v@).contains(key@)) by {
        if symbol_views(v@).contains(key@) {
            let j = choose|j: int| 0 <= j < symbol_views(v@).len() && symbol_views(v@)[j] == key@;
            assert(v@[j]@ == key@);
        }
    }
    false
}

/// `v` without the symbols whose view is that of `key`.
fn without_symbol(v: &Vec<Symbol>, key: &Symbol) -> (filtered: Vec<Symbol>)
    ensures
        symbol_views(filtered@) == symbol_views(v@).filter(other_symbol(key@)),
{
    let ghost keep = other_symbol(key@);
    let mut filtered: Vec<Symbol> = Vec::new();
    let mut i: usize = 0;
    while i < v.len()
        invariant
            i <= v.len(),
            keep == other_symbol(key@),
            symbol_views(filtered@) == symbol_views(v@.take(i as int)).filter(keep),
        decreases v.len() - i,
    {
        proof {
            assert(v@.take(i + 1) =~= v@.take(i as int).push(v@[i as int]));
            lemma_symbol_views_push(v@.take(i as int), v@[i as int]);
            symbol_views(v@.take(i as int)).lemma_filter_push(v@[i as int]@, keep);
        }
        if v[i] != *key {
            let x = v[i].clone();
            proof {
                lemma_symbol_views_push(filtered@, x);
            }
            filtered.push(x);
        }
        i += 1;
    }
    assert(v@.take(v.len() as int) =~= v@);
    filtered
}

/// Registers `oracle_address` as the oracle of `oracle_type`, and records
/// the type in the list of registered types unless it is already there.
pub fn set_oracle_address(s: &mut Storage, oracle_type: &Symbol, oracle_address: &Address)
    ensures
        final(s)@ == with_oracle(old(s)@, oracle_type@, *oracle_address),
{
    match find_last_entry(&s.oracle_table, oracle_type) {
        Some(i) => {
            let entry = (oracle_type.clone(), *oracle_address);
            proof {
                lemma_table_update_last(s.oracle_table@, i as int, entry.0, *oracle_address);
            }
            s.oracle_table[i] = entry;
        },
        None => {
            let ghost before = s.oracle_table@;
            s.oracle_table.push((oracle_type.clone(), *oracle_address));
            assert(s.oracle_table@.drop_last() =~= before);
        },
    }
    assert(s@.oracles =~= old(s)@.oracles.insert(oracle_type@, *oracle_address));
    let mut oracle_types = get_oracle_types(s);
    if !symbols_contain(&oracle_types, oracle_type) {
        let x = oracle_type.clone();
        proof {
            lemma_symbol_views_push(oracle_types@, x);
        }
        oracle_types.push(x);
        s.oracle_types = Some(oracle_types);
    }
}

/// The oracle registered for `oracle_type`, if any.
pub fn get_oracle_address(s: &Storage, oracle_type: &Symbol) -> (oracle: Option<Address>)
    ensures
        oracle == s@.oracles.get(oracle_type@),
{
    match find_last_entry(&s.oracle_table, oracle_type) {
        Some(i) => {
            proof {
                lemma_table_prefix(s.oracle_table@, i + 1, oracle_type@);
                lemma_table_take_step(s.oracle_table@, i as int);
            }
            Some(s.oracle_table[i].1)
        },
        None => {
            proof {
                lemma_table_prefix(s.oracle_table@, 0, oracle_type@);
                assert(s.oracle_table@.take(0) =~= Seq::<(Symbol, Address)>::empty());
            }
            None
        },
    }
}

/// Registered oracle types (none when the list was never written).
pub fn get_oracle_types(s: &Storage) -> (oracle_types: Vec<Symbol>)
    ensures
        symbol_views(oracle_types@) == s@.oracle_types_value(),
{
    match &s.oracle_types {
        Some(t) => copy_symbols(t),
        None => {
            let v: Vec<Symbol> = Vec::new();
            assert(symbol_views(v@) =~= Seq::<Seq<char>>::empty());
            v
        },
    }
}

/// Forgets the oracle of `oracle_type` and drops the type from the list.
pub fn remove_oracle_address(s: &mut Storage, oracle_type: &Symbol)
    ensures
        final(s)@ == without_oracle(old(s)@, oracle_type@),
{
    let ghost t = s.oracle_table@;
    let mut kept: Vec<(Symbol, Address)> = Vec::new();
    let mut i: usize = 0;
    while i < s.oracle_table.len()
        invariant
            i <= t.len(),
            t == s.oracle_table@,
            table_map(kept@) == table_map(t.take(i as int)).remove(oracle_type@),
        decreases t.len() - i,
    {
        proof {
            lemma_table_take_step(t, i as int);
        }
        if s.oracle_table[i].0 != *oracle_type {
            let entry = (s.oracle_table[i].0.clone(), s.oracle_table[i].1);
            let ghost before = kept@;
            kept.push(entry);
            assert(kept@.drop_last() =~= before);
            assert(table_map(kept@) =~= table_map(t.take(i + 1)).remove(oracle_type@));
        } else {
            assert(table_map(kept@) =~= table_map(t.take(i + 1)).remove(oracle_type@));
        }
        i += 1;
    }
    assert(t.take(t.len() as int) =~= t);
    s.oracle_table = kept;
    let oracle_types = get_oracle_types(s);
    let filtered = without_symbol(&oracle_types, oracle_type);
    s.oracle_types = Some(filtered);
}

} // verus!
