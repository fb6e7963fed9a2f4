//! Properties of the protocol as a whole, proved over the specifications
//! of its operations.

use vstd::prelude::*;

use vstd::arithmetic::div_mod::{lemma_div_is_ordered, lemma_div_multiples_vanish_quotient};

use crate::error::Error;
use crate::premium::{
    annual_rate_bps, premium_denominator, premium_numerator, premium_result,
    BASIS_POINTS, MIN_PREMIUM, SECONDS_PER_YEAR,
};
use crate::contract::{
    claims_sound, create_policy_refusal, extension_premium, fits_i128, lapses, pending_claim_on_record, renewal_base,
    with_policy,
};
use crate::multisig::{approvals_suffice, rejections_suffice};
use crate::storage::{other_symbol, with_oracle, without_oracle, StorageView};
use crate::risk_pool::{
    credit_all, deposit_refusal, deposited, reserve_of, share_of, stake_total, withdrawal_refusal, withdrawn,
};
use crate::types::{Address, Policy, PolicyStatus, PolicyType, ProviderPosition};

verus! {

/// What a premium quote costs, once it is known to be a price.
pub open spec fn quoted(r: Result<i128, Error>) -> i128 {
    match r {
        Ok(p) => p,
        Err(_) => 0,
    }
}

/// The part of the premium numerator that depends on the term alone.
pub open spec fn term_weight(duration: int) -> int {
    let y = SECONDS_PER_YEAR as int;
    if duration < y {
        duration * (2 * y - duration)
    } else {
        duration
    }
}

proof fn lemma_numerator_splits(policy_type: PolicyType, coverage: int, duration: int)
    ensures
        premium_numerator(policy_type, coverage, duration) == (coverage * annual_rate_bps(policy_type)) * term_weight(duration),
        premium_numerator(policy_type, coverage, duration) == annual_rate_bps(policy_type) * (coverage * term_weight(duration)),
{
    let r = annual_rate_bps(policy_type);
    let y = SECONDS_PER_YEAR as int;
    if duration < y {
        assert(coverage * r * duration * (2 * y - duration) == (coverage * r) * (duration * (2 * y - duration))) by (nonlinear_arith);
        assert((coverage * r) * (duration * (2 * y - duration)) == r * (coverage * (duration * (2 * y - duration)))) by (nonlinear_arith);
    } else {
        assert((coverage * r) * duration == r * (coverage * duration)) by (nonlinear_arith);
    }
}

/// No quote is below the minimum premium.
pub proof fn law_premium_at_least_minimum(policy_type: PolicyType, coverage: i128, duration: u64)
    requires
        premium_result(policy_type, coverage, duration) is Ok,
    ensures
        quoted(premium_result(policy_type, coverage, duration)) >= MIN_PREMIUM,
{
}

/// More cover never costs less, for the same kind of policy and term.
pub proof fn law_premium_grows_with_coverage(policy_type: PolicyType, smaller: i128, larger: i128, duration: u64)
    requires
        smaller <= larger,
        premium_result(policy_type, smaller, duration) is Ok,
        premium_result(policy_type, larger, duration) is Ok,
    ensures
        quoted(premium_result(policy_type, smaller, duration)) <= quoted(premium_result(policy_type, larger, duration)),
{
    let r = annual_rate_bps(policy_type);
    let w = term_weight(duration as int);
    lemma_numerator_splits(policy_type, smaller as int, duration as int);
    lemma_numerator_splits(policy_type, larger as int, duration as int);
    assert(w >= 1) by (nonlinear_arith)
        requires
            w == term_weight(duration as int),
            duration >= 1,
            SECONDS_PER_YEAR == 31_536_000,
    ;
    assert((smaller * r) * w <= (larger * r) * w) by (nonlinear_arith)
        requires
            smaller <= larger,
            r >= 0,
            w >= 1,
    ;
    lemma_div_is_ordered(
        premium_numerator(policy_type, smaller as int, duration as int),
        premium_numerator(policy_type, larger as int, duration as int),
        premium_denominator(duration as int),
    );
}

/// A policy type with a higher rate never costs less for the same cover and term.
pub proof fn law_premium_follows_rate(cheaper: PolicyType, dearer: PolicyType, coverage: i128, duration: u64)
    requires
        annual_rate_bps(cheaper) <= annual_rate_bps(dearer),
        premium_result(cheaper, coverage, duration) is Ok,
        premium_result(dearer, coverage, duration) is Ok,
    ensures
        quoted(premium_result(cheaper, coverage, duration)) <= quoted(premium_result(dearer, coverage, duration)),
{
    let w = term_weight(duration as int);
    let cw = coverage * w;
    lemma_numerator_splits(cheaper, coverage as int, duration as int);
    lemma_numerator_splits(dearer, coverage as int, duration as int);
    assert(w >= 1) by (nonlinear_arith)
        requires
            w == term_weight(duration as int),
            duration >= 1,
            SECONDS_PER_YEAR == 31_536_000,
    ;
    assert(cw >= 0) by (nonlinear_arith)
        requires
            cw == coverage * w,
            coverage > 0,
            w >= 1,
    ;
    assert(annual_rate_bps(cheaper) * cw <= annual_rate_bps(dearer) * cw) by (nonlinear_arith)
        requires
            annual_rate_bps(cheaper) <= annual_rate_bps(dearer),
            cw >= 0,
    ;
    lemma_div_is_ordered(
        premium_numerator(cheaper, coverage as int, duration as int),
        premium_numerator(dearer, coverage as int, duration as int),
        premium_denominator(duration as int),
    );
}

/// A longer term never costs less, for the same kind of policy and cover,
/// including across the one-year mark where the short-term loading ends.
pub proof fn law_premium_grows_with_duration(policy_type: PolicyType, coverage: i128, shorter: u64, longer: u64)
    requires
        shorter <= longer,
        premium_result(policy_type, coverage, shorter) is Ok,
        premium_result(policy_type, coverage, longer) is Ok,
    ensures
        quoted(premium_result(policy_type, coverage, shorter)) <= quoted(premium_result(policy_type, coverage, longer)),
{
    let y = SECONDS_PER_YEAR as int;
    let m = coverage * annual_rate_bps(policy_type);
    let d1 = shorter as int;
    let d2 = longer as int;
    lemma_numerator_splits(policy_type, coverage as int, d1);
    lemma_numerator_splits(policy_type, coverage as int, d2);
    assert(m >= 1) by (nonlinear_arith)
        requires
            m == coverage * annual_rate_bps(policy_type),
            coverage >= 1,
            annual_rate_bps(policy_type) >= 1,
    ;
    let n1 = premium_numerator(policy_type, coverage as int, d1);
    let n2 = premium_numerator(policy_type, coverage as int, d2);
    if d2 < y || y <= d1 {
        assert(term_weight(d1) <= term_weight(d2)) by (nonlinear_arith)
            requires
                d1 <= d2,
                d2 < y || y <= d1,
                term_weight(d1) == (if d1 < y { d1 * (2 * y - d1) } else { d1 }),
                term_weight(d2) == (if d2 < y { d2 * (2 * y - d2) } else { d2 }),
        ;
        assert(m * term_weight(d1) <= m * term_weight(d2)) by (nonlinear_arith)
            requires
                term_weight(d1) <= term_weight(d2),
                m >= 1,
        ;
        lemma_div_is_ordered(n1, n2, premium_denominator(d1));
    } else {
        // The shorter term is under a year, the longer one at least a year.
        let b = BASIS_POINTS as int;
        assert(d1 * (2 * y - d1) <= d2 * y) by (nonlinear_arith)
            requires
                0 <= d1 < y,
                y <= d2,
        ;
        assert(n1 <= y * (m * d2)) by (nonlinear_arith)
            requires
                n1 == m * (d1 * (2 * y - d1)),
                d1 * (2 * y - d1) <= d2 * y,
                m >= 1,
        ;
        assert(b * y * y == y * (b * y)) by (nonlinear_arith);
        lemma_div_is_ordered(n1, y * (m * d2), b * y * y);
        assert(m * d2 >= 0) by (nonlinear_arith)
            requires
                m >= 1,
                d2 >= 0,
        ;
        lemma_div_multiples_vanish_quotient(y, m * d2, b * y);
        assert(n2 == m * d2);
    }
}

/// A term of whole years is charged exactly pro rata, `coverage * rate *
/// years` in basis points, whenever that is above the minimum premium.
pub proof fn law_premium_whole_years(policy_type: PolicyType, coverage: i128, years: u64)
    requires
        years >= 1,
        years * SECONDS_PER_YEAR <= u64::MAX,
        premium_result(policy_type, coverage, (years * SECONDS_PER_YEAR) as u64) is Ok,
        coverage * annual_rate_bps(policy_type) * years / (BASIS_POINTS as int) >= MIN_PREMIUM,
    ensures
        quoted(premium_result(policy_type, coverage, (years * SECONDS_PER_YEAR) as u64))
            == coverage * annual_rate_bps(policy_type) * years / (BASIS_POINTS as int),
{
    let y = SECONDS_PER_YEAR as int;
    let d = years * y;
    let m = coverage * annual_rate_bps(policy_type) * years;
    let b = BASIS_POINTS as int;
    assert(d >= y) by (nonlinear_arith)
        requires
            d == years * y,
            years >= 1,
            y > 0,
    ;
    assert(premium_numerator(policy_type, coverage as int, d) == y * m) by (nonlinear_arith)
        requires
            d >= y,
            premium_numerator(policy_type, coverage as int, d) == coverage * annual_rate_bps(policy_type) * d,
            d == years * y,
            m == coverage * annual_rate_bps(policy_type) * years,
    ;
    assert(premium_denominator(d) == y * b) by (nonlinear_arith)
        requires
            d >= y,
            premium_denominator(d) == b * y,
    ;
    assert(m >= 0) by (nonlinear_arith)
        requires
            m == coverage * annual_rate_bps(policy_type) * years,
            coverage > 0,
            annual_rate_bps(policy_type) > 0,
            years >= 1,
    ;
    lemma_div_multiples_vanish_quotient(y, m, b);
}

/// The list of registered oracle types names exactly the types that have
/// an oracle, each once.
pub open spec fn oracles_listed(s: StorageView) -> bool {
    &&& forall|k: Seq<char>| #[trigger] s.oracles.contains_key(k) <==> s.oracle_types_value().contains(k)
    &&& s.oracle_types_value().no_duplicates()
}

/// Registering or replacing an oracle keeps the list of types exact.
pub proof fn law_registering_keeps_oracles_listed(s: StorageView, oracle_type: Seq<char>, oracle: Address)
    requires
        oracles_listed(s),
    ensures
        oracles_listed(with_oracle(s, oracle_type, oracle)),
        with_oracle(s, oracle_type, oracle).oracles[oracle_type] == oracle,
{
    let t = s.oracle_types_value();
    let u = with_oracle(s, oracle_type, oracle).oracle_types_value();
    if !t.contains(oracle_type) {
        assert(u == t.push(oracle_type));
        assert forall|k: Seq<char>| u.contains(k) <==> t.contains(k) || k == oracle_type by {
            if u.contains(k) {
                let j = choose|j: int| 0 <= j < u.len() && u[j] == k;
                if j < t.len() {
                    assert(t[j] == k);
                }
            }
            if t.contains(k) {
                let j = choose|j: int| 0 <= j < t.len() && t[j] == k;
                assert(u[j] == k);
            }
            if k == oracle_type {
                assert(u[t.len() as int] == k);
            }
        }
        assert forall|i: int, j: int| 0 <= i < u.len() && 0 <= j < u.len() && i != j implies u[i] != u[j] by {
            if i < t.len() && j < t.len() {
            } else if i == t.len() {
                assert(u[j] == t[j]);
            } else {
                assert(u[i] == t[i]);
            }
        }
    }
}

/// Unregistering an oracle keeps the list of types exact.
pub proof fn law_unregistering_keeps_oracles_listed(s: StorageView, oracle_type: Seq<char>)
    requires
        oracles_listed(s),
    ensures
        oracles_listed(without_oracle(s, oracle_type)),
        !without_oracle(s, oracle_type).oracles.contains_key(oracle_type),
{
    let t = s.oracle_types_value();
    let keep = other_symbol(oracle_type);
    let u = t.filter(keep);
    assert(without_oracle(s, oracle_type).oracle_types_value() == u);
    assert forall|k: Seq<char>| u.contains(k) <==> t.contains(k) && k != oracle_type by {
        if u.contains(k) {
            t.lemma_filter_contains_rev(keep, k);
            let j = choose|j: int| 0 <= j < u.len() && u[j] == k;
            t.lemma_filter_pred(keep, j);
        }
        if t.contains(k) && k != oracle_type {
            let j = choose|j: int| 0 <= j < t.len() && t[j] == k;
            t.lemma_filter_contains(keep, j);
        }
    }
    lemma_filter_no_duplicates(t, keep);
}

/// Filtering keeps a sequence free of repeats.
pub proof fn lemma_filter_no_duplicates<A>(s: Seq<A>, keep: spec_fn(A) -> bool)
    requires
        s.no_duplicates(),
    ensures
        s.filter(keep).no_duplicates(),
    decreases s.len(),
{
    reveal(Seq::filter);
    if s.len() > 0 {
        let init = s.drop_last();
        assert(init.no_duplicates()) by {
            assert forall|i: int, j: int| 0 <= i < init.len() && 0 <= j < init.len() && i != j implies init[i] != init[j] by {
                assert(init[i] == s[i] && init[j] == s[j]);
            }
        }
        lemma_filter_no_duplicates(init, keep);
        if keep(s.last()) {
            let g = init.filter(keep);
            assert(!g.contains(s.last())) by {
                if g.contains(s.last()) {
                    init.lemma_filter_contains_rev(keep, s.last());
                    let k = choose|k: int| 0 <= k < init.len() && init[k] == s.last();
                    assert(s[k] == s[s.len() - 1]);
                }
            }
            let h = g.push(s.last());
            assert forall|i: int, j: int| 0 <= i < h.len() && 0 <= j < h.len() && i != j implies h[i] != h[j] by {
                if i < g.len() && j < g.len() {
                } else if i == g.len() {
                    assert(h[j] == g[j]);
                } else {
                    assert(h[i] == g[i]);
                }
            }
        }
    }
}

/// In storage where no policy can pay beyond its cover, approving a
/// pending claim keeps what the policy has paid within its coverage.
pub proof fn law_approved_claim_stays_within_cover(s: StorageView, policy_id: u64)
    requires
        claims_sound(s),
        pending_claim_on_record(s, policy_id),
    ensures
        0 <= s.policies[policy_id].total_claimed + s.claims[policy_id].claim_amount <= s.policies[policy_id].coverage_amount,
        fits_i128(s.policies[policy_id].total_claimed + s.claims[policy_id].claim_amount),
{
    assert(s.policies.contains_key(policy_id));
}

/// A stored policy reads back as written, and storing it leaves every
/// other policy as it was.
pub proof fn law_policy_read_after_write(s: StorageView, policy_id: u64, policy: Policy, other: u64)
    ensures
        with_policy(s, policy_id, policy).policies.contains_key(policy_id),
        with_policy(s, policy_id, policy).policies[policy_id] == policy,
        other != policy_id ==> {
            &&& with_policy(s, policy_id, policy).policies.contains_key(other) == s.policies.contains_key(other)
            &&& with_policy(s, policy_id, policy).policies[other] == s.policies[other]
        },
{
}

/// The total credited by a distribution, once it is known to succeed.
pub open spec fn credited_total(r: Option<(Map<u64, ProviderPosition>, int)>) -> int {
    match r {
        Some((_, credited)) => credited,
        None => 0,
    }
}

proof fn lemma_share_bounded(amount: int, contribution: int, stake: int)
    requires
        amount >= 0,
        stake > 0,
    ensures
        0 <= share_of(amount, contribution, stake),
        share_of(amount, contribution, stake) * stake <= amount * (if contribution > 0 { contribution } else { 0 }),
{
    if contribution > 0 {
        let x = amount * contribution;
        assert(x >= 0) by (nonlinear_arith)
            requires
                x == amount * contribution,
                amount >= 0,
                contribution > 0,
        ;
        vstd::arithmetic::div_mod::lemma_fundamental_div_mod(x, stake);
        assert(x % stake >= 0) by {
            vstd::arithmetic::div_mod::lemma_mod_pos_bound(x, stake);
        }
        assert((x / stake) * stake <= x) by (nonlinear_arith)
            requires
                x == stake * (x / stake) + (x % stake),
                x % stake >= 0,
        ;
        assert(x / stake >= 0) by {
            vstd::arithmetic::div_mod::lemma_div_pos_is_pos(x, stake);
        }
    }
}

proof fn lemma_credit_bounded(
    positions: Map<u64, ProviderPosition>,
    list: Seq<Address>,
    amount: int,
    stake: int,
)
    requires
        amount >= 0,
        stake > 0,
        stake_total(positions, list) is Some,
        credit_all(positions, list, amount, stake) is Some,
    ensures
        ({
            let (m, credited) = credit_all(positions, list, amount, stake)->0;
            &&& 0 <= credited
            &&& credited * stake <= amount * stake_total(positions, list)->0
            &&& forall|k: u64| #[trigger] m.contains_key(k) <==> positions.contains_key(k)
            &&& forall|k: u64| #[trigger] m.contains_key(k) ==> m[k].contribution == positions[k].contribution
        }),
    decreases list.len(),
{
    if list.len() > 0 {
        let init = list.drop_last();
        lemma_credit_bounded(positions, init, amount, stake);
        let (m0, c0) = credit_all(positions, init, amount, stake)->0;
        let s0 = stake_total(positions, init)->0;
        let a = list.last();
        if m0.contains_key(a.0) {
            let p = m0[a.0];
            lemma_share_bounded(amount, p.contribution as int, stake);
            let sh = share_of(amount, p.contribution as int, stake);
            let cplus = if p.contribution > 0 { p.contribution as int } else { 0 };
            assert(stake_total(positions, list)->0 == s0 + cplus);
            assert((c0 + sh) * stake <= amount * (s0 + cplus)) by (nonlinear_arith)
                requires
                    c0 * stake <= amount * s0,
                    sh * stake <= amount * cplus,
            ;
        } else {
            assert(stake_total(positions, list)->0 == s0);
        }
    }
}

/// Sharing out yield never credits providers with more than the amount
/// shared out.
pub proof fn law_yield_credited_within_amount(
    positions: Map<u64, ProviderPosition>,
    list: Seq<Address>,
    amount: int,
    stake: int,
)
    requires
        amount >= 0,
        stake > 0,
        stake_total(positions, list) == Some(stake),
        credit_all(positions, list, amount, stake) is Some,
    ensures
        0 <= credited_total(credit_all(positions, list, amount, stake)) <= amount,
{
    lemma_credit_bounded(positions, list, amount, stake);
    let credited = credited_total(credit_all(positions, list, amount, stake));
    assert(credited <= amount) by (nonlinear_arith)
        requires
            credited * stake <= amount * stake,
            stake > 0,
    ;
}

/// Withdrawing what was just deposited gives the pool back exactly as it
/// was, for a provider that already has a stake in it: the deposit goes
/// through whenever its sums fit, and the withdrawal then goes through
/// exactly when the liquidity held before the deposit covers the reserve
/// of the enlarged pool.
pub proof fn law_withdrawal_undoes_deposit(s: StorageView, provider: Address, amount: i128)
    requires
        amount > 0,
        s.total_liquidity is Some,
        s.positions.contains_key(provider.0),
        s.providers_value().contains(provider),
        s.positions[provider.0].contribution >= 0,
        s.positions[provider.0].contribution != 0 || s.positions[provider.0].accrued_yield != 0,
        fits_i128(s.positions[provider.0].contribution + amount),
        fits_i128(s.liquidity_value() + amount),
    ensures
        deposit_refusal(s, provider, amount) is None,
        withdrawal_refusal(deposited(s, provider, amount), provider, amount) is None <==> (
            fits_i128((s.liquidity_value() + amount) * s.reserve_ratio_value())
            && s.liquidity_value() >= reserve_of(deposited(s, provider, amount))),
        withdrawn(deposited(s, provider, amount), provider, amount) == s,
{
    let t = deposited(s, provider, amount);
    let p = s.positions[provider.0];
    assert(t.positions[provider.0] == ProviderPosition { contribution: (p.contribution + amount) as i128, ..p });
    let u = withdrawn(t, provider, amount);
    assert(u.positions =~= s.positions);
}

/// A vote settles a claim exactly when the approvals reach the threshold,
/// and rejection is forced exactly when the admins who have not rejected
/// the claim are too few to reach the threshold even if all of them
/// approved; while they can still reach it, rejections decide nothing.
pub proof fn law_rejection_forced_only_when_approval_unreachable(threshold: u32, admin_count: int, rejection_count: int)
    ensures
        rejections_suffice(threshold, admin_count, rejection_count) <==> admin_count - rejection_count < threshold,
        rejections_suffice(threshold, admin_count, rejection_count) <==> !approvals_suffice(threshold, admin_count - rejection_count),
        approvals_suffice(threshold, rejection_count) <==> rejection_count >= threshold,
        admin_count - rejection_count >= threshold ==> !rejections_suffice(threshold, admin_count, rejection_count),
{
}

/// A renewal runs from the later of the renewal time and the policy's end:
/// an expired policy is renewed from now, an unexpired one from its end.
pub proof fn law_renewal_runs_from_later_of_now_and_end(policy: Policy, now: u64)
    ensures
        renewal_base(policy, now) >= now,
        renewal_base(policy, now) >= policy.end_time,
        renewal_base(policy, now) == now || renewal_base(policy, now) == policy.end_time,
        now > policy.end_time ==> renewal_base(policy, now) == now,
        now <= policy.end_time ==> renewal_base(policy, now) == policy.end_time,
{
}

/// Extending a policy costs the quote for its full coverage over the added
/// seconds, whatever premium the policy was bought at.
pub proof fn law_extension_priced_on_coverage(policy: Policy, extra_seconds: u64, premium: i128)
    ensures
        extension_premium(policy, extra_seconds) == premium_result(policy.policy_type, policy.coverage_amount, extra_seconds),
        extension_premium(Policy { premium, ..policy }, extra_seconds) == extension_premium(policy, extra_seconds),
{
}

/// Only an active policy lapses, and only once its end time has passed.
pub proof fn law_only_active_policies_lapse(policy: Policy, now: u64)
    ensures
        lapses(policy, now) <==> (policy.status == PolicyStatus::Active && now > policy.end_time),
        policy.status != PolicyStatus::Active ==> !lapses(policy, now),
        now <= policy.end_time ==> !lapses(policy, now),
{
}

/// A policy is created only at exactly the quoted premium: once the other
/// checks pass, any other premium, higher or lower, is refused as a
/// mismatch.
pub proof fn law_policy_created_only_at_quoted_premium(
    s: StorageView,
    policy_type: PolicyType,
    coverage_amount: i128,
    premium: i128,
    duration: u64,
)
    requires
        coverage_amount > 0,
        premium > 0,
        duration > 0,
        s.counter_value() < s.max_policies_value(),
        premium_result(policy_type, coverage_amount, duration) is Ok,
    ensures
        create_policy_refusal(s, policy_type, coverage_amount, premium, duration) is None
            <==> premium_result(policy_type, coverage_amount, duration) == Ok::<i128, Error>(premium),
        premium != premium_result(policy_type, coverage_amount, duration)->Ok_0
            ==> create_policy_refusal(s, policy_type, coverage_amount, premium, duration) == Some(Error::PremiumMismatch),
        create_policy_refusal(s, policy_type, coverage_amount, premium, duration) is None
            ==> premium == quoted(premium_result(policy_type, coverage_amount, duration)),
{
}

} // verus!
