use vstd::prelude::*;

use crate::env::{outcome, Effect, Env};
use crate::error::Error;
use crate::storage;
use crate::types::Address;

verus! {

/// Holds of every address but `addr`.
pub open spec fn other_than(addr: Address) -> spec_fn(Address) -> bool {
    |a: Address| a != addr
}

/// Whether `addr` occurs in `vec`.
pub fn vec_contains(vec: &Vec<Address>, addr: &Address) -> (found: bool)
    ensures
        found == vec@.contains(*addr),
{
    let mut i: usize = 0;
    while i < vec.len()
        invariant
            i <= vec.len(),
            forall|j: int| 0 <= j < i ==> vec@[j] != *addr,
        decreases vec.len() - i,
    {
        if vec[i] == *addr {
            return true;
        }
        i += 1;
    }
    false
}

/// `vec` with every occurrence of `addr` left out, order kept.
pub fn without_address(vec: &Vec<Address>, addr: &Address) -> (filtered: Vec<Address>)
    ensures
        filtered@ == vec@.filter(other_than(*addr)),
{
    let ghost keep = other_than(*addr);
    let mut filtered: Vec<Address> = Vec::new();
    let mut i: usize = 0;
    while i < vec.len()
        invariant
            i <= vec.len(),
            filtered@ == vec@.take(i as int).filter(keep),
            keep == other_than(*addr),
        decreases vec.len() - i,
    {
        proof {
            assert(vec@.take(i + 1) =~= vec@.take(i as int).push(vec@[i as int]));
            vec@.take(i as int).lemma_filter_push(vec@[i as int], keep);
        }
        if vec[i] != *addr {
            filtered.push(vec[i]);
        }
        i += 1;
    }
    assert(vec@.take(vec.len() as int) == vec@);
    filtered
}


/// Demands `caller`'s authorisation and refuses callers that are not admins.
pub fn require_admin(env: &mut Env, caller: &Address) -> (result: Result<(), Error>)
    ensures
        result == (if old(env).storage@.has_admin(*caller) {
            Ok::<(), Error>(())
        } else {
            Err(Error::Unauthorized)
        }),
        outcome(*old(env), *final(env), old(env).storage@, seq![Effect::RequireAuth(*caller)]),
{
    env.emit(Effect::RequireAuth(*caller));
    if !storage::is_admin(&env.storage, caller) {
        return Err(Error::Unauthorized);
    }
    Ok(())
}

/// `approval_count` approvals settle a claim.
pub open spec fn approvals_suffice(threshold: u32, approval_count: int) -> bool {
    approval_count >= threshold
}

/// After `rejection_count` rejections among `admin_count` admins, the
/// admins yet to reject can no longer make up `threshold` approvals.
pub open spec fn rejections_suffice(threshold: u32, admin_count: int, rejection_count: int) -> bool {
    admin_count - rejection_count < threshold
}

/// Whether `approval_count` approvals reach the approval threshold.
pub fn threshold_reached(env: &Env, approval_count: u32) -> (reached: bool)
    ensures
        reached == approvals_suffice(env.storage@.threshold_value(), approval_count as int),
{
    approval_count >= storage::get_threshold(&env.storage)
}

/// Whether `rejection_count` rejections leave the threshold out of reach.
pub fn rejection_forced(env: &Env, rejection_count: u32) -> (forced: bool)
    ensures
        forced == rejections_suffice(
            env.storage@.threshold_value(),
            env.storage@.admins_value().len() as int,
            rejection_count as int,
        ),
{
    let admin_count = storage::get_admins(&env.storage).len();
    let threshold = storage::get_threshold(&env.storage);
    if rejection_count as usize > admin_count {
        true
    } else {
        ((admin_count - rejection_count as usize) as u64) < threshold as u64
    }
}

} // verus!
