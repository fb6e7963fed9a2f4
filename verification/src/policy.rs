use vstd::prelude::*;

use crate::types::{Address, Claim, ClaimVotes, Policy, PolicyStatus};

verus! {

impl Policy {
    /// What is left of the cover once all approved claims are paid.
    pub open spec fn remaining(&self) -> int {
        self.coverage_amount - self.total_claimed
    }

    /// The policy can still take a claim at `now`.
    pub open spec fn claimable_at(&self, now: u64) -> bool {
        &&& self.status == PolicyStatus::Active
        &&& now <= self.end_time
        &&& self.remaining() > 0
    }

    /// Whether the policy's term has passed at `current_time`.
    pub fn is_expired(&self, current_time: u64) -> (expired: bool)
        ensures
            expired == (current_time > self.end_time),
    {
        current_time > self.end_time
    }

    /// Whether the policy is in force.
    pub fn is_active(&self) -> (active: bool)
        ensures
            active == (self.status == PolicyStatus::Active),
    {
        self.status == PolicyStatus::Active
    }

    /// Whether the policy can accept a claim at `current_time`.
    pub fn can_claim(&self, current_time: u64) -> (ok: bool)
        requires
            self.status == PolicyStatus::Active && current_time <= self.end_time
                ==> i128::MIN <= self.remaining() <= i128::MAX,
        ensures
            ok == self.claimable_at(current_time),
    {
        self.is_active() && !self.is_expired(current_time) && self.remaining_coverage() > 0
    }

    /// Coverage not yet paid out.
    pub fn remaining_coverage(&self) -> (remaining: i128)
        requires
            i128::MIN <= self.remaining() <= i128::MAX,
        ensures
            remaining == self.remaining(),
    {
        self.coverage_amount - self.total_claimed
    }

    /// A copy of the policy, field for field.
    pub fn duplicate(&self) -> (copy: Policy)
        ensures
            copy == *self,
    {
        Policy {
            id: self.id,
            policyholder: self.policyholder,
            beneficiary: self.beneficiary,
            policy_type: self.policy_type,
            coverage_amount: self.coverage_amount,
            premium: self.premium,
            start_time: self.start_time,
            end_time: self.end_time,
            trigger_condition: self.trigger_condition.clone(),
            status: self.status,
            claim_amount: self.claim_amount,
            total_claimed: self.total_claimed,
        }
    }
}

impl Claim {
    /// A copy of the claim, field for field.
    pub fn duplicate(&self) -> (copy: Claim)
        ensures
            copy == *self,
    {
        Claim {
            policy_id: self.policy_id,
            claim_amount: self.claim_amount,
            proof: self.proof.clone(),
            timestamp: self.timestamp,
            approved: self.approved,
        }
    }
}

/// A copy of a list of addresses.
pub fn copy_addresses(addresses: &Vec<Address>) -> (copy: Vec<Address>)
    ensures
        copy@ == addresses@,
{
    let mut copy: Vec<Address> = Vec::new();
    let mut i: usize = 0;
    while i < addresses.len()
        invariant
            i <= addresses.len(),
            copy@ == addresses@.subrange(0, i as int),
        decreases addresses.len() - i,
    {
        copy.push(addresses[i]);
        i += 1;
    }
    assert(addresses@.subrange(0, addresses.len() as int) == addresses@);
    copy
}

impl ClaimVotes {
    /// A copy of the votes.
    pub fn duplicate(&self) -> (copy: ClaimVotes)
        ensures
            copy.approvals@ == self.approvals@,
            copy.rejections@ == self.rejections@,
    {
        ClaimVotes { approvals: copy_addresses(&self.approvals), rejections: copy_addresses(&self.rejections) }
    }
}

} // verus!
