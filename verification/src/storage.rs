//! The ledger of contributions made and payouts received.
//!
//! A record, once written, is never removed, so a cycle that has just begun
//! has no contribution on record for anyone.

use crate::address::Address;
use vstd::prelude::*;

verus! {

/// "This member has contributed to this group in this cycle."
#[derive(Clone, Copy, Debug, Eq, Hash)]
pub struct ContributionRecord {
    pub group_id: u64,
    pub cycle: u32,
    pub member: Address,
}

/// "This member has received the pool of this group."
#[derive(Clone, Copy, Debug, Eq, Hash)]
pub struct PayoutRecord {
    pub group_id: u64,
    pub member: Address,
}

impl PartialEq for ContributionRecord {
    fn eq(&self, other: &Self) -> (same: bool) {
        self.group_id == other.group_id && self.cycle == other.cycle && self.member == other.member
    }
}

impl vstd::std_specs::cmp::PartialEqSpecImpl for ContributionRecord {
    open spec fn obeys_eq_spec() -> bool {
        true
    }

    open spec fn eq_spec(&self, other: &Self) -> bool {
        *self == *other
    }
}

impl PartialEq for PayoutRecord {
    fn eq(&self, other: &Self) -> (same: bool) {
        self.group_id == other.group_id && self.member == other.member
    }
}

impl vstd::std_specs::cmp::PartialEqSpecImpl for PayoutRecord {
    open spec fn obeys_eq_spec() -> bool {
        true
    }

    open spec fn eq_spec(&self, other: &Self) -> bool {
        *self == *other
    }
}

/// The contribution flags of `members`, in roster order, for one cycle of one
/// group, read off a set of contribution records.
pub open spec fn cycle_flags(
    contributions: Set<ContributionRecord>,
    group_id: u64,
    cycle: u32,
    members: Seq<Address>,
) -> Seq<(Address, bool)> {
    Seq::new(
        members.len(),
        |i: int|
            (members[i], contributions.contains(ContributionRecord { group_id, cycle, member: members[i] })),
    )
}

/// Whether every one of `members` has a contribution on record for the cycle.
pub open spec fn all_contributed(
    contributions: Set<ContributionRecord>,
    group_id: u64,
    cycle: u32,
    members: Seq<Address>,
) -> bool {
    forall|i: int|
        0 <= i < members.len() ==> contributions.contains(
            #[trigger] contribution_of(group_id, cycle, members[i]),
        )
}

/// The record that says `member` contributed to `group_id` in `cycle`.
pub open spec fn contribution_of(group_id: u64, cycle: u32, member: Address) -> ContributionRecord {
    ContributionRecord { group_id, cycle, member }
}

/// The record that says `member` received the pool of `group_id`.
pub open spec fn payout_of(group_id: u64, member: Address) -> PayoutRecord {
    PayoutRecord { group_id, member }
}

/// All contribution and payout records ever written.
#[derive(Debug)]
pub struct Ledger {
    contributions: Vec<ContributionRecord>,
    payouts: Vec<PayoutRecord>,
}

impl Ledger {
    /// The contributions on record.
    pub closed spec fn contributions(&self) -> Set<ContributionRecord> {
        self.contributions@.to_set()
    }

    /// The payouts on record.
    pub closed spec fn payouts(&self) -> Set<PayoutRecord> {
        self.payouts@.to_set()
    }

    /// A ledger with nothing on record.
    pub fn new() -> (ledger: Ledger)
        ensures
            ledger.contributions() == Set::<ContributionRecord>::empty(),
            ledger.payouts() == Set::<PayoutRecord>::empty(),
    {
        Ledger { contributions: Vec::new(), payouts: Vec::new() }
    }

    /// Whether `member` has a contribution on record for `cycle` of the group.
    /// Nothing on record means no.
    pub fn has_contributed(&self, group_id: u64, cycle: u32, member: &Address) -> (found: bool)
        ensures
            found == self.contributions().contains(contribution_of(group_id, cycle, *member)),
    {
        let wanted = ContributionRecord { group_id, cycle, member: *member };
        let mut i: usize = 0;
        while i < self.contributions.len()
            invariant
                i <= self.contributions.len(),
                wanted == contribution_of(group_id, cycle, *member),
                forall|j: int| 0 <= j < i ==> self.contributions@[j] != wanted,
            decreases self.contributions.len() - i,
        {
            if self.contributions[i] == wanted {
                return true;
            }
            i += 1;
        }
        false
    }

    /// Puts on record that `member` contributed to the group in `cycle`.
    pub fn store_contribution(&mut self, group_id: u64, cycle: u32, member: Address)
        ensures
            final(self).contributions() == old(self).contributions().insert(
                contribution_of(group_id, cycle, member),
            ),
            final(self).payouts() == old(self).payouts(),
    {
        let record = ContributionRecord { group_id, cycle, member };
        proof {
            lemma_push_to_set(self.contributions@, record);
        }
        self.contributions.push(record);
    }

    /// The contribution flag of each of `members`, in the order given, for
    /// `cycle` of the group.
    pub fn get_cycle_contributions(
        &self,
        group_id: u64,
        cycle: u32,
        members: &Vec<Address>,
    ) -> (flags: Vec<(Address, bool)>)
        ensures
            flags@ == cycle_flags(self.contributions(), group_id, cycle, members@),
    {
        let mut flags: Vec<(Address, bool)> = Vec::new();
        let mut i: usize = 0;
        while i < members.len()
            invariant
                i <= members.len(),
                flags@ == cycle_flags(self.contributions(), group_id, cycle, members@.take(i as int)),
            decreases members.len() - i,
        {
            let member = members[i];
            let flag = self.has_contributed(group_id, cycle, &member);
            flags.push((member, flag));
            i += 1;
        }
        flags
    }

    /// Whether `member` has received the pool of the group.
    pub fn has_received_payout(&self, group_id: u64, member: &Address) -> (found: bool)
        ensures
            found == self.payouts().contains(payout_of(group_id, *member)),
    {
        let wanted = PayoutRecord { group_id, member: *member };
        let mut i: usize = 0;
        while i < self.payouts.len()
            invariant
                i <= self.payouts.len(),
                wanted == payout_of(group_id, *member),
                forall|j: int| 0 <= j < i ==> self.payouts@[j] != wanted,
            decreases self.payouts.len() - i,
        {
            if self.payouts[i] == wanted {
                return true;
            }
            i += 1;
        }
        false
    }

    /// Puts on record that `member` received the pool of the group.
    pub fn mark_payout_received(&mut self, group_id: u64, member: Address)
        ensures
            final(self).payouts() == old(self).payouts().insert(payout_of(group_id, member)),
            final(self).contributions() == old(self).contributions(),
    {
        let record = PayoutRecord { group_id, member };
        proof {
            lemma_push_to_set(self.payouts@, record);
        }
        self.payouts.push(record);
    }
}

/// Appending to a sequence adds exactly the new item to its set of items.
proof fn lemma_push_to_set<A>(s: Seq<A>, a: A)
    ensures
        s.push(a).to_set() == s.to_set().insert(a),
{
    assert forall|x: A| s.push(a).to_set().contains(x) <==> s.to_set().insert(a).contains(x) by {
        if s.contains(x) {
            let i = choose|i: int| 0 <= i < s.len() && s[i] == x;
            assert(s.push(a)[i] == x);
        }
        if x == a {
            assert(s.push(a)[s.len() as int] == x);
        }
    }
}

} // verus!
