//! The mathematical model of the whole registry of groups, and the rules by
//! which each operation moves it from one state to the next.

use crate::address::Address;
use crate::errors::AjoError;
use crate::events::Event;
use crate::storage::{
    all_contributed, contribution_of, payout_of, ContributionRecord, PayoutRecord,
};
use crate::types::{params_verdict, GroupView};
use vstd::prelude::*;

verus! {

/// Everything the registry knows: the administrator, the groups by
/// identifier, how many identifiers have been issued, the ledger of
/// contributions and payouts, and the notifications not yet collected.
#[verifier::ext_equal]
pub struct ContractView {
    pub admin: Option<Address>,
    pub group_count: nat,
    pub groups: Map<u64, GroupView>,
    pub contributions: Set<ContributionRecord>,
    pub payouts: Set<PayoutRecord>,
    pub events: Seq<Event>,
}

impl ContractView {
    /// The registry before anything has happened.
    pub open spec fn empty() -> ContractView {
        ContractView {
            admin: None,
            group_count: 0,
            groups: Map::empty(),
            contributions: Set::empty(),
            payouts: Set::empty(),
            events: Seq::empty(),
        }
    }

    /// A contribution record is in order when its group exists, its member
    /// is on that group's roster, and its cycle is one that the group has
    /// reached.
    pub open spec fn in_order(self, r: ContributionRecord) -> bool {
        &&& self.groups.contains_key(r.group_id)
        &&& self.groups[r.group_id].members.contains(r.member)
        &&& 1 <= r.cycle <= self.groups[r.group_id].current_cycle
    }

    /// Whether the rotation of the record's group has already passed the
    /// record's member.
    pub open spec fn has_paid(self, p: PayoutRecord) -> bool {
        &&& self.groups.contains_key(p.group_id)
        &&& self.groups[p.group_id].members.take(
            self.groups[p.group_id].payout_index as int,
        ).contains(p.member)
    }

    /// What holds of the registry after every operation: identifiers are
    /// issued in sequence from 1, every group is well-formed and stored under
    /// its own identifier, every contribution on record is in order, and the
    /// payouts on record are exactly those of the members that each rotation
    /// has passed.
    pub open spec fn wf(self) -> bool {
        &&& self.group_count <= u64::MAX
        &&& forall|id: u64| self.groups.contains_key(id) <==> 1 <= id <= self.group_count
        &&& forall|id: u64|
            self.groups.contains_key(id) ==> (#[trigger] self.groups[id]).wf() && self.groups[id].id
                == id
        &&& forall|r: ContributionRecord| self.contributions.contains(r) ==> self.in_order(r)
        &&& forall|p: PayoutRecord| self.payouts.contains(p) <==> self.has_paid(p)
    }

    /// Whether every member of the group has contributed in its active cycle.
    pub open spec fn cycle_funded(self, group_id: u64) -> bool {
        all_contributed(
            self.contributions,
            group_id,
            self.groups[group_id].current_cycle,
            self.groups[group_id].members,
        )
    }

    /// Installing the administrator: possible once.
    pub open spec fn initialize(self, admin: Address) -> (ContractView, Result<(), AjoError>) {
        if self.admin is Some {
            (self, Err(AjoError::AlreadyInitialized))
        } else {
            (ContractView { admin: Some(admin), ..self }, Ok(()))
        }
    }

    /// Who must authorise an upgrade.
    pub open spec fn upgrade(self) -> Result<Address, AjoError> {
        match self.admin {
            Some(admin) => Ok(admin),
            None => Err(AjoError::Unauthorized),
        }
    }

    /// Creating a group: the next identifier in sequence is issued, the
    /// group starts with its creator as only member, and the creation is
    /// announced.
    pub open spec fn create_group(
        self,
        creator: Address,
        contribution_amount: i128,
        cycle_duration: u64,
        max_members: u32,
        now: u64,
    ) -> (ContractView, Result<u64, AjoError>) {
        match params_verdict(contribution_amount, cycle_duration, max_members) {
            Err(e) => (self, Err(e)),
            Ok(()) => {
                let id = (self.group_count + 1) as u64;
                (
                    ContractView {
                        group_count: self.group_count + 1,
                        groups: self.groups.insert(
                            id,
                            GroupView::fresh(
                                id,
                                creator,
                                contribution_amount,
                                cycle_duration,
                                max_members,
                                now,
                            ),
                        ),
                        events: self.events.push(
                            Event::GroupCreated {
                                group_id: id,
                                creator,
                                contribution_amount,
                                max_members,
                            },
                        ),
                        ..self
                    },
                    Ok(id),
                )
            },
        }
    }

    /// Joining a group: the newcomer goes to the end of the roster and the
    /// joining is announced.
    pub open spec fn join_group(self, member: Address, group_id: u64) -> (
        ContractView,
        Result<(), AjoError>,
    ) {
        if !self.groups.contains_key(group_id) {
            (self, Err(AjoError::GroupNotFound))
        } else {
            match self.groups[group_id].join(member) {
                Err(e) => (self, Err(e)),
                Ok(next) => (
                    ContractView {
                        groups: self.groups.insert(group_id, next),
                        events: self.events.push(Event::MemberJoined { group_id, member }),
                        ..self
                    },
                    Ok(()),
                ),
            }
        }
    }

    /// Contributing: the contribution goes on record for the group's active
    /// cycle and is announced.
    pub open spec fn contribute(self, member: Address, group_id: u64) -> (
        ContractView,
        Result<(), AjoError>,
    ) {
        if !self.groups.contains_key(group_id) {
            (self, Err(AjoError::GroupNotFound))
        } else {
            let group = self.groups[group_id];
            let record = contribution_of(group_id, group.current_cycle, member);
            match group.contribution_verdict(member, self.contributions.contains(record)) {
                Err(e) => (self, Err(e)),
                Ok(()) => (
                    ContractView {
                        contributions: self.contributions.insert(record),
                        events: self.events.push(
                            Event::ContributionMade {
                                group_id,
                                member,
                                cycle: group.current_cycle,
                                amount: group.contribution_amount,
                            },
                        ),
                        ..self
                    },
                    Ok(()),
                ),
            }
        }
    }

    /// What a payout on the group would answer right now.
    pub open spec fn payout_verdict(self, group_id: u64) -> Result<(), AjoError> {
        if !self.groups.contains_key(group_id) {
            Err(AjoError::GroupNotFound)
        } else {
            self.groups[group_id].payout_verdict(self.cycle_funded(group_id))
        }
    }

    /// The notifications of one payout on `group`: the payout itself, then
    /// the completion when it was the last one.
    pub open spec fn payout_events(group: GroupView) -> Seq<Event> {
        let paid = Event::PayoutExecuted {
            group_id: group.id,
            recipient: group.recipient(),
            cycle: group.current_cycle,
            amount: group.pool() as i128,
        };
        if group.last_payout() {
            seq![paid, Event::GroupCompleted { group_id: group.id }]
        } else {
            seq![paid]
        }
    }

    /// Paying out: once the active cycle is fully funded, the member at the
    /// payout index receives the pool, the receipt goes on record, and the
    /// rotation moves on.
    pub open spec fn execute_payout(self, group_id: u64, now: u64) -> (
        ContractView,
        Result<(), AjoError>,
    ) {
        match self.payout_verdict(group_id) {
            Err(e) => (self, Err(e)),
            Ok(()) => {
                let group = self.groups[group_id];
                (
                    ContractView {
                        groups: self.groups.insert(group_id, group.paid_out(now)),
                        payouts: self.payouts.insert(payout_of(group_id, group.recipient())),
                        events: self.events + Self::payout_events(group),
                        ..self
                    },
                    Ok(()),
                )
            },
        }
    }
}

/// The first `n + 1` items of a sequence are the first `n` and the one at
/// position `n`.
proof fn lemma_take_one_more<A>(s: Seq<A>, n: int, a: A)
    requires
        0 <= n < s.len(),
    ensures
        s.take(n + 1).contains(a) <==> s.take(n).contains(a) || s[n] == a,
{
    if s[n] == a {
        assert(s.take(n + 1)[n] == a);
    }
}

/// Installing the administrator keeps the registry well-formed.
pub proof fn lemma_initialize_keeps_wf(s: ContractView, admin: Address)
    requires
        s.wf(),
    ensures
        s.initialize(admin).0.wf(),
{
    let next = s.initialize(admin).0;
    assert forall|r: ContributionRecord| next.contributions.contains(r) implies next.in_order(r) by {
        assert(s.in_order(r));
    }
    assert forall|p: PayoutRecord| next.payouts.contains(p) <==> next.has_paid(p) by {
        assert(s.payouts.contains(p) <==> s.has_paid(p));
    }
}

/// Creation keeps the registry well-formed, as long as identifiers remain.
pub proof fn lemma_create_group_keeps_wf(
    s: ContractView,
    creator: Address,
    contribution_amount: i128,
    cycle_duration: u64,
    max_members: u32,
    now: u64,
)
    requires
        s.wf(),
        s.group_count < u64::MAX,
    ensures
        s.create_group(creator, contribution_amount, cycle_duration, max_members, now).0.wf(),
{
    let next = s.create_group(creator, contribution_amount, cycle_duration, max_members, now).0;
    if params_verdict(contribution_amount, cycle_duration, max_members) is Ok {
        assert forall|r: ContributionRecord| next.contributions.contains(r) implies next.in_order(
            r,
        ) by {
            assert(s.in_order(r));
        }
        assert forall|p: PayoutRecord| next.payouts.contains(p) <==> next.has_paid(p) by {
            assert(s.payouts.contains(p) <==> s.has_paid(p));
        }
    }
}

/// Joining keeps the registry well-formed.
pub proof fn lemma_join_group_keeps_wf(s: ContractView, member: Address, group_id: u64)
    requires
        s.wf(),
    ensures
        s.join_group(member, group_id).0.wf(),
{
    let next = s.join_group(member, group_id).0;
    if s.join_group(member, group_id).1 is Ok {
        let before = s.groups[group_id];
        let after = before.join(member)->Ok_0;
        assert forall|r: ContributionRecord| next.contributions.contains(r) implies next.in_order(
            r,
        ) by {
            assert(s.in_order(r));
            if r.group_id == group_id {
                let i = choose|i: int|
                    0 <= i < before.members.len() && before.members[i] == r.member;
                assert(after.members[i] == r.member);
            }
        }
        assert forall|p: PayoutRecord| next.payouts.contains(p) <==> next.has_paid(p) by {
            assert(s.payouts.contains(p) <==> s.has_paid(p));
            assert(after.members.take(after.payout_index as int) =~= before.members.take(
                before.payout_index as int,
            ));
        }
    }
}

/// A contribution keeps the registry well-formed.
pub proof fn lemma_contribute_keeps_wf(s: ContractView, member: Address, group_id: u64)
    requires
        s.wf(),
    ensures
        s.contribute(member, group_id).0.wf(),
{
    let next = s.contribute(member, group_id).0;
    if s.contribute(member, group_id).1 is Ok {
        assert forall|r: ContributionRecord| next.contributions.contains(r) implies next.in_order(
            r,
        ) by {
            if s.contributions.contains(r) {
                assert(s.in_order(r));
            }
        }
        assert forall|p: PayoutRecord| next.payouts.contains(p) <==> next.has_paid(p) by {
            assert(s.payouts.contains(p) <==> s.has_paid(p));
        }
    }
}

/// A payout keeps the registry well-formed.
pub proof fn lemma_execute_payout_keeps_wf(s: ContractView, group_id: u64, now: u64)
    requires
        s.wf(),
    ensures
        s.execute_payout(group_id, now).0.wf(),
{
    let next = s.execute_payout(group_id, now).0;
    if s.execute_payout(group_id, now).1 is Ok {
        let before = s.groups[group_id];
        assert forall|r: ContributionRecord| next.contributions.contains(r) implies next.in_order(
            r,
        ) by {
            assert(s.in_order(r));
        }
        assert forall|p: PayoutRecord| next.payouts.contains(p) <==> next.has_paid(p) by {
            assert(s.payouts.contains(p) <==> s.has_paid(p));
            if p.group_id == group_id {
                lemma_take_one_more(before.members, before.payout_index as int, p.member);
            }
        }
    }
}

} // verus!
