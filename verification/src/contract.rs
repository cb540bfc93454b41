//! The registry of savings groups and the operations on it.

use crate::address::Address;
use crate::errors::AjoError;
use crate::events::Event;
use crate::state::{
    lemma_contribute_keeps_wf, lemma_create_group_keeps_wf, lemma_execute_payout_keeps_wf,
    lemma_initialize_keeps_wf, lemma_join_group_keeps_wf, ContractView,
};
use crate::storage::{contribution_of, cycle_flags, ContributionRecord, Ledger, PayoutRecord};
use crate::types::{Group, GroupStatus};
use crate::utils::{
    all_members_contributed, install_admin, is_member, require_group, upgrade_authority,
};
use vstd::prelude::*;

verus! {

/// The registry: every group ever created, the ledger of contributions and
/// payouts, the administrator, and the notifications that the operations
/// have raised and nobody has collected yet.
///
/// The caller vouches for the identity on whose behalf it invokes an
/// operation; the registry does not authenticate anyone.
#[derive(Debug)]
pub struct AjoContract {
    admin: Option<Address>,
    /// The group with identifier `id` is stored at position `id - 1`.
    groups: Vec<Group>,
    ledger: Ledger,
    events: Vec<Event>,
}

impl View for AjoContract {
    type V = ContractView;

    closed spec fn view(&self) -> ContractView {
        ContractView {
            admin: self.admin,
            group_count: self.groups@.len(),
            groups: Map::new(
                |id: u64| 1 <= id <= self.groups@.len(),
                |id: u64| self.groups@[id - 1]@,
            ),
            contributions: self.ledger.contributions(),
            payouts: self.ledger.payouts(),
            events: self.events@,
        }
    }
}

impl AjoContract {
    /// What holds of the registry after every operation.
    pub open spec fn wf(&self) -> bool {
        self@.wf()
    }

    /// A registry without administrator, groups, records or notifications.
    pub fn new() -> (contract: AjoContract)
        ensures
            contract.wf(),
            contract@ == ContractView::empty(),
    {
        let contract = AjoContract {
            admin: None,
            groups: Vec::new(),
            ledger: Ledger::new(),
            events: Vec::new(),
        };
        contract
    }

    /// Where the group `group_id` is stored, if it exists.
    fn slot(&self, group_id: u64) -> (slot: Option<usize>)
        ensures
            match slot {
                Some(i) => self@.groups.contains_key(group_id) && i == group_id - 1 && i
                    < self.groups@.len() && self.groups@[i as int]@ == self@.groups[group_id],
                None => !self@.groups.contains_key(group_id),
            },
    {
        if group_id == 0 || group_id > self.groups.len() as u64 {
            None
        } else {
            Some((group_id - 1) as usize)
        }
    }

    /// Installs `admin` as administrator. This works once:
    /// `AlreadyInitialized` from then on.
    pub fn initialize(&mut self, admin: Address) -> (result: Result<(), AjoError>)
        ensures
            old(self).wf() ==> final(self).wf(),
            final(self)@ == old(self)@.initialize(admin).0,
            result == old(self)@.initialize(admin).1,
    {
        let installed = match install_admin(self.admin, admin) {
            Ok(installed) => installed,
            Err(e) => {
                return Err(e);
            },
        };
        self.admin = Some(installed);
        proof {
            if old(self).wf() {
                lemma_initialize_keeps_wf(old(self)@, admin);
            }
        }
        Ok(())
    }

    /// Names the administrator, whose authorisation an upgrade needs:
    /// `Unauthorized` while none is installed.
    pub fn upgrade(&self) -> (result: Result<Address, AjoError>)
        ensures
            result == self@.upgrade(),
    {
        upgrade_authority(self.admin)
    }

    /// Creates a group at time `now` and returns its identifier, the next
    /// in sequence. The creator is its first member; it starts in cycle 1
    /// with nobody paid. A `GroupCreated` notification is raised.
    ///
    /// Refused with `InvalidAmount` unless `contribution_amount > 0`, with
    /// `InvalidCycleDuration` unless `cycle_duration > 0`, with
    /// `InvalidMaxMembers` unless `max_members >= 2`, in that order.
    pub fn create_group(
        &mut self,
        creator: Address,
        contribution_amount: i128,
        cycle_duration: u64,
        max_members: u32,
        now: u64,
    ) -> (result: Result<u64, AjoError>)
        requires
            old(self).wf(),
        ensures
            final(self).wf(),
            final(self)@ == old(self)@.create_group(
                creator,
                contribution_amount,
                cycle_duration,
                max_members,
                now,
            ).0,
            result == old(self)@.create_group(
                creator,
                contribution_amount,
                cycle_duration,
                max_members,
                now,
            ).1,
    {
        // The identifier of a group is its position in the sequence, counted
        // from 1, so it is known once the group has its place.
        let group = match Group::new(
            0,
            creator,
            contribution_amount,
            cycle_duration,
            max_members,
            now,
        ) {
            Ok(group) => group,
            Err(e) => {
                return Err(e);
            },
        };
        let slot = self.groups.len();
        self.groups.push(group);
        let group_id = self.groups.len() as u64;
        self.groups[slot].id = group_id;
        self.events.push(
            Event::GroupCreated { group_id, creator, contribution_amount, max_members },
        );
        proof {
            let spec_next = old(self)@.create_group(
                creator,
                contribution_amount,
                cycle_duration,
                max_members,
                now,
            ).0;
            assert(self@ == spec_next);
            lemma_create_group_keeps_wf(
                old(self)@,
                creator,
                contribution_amount,
                cycle_duration,
                max_members,
                now,
            );
        }
        Ok(group_id)
    }

    /// The record of the group: `GroupNotFound` if there is none. The record
    /// of a well-formed registry is well-formed.
    pub fn get_group(&self, group_id: u64) -> (result: Result<Group, AjoError>)
        ensures
            match result {
                Ok(group) => self@.groups.contains_key(group_id) && group@
                    == self@.groups[group_id] && (self.wf() ==> group.wf()),
                Err(e) => e == AjoError::GroupNotFound && !self@.groups.contains_key(group_id),
            },
    {
        let found = match self.slot(group_id) {
            Some(i) => Some(self.groups[i].clone()),
            None => None,
        };
        require_group(found)
    }

    /// The roster of the group in join order: `GroupNotFound` if there is
    /// no such group.
    pub fn list_members(&self, group_id: u64) -> (result: Result<Vec<Address>, AjoError>)
        ensures
            match result {
                Ok(members) => self@.groups.contains_key(group_id) && members@
                    == self@.groups[group_id].members,
                Err(e) => e == AjoError::GroupNotFound && !self@.groups.contains_key(group_id),
            },
    {
        match self.slot(group_id) {
            None => Err(AjoError::GroupNotFound),
            Some(i) => {
                let members = self.groups[i].members.clone();
                Ok(members)
            },
        }
    }

    /// Adds `member` to the end of the roster of the group, which fixes
    /// their turn in the rotation, and raises a `MemberJoined` notification.
    /// Joining is possible at any time before the group is full or closed.
    ///
    /// Refused, with nothing changed: `GroupNotFound`; `GroupComplete` on
    /// a closed group; `AlreadyMember`; `MaxMembersExceeded` on a full
    /// roster; the first that applies.
    pub fn join_group(&mut self, member: Address, group_id: u64) -> (result: Result<(), AjoError>)
        requires
            old(self).wf(),
        ensures
            final(self).wf(),
            final(self)@ == old(self)@.join_group(member, group_id).0,
            result == old(self)@.join_group(member, group_id).1,
    {
        let slot = match self.slot(group_id) {
            Some(slot) => slot,
            None => {
                return Err(AjoError::GroupNotFound);
            },
        };
        let outcome = self.groups[slot].join(member);
        if outcome.is_ok() {
            self.events.push(Event::MemberJoined { group_id, member });
        }
        proof {
            assert(self@.groups =~= old(self)@.join_group(member, group_id).0.groups);
            lemma_join_group_keeps_wf(old(self)@, member, group_id);
        }
        outcome
    }

    /// Whether `address` is on the roster of the group: `GroupNotFound` if
    /// there is no such group.
    pub fn is_member(&self, group_id: u64, address: Address) -> (result: Result<bool, AjoError>)
        ensures
            result == if self@.groups.contains_key(group_id) {
                Ok::<bool, AjoError>(self@.groups[group_id].members.contains(address))
            } else {
                Err::<bool, AjoError>(AjoError::GroupNotFound)
            },
    {
        match self.slot(group_id) {
            None => Err(AjoError::GroupNotFound),
            Some(i) => Ok(is_member(&self.groups[i].members, &address)),
        }
    }

    /// Puts on record that `member` contributed in the active cycle of the
    /// group and raises a `ContributionMade` notification. Moving the money
    /// is the caller's business.
    ///
    /// Refused, with nothing changed: `GroupNotFound`; `GroupComplete` on
    /// a closed group; `NotMember`; `AlreadyContributed` when the member's
    /// contribution for the active cycle is on record; the first that
    /// applies.
    pub fn contribute(&mut self, member: Address, group_id: u64) -> (result: Result<(), AjoError>)
        requires
            old(self).wf(),
        ensures
            final(self).wf(),
            final(self)@ == old(self)@.contribute(member, group_id).0,
            result == old(self)@.contribute(member, group_id).1,
    {
        let slot = match self.slot(group_id) {
            Some(slot) => slot,
            None => {
                return Err(AjoError::GroupNotFound);
            },
        };
        let cycle = self.groups[slot].current_cycle;
        let amount = self.groups[slot].contribution_amount;
        let already = self.ledger.has_contributed(group_id, cycle, &member);
        match self.groups[slot].check_contribution(&member, already) {
            Err(e) => Err(e),
            Ok(()) => {
                self.ledger.store_contribution(group_id, cycle, member);
                self.events.push(Event::ContributionMade { group_id, member, cycle, amount });
                proof {
                    lemma_contribute_keeps_wf(old(self)@, member, group_id);
                }
                Ok(())
            },
        }
    }

    /// Whether `member` has a contribution on record for `cycle` of the
    /// group. Nothing on record means no.
    pub fn has_contributed(&self, group_id: u64, cycle: u32, member: Address) -> (found: bool)
        ensures
            found == self@.contributions.contains(contribution_of(group_id, cycle, member)),
    {
        self.ledger.has_contributed(group_id, cycle, &member)
    }

    /// The contribution flag of every current member for `cycle` of the
    /// group, in roster order: `GroupNotFound` if there is no such group.
    pub fn get_contribution_status(&self, group_id: u64, cycle_number: u32) -> (result: Result<
        Vec<(Address, bool)>,
        AjoError,
    >)
        ensures
            match result {
                Ok(flags) => self@.groups.contains_key(group_id) && flags@ == cycle_flags(
                    self@.contributions,
                    group_id,
                    cycle_number,
                    self@.groups[group_id].members,
                ),
                Err(e) => e == AjoError::GroupNotFound && !self@.groups.contains_key(group_id),
            },
    {
        match self.slot(group_id) {
            None => Err(AjoError::GroupNotFound),
            Some(i) => Ok(
                self.ledger.get_cycle_contributions(group_id, cycle_number, &self.groups[i].members),
            ),
        }
    }

    /// Settles the active cycle of the group at time `now`. Anyone may
    /// ask for this; all it waits for is that every member has contributed
    /// in the active cycle. The member at the payout index receives the
    /// whole pool, which is put on record and announced by a
    /// `PayoutExecuted` notification. The payout index moves on by one.
    /// When that was the last member the group closes for good, with a
    /// `GroupCompleted` notification; otherwise the next cycle begins at
    /// `now`, with no contribution on record.
    ///
    /// Refused, with nothing changed: `GroupNotFound`; `GroupComplete` on
    /// a closed group; `IncompleteContributions` while a member's
    /// contribution is missing; the first that applies. The pool must fit
    /// the amount type.
    pub fn execute_payout(&mut self, group_id: u64, now: u64) -> (result: Result<(), AjoError>)
        requires
            old(self).wf(),
            old(self)@.payout_verdict(group_id) is Ok ==> old(self)@.groups[group_id].pool()
                <= i128::MAX,
        ensures
            final(self).wf(),
            final(self)@ == old(self)@.execute_payout(group_id, now).0,
            result == old(self)@.execute_payout(group_id, now).1,
    {
        let slot = match self.slot(group_id) {
            Some(slot) => slot,
            None => {
                return Err(AjoError::GroupNotFound);
            },
        };
        let funded = all_members_contributed(&self.ledger, &self.groups[slot]);
        match self.groups[slot].execute_payout(funded, now) {
            Err(e) => {
                proof {
                    assert(self@.groups =~= old(self)@.groups);
                }
                Err(e)
            },
            Ok(payout) => {
                self.ledger.mark_payout_received(group_id, payout.recipient);
                self.events.push(
                    Event::PayoutExecuted {
                        group_id,
                        recipient: payout.recipient,
                        cycle: payout.cycle,
                        amount: payout.amount,
                    },
                );
                if payout.completed {
                    self.events.push(Event::GroupCompleted { group_id });
                }
                proof {
                    let spec_next = old(self)@.execute_payout(group_id, now).0;
                    assert(self@.groups =~= spec_next.groups);
                    assert(self@.events =~= spec_next.events);
                    lemma_execute_payout_keeps_wf(old(self)@, group_id, now);
                }
                Ok(())
            },
        }
    }

    /// Whether every member of the group has been paid: `GroupNotFound` if
    /// there is no such group.
    pub fn is_complete(&self, group_id: u64) -> (result: Result<bool, AjoError>)
        ensures
            result == if self@.groups.contains_key(group_id) {
                Ok::<bool, AjoError>(self@.groups[group_id].is_complete)
            } else {
                Err::<bool, AjoError>(AjoError::GroupNotFound)
            },
    {
        match self.slot(group_id) {
            None => Err(AjoError::GroupNotFound),
            Some(i) => Ok(self.groups[i].is_complete),
        }
    }

    /// The snapshot of the group at time `now`: where the rotation stands,
    /// who is paid next, how many members have contributed in the active
    /// cycle and who has not, and the nominal timing of the cycle, which
    /// nothing enforces. `GroupNotFound` if there is no such group. The
    /// nominal end of the cycle must fit the time type.
    pub fn get_group_status(&self, group_id: u64, now: u64) -> (result: Result<
        GroupStatus,
        AjoError,
    >)
        requires
            self.wf(),
            self@.groups.contains_key(group_id) ==> self@.groups[group_id].cycle_end() <= u64::MAX,
        ensures
            match result {
                Ok(status) => self@.groups.contains_key(group_id) && status.reports(
                    self@.groups[group_id],
                    cycle_flags(
                        self@.contributions,
                        group_id,
                        self@.groups[group_id].current_cycle,
                        self@.groups[group_id].members,
                    ),
                    now,
                ),
                Err(e) => e == AjoError::GroupNotFound && !self@.groups.contains_key(group_id),
            },
    {
        match self.slot(group_id) {
            None => Err(AjoError::GroupNotFound),
            Some(i) => {
                let group = &self.groups[i];
                let flags = self.ledger.get_cycle_contributions(
                    group_id,
                    group.current_cycle,
                    &group.members,
                );
                Ok(group.status(&flags, now))
            },
        }
    }

    /// Hands over the notifications raised since the last collection, oldest
    /// first, and forgets them.
    pub fn take_events(&mut self) -> (events: Vec<Event>)
        ensures
            old(self).wf() ==> final(self).wf(),
            events@ == old(self)@.events,
            final(self)@ == (ContractView { events: Seq::empty(), ..old(self)@ }),
    {
        let mut events: Vec<Event> = Vec::new();
        std::mem::swap(&mut events, &mut self.events);
        proof {
            if old(self).wf() {
                let before = old(self)@;
                let after = self@;
                assert forall|r: ContributionRecord| after.contributions.contains(r) implies after.in_order(
                    r,
                ) by {
                    assert(before.in_order(r));
                }
                assert forall|p: PayoutRecord| after.payouts.contains(p) <==> after.has_paid(p) by {
                    assert(before.payouts.contains(p) <==> before.has_paid(p));
                }
            }
        }
        events
    }
}

} // verus!
