//! The operations on a single group: creation, joining, the contribution
//! check, the payout that moves the rotation on, and the status snapshot.

use crate::address::Address;
use crate::errors::AjoError;
use crate::types::{params_verdict, pending_of, received_count, Group, GroupStatus, GroupView, Payout};
use crate::utils::{all_distinct, calculate_payout_amount, is_member, validate_group_params};
use vstd::prelude::*;

verus! {

impl Clone for Group {
    fn clone(&self) -> (copy: Self)
        ensures
            copy@ == self@,
    {
        let members = self.members.clone();
        Group {
            id: self.id,
            creator: self.creator,
            contribution_amount: self.contribution_amount,
            cycle_duration: self.cycle_duration,
            max_members: self.max_members,
            members,
            current_cycle: self.current_cycle,
            payout_index: self.payout_index,
            created_at: self.created_at,
            cycle_start_time: self.cycle_start_time,
            is_complete: self.is_complete,
        }
    }
}

impl Group {
    /// Creates the group `id` at time `now`, with `creator` as its only
    /// member, in cycle 1 and with nobody paid yet. Unacceptable parameters
    /// are refused as [`validate_group_params`] says.
    pub fn new(
        id: u64,
        creator: Address,
        contribution_amount: i128,
        cycle_duration: u64,
        max_members: u32,
        now: u64,
    ) -> (result: Result<Group, AjoError>)
        ensures
            match params_verdict(contribution_amount, cycle_duration, max_members) {
                Ok(()) => result is Ok && result->Ok_0@ == GroupView::fresh(
                    id,
                    creator,
                    contribution_amount,
                    cycle_duration,
                    max_members,
                    now,
                ) && result->Ok_0.wf(),
                Err(e) => result is Err && result->Err_0 == e,
            },
    {
        match validate_group_params(contribution_amount, cycle_duration, max_members) {
            Err(e) => Err(e),
            Ok(()) => {
                let mut members: Vec<Address> = Vec::new();
                members.push(creator);
                let group = Group {
                    id,
                    creator,
                    contribution_amount,
                    cycle_duration,
                    max_members,
                    members,
                    current_cycle: 1,
                    payout_index: 0,
                    created_at: now,
                    cycle_start_time: now,
                    is_complete: false,
                };
                Ok(group)
            },
        }
    }

    /// Whether the record is one that the operations could have produced:
    /// acceptable parameters, a roster without repetition that starts with
    /// the creator and fits the capacity, the payout index within the roster,
    /// closed exactly when the index has reached its end, and the cycle one
    /// ahead of the index until then. A record that comes from elsewhere,
    /// from storage for one, is to be checked before it is worked on.
    pub fn is_valid(&self) -> (valid: bool)
        ensures
            valid == self.wf(),
    {
        if validate_group_params(
            self.contribution_amount,
            self.cycle_duration,
            self.max_members,
        ).is_err() {
            return false;
        }
        let count = self.members.len();
        if count == 0 || count > self.max_members as usize {
            return false;
        }
        if !(self.members[0] == self.creator) {
            return false;
        }
        let index = self.payout_index as usize;
        if index > count || self.is_complete != (index == count) {
            return false;
        }
        let ahead: u64 = if self.is_complete {
            0
        } else {
            1
        };
        if self.current_cycle as u64 != self.payout_index as u64 + ahead {
            return false;
        }
        all_distinct(&self.members)
    }

    /// Puts `member` at the end of the roster, which fixes their turn in
    /// the rotation. Refused, with the group unchanged, on a closed group
    /// (`GroupComplete`), for someone already on the roster
    /// (`AlreadyMember`) and on a full roster (`MaxMembersExceeded`).
    pub fn join(&mut self, member: Address) -> (result: Result<(), AjoError>)
        ensures
            old(self).wf() ==> final(self).wf(),
            match old(self)@.join(member) {
                Ok(next) => result == Ok::<(), AjoError>(()) && final(self)@ == next,
                Err(e) => result == Err::<(), AjoError>(e) && final(self)@ == old(self)@,
            },
    {
        if self.is_complete {
            return Err(AjoError::GroupComplete);
        }
        if is_member(&self.members, &member) {
            return Err(AjoError::AlreadyMember);
        }
        if self.members.len() >= self.max_members as usize {
            return Err(AjoError::MaxMembersExceeded);
        }
        self.members.push(member);
        Ok(())
    }

    /// Whether `member` may contribute now; `already` says whether the
    /// active cycle holds a contribution from them. Refused on a closed group
    /// (`GroupComplete`), for a stranger (`NotMember`) and for a second
    /// contribution in one cycle (`AlreadyContributed`).
    pub fn check_contribution(&self, member: &Address, already: bool) -> (verdict: Result<
        (),
        AjoError,
    >)
        ensures
            verdict == self@.contribution_verdict(*member, already),
    {
        if self.is_complete {
            return Err(AjoError::GroupComplete);
        }
        if !is_member(&self.members, member) {
            return Err(AjoError::NotMember);
        }
        if already {
            return Err(AjoError::AlreadyContributed);
        }
        Ok(())
    }

    /// Whether a payout would go ahead; `all_contributed` says whether every
    /// member has contributed in the active cycle. Refused on a closed group
    /// (`GroupComplete`), while a contribution is missing
    /// (`IncompleteContributions`), and when the payout index points past
    /// the roster (`NoMembers`), which no well-formed group lets happen.
    pub fn payout_verdict(&self, all_contributed: bool) -> (verdict: Result<(), AjoError>)
        ensures
            verdict == self@.payout_verdict(all_contributed),
    {
        if self.is_complete {
            return Err(AjoError::GroupComplete);
        }
        if !all_contributed {
            return Err(AjoError::IncompleteContributions);
        }
        if self.payout_index as usize >= self.members.len() {
            return Err(AjoError::NoMembers);
        }
        Ok(())
    }

    /// Whether a payout stays within the machine types, as
    /// [`Group::execute_payout`] needs it where the payout goes ahead.
    pub fn payout_fits(&self) -> (fits: bool)
        ensures
            fits == self@.payout_fits(),
    {
        let count = self.members.len();
        if self.contribution_amount.checked_mul(count as i128).is_none() {
            return false;
        }
        if self.payout_index == u32::MAX {
            return false;
        }
        let last = self.payout_index as u64 + 1 >= count as u64;
        last || self.current_cycle < u32::MAX
    }

    /// Settles the active cycle at time `now`. The whole pool goes to the
    /// member at the payout index; the index moves on by one; then the group
    /// either closes, when that was the last member, or enters its next
    /// cycle. Refused, with the group unchanged, where
    /// [`Group::payout_verdict`] refuses. Where the payout goes ahead, it
    /// must fit the machine types.
    pub fn execute_payout(&mut self, all_contributed: bool, now: u64) -> (result: Result<
        Payout,
        AjoError,
    >)
        requires
            old(self)@.payout_verdict(all_contributed) is Ok ==> old(self)@.payout_fits(),
        ensures
            old(self).wf() ==> final(self).wf(),
            match old(self)@.payout_verdict(all_contributed) {
                Ok(()) => result == Ok::<Payout, AjoError>(old(self)@.payout()) && final(self)@
                    == old(self)@.paid_out(now),
                Err(e) => result == Err::<Payout, AjoError>(e) && final(self)@ == old(self)@,
            },
    {
        if let Err(e) = self.payout_verdict(all_contributed) {
            return Err(e);
        }
        let recipient = self.members[self.payout_index as usize];
        let amount = calculate_payout_amount(self);
        let cycle = self.current_cycle;
        self.payout_index += 1;
        let completed = self.payout_index as usize >= self.members.len();
        if completed {
            self.is_complete = true;
        } else {
            self.current_cycle += 1;
            self.cycle_start_time = now;
        }
        Ok(Payout { recipient, amount, cycle, completed })
    }

    /// Whether a snapshot built from `flags` stays within the machine types,
    /// as [`Group::status`] needs it.
    pub fn status_fits(&self, flags: &Vec<(Address, bool)>) -> (fits: bool)
        ensures
            fits == self@.status_fits(flags@.len()),
    {
        let limit = u32::MAX as usize;
        self.members.len() <= limit && flags.len() <= limit && self.cycle_start_time.checked_add(
            self.cycle_duration,
        ).is_some()
    }

    /// The snapshot of the group at time `now`. `flags` holds the
    /// contribution flag of every member for the active cycle, in roster
    /// order: the snapshot counts those that are set and lists the members
    /// whose flag is not. The member count, the number of flags and the
    /// nominal end of the cycle must fit their machine types.
    pub fn status(&self, flags: &Vec<(Address, bool)>, now: u64) -> (status: GroupStatus)
        requires
            self@.status_fits(flags@.len()),
        ensures
            status.reports(self@, flags@, now),
    {
        let cycle_end_time = self.cycle_start_time + self.cycle_duration;
        let is_cycle_active = now < cycle_end_time;

        let mut contributions_received: u32 = 0;
        let mut pending_contributors: Vec<Address> = Vec::new();
        let mut i: usize = 0;
        while i < flags.len()
            invariant
                i <= flags.len(),
                flags@.len() <= u32::MAX,
                contributions_received == received_count(flags@.take(i as int)),
                contributions_received <= i,
                pending_contributors@ == pending_of(flags@.take(i as int)),
            decreases flags.len() - i,
        {
            let (member, has_contributed) = flags[i];
            proof {
                let seen = flags@.take(i as int);
                assert(flags@.take(i + 1) == seen.push(flags@[i as int]));
                seen.lemma_filter_push(flags@[i as int], |f: (Address, bool)| f.1);
                seen.lemma_filter_push(flags@[i as int], |f: (Address, bool)| !f.1);
            }
            if has_contributed {
                contributions_received += 1;
            } else {
                pending_contributors.push(member);
            }
            i += 1;
        }
        assert(flags@.take(flags.len() as int) == flags@);

        let has_next_recipient = !self.is_complete;
        let next_recipient = if self.is_complete || self.payout_index as usize >= self.members.len() {
            self.creator
        } else {
            self.members[self.payout_index as usize]
        };

        GroupStatus {
            group_id: self.id,
            current_cycle: self.current_cycle,
            has_next_recipient,
            next_recipient,
            contributions_received,
            total_members: self.members.len() as u32,
            pending_contributors,
            is_complete: self.is_complete,
            is_cycle_active,
            cycle_start_time: self.cycle_start_time,
            cycle_end_time,
            current_time: now,
        }
    }
}

} // verus!
