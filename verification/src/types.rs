//! The record of one savings group, its mathematical model, and the rules by
//! which the model moves from one state to the next.

use crate::address::Address;
use crate::errors::AjoError;
use vstd::prelude::*;

verus! {

/// One rotating savings group.
#[derive(Debug, PartialEq, Eq)]
pub struct Group {
    /// Identifier, unique among all groups.
    pub id: u64,
    /// Who created the group; always the first member.
    pub creator: Address,
    /// What every member pays per cycle.
    pub contribution_amount: i128,
    /// Nominal length of a cycle, in seconds.
    pub cycle_duration: u64,
    /// Capacity of the roster, fixed at creation.
    pub max_members: u32,
    /// The roster, in join order, which is also the payout order.
    pub members: Vec<Address>,
    /// The active contribution round, counted from 1.
    pub current_cycle: u32,
    /// Position in the roster of the next member to be paid.
    pub payout_index: u32,
    /// When the group was created.
    pub created_at: u64,
    /// When the active cycle began.
    pub cycle_start_time: u64,
    /// Whether every member has been paid.
    pub is_complete: bool,
}

/// The mathematical model of a [`Group`]: the same record with the roster as
/// a sequence.
#[verifier::ext_equal]
pub struct GroupView {
    pub id: u64,
    pub creator: Address,
    pub contribution_amount: i128,
    pub cycle_duration: u64,
    pub max_members: u32,
    pub members: Seq<Address>,
    pub current_cycle: u32,
    pub payout_index: u32,
    pub created_at: u64,
    pub cycle_start_time: u64,
    pub is_complete: bool,
}

impl View for Group {
    type V = GroupView;

    open spec fn view(&self) -> GroupView {
        GroupView {
            id: self.id,
            creator: self.creator,
            contribution_amount: self.contribution_amount,
            cycle_duration: self.cycle_duration,
            max_members: self.max_members,
            members: self.members@,
            current_cycle: self.current_cycle,
            payout_index: self.payout_index,
            created_at: self.created_at,
            cycle_start_time: self.cycle_start_time,
            is_complete: self.is_complete,
        }
    }
}

/// Which of the creation parameters, if any, is unacceptable. The amount is
/// looked at first, then the duration, then the capacity.
pub open spec fn params_verdict(
    contribution_amount: i128,
    cycle_duration: u64,
    max_members: u32,
) -> Result<(), AjoError> {
    if contribution_amount <= 0 {
        Err(AjoError::InvalidAmount)
    } else if cycle_duration == 0 {
        Err(AjoError::InvalidCycleDuration)
    } else if max_members < 2 {
        Err(AjoError::InvalidMaxMembers)
    } else {
        Ok(())
    }
}

impl GroupView {
    /// What holds of every group after every operation.
    pub open spec fn wf(self) -> bool {
        &&& self.contribution_amount > 0
        &&& self.cycle_duration > 0
        &&& self.max_members >= 2
        &&& self.members.len() >= 1
        &&& self.members[0] == self.creator
        &&& self.members.no_duplicates()
        &&& self.payout_index <= self.members.len() <= self.max_members
        &&& self.is_complete == (self.payout_index == self.members.len())
        &&& self.current_cycle == self.payout_index + (if self.is_complete { 0int } else { 1int })
    }

    /// The group as it stands right after creation at time `now`.
    pub open spec fn fresh(
        id: u64,
        creator: Address,
        contribution_amount: i128,
        cycle_duration: u64,
        max_members: u32,
        now: u64,
    ) -> GroupView {
        GroupView {
            id,
            creator,
            contribution_amount,
            cycle_duration,
            max_members,
            members: seq![creator],
            current_cycle: 1,
            payout_index: 0,
            created_at: now,
            cycle_start_time: now,
            is_complete: false,
        }
    }

    /// Taking in `member`: refused on a closed group, for someone already on
    /// the roster, and on a full roster, in that order; otherwise the
    /// newcomer goes to the end of the roster.
    pub open spec fn join(self, member: Address) -> Result<GroupView, AjoError> {
        if self.is_complete {
            Err(AjoError::GroupComplete)
        } else if self.members.contains(member) {
            Err(AjoError::AlreadyMember)
        } else if self.members.len() >= self.max_members {
            Err(AjoError::MaxMembersExceeded)
        } else {
            Ok(GroupView { members: self.members.push(member), ..self })
        }
    }

    /// Whether `member` may contribute now, given whether the active cycle
    /// already holds a contribution from them.
    pub open spec fn contribution_verdict(self, member: Address, already: bool) -> Result<
        (),
        AjoError,
    > {
        if self.is_complete {
            Err(AjoError::GroupComplete)
        } else if !self.members.contains(member) {
            Err(AjoError::NotMember)
        } else if already {
            Err(AjoError::AlreadyContributed)
        } else {
            Ok(())
        }
    }

    /// The full pool of one cycle: every member's contribution.
    pub open spec fn pool(self) -> int {
        self.contribution_amount * self.members.len()
    }

    /// Whether a payout would go ahead, given whether all members have
    /// contributed in the active cycle.
    pub open spec fn payout_verdict(self, all_contributed: bool) -> Result<(), AjoError> {
        if self.is_complete {
            Err(AjoError::GroupComplete)
        } else if !all_contributed {
            Err(AjoError::IncompleteContributions)
        } else if self.payout_index >= self.members.len() {
            Err(AjoError::NoMembers)
        } else {
            Ok(())
        }
    }

    /// Who is paid next.
    pub open spec fn recipient(self) -> Address {
        self.members[self.payout_index as int]
    }

    /// Whether the next payout is the last one.
    pub open spec fn last_payout(self) -> bool {
        self.payout_index + 1 >= self.members.len()
    }

    /// What the next payout hands out: the whole pool of the active cycle to
    /// the member at the payout index.
    pub open spec fn payout(self) -> Payout {
        Payout {
            recipient: self.recipient(),
            amount: self.pool() as i128,
            cycle: self.current_cycle,
            completed: self.last_payout(),
        }
    }

    /// The group after one payout at time `now`: the index moves on by one;
    /// then either the group closes, or the next cycle starts at `now`.
    pub open spec fn paid_out(self, now: u64) -> GroupView {
        if self.last_payout() {
            GroupView { payout_index: (self.payout_index + 1) as u32, is_complete: true, ..self }
        } else {
            GroupView {
                payout_index: (self.payout_index + 1) as u32,
                current_cycle: (self.current_cycle + 1) as u32,
                cycle_start_time: now,
                ..self
            }
        }
    }

    /// Whether a payout can be carried out within the limits of the machine
    /// types: the pool fits the amount type, and the payout index and, unless
    /// the group closes, the cycle can still be raised by one. Of these a
    /// well-formed group can only miss the first.
    pub open spec fn payout_fits(self) -> bool {
        &&& i128::MIN <= self.pool() <= i128::MAX
        &&& self.payout_index < u32::MAX
        &&& !self.last_payout() ==> self.current_cycle < u32::MAX
    }

    /// When the active cycle nominally ends.
    pub open spec fn cycle_end(self) -> int {
        self.cycle_start_time + self.cycle_duration
    }

    /// Whether a snapshot built from `flags` contribution flags stays within
    /// the limits of the machine types: the member count and the number of
    /// flags fit a 32-bit count, and the nominal end of the cycle fits the
    /// time type. Of these a well-formed group with one flag per member can
    /// only miss the last.
    pub open spec fn status_fits(self, flags: nat) -> bool {
        &&& self.members.len() <= u32::MAX
        &&& flags <= u32::MAX
        &&& self.cycle_end() <= u64::MAX
    }
}

/// A snapshot of a group for observers.
#[derive(Clone, Debug, PartialEq, Eq)]
pub struct GroupStatus {
    pub group_id: u64,
    pub current_cycle: u32,
    /// Whether anyone is still due a payout.
    pub has_next_recipient: bool,
    /// Who is paid next; the creator stands in once nobody is.
    pub next_recipient: Address,
    /// How many members have contributed in the active cycle.
    pub contributions_received: u32,
    pub total_members: u32,
    /// The members who have not contributed in the active cycle, in roster
    /// order.
    pub pending_contributors: Vec<Address>,
    pub is_complete: bool,
    /// Whether the nominal end of the active cycle still lies ahead.
    pub is_cycle_active: bool,
    pub cycle_start_time: u64,
    pub cycle_end_time: u64,
    /// The time at which the snapshot was taken.
    pub current_time: u64,
}

/// What one payout hands to the outside world.
#[derive(Clone, Copy, Debug, PartialEq, Eq)]
pub struct Payout {
    /// Who receives the pool.
    pub recipient: Address,
    /// The whole pool of the cycle.
    pub amount: i128,
    /// The cycle that was settled.
    pub cycle: u32,
    /// Whether this payout closed the group.
    pub completed: bool,
}

/// How many of the flags are set.
pub open spec fn received_count(flags: Seq<(Address, bool)>) -> nat {
    flags.filter(|f: (Address, bool)| f.1).len()
}

/// The members whose flag is not set, in the order of the flags.
pub open spec fn pending_of(flags: Seq<(Address, bool)>) -> Seq<Address> {
    flags.filter(|f: (Address, bool)| !f.1).map_values(|f: (Address, bool)| f.0)
}

impl GroupStatus {
    /// Whether this snapshot is the one of `group` at time `now`, where
    /// `flags` gives each member's contribution flag for the active cycle.
    pub open spec fn reports(&self, group: GroupView, flags: Seq<(Address, bool)>, now: u64) -> bool {
        &&& self.group_id == group.id
        &&& self.current_cycle == group.current_cycle
        &&& self.has_next_recipient == !group.is_complete
        &&& self.next_recipient == if !group.is_complete && group.payout_index < group.members.len() {
            group.recipient()
        } else {
            group.creator
        }
        &&& self.contributions_received == received_count(flags)
        &&& self.total_members == group.members.len()
        &&& self.pending_contributors@ == pending_of(flags)
        &&& self.is_complete == group.is_complete
        &&& self.is_cycle_active == (now < group.cycle_end())
        &&& self.cycle_start_time == group.cycle_start_time
        &&& self.cycle_end_time == group.cycle_end()
        &&& self.current_time == now
    }
}

impl Group {
    /// What holds of every group after every operation.
    pub open spec fn wf(&self) -> bool {
        self@.wf()
    }
}

} // verus!
