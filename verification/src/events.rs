//! Notifications that describe each change of state.

use crate::address::Address;
use vstd::prelude::*;

verus! {

/// A notification for outside observers. Each one carries what is needed to
/// replay the transition it reports.
#[derive(Clone, Copy, Debug, PartialEq, Eq)]
pub enum Event {
    /// A group was created with `creator` as its first member.
    GroupCreated { group_id: u64, creator: Address, contribution_amount: i128, max_members: u32 },
    /// `member` was appended to the roster.
    MemberJoined { group_id: u64, member: Address },
    /// `member` contributed `amount` in `cycle`.
    ContributionMade { group_id: u64, member: Address, cycle: u32, amount: i128 },
    /// The pool of `cycle`, `amount` in total, went to `recipient`.
    PayoutExecuted { group_id: u64, recipient: Address, cycle: u32, amount: i128 },
    /// Every member has been paid and the group is closed.
    GroupCompleted { group_id: u64 },
}

} // verus!
