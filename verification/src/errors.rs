//! The ways in which an operation on a savings group can be refused.

use vstd::prelude::*;

verus! {

/// Why an operation was refused. Every refusal leaves the state untouched.
#[derive(Clone, Copy, Debug, PartialEq, Eq, Hash, Structural)]
pub enum AjoError {
    /// An administrator has already been installed.
    AlreadyInitialized,
    /// No administrator exists who could authorise the request.
    Unauthorized,
    /// The contribution amount is zero or negative.
    InvalidAmount,
    /// The cycle duration is zero.
    InvalidCycleDuration,
    /// The capacity is below two members.
    InvalidMaxMembers,
    /// No group carries the given identifier.
    GroupNotFound,
    /// The roster is already at capacity.
    MaxMembersExceeded,
    /// The identity is already on the roster.
    AlreadyMember,
    /// Every member has been paid; the group is closed.
    GroupComplete,
    /// The identity is not on the roster.
    NotMember,
    /// The member has already contributed in the active cycle.
    AlreadyContributed,
    /// Some member has not yet contributed in the active cycle.
    IncompleteContributions,
    /// The payout index points at no member.
    NoMembers,
}

} // verus!
