//! Small rules that several operations share.

use crate::address::Address;
use crate::errors::AjoError;
use crate::storage::{all_contributed, contribution_of, Ledger};
use crate::types::{params_verdict, Group};
use vstd::prelude::*;

verus! {

/// Checks the parameters of a new group: a positive amount, a positive cycle
/// duration, room for at least two members. The first failing check decides
/// the error.
pub fn validate_group_params(
    contribution_amount: i128,
    cycle_duration: u64,
    max_members: u32,
) -> (verdict: Result<(), AjoError>)
    ensures
        verdict == params_verdict(contribution_amount, cycle_duration, max_members),
{
    if contribution_amount <= 0 {
        return Err(AjoError::InvalidAmount);
    }
    if cycle_duration == 0 {
        return Err(AjoError::InvalidCycleDuration);
    }
    if max_members < 2 {
        return Err(AjoError::InvalidMaxMembers);
    }
    Ok(())
}

/// Who is administrator once `admin` asks to be installed where `current`
/// is what is installed so far: `admin`, unless there is one already, which
/// is `AlreadyInitialized`.
pub fn install_admin(current: Option<Address>, admin: Address) -> (installed: Result<
    Address,
    AjoError,
>)
    ensures
        installed == match current {
            Some(_) => Err::<Address, AjoError>(AjoError::AlreadyInitialized),
            None => Ok::<Address, AjoError>(admin),
        },
{
    match current {
        Some(_) => Err(AjoError::AlreadyInitialized),
        None => Ok(admin),
    }
}

/// Whose authorisation an upgrade needs: that of the administrator
/// `current`, and while there is none the upgrade is `Unauthorized`.
pub fn upgrade_authority(current: Option<Address>) -> (authority: Result<Address, AjoError>)
    ensures
        authority == match current {
            Some(admin) => Ok::<Address, AjoError>(admin),
            None => Err::<Address, AjoError>(AjoError::Unauthorized),
        },
{
    match current {
        Some(admin) => Ok(admin),
        None => Err(AjoError::Unauthorized),
    }
}

/// The identifier that follows `issued`, the last one issued (0 before the
/// first): identifiers run from 1 upwards without gaps. `None` once they are
/// used up.
pub fn next_group_id(issued: u64) -> (next: Option<u64>)
    ensures
        next == if issued < u64::MAX {
            Some((issued + 1) as u64)
        } else {
            None
        },
{
    issued.checked_add(1)
}

/// What looking up a group comes to: the record found, or `GroupNotFound`.
pub fn require_group(found: Option<Group>) -> (result: Result<Group, AjoError>)
    ensures
        match found {
            Some(group) => result is Ok && result->Ok_0 == group,
            None => result is Err && result->Err_0 == AjoError::GroupNotFound,
        },
{
    match found {
        Some(group) => Ok(group),
        None => Err(AjoError::GroupNotFound),
    }
}

/// Whether `address` is on the roster `members`.
pub fn is_member(members: &Vec<Address>, address: &Address) -> (found: bool)
    ensures
        found == members@.contains(*address),
{
    let mut i: usize = 0;
    while i < members.len()
        invariant
            i <= members.len(),
            forall|j: int| 0 <= j < i ==> members@[j] != *address,
        decreases members.len() - i,
    {
        if members[i] == *address {
            return true;
        }
        i += 1;
    }
    false
}

/// Whether no identity occurs twice on the roster `members`.
pub fn all_distinct(members: &Vec<Address>) -> (distinct: bool)
    ensures
        distinct == members@.no_duplicates(),
{
    let mut i: usize = 0;
    while i < members.len()
        invariant
            i <= members.len(),
            forall|a: int, b: int| 0 <= a < b < i ==> members@[a] != members@[b],
        decreases members.len() - i,
    {
        let mut j: usize = 0;
        while j < i
            invariant
                j <= i < members.len(),
                forall|a: int| 0 <= a < j ==> members@[a] != members@[i as int],
            decreases i - j,
        {
            if members[j] == members[i] {
                return false;
            }
            j += 1;
        }
        i += 1;
    }
    true
}

/// Whether every member of `group` has a contribution on record for the
/// group's active cycle. This is what a payout waits for.
pub fn all_members_contributed(ledger: &Ledger, group: &Group) -> (all: bool)
    ensures
        all == all_contributed(
            ledger.contributions(),
            group.id,
            group.current_cycle,
            group.members@,
        ),
{
    let mut i: usize = 0;
    while i < group.members.len()
        invariant
            i <= group.members.len(),
            forall|j: int|
                0 <= j < i ==> ledger.contributions().contains(
                    #[trigger] contribution_of(group.id, group.current_cycle, group.members@[j]),
                ),
        decreases group.members.len() - i,
    {
        if !ledger.has_contributed(group.id, group.current_cycle, &group.members[i]) {
            return false;
        }
        i += 1;
    }
    true
}

/// The pool of one cycle: the contribution of every member, the recipient's
/// own included. The pool must fit the amount type.
pub fn calculate_payout_amount(group: &Group) -> (amount: i128)
    requires
        i128::MIN <= group@.pool() <= i128::MAX,
    ensures
        amount == group@.pool(),
{
    group.contribution_amount * (group.members.len() as i128)
}

} // verus!
