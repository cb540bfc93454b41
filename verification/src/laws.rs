//! What holds of every registry, whatever was done to it.
//!
//! The laws are stated over the model of the registry and the rules of its
//! operations, which are what the operations' own contracts speak of.

use crate::address::Address;
use crate::errors::AjoError;
use crate::state::ContractView;
use crate::storage::{all_contributed, contribution_of, cycle_flags, payout_of, ContributionRecord};
use crate::types::{pending_of, received_count};
use vstd::prelude::*;

verus! {

/// The empty registry is well-formed.
pub proof fn lemma_empty_is_wf()
    ensures
        ContractView::empty().wf(),
{
}

/// In a well-formed registry, every group has its payout index within the
/// roster and the roster within the capacity, and is closed exactly when the
/// payout index has reached the end of the roster.
pub proof fn lemma_group_bounds(s: ContractView, group_id: u64)
    requires
        s.wf(),
        s.groups.contains_key(group_id),
    ensures
        s.groups[group_id].payout_index <= s.groups[group_id].members.len(),
        s.groups[group_id].members.len() <= s.groups[group_id].max_members,
        s.groups[group_id].is_complete <==> s.groups[group_id].payout_index
            == s.groups[group_id].members.len(),
        s.groups[group_id].members.no_duplicates(),
{
}

/// Whoever joins goes to the end of the roster, and everyone already on it
/// keeps their position. The position on the roster is the turn in the
/// rotation.
pub proof fn lemma_join_appends(s: ContractView, member: Address, group_id: u64)
    requires
        s.wf(),
        s.join_group(member, group_id).1 is Ok,
    ensures
        s.join_group(member, group_id).0.groups[group_id].members
            == s.groups[group_id].members.push(member),
        s.join_group(member, group_id).0.groups[group_id].payout_index
            == s.groups[group_id].payout_index,
        forall|k: int|
            0 <= k < s.groups[group_id].members.len() ==> s.join_group(
                member,
                group_id,
            ).0.groups[group_id].members[k] == s.groups[group_id].members[k],
{
}

/// A payout goes to the member whose position on the roster is the payout
/// index, and leaves the roster as it was, so the order of joining is the
/// order of being paid.
pub proof fn lemma_payout_follows_join_order(s: ContractView, group_id: u64, now: u64)
    requires
        s.wf(),
        s.execute_payout(group_id, now).1 is Ok,
    ensures
        s.groups[group_id].payout_index < s.groups[group_id].members.len(),
        s.execute_payout(group_id, now).0.payouts == s.payouts.insert(
            payout_of(
                group_id,
                s.groups[group_id].members[s.groups[group_id].payout_index as int],
            ),
        ),
        s.execute_payout(group_id, now).0.groups[group_id].payout_index
            == s.groups[group_id].payout_index + 1,
        s.execute_payout(group_id, now).0.groups[group_id].members == s.groups[group_id].members,
{
}

/// In a well-formed registry, the member at position `k` of a roster has a
/// payout on record exactly when `k` lies below the payout index: those who
/// have been paid are the first to have joined, each of them once.
pub proof fn lemma_paid_is_a_prefix_of_the_roster(s: ContractView, group_id: u64, k: int)
    requires
        s.wf(),
        s.groups.contains_key(group_id),
        0 <= k < s.groups[group_id].members.len(),
    ensures
        s.payouts.contains(payout_of(group_id, s.groups[group_id].members[k])) <==> k
            < s.groups[group_id].payout_index,
{
    let group = s.groups[group_id];
    let record = payout_of(group_id, group.members[k]);
    let paid = group.members.take(group.payout_index as int);
    assert(s.payouts.contains(record) <==> s.has_paid(record));
    if k < group.payout_index {
        assert(paid[k] == group.members[k]);
    }
}

/// A payout goes ahead exactly on an open group of which every member has a
/// contribution on record for the active cycle. While one is missing it is
/// refused, on an open group with `IncompleteContributions`, and nothing
/// changes.
pub proof fn lemma_payout_waits_for_contributions(s: ContractView, group_id: u64, now: u64)
    requires
        s.wf(),
        s.groups.contains_key(group_id),
    ensures
        s.execute_payout(group_id, now).1 is Ok <==> !s.groups[group_id].is_complete
            && s.cycle_funded(group_id),
        !s.cycle_funded(group_id) ==> s.execute_payout(group_id, now).1 is Err
            && s.execute_payout(group_id, now).0 == s,
        !s.cycle_funded(group_id) && !s.groups[group_id].is_complete ==> s.execute_payout(
            group_id,
            now,
        ).1 == Err::<(), AjoError>(AjoError::IncompleteContributions),
        forall|i: int|
            0 <= i < s.groups[group_id].members.len() && !s.contributions.contains(
                contribution_of(
                    group_id,
                    s.groups[group_id].current_cycle,
                    #[trigger] s.groups[group_id].members[i],
                ),
            ) ==> s.execute_payout(group_id, now).1 is Err,
{
}

/// A payout that does not close the group raises both the cycle and the
/// payout index by exactly one, and the cycle that begins has no contribution
/// on record for anyone.
pub proof fn lemma_payout_starts_an_empty_cycle(s: ContractView, group_id: u64, now: u64)
    requires
        s.wf(),
        s.execute_payout(group_id, now).1 is Ok,
        !s.execute_payout(group_id, now).0.groups[group_id].is_complete,
    ensures
        s.execute_payout(group_id, now).0.groups[group_id].current_cycle
            == s.groups[group_id].current_cycle + 1,
        s.execute_payout(group_id, now).0.groups[group_id].payout_index
            == s.groups[group_id].payout_index + 1,
        s.execute_payout(group_id, now).0.groups[group_id].cycle_start_time == now,
        forall|member: Address|
            !s.execute_payout(group_id, now).0.contributions.contains(
                #[trigger] contribution_of(
                    group_id,
                    s.execute_payout(group_id, now).0.groups[group_id].current_cycle,
                    member,
                ),
            ),
{
    let next = s.execute_payout(group_id, now).0;
    assert forall|member: Address|
        !next.contributions.contains(
            #[trigger] contribution_of(group_id, next.groups[group_id].current_cycle, member),
        ) by {
        let record = contribution_of(group_id, next.groups[group_id].current_cycle, member);
        if s.contributions.contains(record) {
            assert(s.in_order(record));
        }
    }
}

/// A payout that closes the group raises the payout index by one and leaves
/// the cycle where it was.
pub proof fn lemma_last_payout_keeps_the_cycle(s: ContractView, group_id: u64, now: u64)
    requires
        s.wf(),
        s.execute_payout(group_id, now).1 is Ok,
        s.execute_payout(group_id, now).0.groups[group_id].is_complete,
    ensures
        s.execute_payout(group_id, now).0.groups[group_id].current_cycle
            == s.groups[group_id].current_cycle,
        s.execute_payout(group_id, now).0.groups[group_id].payout_index
            == s.groups[group_id].payout_index + 1,
        s.execute_payout(group_id, now).0.groups[group_id].payout_index
            == s.groups[group_id].members.len(),
{
}

/// Nobody contributes twice in one cycle: right after a contribution has
/// been accepted, the same contribution is refused with
/// `AlreadyContributed`, and nothing changes.
pub proof fn lemma_second_contribution_is_refused(s: ContractView, member: Address, group_id: u64)
    requires
        s.wf(),
        s.contribute(member, group_id).1 is Ok,
    ensures
        s.contribute(member, group_id).0.contribute(member, group_id) == (
            s.contribute(member, group_id).0,
            Err::<(), AjoError>(AjoError::AlreadyContributed),
        ),
{
}

/// As long as a member's contribution for the active cycle is on record, a
/// further one is refused.
pub proof fn lemma_recorded_contribution_blocks_another(
    s: ContractView,
    member: Address,
    group_id: u64,
)
    requires
        s.wf(),
        s.groups.contains_key(group_id),
        s.contributions.contains(
            contribution_of(group_id, s.groups[group_id].current_cycle, member),
        ),
    ensures
        s.contribute(member, group_id).1 is Err,
        s.contribute(member, group_id).0 == s,
        !s.groups[group_id].is_complete ==> s.contribute(member, group_id).1 == Err::<
            (),
            AjoError,
        >(AjoError::AlreadyContributed),
{
    assert(s.in_order(contribution_of(group_id, s.groups[group_id].current_cycle, member)));
}

/// On a closed group every operation that would change it is refused with
/// `GroupComplete`, and nothing changes.
pub proof fn lemma_closed_group_refuses_changes(
    s: ContractView,
    member: Address,
    group_id: u64,
    now: u64,
)
    requires
        s.groups.contains_key(group_id),
        s.groups[group_id].is_complete,
    ensures
        s.join_group(member, group_id) == (s, Err::<(), AjoError>(AjoError::GroupComplete)),
        s.contribute(member, group_id) == (s, Err::<(), AjoError>(AjoError::GroupComplete)),
        s.execute_payout(group_id, now) == (s, Err::<(), AjoError>(AjoError::GroupComplete)),
{
}

/// A snapshot accounts for every member: those counted as having contributed
/// and those listed as pending are, together, as many as there are flags.
pub proof fn lemma_status_accounts_for_every_member(flags: Seq<(Address, bool)>)
    ensures
        received_count(flags) + pending_of(flags).len() == flags.len(),
    decreases flags.len(),
{
    reveal(Seq::filter);
    if flags.len() > 0 {
        lemma_status_accounts_for_every_member(flags.drop_last());
    }
}

/// The members listed as pending are those whose flag is not set.
pub proof fn lemma_pending_are_the_unflagged(flags: Seq<(Address, bool)>, member: Address)
    ensures
        pending_of(flags).contains(member) <==> flags.contains((member, false)),
    decreases flags.len(),
{
    reveal(Seq::filter);
    let unset = |f: (Address, bool)| !f.1;
    if flags.len() > 0 {
        let earlier = flags.drop_last();
        lemma_pending_are_the_unflagged(earlier, member);
        if pending_of(flags).contains(member) {
            let i = choose|i: int|
                0 <= i < pending_of(flags).len() && pending_of(flags)[i] == member;
            if !(unset(flags.last()) && i == pending_of(flags).len() - 1) {
                assert(pending_of(earlier)[i] == member);
            }
        }
        if flags.contains((member, false)) {
            let j = choose|j: int| 0 <= j < flags.len() && flags[j] == (member, false);
            if j == flags.len() - 1 {
                assert(pending_of(flags)[pending_of(flags).len() - 1] == member);
            } else {
                assert(earlier[j] == (member, false));
                let i = choose|i: int|
                    0 <= i < pending_of(earlier).len() && pending_of(earlier)[i] == member;
                assert(pending_of(flags)[i] == member);
            }
        }
    }
}

/// A cycle is fully funded exactly when the snapshot lists nobody as pending:
/// what a payout waits for is what the status shows.
pub proof fn lemma_funded_means_nobody_pending(
    contributions: Set<ContributionRecord>,
    group_id: u64,
    cycle: u32,
    members: Seq<Address>,
)
    ensures
        all_contributed(contributions, group_id, cycle, members) <==> pending_of(
            cycle_flags(contributions, group_id, cycle, members),
        ).len() == 0,
{
    let flags = cycle_flags(contributions, group_id, cycle, members);
    let pending = pending_of(flags);
    if all_contributed(contributions, group_id, cycle, members) {
        if pending.len() > 0 {
            let member = pending[0];
            lemma_pending_are_the_unflagged(flags, member);
            let j = choose|j: int| 0 <= j < flags.len() && flags[j] == (member, false);
            assert(contributions.contains(contribution_of(group_id, cycle, members[j])));
        }
    } else {
        let i = choose|i: int|
            0 <= i < members.len() && !contributions.contains(
                #[trigger] contribution_of(group_id, cycle, members[i]),
            );
        assert(flags[i] == (members[i], false));
        lemma_pending_are_the_unflagged(flags, members[i]);
    }
}

} // verus!
