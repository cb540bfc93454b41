//! Registries as they come about: from the empty registry by any sequence of
//! operations. What is proved here holds of every registry that can exist.

use crate::address::Address;
use crate::events::Event;
use crate::state::{
    lemma_contribute_keeps_wf, lemma_create_group_keeps_wf, lemma_execute_payout_keeps_wf,
    lemma_initialize_keeps_wf, lemma_join_group_keeps_wf, ContractView,
};
use vstd::prelude::*;

verus! {

/// One request to change the registry, with its arguments.
pub enum Operation {
    Initialize { admin: Address },
    CreateGroup {
        creator: Address,
        contribution_amount: i128,
        cycle_duration: u64,
        max_members: u32,
        now: u64,
    },
    JoinGroup { member: Address, group_id: u64 },
    Contribute { member: Address, group_id: u64 },
    ExecutePayout { group_id: u64, now: u64 },
}

/// The registry after `op`, whether it was accepted or refused.
pub open spec fn apply(s: ContractView, op: Operation) -> ContractView {
    match op {
        Operation::Initialize { admin } => s.initialize(admin).0,
        Operation::CreateGroup { creator, contribution_amount, cycle_duration, max_members, now } =>
            s.create_group(creator, contribution_amount, cycle_duration, max_members, now).0,
        Operation::JoinGroup { member, group_id } => s.join_group(member, group_id).0,
        Operation::Contribute { member, group_id } => s.contribute(member, group_id).0,
        Operation::ExecutePayout { group_id, now } => s.execute_payout(group_id, now).0,
    }
}

/// The registry after the operations `ops`, in order, on the empty registry,
/// with every notification still in place.
pub open spec fn run(ops: Seq<Operation>) -> ContractView
    decreases ops.len(),
{
    if ops.len() == 0 {
        ContractView::empty()
    } else {
        apply(run(ops.drop_last()), ops.last())
    }
}

/// Whom `event` announces as recipient of a payout of the group, if it
/// announces one.
pub open spec fn announced_recipient(event: Event, group_id: u64) -> Option<Address> {
    match event {
        Event::PayoutExecuted { group_id: id, recipient, .. } => if id == group_id {
            Some(recipient)
        } else {
            None
        },
        _ => None,
    }
}

/// The recipients of the payouts of the group that `events` announce, in the
/// order of the announcements.
pub open spec fn paid_in_order(events: Seq<Event>, group_id: u64) -> Seq<Address>
    decreases events.len(),
{
    if events.len() == 0 {
        Seq::empty()
    } else {
        let earlier = paid_in_order(events.drop_last(), group_id);
        match announced_recipient(events.last(), group_id) {
            Some(recipient) => earlier.push(recipient),
            None => earlier,
        }
    }
}

/// One more notification adds its recipient when it announces a payout of the
/// group, and nothing otherwise.
proof fn lemma_paid_in_order_push(events: Seq<Event>, event: Event, group_id: u64)
    ensures
        paid_in_order(events.push(event), group_id) == match announced_recipient(event, group_id) {
            Some(recipient) => paid_in_order(events, group_id).push(recipient),
            None => paid_in_order(events, group_id),
        },
{
    assert(events.push(event).drop_last() =~= events);
}

/// Nothing is ever undone. Whatever the operation, accepted or refused, a
/// group that existed still exists, under the same identifier and with the
/// same parameters; its roster has grown at the end at most; neither its
/// cycle nor its payout index has gone back; once closed it is closed; and
/// every contribution and payout on record is still on record. (Creation is
/// looked at as long as identifiers remain.)
pub proof fn lemma_nothing_is_undone(s: ContractView, op: Operation, group_id: u64)
    requires
        s.wf(),
        s.groups.contains_key(group_id),
        op is CreateGroup ==> s.group_count < u64::MAX,
    ensures
        apply(s, op).groups.contains_key(group_id),
        apply(s, op).groups[group_id].id == s.groups[group_id].id,
        apply(s, op).groups[group_id].creator == s.groups[group_id].creator,
        apply(s, op).groups[group_id].contribution_amount
            == s.groups[group_id].contribution_amount,
        apply(s, op).groups[group_id].cycle_duration == s.groups[group_id].cycle_duration,
        apply(s, op).groups[group_id].max_members == s.groups[group_id].max_members,
        apply(s, op).groups[group_id].created_at == s.groups[group_id].created_at,
        s.groups[group_id].members.is_prefix_of(apply(s, op).groups[group_id].members),
        apply(s, op).groups[group_id].current_cycle >= s.groups[group_id].current_cycle,
        apply(s, op).groups[group_id].payout_index >= s.groups[group_id].payout_index,
        s.groups[group_id].is_complete ==> apply(s, op).groups[group_id].is_complete,
        s.contributions.subset_of(apply(s, op).contributions),
        s.payouts.subset_of(apply(s, op).payouts),
{
}

/// A closed group is final: whatever the operation, on this group or on
/// another, the group stays exactly as it was. (Creation is looked at as
/// long as identifiers remain.)
pub proof fn lemma_closed_group_is_final(s: ContractView, op: Operation, group_id: u64)
    requires
        s.wf(),
        s.groups.contains_key(group_id),
        s.groups[group_id].is_complete,
        op is CreateGroup ==> s.group_count < u64::MAX,
    ensures
        apply(s, op).groups.contains_key(group_id),
        apply(s, op).groups[group_id] == s.groups[group_id],
{
}

/// Every registry that comes about is well-formed, and has issued no more
/// identifiers than it has seen operations.
pub proof fn lemma_reachable_is_wf(ops: Seq<Operation>)
    requires
        ops.len() <= u64::MAX,
    ensures
        run(ops).wf(),
        run(ops).group_count <= ops.len(),
    decreases ops.len(),
{
    if ops.len() > 0 {
        let before = run(ops.drop_last());
        lemma_reachable_is_wf(ops.drop_last());
        match ops.last() {
            Operation::Initialize { admin } => {
                lemma_initialize_keeps_wf(before, admin);
            },
            Operation::CreateGroup {
                creator,
                contribution_amount,
                cycle_duration,
                max_members,
                now,
            } => {
                lemma_create_group_keeps_wf(
                    before,
                    creator,
                    contribution_amount,
                    cycle_duration,
                    max_members,
                    now,
                );
            },
            Operation::JoinGroup { member, group_id } => {
                lemma_join_group_keeps_wf(before, member, group_id);
            },
            Operation::Contribute { member, group_id } => {
                lemma_contribute_keeps_wf(before, member, group_id);
            },
            Operation::ExecutePayout { group_id, now } => {
                lemma_execute_payout_keeps_wf(before, group_id, now);
            },
        }
    }
}

/// Join order is payout order. In every registry that comes about, the
/// recipients of a group's payouts, in the order in which the payouts were
/// announced, are the members of its roster from the first up to the payout
/// index: the k-th to join is the k-th to be paid. For a group that does not
/// exist no payout was ever announced.
pub proof fn lemma_paid_in_join_order(ops: Seq<Operation>, group_id: u64)
    requires
        ops.len() <= u64::MAX,
    ensures
        run(ops).groups.contains_key(group_id) ==> paid_in_order(run(ops).events, group_id)
            == run(ops).groups[group_id].members.take(
            run(ops).groups[group_id].payout_index as int,
        ),
        !run(ops).groups.contains_key(group_id) ==> paid_in_order(run(ops).events, group_id)
            == Seq::<Address>::empty(),
    decreases ops.len(),
{
    if ops.len() > 0 {
        let before = run(ops.drop_last());
        let after = run(ops);
        lemma_paid_in_join_order(ops.drop_last(), group_id);
        lemma_reachable_is_wf(ops.drop_last());
        lemma_reachable_is_wf(ops);
        match ops.last() {
            Operation::Initialize { admin } => {},
            Operation::CreateGroup {
                creator,
                contribution_amount,
                cycle_duration,
                max_members,
                now,
            } => {
                if after.events != before.events {
                    let id = (before.group_count + 1) as u64;
                    lemma_paid_in_order_push(
                        before.events,
                        Event::GroupCreated {
                            group_id: id,
                            creator,
                            contribution_amount,
                            max_members,
                        },
                        group_id,
                    );
                }
            },
            Operation::JoinGroup { member, group_id: id } => {
                if before.join_group(member, id).1 is Ok {
                    lemma_paid_in_order_push(
                        before.events,
                        Event::MemberJoined { group_id: id, member },
                        group_id,
                    );
                    if id == group_id {
                        let old_group = before.groups[id];
                        assert(after.groups[id].members.take(old_group.payout_index as int)
                            =~= old_group.members.take(old_group.payout_index as int));
                    }
                }
            },
            Operation::Contribute { member, group_id: id } => {
                if before.contribute(member, id).1 is Ok {
                    lemma_paid_in_order_push(
                        before.events,
                        Event::ContributionMade {
                            group_id: id,
                            member,
                            cycle: before.groups[id].current_cycle,
                            amount: before.groups[id].contribution_amount,
                        },
                        group_id,
                    );
                }
            },
            Operation::ExecutePayout { group_id: id, now } => {
                if before.execute_payout(id, now).1 is Ok {
                    let old_group = before.groups[id];
                    let payout = Event::PayoutExecuted {
                        group_id: id,
                        recipient: old_group.recipient(),
                        cycle: old_group.current_cycle,
                        amount: old_group.pool() as i128,
                    };
                    lemma_paid_in_order_push(before.events, payout, group_id);
                    if old_group.last_payout() {
                        let closing = Event::GroupCompleted { group_id: id };
                        lemma_paid_in_order_push(before.events.push(payout), closing, group_id);
                        assert(after.events =~= before.events.push(payout).push(closing));
                    } else {
                        assert(after.events =~= before.events.push(payout));
                    }
                    if id == group_id {
                        assert(after.groups[id].members.take(old_group.payout_index + 1)
                            =~= old_group.members.take(old_group.payout_index as int).push(
                            old_group.recipient(),
                        ));
                    }
                }
            },
        }
    }
}

} // verus!
