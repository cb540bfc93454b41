use ajo::address::Address;
use ajo::contract::AjoContract;
use ajo::errors::AjoError;
use ajo::events::Event;

fn who(n: u8) -> Address {
    Address::account([n; 32])
}

/// A group of three, created by the first: the roster is [1, 2, 3].
fn group_of_three() -> (AjoContract, u64) {
    let mut contract = AjoContract::new();
    let id = contract.create_group(who(1), 100, 86400, 3, 1_000).unwrap();
    contract.join_group(who(2), id).unwrap();
    contract.join_group(who(3), id).unwrap();
    (contract, id)
}

fn everyone_contributes(contract: &mut AjoContract, id: u64) {
    for member in contract.list_members(id).unwrap() {
        contract.contribute(member, id).unwrap();
    }
}

#[test]
fn three_members_are_paid_in_join_order_and_the_group_closes() {
    let (mut contract, id) = group_of_three();
    assert_eq!(contract.list_members(id).unwrap(), vec![who(1), who(2), who(3)]);
    contract.take_events();

    everyone_contributes(&mut contract, id);
    assert_eq!(contract.execute_payout(id, 2_000), Ok(()));
    let group = contract.get_group(id).unwrap();
    assert_eq!(group.current_cycle, 2);
    assert_eq!(group.payout_index, 1);
    assert!(!group.is_complete);
    assert_eq!(group.cycle_start_time, 2_000);
    assert_eq!(
        contract.take_events().last(),
        Some(&Event::PayoutExecuted { group_id: id, recipient: who(1), cycle: 1, amount: 300 })
    );

    everyone_contributes(&mut contract, id);
    assert_eq!(contract.execute_payout(id, 3_000), Ok(()));
    let group = contract.get_group(id).unwrap();
    assert_eq!(group.current_cycle, 3);
    assert_eq!(group.payout_index, 2);
    assert!(!group.is_complete);
    assert_eq!(
        contract.take_events().last(),
        Some(&Event::PayoutExecuted { group_id: id, recipient: who(2), cycle: 2, amount: 300 })
    );

    everyone_contributes(&mut contract, id);
    assert_eq!(contract.execute_payout(id, 4_000), Ok(()));
    let group = contract.get_group(id).unwrap();
    assert_eq!(group.payout_index, 3);
    assert_eq!(group.members.len(), 3);
    assert!(group.is_complete);
    assert_eq!(group.current_cycle, 3);
    assert_eq!(group.cycle_start_time, 3_000);
    let events = contract.take_events();
    assert_eq!(
        events[events.len() - 2..],
        [
            Event::PayoutExecuted { group_id: id, recipient: who(3), cycle: 3, amount: 300 },
            Event::GroupCompleted { group_id: id },
        ]
    );
    assert_eq!(contract.is_complete(id), Ok(true));
}

#[test]
fn third_identity_cannot_join_a_group_for_two() {
    let mut contract = AjoContract::new();
    let id = contract.create_group(who(1), 50, 3600, 2, 0).unwrap();
    assert_eq!(contract.join_group(who(2), id), Ok(()));
    assert_eq!(contract.join_group(who(3), id), Err(AjoError::MaxMembersExceeded));
    assert_eq!(contract.list_members(id).unwrap(), vec![who(1), who(2)]);
}

#[test]
fn early_payout_is_refused_and_changes_nothing() {
    let (mut contract, id) = group_of_three();
    contract.contribute(who(1), id).unwrap();
    contract.contribute(who(3), id).unwrap();
    contract.take_events();
    let before = contract.get_group(id).unwrap();
    let flags_before = contract.get_contribution_status(id, 1).unwrap();

    assert_eq!(contract.execute_payout(id, 9_999), Err(AjoError::IncompleteContributions));

    let after = contract.get_group(id).unwrap();
    assert_eq!(after, before);
    assert_eq!(after.current_cycle, 1);
    assert_eq!(after.payout_index, 0);
    assert_eq!(contract.get_contribution_status(id, 1).unwrap(), flags_before);
    assert_eq!(flags_before, vec![(who(1), true), (who(2), false), (who(3), true)]);
    assert!(contract.take_events().is_empty());
}

#[test]
fn payout_waits_for_the_last_contribution() {
    let (mut contract, id) = group_of_three();
    assert_eq!(contract.execute_payout(id, 10), Err(AjoError::IncompleteContributions));
    contract.contribute(who(1), id).unwrap();
    assert_eq!(contract.execute_payout(id, 10), Err(AjoError::IncompleteContributions));
    contract.contribute(who(2), id).unwrap();
    assert_eq!(contract.execute_payout(id, 10), Err(AjoError::IncompleteContributions));
    contract.contribute(who(3), id).unwrap();
    assert_eq!(contract.execute_payout(id, 10), Ok(()));
}

#[test]
fn a_new_cycle_starts_with_no_contribution_on_record() {
    let (mut contract, id) = group_of_three();
    everyone_contributes(&mut contract, id);
    contract.execute_payout(id, 77).unwrap();

    let group = contract.get_group(id).unwrap();
    assert_eq!(group.current_cycle, 2);
    assert_eq!(group.payout_index, 1);
    for member in [who(1), who(2), who(3)] {
        assert!(!contract.has_contributed(id, 2, member));
        assert!(contract.has_contributed(id, 1, member));
    }
    assert_eq!(
        contract.get_contribution_status(id, 2).unwrap(),
        vec![(who(1), false), (who(2), false), (who(3), false)]
    );
    assert_eq!(contract.execute_payout(id, 78), Err(AjoError::IncompleteContributions));
}

#[test]
fn second_contribution_in_a_cycle_is_refused() {
    let (mut contract, id) = group_of_three();
    assert_eq!(contract.contribute(who(2), id), Ok(()));
    contract.take_events();
    assert_eq!(contract.contribute(who(2), id), Err(AjoError::AlreadyContributed));
    assert!(contract.take_events().is_empty());
    assert!(contract.has_contributed(id, 1, who(2)));

    contract.contribute(who(1), id).unwrap();
    contract.contribute(who(3), id).unwrap();
    contract.execute_payout(id, 5).unwrap();
    assert_eq!(contract.contribute(who(2), id), Ok(()));
    assert_eq!(contract.contribute(who(2), id), Err(AjoError::AlreadyContributed));
}

#[test]
fn a_closed_group_refuses_changes_and_answers_reads() {
    let mut contract = AjoContract::new();
    let id = contract.create_group(who(1), 10, 60, 2, 0).unwrap();
    contract.contribute(who(1), id).unwrap();
    contract.execute_payout(id, 1).unwrap();
    assert_eq!(contract.is_complete(id), Ok(true));
    contract.take_events();
    let closed = contract.get_group(id).unwrap();

    assert_eq!(contract.join_group(who(2), id), Err(AjoError::GroupComplete));
    assert_eq!(contract.join_group(who(1), id), Err(AjoError::GroupComplete));
    assert_eq!(contract.contribute(who(1), id), Err(AjoError::GroupComplete));
    assert_eq!(contract.contribute(who(9), id), Err(AjoError::GroupComplete));
    assert_eq!(contract.execute_payout(id, 2), Err(AjoError::GroupComplete));
    assert!(contract.take_events().is_empty());

    assert_eq!(contract.get_group(id).unwrap(), closed);
    assert_eq!(contract.list_members(id).unwrap(), vec![who(1)]);
    assert_eq!(contract.is_member(id, who(1)), Ok(true));
    assert_eq!(contract.is_complete(id), Ok(true));
    let status = contract.get_group_status(id, 3).unwrap();
    assert!(status.is_complete);
    assert!(!status.has_next_recipient);
    assert_eq!(status.next_recipient, who(1));
}

#[test]
fn a_late_joiner_is_paid_last() {
    let mut contract = AjoContract::new();
    let id = contract.create_group(who(1), 25, 60, 4, 0).unwrap();
    contract.join_group(who(2), id).unwrap();
    everyone_contributes(&mut contract, id);
    contract.execute_payout(id, 1).unwrap();

    assert_eq!(contract.join_group(who(3), id), Ok(()));
    assert_eq!(contract.list_members(id).unwrap(), vec![who(1), who(2), who(3)]);
    contract.take_events();

    everyone_contributes(&mut contract, id);
    contract.execute_payout(id, 2).unwrap();
    everyone_contributes(&mut contract, id);
    contract.execute_payout(id, 3).unwrap();

    let paid: Vec<(Address, u32, i128)> = contract
        .take_events()
        .into_iter()
        .filter_map(|event| match event {
            Event::PayoutExecuted { recipient, cycle, amount, .. } => Some((recipient, cycle, amount)),
            _ => None,
        })
        .collect();
    assert_eq!(paid, vec![(who(2), 2, 75), (who(3), 3, 75)]);
    assert_eq!(contract.is_complete(id), Ok(true));
}

#[test]
fn invariants_hold_after_every_step() {
    let mut contract = AjoContract::new();
    let id = contract.create_group(who(1), 5, 10, 3, 0).unwrap();
    assert!(contract.get_group(id).unwrap().is_valid());
    for joiner in [who(2), who(3), who(4), who(2)] {
        let _ = contract.join_group(joiner, id);
        assert!(contract.get_group(id).unwrap().is_valid());
    }
    for round in 0..4u64 {
        for member in [who(1), who(2), who(3), who(4)] {
            let _ = contract.contribute(member, id);
            assert!(contract.get_group(id).unwrap().is_valid());
        }
        let _ = contract.execute_payout(id, round);
        let group = contract.get_group(id).unwrap();
        assert!(group.is_valid());
        assert!(group.payout_index as usize <= group.members.len());
        assert!(group.members.len() <= group.max_members as usize);
        assert_eq!(group.is_complete, group.payout_index as usize == group.members.len());
    }
    assert_eq!(contract.is_complete(id), Ok(true));
}
