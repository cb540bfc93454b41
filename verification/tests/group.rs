use ajo::address::Address;
use ajo::errors::AjoError;
use ajo::storage::Ledger;
use ajo::types::{Group, Payout};
use ajo::utils::{
    all_distinct, all_members_contributed, calculate_payout_amount, install_admin, is_member,
    next_group_id, require_group, upgrade_authority, validate_group_params,
};

fn id(n: u8) -> Address {
    Address::contract([n; 32])
}

fn trio() -> Group {
    let mut group = Group::new(12, id(1), 1_000, 30, 3, 500).unwrap();
    group.join(id(2)).unwrap();
    group.join(id(3)).unwrap();
    group
}

#[test]
fn parameters_are_validated_in_order() {
    assert_eq!(validate_group_params(1, 1, 2), Ok(()));
    assert_eq!(validate_group_params(i128::MAX, u64::MAX, u32::MAX), Ok(()));
    assert_eq!(validate_group_params(0, 0, 0), Err(AjoError::InvalidAmount));
    assert_eq!(validate_group_params(1, 0, 0), Err(AjoError::InvalidCycleDuration));
    assert_eq!(validate_group_params(1, 1, 1), Err(AjoError::InvalidMaxMembers));
    assert_eq!(Group::new(1, id(1), 0, 1, 2, 0).err(), Some(AjoError::InvalidAmount));
    assert_eq!(Group::new(1, id(1), 1, 0, 2, 0).err(), Some(AjoError::InvalidCycleDuration));
    assert_eq!(Group::new(1, id(1), 1, 1, 1, 0).err(), Some(AjoError::InvalidMaxMembers));
}

#[test]
fn membership_is_looked_up_on_the_roster() {
    let roster = vec![id(1), id(2)];
    assert!(is_member(&roster, &id(1)));
    assert!(is_member(&roster, &id(2)));
    assert!(!is_member(&roster, &id(3)));
    assert!(!is_member(&Vec::new(), &id(1)));
}

#[test]
fn repeated_identities_are_detected() {
    assert!(all_distinct(&Vec::new()));
    assert!(all_distinct(&vec![id(1)]));
    assert!(all_distinct(&vec![id(1), id(2), id(3)]));
    assert!(!all_distinct(&vec![id(1), id(2), id(1)]));
    assert!(!all_distinct(&vec![id(2), id(2)]));
}

#[test]
fn the_pool_is_the_contribution_of_every_member() {
    let group = trio();
    assert_eq!(calculate_payout_amount(&group), 3_000);
    let solo = Group::new(1, id(1), 7, 1, 2, 0).unwrap();
    assert_eq!(calculate_payout_amount(&solo), 7);
}

#[test]
fn a_payout_reports_recipient_amount_and_cycle() {
    let mut group = trio();
    assert_eq!(group.execute_payout(false, 600), Err(AjoError::IncompleteContributions));
    assert_eq!(
        group.execute_payout(true, 600),
        Ok(Payout { recipient: id(1), amount: 3_000, cycle: 1, completed: false })
    );
    assert_eq!((group.payout_index, group.current_cycle, group.cycle_start_time), (1, 2, 600));
    assert_eq!(
        group.execute_payout(true, 700),
        Ok(Payout { recipient: id(2), amount: 3_000, cycle: 2, completed: false })
    );
    assert_eq!(
        group.execute_payout(true, 800),
        Ok(Payout { recipient: id(3), amount: 3_000, cycle: 3, completed: true })
    );
    assert_eq!((group.payout_index, group.current_cycle, group.cycle_start_time), (3, 3, 700));
    assert!(group.is_complete);
    assert_eq!(group.execute_payout(true, 900), Err(AjoError::GroupComplete));
    assert_eq!(group.execute_payout(false, 900), Err(AjoError::GroupComplete));
}

#[test]
fn a_payout_index_past_the_roster_is_reported() {
    let mut broken = trio();
    broken.payout_index = 3;
    assert!(!broken.is_valid());
    assert_eq!(broken.execute_payout(true, 1), Err(AjoError::NoMembers));
    assert_eq!(broken.payout_index, 3);
    assert_eq!(broken.current_cycle, 1);
}

#[test]
fn the_contribution_check_looks_at_closure_then_roster_then_record() {
    let mut group = trio();
    assert_eq!(group.check_contribution(&id(1), false), Ok(()));
    assert_eq!(group.check_contribution(&id(1), true), Err(AjoError::AlreadyContributed));
    assert_eq!(group.check_contribution(&id(4), false), Err(AjoError::NotMember));
    assert_eq!(group.check_contribution(&id(4), true), Err(AjoError::NotMember));
    group.is_complete = true;
    assert_eq!(group.check_contribution(&id(4), true), Err(AjoError::GroupComplete));
    assert_eq!(group.check_contribution(&id(1), false), Err(AjoError::GroupComplete));
}

#[test]
fn joining_checks_closure_then_roster_then_capacity() {
    let mut group = Group::new(1, id(1), 1, 1, 2, 0).unwrap();
    assert_eq!(group.join(id(1)), Err(AjoError::AlreadyMember));
    assert_eq!(group.join(id(2)), Ok(()));
    assert_eq!(group.join(id(2)), Err(AjoError::AlreadyMember));
    assert_eq!(group.join(id(3)), Err(AjoError::MaxMembersExceeded));
    assert_eq!(group.members, vec![id(1), id(2)]);
    group.execute_payout(true, 0).unwrap();
    group.execute_payout(true, 0).unwrap();
    assert_eq!(group.join(id(2)), Err(AjoError::GroupComplete));
    assert_eq!(group.join(id(3)), Err(AjoError::GroupComplete));
}

#[test]
fn validity_is_the_invariant_of_the_record() {
    let good = trio();
    assert!(good.is_valid());
    assert_eq!(good.clone(), good);

    let mut g = trio();
    g.contribution_amount = 0;
    assert!(!g.is_valid());
    let mut g = trio();
    g.cycle_duration = 0;
    assert!(!g.is_valid());
    let mut g = trio();
    g.max_members = 2;
    assert!(!g.is_valid());
    let mut g = trio();
    g.members.clear();
    assert!(!g.is_valid());
    let mut g = trio();
    g.creator = id(2);
    assert!(!g.is_valid());
    let mut g = trio();
    g.members[2] = id(2);
    assert!(!g.is_valid());
    let mut g = trio();
    g.payout_index = 4;
    assert!(!g.is_valid());
    let mut g = trio();
    g.is_complete = true;
    assert!(!g.is_valid());
    let mut g = trio();
    g.current_cycle = 2;
    assert!(!g.is_valid());
    let mut g = trio();
    g.payout_index = 3;
    g.is_complete = true;
    g.current_cycle = 3;
    assert!(g.is_valid());
    g.current_cycle = 4;
    assert!(!g.is_valid());
}

#[test]
fn the_status_of_a_group_follows_the_flags_given() {
    let group = trio();
    let status = group.status(&vec![(id(1), true), (id(2), false), (id(3), false)], 529);
    assert_eq!(status.group_id, 12);
    assert_eq!(status.contributions_received, 1);
    assert_eq!(status.total_members, 3);
    assert_eq!(status.pending_contributors, vec![id(2), id(3)]);
    assert_eq!(status.cycle_end_time, 530);
    assert!(status.is_cycle_active);
    assert!(status.has_next_recipient);
    assert_eq!(status.next_recipient, id(1));
    assert!(!group.status(&Vec::new(), 530).is_cycle_active);
}

#[test]
fn all_members_contributed_reads_the_active_cycle() {
    let mut group = trio();
    let mut ledger = Ledger::new();
    assert!(!all_members_contributed(&ledger, &group));
    ledger.store_contribution(12, 1, id(1));
    ledger.store_contribution(12, 1, id(2));
    assert!(!all_members_contributed(&ledger, &group));
    ledger.store_contribution(11, 1, id(3));
    ledger.store_contribution(12, 2, id(3));
    assert!(!all_members_contributed(&ledger, &group));
    ledger.store_contribution(12, 1, id(3));
    assert!(all_members_contributed(&ledger, &group));
    group.current_cycle = 2;
    assert!(!all_members_contributed(&ledger, &group));
}

#[test]
fn the_ledger_keeps_what_was_recorded() {
    let mut ledger = Ledger::new();
    assert!(!ledger.has_contributed(1, 1, &id(1)));
    assert!(!ledger.has_received_payout(1, &id(1)));
    ledger.store_contribution(1, 1, id(1));
    ledger.mark_payout_received(1, id(2));
    assert!(ledger.has_contributed(1, 1, &id(1)));
    assert!(!ledger.has_contributed(1, 2, &id(1)));
    assert!(!ledger.has_contributed(2, 1, &id(1)));
    assert!(!ledger.has_contributed(1, 1, &id(2)));
    assert!(ledger.has_received_payout(1, &id(2)));
    assert!(!ledger.has_received_payout(1, &id(1)));
    assert!(!ledger.has_received_payout(2, &id(2)));
    assert_eq!(
        ledger.get_cycle_contributions(1, 1, &vec![id(2), id(1), id(3)]),
        vec![(id(2), false), (id(1), true), (id(3), false)]
    );
    assert!(ledger.get_cycle_contributions(1, 1, &Vec::new()).is_empty());
}

#[test]
fn the_first_to_ask_becomes_administrator() {
    assert_eq!(install_admin(None, id(1)), Ok(id(1)));
    assert_eq!(install_admin(Some(id(1)), id(2)), Err(AjoError::AlreadyInitialized));
    assert_eq!(install_admin(Some(id(1)), id(1)), Err(AjoError::AlreadyInitialized));
    assert_eq!(upgrade_authority(Some(id(3))), Ok(id(3)));
    assert_eq!(upgrade_authority(None), Err(AjoError::Unauthorized));
}

#[test]
fn identifiers_run_from_one_until_they_are_used_up() {
    assert_eq!(next_group_id(0), Some(1));
    assert_eq!(next_group_id(1), Some(2));
    assert_eq!(next_group_id(u64::MAX - 1), Some(u64::MAX));
    assert_eq!(next_group_id(u64::MAX), None);
}

#[test]
fn a_lookup_that_finds_nothing_is_group_not_found() {
    assert_eq!(require_group(None), Err(AjoError::GroupNotFound));
    assert_eq!(require_group(Some(trio())), Ok(trio()));
}

#[test]
fn the_payout_verdict_is_what_the_payout_answers() {
    let mut group = trio();
    assert_eq!(group.payout_verdict(false), Err(AjoError::IncompleteContributions));
    assert_eq!(group.payout_verdict(true), Ok(()));
    assert_eq!(group.payout_index, 0);
    group.payout_index = 3;
    assert_eq!(group.payout_verdict(true), Err(AjoError::NoMembers));
    assert_eq!(group.payout_verdict(false), Err(AjoError::IncompleteContributions));
    group.is_complete = true;
    assert_eq!(group.payout_verdict(true), Err(AjoError::GroupComplete));
    assert_eq!(group.payout_verdict(false), Err(AjoError::GroupComplete));
}

#[test]
fn a_pool_beyond_the_amount_type_does_not_fit() {
    let mut group = Group::new(1, id(1), i128::MAX, 1, 2, 0).unwrap();
    assert!(group.payout_fits());
    assert_eq!(calculate_payout_amount(&group), i128::MAX);
    group.join(id(2)).unwrap();
    assert!(!group.payout_fits());

    let mut half = Group::new(1, id(1), i128::MAX / 2, 1, 2, 0).unwrap();
    half.join(id(2)).unwrap();
    assert!(half.payout_fits());
    assert_eq!(calculate_payout_amount(&half), i128::MAX - 1);
    assert_eq!(
        half.execute_payout(true, 5),
        Ok(Payout { recipient: id(1), amount: i128::MAX - 1, cycle: 1, completed: false })
    );
}

#[test]
fn a_cycle_end_beyond_the_time_type_does_not_fit() {
    let group = Group::new(1, id(1), 1, 10, 2, u64::MAX - 10).unwrap();
    let flags = vec![(id(1), false)];
    assert!(group.status_fits(&flags));
    assert_eq!(group.status(&flags, 0).cycle_end_time, u64::MAX);
    let late = Group::new(1, id(1), 1, 10, 2, u64::MAX - 9).unwrap();
    assert!(!late.status_fits(&flags));
}
