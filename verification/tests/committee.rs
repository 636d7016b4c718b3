use consensus_store::address::Address;
use consensus_store::committee::{availability_for, quorum_for, Committee};
use consensus_store::error::StoreError;

fn address(tag: u8) -> Address {
    Address::new([tag; 32])
}

fn committee_of(stakes: &[u64]) -> Committee {
    let mut committee = Committee::new();
    for (i, stake) in stakes.iter().enumerate() {
        assert_eq!(committee.add_validator(address(i as u8), *stake), Ok(()));
    }
    committee
}

#[test]
fn empty_committee_has_no_stake() {
    let committee = Committee::new();
    assert_eq!(committee.size(), 0);
    assert_eq!(committee.total_stake(), Ok(0));
    assert_eq!(committee.quorum_threshold(), Ok(1));
    assert_eq!(committee.availability_threshold(), Ok(0));
    assert!(!committee.is_member(&address(1)));
    assert_eq!(committee.stake_of(&address(1)), None);
}

#[test]
fn thresholds_of_four_validators() {
    let committee = committee_of(&[10, 10, 10, 1]);
    assert_eq!(committee.size(), 4);
    assert_eq!(committee.total_stake(), Ok(31));
    assert_eq!(committee.quorum_threshold(), Ok(21));
    assert_eq!(committee.availability_threshold(), Ok(11));
}

#[test]
fn thresholds_fit_the_total() {
    for total in 0u64..200 {
        let quorum = quorum_for(total);
        let availability = availability_for(total);
        assert_eq!(quorum + availability - 1, total);
        if total >= 1 {
            assert!(quorum >= 1);
            assert!(availability >= 1);
        }
    }
    for total in [u64::MAX / 2, u64::MAX / 2 + 1, u64::MAX - 2, u64::MAX - 1, u64::MAX] {
        let quorum = quorum_for(total);
        let availability = availability_for(total);
        assert!(quorum >= 1 && availability >= 1);
        assert!(quorum - 1 + availability <= total);
    }
}

#[test]
fn quorum_formula_on_small_totals() {
    assert_eq!(quorum_for(0), 1);
    assert_eq!(quorum_for(1), 1);
    assert_eq!(quorum_for(2), 2);
    assert_eq!(quorum_for(3), 3);
    assert_eq!(quorum_for(4), 3);
    assert_eq!(quorum_for(100), 67);
    assert_eq!(availability_for(0), 0);
    assert_eq!(availability_for(1), 1);
    assert_eq!(availability_for(2), 1);
    assert_eq!(availability_for(3), 1);
    assert_eq!(availability_for(4), 2);
    assert_eq!(availability_for(100), 34);
}

#[test]
fn doubling_and_raising_stop_at_the_maximum() {
    let third = u64::MAX / 3;
    assert_eq!(quorum_for(u64::MAX / 2), (u64::MAX - 1) / 3 + 1);
    assert_eq!(quorum_for(u64::MAX / 2 + 1), third + 1);
    assert_eq!(quorum_for(u64::MAX), third + 1);
    assert_eq!(availability_for(u64::MAX - 2), third);
    assert_eq!(availability_for(u64::MAX - 1), third);
    assert_eq!(availability_for(u64::MAX), third);
    assert_eq!(availability_for(u64::MAX - 3), (u64::MAX - 1) / 3);
}

#[test]
fn second_add_of_an_address_fails() {
    let mut committee = Committee::new();
    assert_eq!(committee.add_validator(address(7), 5), Ok(()));
    assert_eq!(committee.size(), 1);
    assert_eq!(committee.add_validator(address(7), 9), Err(StoreError::DuplicateValidator));
    assert_eq!(committee.size(), 1);
    assert_eq!(committee.stake_of(&address(7)), Some(5));
    assert_eq!(committee.total_stake(), Ok(5));
}

#[test]
fn addresses_differ_by_any_byte() {
    let mut bytes = [0u8; 32];
    let mut committee = Committee::new();
    assert_eq!(committee.add_validator(Address::new(bytes), 1), Ok(()));
    bytes[31] = 1;
    assert_eq!(committee.add_validator(Address::new(bytes), 2), Ok(()));
    bytes[31] = 0;
    bytes[0] = 1;
    assert_eq!(committee.add_validator(Address::new(bytes), 3), Ok(()));
    assert_eq!(committee.size(), 3);
    assert_eq!(committee.stake_of(&Address::new([0u8; 32])), Some(1));
    assert_eq!(committee.stake_of(&Address::new(bytes)), Some(3));
    assert_eq!(Address::new(bytes).to_bytes(), bytes);
}

#[test]
fn zero_stake_is_a_member() {
    let mut committee = Committee::new();
    assert_eq!(committee.add_validator(address(1), 0), Ok(()));
    assert!(committee.is_member(&address(1)));
    assert_eq!(committee.stake_of(&address(1)), Some(0));
    assert_eq!(committee.total_stake(), Ok(0));
}

#[test]
fn total_stake_overflows() {
    let committee = committee_of(&[u64::MAX, 1]);
    assert_eq!(committee.total_stake(), Err(StoreError::StakeOverflow));
    assert_eq!(committee.quorum_threshold(), Err(StoreError::StakeOverflow));
    assert_eq!(committee.availability_threshold(), Err(StoreError::StakeOverflow));
    assert_eq!(committee.size(), 2);
}

#[test]
fn total_stake_at_the_maximum_is_exact() {
    let committee = committee_of(&[u64::MAX - 5, 2, 3]);
    assert_eq!(committee.total_stake(), Ok(u64::MAX));
    let committee = committee_of(&[u64::MAX - 5, 2, 3, 0]);
    assert_eq!(committee.total_stake(), Ok(u64::MAX));
    let committee = committee_of(&[u64::MAX - 5, 2, 3, 0, 1]);
    assert_eq!(committee.total_stake(), Err(StoreError::StakeOverflow));
}

#[test]
fn validators_are_listed_in_order() {
    let committee = committee_of(&[4, 5, 6]);
    assert_eq!(
        committee.validators(),
        vec![(address(0), 4), (address(1), 5), (address(2), 6)]
    );
}

#[test]
fn error_messages() {
    assert_eq!(StoreError::DuplicateValidator.message(), "Validator already in committee");
    assert_eq!(
        StoreError::StakeOverflow.message(),
        "Failed to calculate total stake - overflow detected"
    );
}
