use consensus_store::address::Address;
use consensus_store::batches::{BatchCertificate, BatchStore, RoundBatches, SealedBatch};

fn address(tag: u8) -> Address {
    Address::new([tag; 32])
}

fn sealed(tag: u8) -> SealedBatch {
    SealedBatch::new(vec![tag, tag, tag], BatchCertificate::new(vec![0xc0, tag]))
}

#[test]
fn sealed_batch_keeps_its_parts() {
    let batch = sealed(4);
    assert_eq!(batch.batch(), &vec![4u8, 4, 4]);
    assert_eq!(batch.certificate(), &BatchCertificate::new(vec![0xc0, 4]));
    assert_eq!(batch.certificate().bytes(), &vec![0xc0u8, 4]);
    assert_eq!(batch.clone(), batch);
}

#[test]
fn round_without_batches_has_none() {
    let mut store = BatchStore::new();
    assert!(store.sealed_batches(0).is_none());
    assert!(store.sealed_batches(7).is_none());
    assert_eq!(store.record(7, address(1), sealed(1)), None);
    assert!(store.sealed_batches(6).is_none());
    assert!(store.sealed_batches(8).is_none());
    assert!(store.sealed_batches(u64::MAX).is_none());
}

#[test]
fn round_with_batches_has_exactly_the_recorded_validators() {
    let mut store = BatchStore::new();
    assert_eq!(store.record(3, address(1), sealed(1)), None);
    assert_eq!(store.record(3, address(2), sealed(2)), None);
    assert_eq!(store.record(4, address(3), sealed(3)), None);
    let batches = store.sealed_batches(3).unwrap();
    assert_eq!(batches.len(), 2);
    assert_eq!(batches.validators(), vec![address(1), address(2)]);
    assert_eq!(batches.get(&address(1)), Some(&sealed(1)));
    assert_eq!(batches.get(&address(2)), Some(&sealed(2)));
    assert_eq!(batches.get(&address(3)), None);
    assert!(batches.contains(&address(2)));
    assert!(!batches.contains(&address(3)));
    let batches = store.sealed_batches(4).unwrap();
    assert_eq!(batches.validators(), vec![address(3)]);
}

#[test]
fn a_second_batch_of_a_validator_replaces_the_first() {
    let mut store = BatchStore::new();
    assert_eq!(store.record(3, address(1), sealed(1)), None);
    assert_eq!(store.record(3, address(1), sealed(9)), Some(sealed(1)));
    let batches = store.sealed_batches(3).unwrap();
    assert_eq!(batches.len(), 1);
    assert_eq!(batches.get(&address(1)), Some(&sealed(9)));
}

#[test]
fn a_copy_does_not_follow_the_store() {
    let mut store = BatchStore::new();
    store.record(3, address(1), sealed(1));
    let before = store.sealed_batches(3).unwrap();
    store.record(3, address(2), sealed(2));
    store.record(3, address(1), sealed(5));
    assert_eq!(before.len(), 1);
    assert_eq!(before.get(&address(1)), Some(&sealed(1)));
    assert_eq!(store.sealed_batches(3).unwrap().len(), 2);
}

#[test]
fn genesis_round_has_no_previous_certificates() {
    let mut store = BatchStore::new();
    assert_eq!(store.previous_certificates(0), None);
    store.record(0, address(1), sealed(1));
    store.record(u64::MAX, address(2), sealed(2));
    assert_eq!(store.previous_certificates(0), None);
}

#[test]
fn previous_certificates_come_from_the_round_before() {
    let mut store = BatchStore::new();
    store.record(0, address(1), sealed(1));
    store.record(0, address(2), sealed(2));
    store.record(1, address(3), sealed(3));
    assert_eq!(
        store.previous_certificates(1),
        Some(vec![BatchCertificate::new(vec![0xc0, 1]), BatchCertificate::new(vec![0xc0, 2])])
    );
    assert_eq!(store.previous_certificates(2), Some(vec![BatchCertificate::new(vec![0xc0, 3])]));
    assert_eq!(store.previous_certificates(3), None);
    assert_eq!(store.previous_certificates(u64::MAX), None);
}

#[test]
fn round_batches_by_hand() {
    let mut batches = RoundBatches::new();
    assert_eq!(batches.len(), 0);
    assert_eq!(batches.certificates(), vec![]);
    assert_eq!(batches.insert(address(2), sealed(2)), None);
    assert_eq!(batches.insert(address(1), sealed(1)), None);
    assert_eq!(batches.insert(address(2), sealed(7)), Some(sealed(2)));
    assert_eq!(batches.validators(), vec![address(2), address(1)]);
    assert_eq!(
        batches.certificates(),
        vec![BatchCertificate::new(vec![0xc0, 7]), BatchCertificate::new(vec![0xc0, 1])]
    );
    let copy = batches.clone();
    assert_eq!(copy.validators(), batches.validators());
    assert_eq!(copy.get(&address(1)), Some(&sealed(1)));
}
