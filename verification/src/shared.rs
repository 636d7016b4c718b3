//! The store that the tasks of a node share: committee, round, height, sealed
//! batches and peers, each region behind its own guard.

use crate::address::{Address, SocketAddress};
use crate::batches::{
    certificate_views, certificates_of, has_batches, BatchCertificate, BatchStore, RoundBatches,
    SealedBatch, SealedBatchView,
};
use crate::committee::{availability_of, quorum_of, total_stake_of, Committee};
use crate::error::StoreError;
use crate::peers::PeerTable;
use crate::sync::{guarded, guarded_mut, lock_read, lock_write, new_lock};
use parking_lot::lock_api::RwLock;
use parking_lot::RawRwLock;
use std::sync::atomic::{AtomicU32, AtomicU64, Ordering};
use vstd::prelude::*;

verus! {

/// The consensus state of a node, shared by all its tasks.
///
/// Every method takes `&self` and may run beside any other. The round and the
/// height are atomic counters. The committee, the sealed batches and the peer
/// table are three regions, each behind a reader-writer lock of its own; no
/// method holds two of the locks at once. What a method finds in a region
/// depends on the other tasks, so its contract states what holds of its
/// answer whatever it found; what it does with what it found is the contract
/// of the region's own method.
pub struct Shared {
    committee: RwLock<RawRwLock, Committee>,
    round: AtomicU64,
    height: AtomicU32,
    sealed_batches: RwLock<RawRwLock, BatchStore>,
    peers: RwLock<RawRwLock, PeerTable>,
}

impl Shared {
    /// The lock that guards the committee of this store.
    pub closed spec fn committee_lock(&self) -> RwLock<RawRwLock, Committee> {
        self.committee
    }

    /// A store at the given round and height, with no validators, batches or
    /// peers.
    pub fn new(round: u64, height: u32) -> (shared: Shared) {
        Shared {
            committee: new_lock(Committee::new()),
            round: AtomicU64::new(round),
            height: AtomicU32::new(height),
            sealed_batches: new_lock(BatchStore::new()),
            peers: new_lock(PeerTable::new()),
        }
    }

    /// Makes `address` a validator with the given stake. The only failure is
    /// that `address` is one already.
    pub fn add_validator(&self, address: Address, stake: u64) -> (added: Result<(), StoreError>)
        ensures
            added matches Err(e) ==> e == StoreError::DuplicateValidator,
    {
        let mut guard = lock_write(&self.committee);
        guarded_mut(&mut guard).add_validator(address, stake)
    }

    /// The current round.
    pub fn round(&self) -> (round: u64) {
        self.round.load(Ordering::Relaxed)
    }

    /// The current block height.
    pub fn height(&self) -> (height: u32) {
        self.height.load(Ordering::Relaxed)
    }

    /// A copy of the sealed batches of `round`, or nothing if the round has
    /// none. A copy that is returned holds at least one batch.
    pub fn sealed_batches(&self, round: u64) -> (batches: Option<RoundBatches>)
        ensures
            batches matches Some(batches) ==> has_batches(batches@),
    {
        let guard = lock_read(&self.sealed_batches);
        let store = guarded(&guard);
        proof {
            use_type_invariant(store);
        }
        store.sealed_batches(round)
    }

    /// The certificates of the round before `round`: nothing for round 0,
    /// whatever the store holds, and nothing if the round before has no
    /// batches.
    pub fn previous_certificates(&self, round: u64) -> (certificates: Option<
        Vec<BatchCertificate>,
    >)
        ensures
            round == 0 ==> certificates is None,
            certificates matches Some(certificates) ==> exists|batches: Map<
                Address,
                SealedBatchView,
            >| has_batches(batches) && certificates_of(batches, certificate_views(certificates@)),
    {
        if round == 0 {
            return None;
        }
        let guard = lock_read(&self.sealed_batches);
        let store = guarded(&guard);
        proof {
            use_type_invariant(store);
        }
        let certificates = store.previous_certificates(round);
        proof {
            if certificates is Some {
                let batches = store@[(round - 1) as u64];
                assert(has_batches(batches) && certificates_of(
                    batches,
                    certificate_views(certificates->Some_0@),
                ));
            }
        }
        certificates
    }

    /// Records `sealed` as the batch of `address` in `round`, in place of an
    /// earlier one if there is one, which is returned.
    pub fn record_sealed_batch(
        &self,
        round: u64,
        address: Address,
        sealed: SealedBatch,
    ) -> (previous: Option<SealedBatch>) {
        let mut guard = lock_write(&self.sealed_batches);
        guarded_mut(&mut guard).record(round, address, sealed)
    }

    /// Adds one to the round. After the largest round comes round 0.
    pub fn increment_round(&self) {
        self.round.fetch_add(1, Ordering::Relaxed);
    }

    /// Adds one to the block height. After the largest height comes 0.
    pub fn increment_height(&self) {
        self.height.fetch_add(1, Ordering::Relaxed);
    }

    /// The committee behind its lock, for callers that walk all of it. The
    /// committee is reached through the lock only. A caller drops the guard
    /// that it took before it calls a method of the store that reads or
    /// changes the committee: with the guard held, such a call may wait for
    /// ever.
    pub fn committee(&self) -> (committee: &RwLock<RawRwLock, Committee>)
        ensures
            *committee == self.committee_lock(),
    {
        &self.committee
    }

    /// The number of validators.
    pub fn committee_size(&self) -> (size: usize) {
        let guard = lock_read(&self.committee);
        guarded(&guard).size()
    }

    /// Whether `address` is a validator.
    pub fn is_committee_member(&self, address: &Address) -> (member: bool) {
        let guard = lock_read(&self.committee);
        guarded(&guard).is_member(address)
    }

    /// The total stake of one state of the committee, or `StakeOverflow` if
    /// it is more than 64 bits hold.
    pub fn total_stake(&self) -> (total: Result<u64, StoreError>)
        ensures
            exists|stakes: Map<Address, u64>|
                stakes.dom().finite() && total == total_stake_of(stakes),
    {
        let guard = lock_read(&self.committee);
        let committee = guarded(&guard);
        let size = committee.size();
        let total = committee.total_stake();
        assert(committee@.dom().finite() && total == total_stake_of(committee@));
        total
    }

    /// The quorum threshold of one state of the committee, or `StakeOverflow`
    /// if that committee has no total stake.
    pub fn quorum_threshold(&self) -> (threshold: Result<u64, StoreError>)
        ensures
            match threshold {
                Ok(threshold) => exists|total: u64| threshold == quorum_of(total),
                Err(e) => e == StoreError::StakeOverflow,
            },
    {
        let guard = lock_read(&self.committee);
        let committee = guarded(&guard);
        let threshold = committee.quorum_threshold();
        proof {
            if let Ok(total) = total_stake_of(committee@) {
                assert(threshold == Ok::<u64, StoreError>(quorum_of(total)));
            }
        }
        threshold
    }

    /// The availability threshold of one state of the committee, or
    /// `StakeOverflow` if that committee has no total stake.
    pub fn availability_threshold(&self) -> (threshold: Result<u64, StoreError>)
        ensures
            match threshold {
                Ok(threshold) => exists|total: u64| threshold == availability_of(total),
                Err(e) => e == StoreError::StakeOverflow,
            },
    {
        let guard = lock_read(&self.committee);
        let committee = guarded(&guard);
        let threshold = committee.availability_threshold();
        proof {
            if let Ok(total) = total_stake_of(committee@) {
                assert(threshold == Ok::<u64, StoreError>(availability_of(total)));
            }
        }
        threshold
    }

    /// The network address of `address`, if the peer table has one.
    pub fn get_peer_ip(&self, address: &Address) -> (peer_ip: Option<SocketAddress>) {
        let guard = lock_read(&self.peers);
        guarded(&guard).get_peer_ip(address)
    }

    /// The validator at `peer_ip`, if the peer table has one.
    pub fn get_address(&self, peer_ip: &SocketAddress) -> (address: Option<Address>) {
        let guard = lock_read(&self.peers);
        guarded(&guard).get_address(peer_ip)
    }

    /// Enters the pair in both directions of the peer table, in one step.
    pub fn insert_peer(&self, peer_ip: SocketAddress, address: Address) {
        let mut guard = lock_write(&self.peers);
        guarded_mut(&mut guard).insert_peer(peer_ip, address);
    }

    /// Takes `peer_ip` and the validator that it named out of the peer table,
    /// in one step.
    pub fn remove_peer(&self, peer_ip: &SocketAddress) {
        let mut guard = lock_write(&self.peers);
        guarded_mut(&mut guard).remove_peer(peer_ip);
    }
}

} // verus!
