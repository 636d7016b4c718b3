//! Sealed batches and their certificates, kept by round and by validator.

use crate::address::Address;
use crate::assoc::AssocMap;
use std::collections::HashMap;
use vstd::prelude::*;

verus! {

broadcast use vstd::std_specs::hash::group_hash_axioms;

/// The proof that a sealed batch was endorsed. The store keeps its bytes and
/// never looks into them.
#[derive(Debug, PartialEq, Eq)]
pub struct BatchCertificate {
    bytes: Vec<u8>,
}

impl BatchCertificate {
    /// The bytes of the certificate.
    pub closed spec fn view(&self) -> Seq<u8> {
        self.bytes@
    }

    /// The certificate with the given bytes.
    pub fn new(bytes: Vec<u8>) -> (certificate: BatchCertificate)
        ensures
            certificate@ == bytes@,
    {
        BatchCertificate { bytes }
    }

    /// The bytes of the certificate.
    pub fn bytes(&self) -> (bytes: &Vec<u8>)
        ensures
            bytes@ == self@,
    {
        &self.bytes
    }
}

impl Clone for BatchCertificate {
    fn clone(&self) -> (copy: BatchCertificate)
        ensures
            copy@ == self@,
    {
        let bytes = self.bytes.clone();
        assert(bytes@ =~= self.bytes@);
        BatchCertificate { bytes }
    }
}

/// What a sealed batch holds.
pub ghost struct SealedBatchView {
    /// The bytes of the batch.
    pub batch: Seq<u8>,
    /// The bytes of its certificate.
    pub certificate: Seq<u8>,
}

/// A validator's batch for one round, closed, with its certificate. The store
/// keeps the batch as bytes and never looks into them.
#[derive(Debug, PartialEq, Eq)]
pub struct SealedBatch {
    batch: Vec<u8>,
    certificate: BatchCertificate,
}

impl SealedBatch {
    /// The batch and the certificate.
    pub closed spec fn view(&self) -> SealedBatchView {
        SealedBatchView { batch: self.batch@, certificate: self.certificate@ }
    }

    /// The sealed batch of the given batch and certificate.
    pub fn new(batch: Vec<u8>, certificate: BatchCertificate) -> (sealed: SealedBatch)
        ensures
            sealed@ == (SealedBatchView { batch: batch@, certificate: certificate@ }),
    {
        SealedBatch { batch, certificate }
    }

    /// The bytes of the batch.
    pub fn batch(&self) -> (batch: &Vec<u8>)
        ensures
            batch@ == self@.batch,
    {
        &self.batch
    }

    /// The certificate of the batch.
    pub fn certificate(&self) -> (certificate: &BatchCertificate)
        ensures
            certificate@ == self@.certificate,
    {
        &self.certificate
    }
}

impl Clone for SealedBatch {
    fn clone(&self) -> (copy: SealedBatch)
        ensures
            copy@ == self@,
    {
        let batch = self.batch.clone();
        assert(batch@ =~= self.batch@);
        SealedBatch { batch, certificate: self.certificate.clone() }
    }
}

/// The certificates as their bytes.
pub open spec fn certificate_views(certificates: Seq<BatchCertificate>) -> Seq<Seq<u8>> {
    Seq::new(certificates.len(), |i: int| certificates[i]@)
}

/// Whether `certificates` holds the certificate of each batch in `batches`
/// once, in some order of the validators.
pub open spec fn certificates_of(
    batches: Map<Address, SealedBatchView>,
    certificates: Seq<Seq<u8>>,
) -> bool {
    exists|order: Seq<Address>| listed_in(batches, order, certificates)
}

/// Whether `order` names each validator of `batches` once and `certificates`
/// holds their certificates in that order.
pub open spec fn listed_in(
    batches: Map<Address, SealedBatchView>,
    order: Seq<Address>,
    certificates: Seq<Seq<u8>>,
) -> bool {
    &&& order.no_duplicates()
    &&& order.to_set() == batches.dom()
    &&& order.len() == certificates.len()
    &&& forall|i: int|
        0 <= i < order.len() ==> #[trigger] certificates[i] == batches[order[i]].certificate
}

/// Whether any validator has a batch in `batches`.
pub open spec fn has_batches(batches: Map<Address, SealedBatchView>) -> bool {
    exists|address: Address| batches.contains_key(address)
}

/// The sealed batches of one round: at most one for each validator.
pub struct RoundBatches {
    batches: AssocMap<Address, SealedBatch>,
}

impl RoundBatches {
    /// The batch of each validator that has one.
    pub closed spec fn view(&self) -> Map<Address, SealedBatchView> {
        self.batches@.map_values(|sealed: SealedBatch| sealed@)
    }

    /// The validators in the order in which their first batches came.
    pub closed spec fn order(&self) -> Seq<Address> {
        self.batches.keys()
    }

    /// No batches.
    pub fn new() -> (batches: RoundBatches)
        ensures
            batches@ == Map::<Address, SealedBatchView>::empty(),
            batches.order() == Seq::<Address>::empty(),
    {
        let batches = RoundBatches { batches: AssocMap::new() };
        assert(batches@ =~= Map::<Address, SealedBatchView>::empty());
        batches
    }

    /// The number of validators with a batch.
    pub fn len(&self) -> (n: usize)
        ensures
            self@.dom().finite(),
            n == self@.dom().len(),
            n == self.order().len(),
            self.order().no_duplicates(),
            self.order().to_set() == self@.dom(),
    {
        proof {
            use_type_invariant(&self.batches);
            crate::assoc::lemma_pairs_domain(self.batches.keys(), self.batches.values());
            assert(self@.dom() =~= self.batches@.dom());
        }
        self.batches.len()
    }

    /// Whether `address` has a batch.
    pub fn contains(&self, address: &Address) -> (found: bool)
        ensures
            found == self@.contains_key(*address),
    {
        self.batches.contains_key(address)
    }

    /// The batch of `address`, if it has one.
    pub fn get(&self, address: &Address) -> (sealed: Option<&SealedBatch>)
        ensures
            match sealed {
                Some(sealed) => self@.contains_key(*address) && sealed@ == self@[*address],
                None => !self@.contains_key(*address),
            },
    {
        self.batches.get(address)
    }

    /// Makes `sealed` the batch of `address` and returns the batch that it
    /// replaces, if there was one.
    pub fn insert(&mut self, address: Address, sealed: SealedBatch) -> (previous: Option<
        SealedBatch,
    >)
        ensures
            final(self)@ == old(self)@.insert(address, sealed@),
            match previous {
                Some(previous) => old(self)@.contains_key(address)
                    && previous@ == old(self)@[address],
                None => !old(self)@.contains_key(address),
            },
            old(self)@.contains_key(address) ==> final(self).order() == old(self).order(),
            !old(self)@.contains_key(address) ==> final(self).order() == old(self).order().push(
                address,
            ),
    {
        let previous = self.batches.insert(address, sealed);
        assert(self@ =~= old(self)@.insert(address, sealed@));
        previous
    }

    /// The validators with a batch, oldest first.
    pub fn validators(&self) -> (validators: Vec<Address>)
        ensures
            validators@ == self.order(),
            validators@.no_duplicates(),
            validators@.to_set() == self@.dom(),
    {
        let n = self.len();
        let mut validators: Vec<Address> = Vec::new();
        let mut i: usize = 0;
        while i < n
            invariant
                i <= n,
                n == self.batches.keys().len(),
                validators@ == self.batches.keys().take(i as int),
            decreases n - i,
        {
            if let Some((address, _)) = self.batches.entry_at(i) {
                validators.push(address);
            }
            assert(validators@ =~= self.batches.keys().take(i + 1));
            i += 1;
        }
        assert(self.batches.keys().take(n as int) =~= self.batches.keys());
        validators
    }

    /// The certificate of each batch, in the order of the validators.
    pub fn certificates(&self) -> (certificates: Vec<BatchCertificate>)
        ensures
            listed_in(self@, self.order(), certificate_views(certificates@)),
            certificates_of(self@, certificate_views(certificates@)),
    {
        let n = self.len();
        let mut certificates: Vec<BatchCertificate> = Vec::new();
        let mut i: usize = 0;
        while i < n
            invariant
                i <= n,
                n == self.batches.keys().len(),
                certificates@.len() == i,
                forall|j: int|
                    0 <= j < i ==> (#[trigger] certificates@[j])@
                        == self@[self.order()[j]].certificate,
            decreases n - i,
        {
            if let Some((_, sealed)) = self.batches.entry_at(i) {
                certificates.push(sealed.certificate().clone());
            }
            i += 1;
        }
        assert(listed_in(self@, self.order(), certificate_views(certificates@)));
        certificates
    }
}

impl Clone for RoundBatches {
    /// The same batches of the same validators, in the same order.
    fn clone(&self) -> (copy: RoundBatches)
        ensures
            copy@ == self@,
            copy.order() == self.order(),
    {
        proof {
            use_type_invariant(&self.batches);
        }
        let batches = self.batches.clone();
        proof {
            use_type_invariant(&batches);
            let keys = self.batches.keys();
            assert forall|k: Address| self.batches@.contains_key(k) implies (#[trigger] batches@[k])@
                == self.batches@[k]@ by {
                let i = keys.index_of(k);
                assert(cloned::<SealedBatch>(self.batches.values()[i], batches.values()[i]));
            }
        }
        let copy = RoundBatches { batches };
        assert(copy@ =~= self@);
        copy
    }
}

/// The sealed batches of all rounds. A round is known to the store from its
/// first batch on.
pub struct BatchStore {
    rounds: HashMap<u64, RoundBatches>,
}

impl BatchStore {
    /// The batches of each round that has any.
    pub closed spec fn view(&self) -> Map<u64, Map<Address, SealedBatchView>> {
        self.rounds@.map_values(|batches: RoundBatches| batches@)
    }

    /// What holds of every store: a round that it knows has a batch.
    #[verifier::type_invariant]
    pub open spec fn well_formed(&self) -> bool {
        forall|round: u64| self@.contains_key(round) ==> has_batches(#[trigger] self@[round])
    }

    /// The batches that were recorded for `round`: none where the store does
    /// not know the round.
    pub open spec fn batches_of(&self, round: u64) -> Map<Address, SealedBatchView> {
        if self@.contains_key(round) {
            self@[round]
        } else {
            Map::empty()
        }
    }

    /// The store without batches.
    pub fn new() -> (store: BatchStore)
        ensures
            store@ == Map::<u64, Map<Address, SealedBatchView>>::empty(),
            forall|round: u64| !has_batches(#[trigger] store.batches_of(round)),
    {
        let rounds: HashMap<u64, RoundBatches> = HashMap::new();
        assert(rounds@.map_values(|batches: RoundBatches| batches@) =~= Map::<
            u64,
            Map<Address, SealedBatchView>,
        >::empty());
        BatchStore { rounds }
    }

    /// Records `sealed` as the batch of `address` in `round`, in place of an
    /// earlier one if there is one, which is returned.
    pub fn record(&mut self, round: u64, address: Address, sealed: SealedBatch) -> (previous:
        Option<SealedBatch>)
        ensures
            final(self)@ == old(self)@.insert(
                round,
                old(self).batches_of(round).insert(address, sealed@),
            ),
            final(self).batches_of(round) == old(self).batches_of(round).insert(address, sealed@),
            forall|other: u64|
                other != round ==> #[trigger] final(self).batches_of(other) == old(self).batches_of(
                    other,
                ),
            match previous {
                Some(previous) => old(self).batches_of(round).contains_key(address) && previous@
                    == old(self).batches_of(round)[address],
                None => !old(self).batches_of(round).contains_key(address),
            },
    {
        proof {
            use_type_invariant(&*self);
        }
        let ghost before = self@;
        let mut rounds: HashMap<u64, RoundBatches> = HashMap::new();
        std::mem::swap(&mut rounds, &mut self.rounds);
        let mut batches = match rounds.remove(&round) {
            Some(batches) => batches,
            None => RoundBatches::new(),
        };
        let previous = batches.insert(address, sealed);
        assert(batches@.contains_key(address));
        rounds.insert(round, batches);
        let ghost after = rounds@.map_values(|batches: RoundBatches| batches@);
        assert(after =~= before.insert(
            round,
            old(self).batches_of(round).insert(address, sealed@),
        ));
        assert forall|r: u64| after.contains_key(r) implies has_batches(#[trigger] after[r]) by {
            if r == round {
                assert(after[r].contains_key(address));
            } else {
                assert(before.contains_key(r));
            }
        }
        self.rounds = rounds;
        previous
    }

    /// A copy of the batches of `round`, or nothing if none was ever recorded
    /// for it. The copy does not follow the store.
    pub fn sealed_batches(&self, round: u64) -> (batches: Option<RoundBatches>)
        ensures
            match batches {
                Some(batches) => self@.contains_key(round) && batches@ == self@[round],
                None => !self@.contains_key(round),
            },
            match batches {
                Some(batches) => has_batches(self.batches_of(round)) && batches@
                    == self.batches_of(round),
                None => !has_batches(self.batches_of(round)),
            },
    {
        proof {
            use_type_invariant(self);
            assert(!has_batches(Map::<Address, SealedBatchView>::empty()));
        }
        match self.rounds.get(&round) {
            Some(batches) => Some(batches.clone()),
            None => None,
        }
    }

    /// The certificates of the round before `round`, in no order that means
    /// anything: nothing for round 0, which needs none, and nothing if no
    /// batch was recorded for the round before.
    pub fn previous_certificates(&self, round: u64) -> (certificates: Option<
        Vec<BatchCertificate>,
    >)
        ensures
            round == 0 ==> certificates is None,
            match certificates {
                Some(certificates) => round > 0 && self@.contains_key((round - 1) as u64)
                    && certificates_of(
                    self@[(round - 1) as u64],
                    certificate_views(certificates@),
                ),
                None => round == 0 || !self@.contains_key((round - 1) as u64),
            },
    {
        if round == 0 {
            return None;
        }
        match self.rounds.get(&(round - 1)) {
            Some(batches) => Some(batches.certificates()),
            None => None,
        }
    }
}

} // verus!
