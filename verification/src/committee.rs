//! The committee: the validators, the stake of each, and the two thresholds
//! that the protocol derives from the total stake.

use crate::address::Address;
use crate::assoc::{lemma_pairs_domain, lemma_pairs_push, pairs_to_map, AssocMap};
use crate::error::StoreError;
use vstd::prelude::*;

verus! {

/// The sum of all stakes of a committee.
pub open spec fn stake_sum(stakes: Map<Address, u64>) -> nat
    decreases stakes.dom().len(),
    via stake_sum_decreases
{
    if stakes.dom().finite() && stakes.dom().len() > 0 {
        let address = stakes.dom().choose();
        stakes[address] as nat + stake_sum(stakes.remove(address))
    } else {
        0
    }
}

#[via_fn]
proof fn stake_sum_decreases(stakes: Map<Address, u64>) {
    if stakes.dom().finite() && stakes.dom().len() > 0 {
        let address = stakes.dom().choose();
        assert(stakes.remove(address).dom() =~= stakes.dom().remove(address));
    }
}

/// The sum does not depend on the member that is counted first.
pub proof fn lemma_stake_sum_remove(stakes: Map<Address, u64>, address: Address)
    requires
        stakes.dom().finite(),
        stakes.contains_key(address),
    ensures
        stake_sum(stakes) == stakes[address] + stake_sum(stakes.remove(address)),
    decreases stakes.dom().len(),
{
    let first = stakes.dom().choose();
    assert(stakes.remove(first).dom() =~= stakes.dom().remove(first));
    assert(stakes.remove(address).dom() =~= stakes.dom().remove(address));
    if first != address {
        lemma_stake_sum_remove(stakes.remove(first), address);
        lemma_stake_sum_remove(stakes.remove(address), first);
        assert(stakes.remove(first).remove(address) =~= stakes.remove(address).remove(first));
    }
}

/// A new member adds its stake to the sum.
pub proof fn lemma_stake_sum_insert(stakes: Map<Address, u64>, address: Address, stake: u64)
    requires
        stakes.dom().finite(),
        !stakes.contains_key(address),
    ensures
        stake_sum(stakes.insert(address, stake)) == stake_sum(stakes) + stake,
{
    let larger = stakes.insert(address, stake);
    assert(larger.remove(address) =~= stakes);
    lemma_stake_sum_remove(larger, address);
}

/// The sum of a sequence of stakes.
spec fn seq_sum(stakes: Seq<u64>) -> nat
    decreases stakes.len(),
{
    if stakes.len() == 0 {
        0
    } else {
        seq_sum(stakes.drop_last()) + stakes.last() as nat
    }
}

/// A prefix of a sequence of stakes sums to no more than the whole.
proof fn lemma_seq_sum_prefix(stakes: Seq<u64>, n: int)
    requires
        0 <= n <= stakes.len(),
    ensures
        seq_sum(stakes.take(n)) <= seq_sum(stakes),
    decreases stakes.len(),
{
    if n == stakes.len() {
        assert(stakes.take(n) =~= stakes);
    } else {
        lemma_seq_sum_prefix(stakes.drop_last(), n);
        assert(stakes.drop_last().take(n) =~= stakes.take(n));
    }
}

/// The stakes of a committee, summed in any order of its members, give the
/// committee's stake.
proof fn lemma_seq_sum_is_stake_sum(members: Seq<Address>, stakes: Seq<u64>)
    requires
        members.no_duplicates(),
        members.len() == stakes.len(),
    ensures
        stake_sum(pairs_to_map(members, stakes)) == seq_sum(stakes),
    decreases members.len(),
{
    if members.len() == 0 {
        assert(pairs_to_map(members, stakes) =~= Map::<Address, u64>::empty());
    } else {
        let head = members.drop_last();
        let head_stakes = stakes.drop_last();
        assert(head.no_duplicates());
        assert(!head.contains(members.last()));
        assert(head.push(members.last()) =~= members);
        assert(head_stakes.push(stakes.last()) =~= stakes);
        lemma_seq_sum_is_stake_sum(head, head_stakes);
        lemma_pairs_push(head, head_stakes, members.last(), stakes.last());
        lemma_pairs_domain(head, head_stakes);
        lemma_stake_sum_insert(pairs_to_map(head, head_stakes), members.last(), stakes.last());
    }
}

/// The total stake of a committee, as far as 64 bits hold it.
pub open spec fn total_stake_of(stakes: Map<Address, u64>) -> Result<u64, StoreError> {
    if stake_sum(stakes) <= u64::MAX {
        Ok(stake_sum(stakes) as u64)
    } else {
        Err(StoreError::StakeOverflow)
    }
}

/// The stake that a quorum needs, `2f + 1` of a total of `3f + 1`: two thirds
/// of the total, rounded down, and one more. The doubling stops at the
/// largest 64-bit number.
pub open spec fn quorum_of(total: u64) -> u64 {
    let doubled = if 2 * total > u64::MAX {
        u64::MAX as int
    } else {
        2 * total
    };
    (doubled / 3 + 1) as u64
}

/// The stake that holds at least one honest validator, `f + 1` of a total of
/// `3f + 1`: a third of the total, rounded up. The addition stops at the
/// largest 64-bit number.
pub open spec fn availability_of(total: u64) -> u64 {
    let raised = if total + 2 > u64::MAX {
        u64::MAX as int
    } else {
        total + 2
    };
    (raised / 3) as u64
}

/// The quorum threshold of a committee.
pub open spec fn quorum_threshold_of(stakes: Map<Address, u64>) -> Result<u64, StoreError> {
    match total_stake_of(stakes) {
        Ok(total) => Ok(quorum_of(total)),
        Err(e) => Err(e),
    }
}

/// The availability threshold of a committee.
pub open spec fn availability_threshold_of(stakes: Map<Address, u64>) -> Result<
    u64,
    StoreError,
> {
    match total_stake_of(stakes) {
        Ok(total) => Ok(availability_of(total)),
        Err(e) => Err(e),
    }
}

/// What `add_validator` makes of a committee: the committee afterwards and
/// the answer.
pub open spec fn add_validator_to(stakes: Map<Address, u64>, address: Address, stake: u64) -> (
    Map<Address, u64>,
    Result<(), StoreError>,
) {
    if stakes.contains_key(address) {
        (stakes, Err(StoreError::DuplicateValidator))
    } else {
        (stakes.insert(address, stake), Ok(()))
    }
}

/// The two thresholds together are at most one more than the total stake,
/// and exactly that where the doubling does not stop short; and where there
/// is any stake neither threshold is zero.
pub proof fn lemma_thresholds_fit(total: u64)
    ensures
        quorum_of(total) + availability_of(total) - 1 <= total,
        total >= 1 ==> quorum_of(total) >= 1 && availability_of(total) >= 1,
        2 * total <= u64::MAX ==> quorum_of(total) + availability_of(total) - 1 == total,
{
}

/// The same of a committee: wherever its total stake can be told, both
/// thresholds can, their sum is at most one more than the total, and neither
/// is zero unless the total is.
pub proof fn lemma_committee_thresholds_fit(stakes: Map<Address, u64>)
    ensures
        match total_stake_of(stakes) {
            Ok(total) => {
                &&& quorum_threshold_of(stakes) is Ok
                &&& availability_threshold_of(stakes) is Ok
                &&& quorum_threshold_of(stakes)->Ok_0 + availability_threshold_of(stakes)->Ok_0 - 1
                    <= total
                &&& total >= 1 ==> quorum_threshold_of(stakes)->Ok_0 >= 1
                    && availability_threshold_of(stakes)->Ok_0 >= 1
            },
            Err(e) => {
                &&& quorum_threshold_of(stakes) == Err::<u64, StoreError>(e)
                &&& availability_threshold_of(stakes) == Err::<u64, StoreError>(e)
            },
        },
{
    if let Ok(total) = total_stake_of(stakes) {
        lemma_thresholds_fit(total);
    }
}

/// Adding an address a second time fails and changes nothing, whatever the
/// stakes of the two calls.
pub proof fn lemma_second_add_fails(
    stakes: Map<Address, u64>,
    address: Address,
    first_stake: u64,
    second_stake: u64,
)
    ensures
        ({
            let (after_first, _) = add_validator_to(stakes, address, first_stake);
            let (after_second, answer) = add_validator_to(after_first, address, second_stake);
            &&& answer == Err::<(), StoreError>(StoreError::DuplicateValidator)
            &&& after_second == after_first
            &&& after_second.dom().len() == after_first.dom().len()
        }),
{
}

/// No member leaves and no stake changes when a validator is added, whether
/// the call succeeds or not.
pub proof fn lemma_add_keeps_members(
    stakes: Map<Address, u64>,
    address: Address,
    stake: u64,
    member: Address,
)
    requires
        stakes.contains_key(member),
    ensures
        add_validator_to(stakes, address, stake).0.contains_key(member),
        add_validator_to(stakes, address, stake).0[member] == stakes[member],
{
}

/// The total stake is the exact sum where that fits in 64 bits, and an
/// overflow where it does not.
pub proof fn lemma_total_stake_exact(stakes: Map<Address, u64>)
    ensures
        stake_sum(stakes) <= u64::MAX ==> total_stake_of(stakes) == Ok::<u64, StoreError>(
            stake_sum(stakes) as u64,
        ),
        stake_sum(stakes) > u64::MAX ==> total_stake_of(stakes) == Err::<u64, StoreError>(
            StoreError::StakeOverflow,
        ),
{
}

/// `u64::saturating_mul`: the product, or the largest 64-bit number where the
/// product is larger than that.
pub assume_specification[ u64::saturating_mul ](x: u64, y: u64) -> (product: u64)
    ensures
        x * y <= u64::MAX ==> product == x * y,
        x * y > u64::MAX ==> product == u64::MAX,
;

/// The quorum threshold for a total stake.
pub fn quorum_for(total: u64) -> (threshold: u64)
    ensures
        threshold == quorum_of(total),
{
    total.saturating_mul(2) / 3 + 1
}

/// The availability threshold for a total stake.
pub fn availability_for(total: u64) -> (threshold: u64)
    ensures
        threshold == availability_of(total),
{
    total.saturating_add(2) / 3
}

/// The validators of the committee and the stake of each. No address is a
/// member twice, and no member ever leaves.
pub struct Committee {
    members: AssocMap<Address, u64>,
}

impl Committee {
    /// The stake of each member.
    pub closed spec fn view(&self) -> Map<Address, u64> {
        self.members@
    }

    /// The members in the order in which they joined.
    pub closed spec fn order(&self) -> Seq<Address> {
        self.members.keys()
    }

    /// The committee without members, and so without stake.
    pub fn new() -> (committee: Committee)
        ensures
            committee@ == Map::<Address, u64>::empty(),
            committee.order() == Seq::<Address>::empty(),
            stake_sum(committee@) == 0,
    {
        Committee { members: AssocMap::new() }
    }

    /// Makes `address` a member with the given stake, which may be zero.
    /// Fails, and changes nothing, if `address` is a member already.
    pub fn add_validator(&mut self, address: Address, stake: u64) -> (added: Result<
        (),
        StoreError,
    >)
        ensures
            (final(self)@, added) == add_validator_to(old(self)@, address, stake),
            added is Ok ==> final(self).order() == old(self).order().push(address),
            added is Ok ==> stake_sum(final(self)@) == stake_sum(old(self)@) + stake,
            added is Err ==> final(self).order() == old(self).order(),
    {
        proof {
            use_type_invariant(&self.members);
            lemma_pairs_domain(self.members.keys(), self.members.values());
            if !self@.contains_key(address) {
                lemma_stake_sum_insert(self@, address, stake);
            }
        }
        if self.members.contains_key(&address) {
            return Err(StoreError::DuplicateValidator);
        }
        self.members.insert(address, stake);
        Ok(())
    }

    /// The number of members.
    pub fn size(&self) -> (n: usize)
        ensures
            self@.dom().finite(),
            n == self@.dom().len(),
            n == self.order().len(),
    {
        self.members.len()
    }

    /// Whether `address` is a member.
    pub fn is_member(&self, address: &Address) -> (member: bool)
        ensures
            member == self@.contains_key(*address),
    {
        self.members.contains_key(address)
    }

    /// The stake of `address`, if it is a member.
    pub fn stake_of(&self, address: &Address) -> (stake: Option<u64>)
        ensures
            stake == (if self@.contains_key(*address) {
                Some(self@[*address])
            } else {
                None
            }),
    {
        match self.members.get(address) {
            Some(stake) => Some(*stake),
            None => None,
        }
    }

    /// The members with their stakes, in the order in which they joined.
    pub fn validators(&self) -> (validators: Vec<(Address, u64)>)
        ensures
            validators@.len() == self.order().len(),
            forall|i: int|
                0 <= i < validators@.len() ==> #[trigger] validators@[i] == (
                    self.order()[i],
                    self@[self.order()[i]],
                ),
            self.order().no_duplicates(),
            self.order().to_set() == self@.dom(),
    {
        let n = self.members.len();
        proof {
            use_type_invariant(&self.members);
            lemma_pairs_domain(self.members.keys(), self.members.values());
        }
        let mut validators: Vec<(Address, u64)> = Vec::new();
        let mut i: usize = 0;
        while i < n
            invariant
                i <= n,
                n == self.members.keys().len(),
                validators@.len() == i,
                forall|j: int|
                    0 <= j < i ==> #[trigger] validators@[j] == (
                        self.order()[j],
                        self@[self.order()[j]],
                    ),
            decreases n - i,
        {
            if let Some((address, stake)) = self.members.entry_at(i) {
                validators.push((address, *stake));
            }
            i += 1;
        }
        validators
    }

    /// The sum of all stakes, or `StakeOverflow` if it is more than 64 bits
    /// hold.
    pub fn total_stake(&self) -> (total: Result<u64, StoreError>)
        ensures
            total == total_stake_of(self@),
    {
        let n = self.members.len();
        let ghost stakes = self.members.values();
        proof {
            use_type_invariant(&self.members);
            lemma_seq_sum_is_stake_sum(self.members.keys(), stakes);
        }
        let mut power: u64 = 0;
        let mut i: usize = 0;
        while i < n
            invariant
                i <= n,
                n == stakes.len(),
                n == self.members.keys().len(),
                stakes == self.members.values(),
                power == seq_sum(stakes.take(i as int)),
                stake_sum(self@) == seq_sum(stakes),
            decreases n - i,
        {
            if let Some((_, stake)) = self.members.entry_at(i) {
                proof {
                    assert(stakes.take(i + 1).drop_last() =~= stakes.take(i as int));
                    assert(stakes.take(i + 1).last() == *stake);
                    lemma_seq_sum_prefix(stakes, i + 1);
                }
                match power.checked_add(*stake) {
                    Some(sum) => {
                        power = sum;
                    },
                    None => {
                        return Err(StoreError::StakeOverflow);
                    },
                }
            }
            i += 1;
        }
        assert(stakes.take(n as int) =~= stakes);
        Ok(power)
    }

    /// The stake that a quorum needs: two thirds of the total stake, rounded
    /// down, and one more.
    pub fn quorum_threshold(&self) -> (threshold: Result<u64, StoreError>)
        ensures
            threshold == quorum_threshold_of(self@),
    {
        match self.total_stake() {
            Ok(total) => Ok(quorum_for(total)),
            Err(e) => Err(e),
        }
    }

    /// The stake that is sure to hold an honest validator: a third of the
    /// total stake, rounded up.
    pub fn availability_threshold(&self) -> (threshold: Result<u64, StoreError>)
        ensures
            threshold == availability_threshold_of(self@),
    {
        match self.total_stake() {
            Ok(total) => Ok(availability_for(total)),
            Err(e) => Err(e),
        }
    }
}

} // verus!
