//! The peer table: which validator sits at which network address, kept in
//! both directions.

use crate::address::{Address, SocketAddress};
use crate::assoc::AssocMap;
use vstd::prelude::*;

verus! {

/// The two directions of the peer table.
pub ghost struct PeerTableView {
    /// The validator at each network address.
    pub peer_addresses: Map<SocketAddress, Address>,
    /// The network address of each validator.
    pub address_peers: Map<Address, SocketAddress>,
}

impl PeerTableView {
    /// The table without peers.
    pub open spec fn empty() -> PeerTableView {
        PeerTableView { peer_addresses: Map::empty(), address_peers: Map::empty() }
    }

    /// The network address of `address`.
    pub open spec fn peer_ip(self, address: Address) -> Option<SocketAddress> {
        if self.address_peers.contains_key(address) {
            Some(self.address_peers[address])
        } else {
            None
        }
    }

    /// The validator at `peer_ip`.
    pub open spec fn address(self, peer_ip: SocketAddress) -> Option<Address> {
        if self.peer_addresses.contains_key(peer_ip) {
            Some(self.peer_addresses[peer_ip])
        } else {
            None
        }
    }

    /// The table after `insert_peer`: both directions get the new pair, and
    /// the last write wins in each. What an overwritten entry pointed to is
    /// left alone.
    pub open spec fn insert_peer(self, peer_ip: SocketAddress, address: Address) -> PeerTableView {
        PeerTableView {
            peer_addresses: self.peer_addresses.insert(peer_ip, address),
            address_peers: self.address_peers.insert(address, peer_ip),
        }
    }

    /// The table after `remove_peer`: the entry of `peer_ip` goes, and with it
    /// the entry of the validator that it named.
    pub open spec fn remove_peer(self, peer_ip: SocketAddress) -> PeerTableView {
        if self.peer_addresses.contains_key(peer_ip) {
            PeerTableView {
                peer_addresses: self.peer_addresses.remove(peer_ip),
                address_peers: self.address_peers.remove(self.peer_addresses[peer_ip]),
            }
        } else {
            self
        }
    }

    /// Whether the two directions agree: each entry of one is the reverse of
    /// an entry of the other.
    pub open spec fn consistent(self) -> bool {
        &&& forall|peer_ip: SocketAddress| #[trigger]
            self.peer_addresses.contains_key(peer_ip) ==> self.peer_ip(
                self.peer_addresses[peer_ip],
            ) == Some(peer_ip)
        &&& forall|address: Address| #[trigger]
            self.address_peers.contains_key(address) ==> self.address(self.address_peers[address])
                == Some(address)
    }
}

/// After a peer is inserted it is found in both directions; after its network
/// address is removed it is found in neither.
pub proof fn lemma_insert_then_remove(
    table: PeerTableView,
    peer_ip: SocketAddress,
    address: Address,
)
    ensures
        table.insert_peer(peer_ip, address).peer_ip(address) == Some(peer_ip),
        table.insert_peer(peer_ip, address).address(peer_ip) == Some(address),
        table.insert_peer(peer_ip, address).remove_peer(peer_ip).peer_ip(address)
            == None::<SocketAddress>,
        table.insert_peer(peer_ip, address).remove_peer(peer_ip).address(peer_ip)
            == None::<Address>,
{
}

/// A network address that is given to a second validator leaves the first
/// validator pointing at it, although the address no longer names the first:
/// the last write wins and nothing is cleaned up. Removing the network address
/// before the second insertion leaves no such entry.
pub proof fn lemma_reinsert_leaves_stale_entry(
    table: PeerTableView,
    peer_ip: SocketAddress,
    first: Address,
    second: Address,
)
    requires
        first != second,
    ensures
        ({
            let after = table.insert_peer(peer_ip, first).insert_peer(peer_ip, second);
            &&& after.address(peer_ip) == Some(second)
            &&& after.peer_ip(second) == Some(peer_ip)
            &&& after.peer_ip(first) == Some(peer_ip)
            &&& !after.consistent()
        }),
        ({
            let after = table.insert_peer(peer_ip, first).remove_peer(peer_ip).insert_peer(
                peer_ip,
                second,
            );
            &&& after.address(peer_ip) == Some(second)
            &&& after.peer_ip(second) == Some(peer_ip)
            &&& after.peer_ip(first) == None::<SocketAddress>
        }),
{
    let after = table.insert_peer(peer_ip, first).insert_peer(peer_ip, second);
    assert(after.address_peers.contains_key(first));
}

/// Removing a peer keeps the two directions in agreement.
pub proof fn lemma_remove_keeps_consistent(table: PeerTableView, peer_ip: SocketAddress)
    requires
        table.consistent(),
    ensures
        table.remove_peer(peer_ip).consistent(),
{
    let after = table.remove_peer(peer_ip);
    if table.peer_addresses.contains_key(peer_ip) {
        let gone = table.peer_addresses[peer_ip];
        assert forall|p: SocketAddress| #[trigger]
            after.peer_addresses.contains_key(p) implies after.peer_ip(after.peer_addresses[p])
            == Some(p) by {
            assert(table.peer_addresses.contains_key(p));
            assert(table.address_peers.contains_key(gone));
        }
        assert forall|a: Address| #[trigger]
            after.address_peers.contains_key(a) implies after.address(after.address_peers[a])
            == Some(a) by {
            assert(table.address_peers.contains_key(a));
        }
    }
}

/// Inserting a peer keeps the two directions in agreement if neither its
/// network address nor its validator is in the table with another partner.
pub proof fn lemma_insert_keeps_consistent(
    table: PeerTableView,
    peer_ip: SocketAddress,
    address: Address,
)
    requires
        table.consistent(),
        table.address(peer_ip) is None || table.address(peer_ip) == Some(address),
        table.peer_ip(address) is None || table.peer_ip(address) == Some(peer_ip),
    ensures
        table.insert_peer(peer_ip, address).consistent(),
{
    let after = table.insert_peer(peer_ip, address);
    assert forall|p: SocketAddress| #[trigger]
        after.peer_addresses.contains_key(p) implies after.peer_ip(after.peer_addresses[p])
        == Some(p) by {
        if p != peer_ip {
            assert(table.peer_addresses.contains_key(p));
        }
    }
    assert forall|a: Address| #[trigger]
        after.address_peers.contains_key(a) implies after.address(after.address_peers[a]) == Some(
        a,
    ) by {
        if a != address {
            assert(table.address_peers.contains_key(a));
        }
    }
}

/// The peers of the node: the validator at each network address, and the
/// network address of each validator. Both directions change in one step.
pub struct PeerTable {
    peer_addresses: AssocMap<SocketAddress, Address>,
    address_peers: AssocMap<Address, SocketAddress>,
}

impl PeerTable {
    /// The two directions of the table.
    pub closed spec fn view(&self) -> PeerTableView {
        PeerTableView {
            peer_addresses: self.peer_addresses@,
            address_peers: self.address_peers@,
        }
    }

    /// The table without peers.
    pub fn new() -> (table: PeerTable)
        ensures
            table@ == PeerTableView::empty(),
    {
        PeerTable { peer_addresses: AssocMap::new(), address_peers: AssocMap::new() }
    }

    /// The network address of `address`, if the table has one.
    pub fn get_peer_ip(&self, address: &Address) -> (peer_ip: Option<SocketAddress>)
        ensures
            peer_ip == self@.peer_ip(*address),
    {
        match self.address_peers.get(address) {
            Some(peer_ip) => Some(*peer_ip),
            None => None,
        }
    }

    /// The validator at `peer_ip`, if the table has one.
    pub fn get_address(&self, peer_ip: &SocketAddress) -> (address: Option<Address>)
        ensures
            address == self@.address(*peer_ip),
    {
        match self.peer_addresses.get(peer_ip) {
            Some(address) => Some(*address),
            None => None,
        }
    }

    /// Enters the pair in both directions. An entry that either side already
    /// had is overwritten; what it pointed to is left alone.
    pub fn insert_peer(&mut self, peer_ip: SocketAddress, address: Address)
        ensures
            final(self)@ == old(self)@.insert_peer(peer_ip, address),
    {
        self.peer_addresses.insert(peer_ip, address);
        self.address_peers.insert(address, peer_ip);
    }

    /// Takes `peer_ip` out of the table, and with it the entry of the
    /// validator that it named. Nothing changes if `peer_ip` is not in the
    /// table.
    pub fn remove_peer(&mut self, peer_ip: &SocketAddress)
        ensures
            final(self)@ == old(self)@.remove_peer(*peer_ip),
    {
        if let Some(address) = self.peer_addresses.remove(peer_ip) {
            self.address_peers.remove(&address);
        }
    }
}

} // verus!
