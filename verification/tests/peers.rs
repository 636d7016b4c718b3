use consensus_store::address::{Address, SocketAddress};
use consensus_store::peers::PeerTable;

fn address(tag: u8) -> Address {
    Address::new([tag; 32])
}

fn v4(last: u8, port: u16) -> SocketAddress {
    SocketAddress::V4 { ip: 0x7f00_0000 + last as u32, port }
}

#[test]
fn empty_table_finds_nothing() {
    let table = PeerTable::new();
    assert_eq!(table.get_peer_ip(&address(1)), None);
    assert_eq!(table.get_address(&v4(1, 4133)), None);
}

#[test]
fn inserted_peer_is_found_both_ways() {
    let mut table = PeerTable::new();
    table.insert_peer(v4(1, 4133), address(1));
    assert_eq!(table.get_peer_ip(&address(1)), Some(v4(1, 4133)));
    assert_eq!(table.get_address(&v4(1, 4133)), Some(address(1)));
    assert_eq!(table.get_address(&v4(1, 4134)), None);
    assert_eq!(table.get_peer_ip(&address(2)), None);
}

#[test]
fn removed_peer_is_found_neither_way() {
    let mut table = PeerTable::new();
    table.insert_peer(v4(1, 4133), address(1));
    table.insert_peer(v4(2, 4133), address(2));
    table.remove_peer(&v4(1, 4133));
    assert_eq!(table.get_peer_ip(&address(1)), None);
    assert_eq!(table.get_address(&v4(1, 4133)), None);
    assert_eq!(table.get_peer_ip(&address(2)), Some(v4(2, 4133)));
    assert_eq!(table.get_address(&v4(2, 4133)), Some(address(2)));
}

#[test]
fn removing_an_unknown_peer_changes_nothing() {
    let mut table = PeerTable::new();
    table.insert_peer(v4(1, 4133), address(1));
    table.remove_peer(&v4(9, 4133));
    assert_eq!(table.get_peer_ip(&address(1)), Some(v4(1, 4133)));
    assert_eq!(table.get_address(&v4(1, 4133)), Some(address(1)));
}

#[test]
fn reinserting_an_ip_leaves_the_old_address_behind() {
    let mut table = PeerTable::new();
    table.insert_peer(v4(1, 4133), address(1));
    table.insert_peer(v4(1, 4133), address(2));
    assert_eq!(table.get_address(&v4(1, 4133)), Some(address(2)));
    assert_eq!(table.get_peer_ip(&address(2)), Some(v4(1, 4133)));
    assert_eq!(table.get_peer_ip(&address(1)), Some(v4(1, 4133)));
}

#[test]
fn removing_first_leaves_nothing_behind() {
    let mut table = PeerTable::new();
    table.insert_peer(v4(1, 4133), address(1));
    table.remove_peer(&v4(1, 4133));
    table.insert_peer(v4(1, 4133), address(2));
    assert_eq!(table.get_address(&v4(1, 4133)), Some(address(2)));
    assert_eq!(table.get_peer_ip(&address(2)), Some(v4(1, 4133)));
    assert_eq!(table.get_peer_ip(&address(1)), None);
}

#[test]
fn moving_an_address_leaves_the_old_ip_behind() {
    let mut table = PeerTable::new();
    table.insert_peer(v4(1, 4133), address(1));
    table.insert_peer(v4(2, 4133), address(1));
    assert_eq!(table.get_peer_ip(&address(1)), Some(v4(2, 4133)));
    assert_eq!(table.get_address(&v4(2, 4133)), Some(address(1)));
    assert_eq!(table.get_address(&v4(1, 4133)), Some(address(1)));
    table.remove_peer(&v4(1, 4133));
    assert_eq!(table.get_address(&v4(1, 4133)), None);
    assert_eq!(table.get_peer_ip(&address(1)), None);
    assert_eq!(table.get_address(&v4(2, 4133)), Some(address(1)));
}

#[test]
fn socket_addresses_differ_by_every_part() {
    let mut table = PeerTable::new();
    let base = SocketAddress::V6 { ip: 1, port: 4133, flowinfo: 0, scope_id: 0 };
    table.insert_peer(base, address(1));
    let other_ip = SocketAddress::V6 { ip: 2, port: 4133, flowinfo: 0, scope_id: 0 };
    let other_port = SocketAddress::V6 { ip: 1, port: 4134, flowinfo: 0, scope_id: 0 };
    let other_flow = SocketAddress::V6 { ip: 1, port: 4133, flowinfo: 1, scope_id: 0 };
    let other_scope = SocketAddress::V6 { ip: 1, port: 4133, flowinfo: 0, scope_id: 1 };
    table.insert_peer(other_ip, address(2));
    table.insert_peer(other_port, address(3));
    table.insert_peer(other_flow, address(4));
    table.insert_peer(other_scope, address(5));
    table.insert_peer(SocketAddress::V4 { ip: 1, port: 4133 }, address(6));
    assert_eq!(table.get_address(&base), Some(address(1)));
    assert_eq!(table.get_address(&SocketAddress::V4 { ip: 1, port: 4133 }), Some(address(6)));
    assert_eq!(table.get_address(&other_ip), Some(address(2)));
    assert_eq!(table.get_address(&other_port), Some(address(3)));
    assert_eq!(table.get_address(&other_flow), Some(address(4)));
    assert_eq!(table.get_address(&other_scope), Some(address(5)));
    assert_eq!(table.get_peer_ip(&address(3)), Some(other_port));
}
