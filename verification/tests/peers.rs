use qaul::{LinkState, Peer, PeerAddr, PeerInsertError, Peers};

fn local(port: u16) -> PeerAddr {
    PeerAddr::v4(0x7f00_0001, port)
}

#[test]
fn load_peers() {
    let a1 = local(8000);
    let a2 = local(9000);

    let mut peers = Peers::new();
    peers.load(vec![a1, a2]).unwrap();

    let id = peers.peer_with_dst(&a1).unwrap().id;
    assert_eq!(peers.peer_with_id(id).unwrap().dst, Some(a1));
}

#[test]
fn load_assigns_fresh_ids_and_marks_known() {
    let mut peers = Peers::new();
    peers.load(vec![local(8000), local(9000)]).unwrap();
    assert!(peers.peer_with_id(0).is_none());
    let p1 = peers.peer_with_id(1).unwrap();
    let p2 = peers.peer_with_id(2).unwrap();
    assert_eq!(p1, Peer { id: 1, src: None, dst: Some(local(8000)), known: true });
    assert_eq!(p2, Peer { id: 2, src: None, dst: Some(local(9000)), known: true });
    assert_eq!(p1.link_state(), LinkState::UplinkOnly);
    assert_eq!(peers.last_id(), 2);
}

#[test]
fn load_after_add_keeps_the_added_peer() {
    let mut peers = Peers::new();
    let q = Peer { id: 0, src: Some(local(40000)), dst: None, known: false };
    assert_eq!(peers.add_peer(q), Ok(1));
    peers.load(vec![local(9000)]).unwrap();
    assert_eq!(peers.peer_with_id(1), Some(Peer { id: 1, ..q }));
    assert_eq!(peers.peer_with_src(&local(40000)), Some(Peer { id: 1, ..q }));
    assert_eq!(peers.peer_with_dst(&local(9000)).unwrap().id, 2);
    assert_eq!(peers.all_known().len(), 2);
}

#[test]
fn add_then_del_restores_lookups() {
    let mut peers = Peers::new();
    peers.load(vec![local(9000)]).unwrap();
    let id = peers.add_peer(Peer { id: 0, src: Some(local(1)), dst: Some(local(2)), known: false }).unwrap();
    peers.del_peer(id);
    assert_eq!(peers.all_known(), vec![Peer { id: 1, src: None, dst: Some(local(9000)), known: true }]);
    assert!(peers.peer_with_src(&local(1)).is_none());
    assert!(peers.peer_with_dst(&local(2)).is_none());
    assert_eq!(peers.last_id(), 2);
}

#[test]
fn load_reports_duplicates_and_keeps_the_rest() {
    let mut peers = Peers::new();
    peers.load(vec![local(8000)]).unwrap();
    let err = peers.load(vec![local(8000), local(9000), local(9000), local(7000)]).unwrap_err();
    assert_eq!(err.addrs, vec![local(8000), local(9000)]);
    assert_eq!(peers.peer_with_dst(&local(9000)).unwrap().id, 2);
    assert_eq!(peers.peer_with_dst(&local(7000)).unwrap().id, 3);
    assert_eq!(peers.all_known().len(), 3);
}

#[test]
fn add_peer_counts_ids_from_one() {
    let mut peers = Peers::new();
    let p = Peer { id: 77, src: Some(local(1)), dst: None, known: false };
    assert_eq!(peers.add_peer(p), Ok(1));
    let q = Peer { id: 0, src: Some(local(2)), dst: Some(local(3)), known: true };
    assert_eq!(peers.add_peer(q), Ok(2));
    assert_eq!(peers.peer_with_id(1).unwrap(), Peer { id: 1, ..p });
    assert_eq!(peers.peer_with_src(&local(2)).unwrap(), Peer { id: 2, ..q });
    assert_eq!(peers.peer_with_dst(&local(3)).unwrap().id, 2);
    assert!(peers.peer_with_dst(&local(2)).is_none());
}

#[test]
fn add_peer_refuses_existing_addresses() {
    let mut peers = Peers::new();
    peers.add_peer(Peer { id: 0, src: Some(local(1)), dst: Some(local(2)), known: false }).unwrap();
    let same_src = Peer { id: 0, src: Some(local(1)), dst: Some(local(5)), known: false };
    assert_eq!(peers.add_peer(same_src), Err(PeerInsertError::SameSrcAddr));
    let same_dst = Peer { id: 0, src: Some(local(6)), dst: Some(local(2)), known: false };
    assert_eq!(peers.add_peer(same_dst), Err(PeerInsertError::SameDstAddr));
    assert_eq!(peers.all_known().len(), 1);
}

#[test]
fn del_peer_forgets_peer_and_addresses() {
    let mut peers = Peers::new();
    let id = peers.add_peer(Peer { id: 0, src: Some(local(1)), dst: Some(local(2)), known: false }).unwrap();
    peers.del_peer(id);
    assert!(peers.peer_with_id(id).is_none());
    assert!(peers.peer_with_src(&local(1)).is_none());
    assert!(peers.peer_with_dst(&local(2)).is_none());
    peers.del_peer(id);
    assert!(peers.all_known().is_empty());
}

#[test]
fn change_peer_dst_of_missing_peer() {
    let mut peers = Peers::new();
    assert_eq!(peers.change_peer_dst(3, &local(4)), Err(PeerInsertError::NoSuchPeer));
}

#[test]
fn change_peer_dst_adopts_known_identity() {
    let mut peers = Peers::new();
    // a configured peer we can reach at port 9000, stored under id 1
    peers.load(vec![local(9000)]).unwrap();
    // the same node connects to us from port 40000
    let id = peers.add_peer(Peer { id: 0, src: Some(local(40000)), dst: None, known: false }).unwrap();
    assert_eq!(id, 2);
    let p = peers.change_peer_dst(id, &local(9000)).unwrap();
    // the returned peer keeps the id it had
    assert_eq!(p, Peer { id: 2, src: Some(local(40000)), dst: Some(local(9000)), known: true });
    // the table holds it under a fresh id, and only it
    let q = peers.peer_with_dst(&local(9000)).unwrap();
    assert_eq!(q, Peer { id: 3, ..p });
    assert_eq!(peers.peer_with_src(&local(40000)).unwrap(), q);
    assert_eq!(q.link_state(), LinkState::Duplex);
    assert!(peers.peer_with_id(1).is_none());
    assert!(peers.peer_with_id(2).is_none());
    assert_eq!(peers.all_known(), vec![q]);
}

#[test]
fn link_states() {
    let none = Peer { id: 0, src: None, dst: None, known: false };
    assert_eq!(none.link_state(), LinkState::NoLink);
    assert_eq!(Peer { src: Some(local(1)), ..none }.link_state(), LinkState::DownlinkOnly);
    assert_eq!(Peer { dst: Some(local(1)), ..none }.link_state(), LinkState::UplinkOnly);
    assert_eq!(Peer { src: Some(local(1)), dst: Some(local(2)), ..none }.link_state(), LinkState::Duplex);
}

#[test]
fn addresses_differ_by_family_and_port() {
    let v4 = PeerAddr::v4(1, 80);
    let v6 = PeerAddr { v6: true, ..v4 };
    assert_ne!(v4.addr_key(), v6.addr_key());
    assert_eq!(v4.with_port(81), PeerAddr::v4(1, 81));
    assert_eq!(v4.addr_key(), (4, 1, 80, 0, 0));
}

#[test]
fn default_table_is_empty() {
    let peers = Peers::default();
    assert!(peers.all_known().is_empty());
    assert_eq!(peers.last_id(), 0);
    assert!(peers.peer_with_id(0).is_none());
}

#[test]
fn load_nothing() {
    let mut peers = Peers::new();
    assert!(peers.load(vec![]).is_ok());
    assert_eq!(peers.last_id(), 0);
    assert!(peers.all_known().is_empty());
}
