use qaul::{accept_peer, on_packet, Incoming, LinkState, Mode, Packet, Peer, PeerAddr, Peers};

fn local(port: u16) -> PeerAddr {
    PeerAddr::v4(0x7f00_0001, port)
}

#[test]
fn accept_records_a_new_unknown_peer_once() {
    let mut peers = Peers::new();
    let p = accept_peer(&mut peers, local(40000)).unwrap();
    assert_eq!(p, Peer { id: 1, src: Some(local(40000)), dst: None, known: false });
    assert_eq!(accept_peer(&mut peers, local(40000)), Some(p));
    assert_eq!(peers.all_known().len(), 1);
}

#[test]
fn hello_from_configured_peer_makes_duplex_and_introduces() {
    let mut peers = Peers::new();
    peers.load(vec![local(9000)]).unwrap();
    let mut peer = accept_peer(&mut peers, local(40000)).unwrap();
    // loading assigned id 1; the new peer gets 2
    assert_eq!(peer.id, 2);
    assert_eq!(peer.link_state(), LinkState::DownlinkOnly);
    let action = on_packet(&mut peers, &mut peer, local(40000), &Packet::Hello { port: 9000 }, Mode::Static);
    assert_eq!(action, Incoming::Introduce { id: 2, dst: local(9000) });
    assert_eq!(peer.link_state(), LinkState::Duplex);
    assert!(peer.known);
    assert_eq!(peers.peer_with_dst(&local(9000)).unwrap().src, Some(local(40000)));
}

#[test]
fn hello_from_unknown_peer_closes_in_static_mode() {
    let mut peers = Peers::new();
    let mut peer = accept_peer(&mut peers, local(40000)).unwrap();
    let action = on_packet(&mut peers, &mut peer, local(40000), &Packet::Hello { port: 9000 }, Mode::Static);
    assert_eq!(action, Incoming::Close);
    assert_eq!(peer.dst, Some(local(9000)));
}

#[test]
fn hello_from_unknown_peer_introduces_in_dynamic_mode() {
    let mut peers = Peers::new();
    let mut peer = accept_peer(&mut peers, local(40000)).unwrap();
    let action = on_packet(&mut peers, &mut peer, local(40000), &Packet::Hello { port: 9000 }, Mode::Dynamic);
    assert_eq!(action, Incoming::Introduce { id: 1, dst: local(9000) });
}

#[test]
fn frames_are_dropped_until_duplex_then_forwarded() {
    let mut peers = Peers::new();
    let mut peer = accept_peer(&mut peers, local(40000)).unwrap();
    let frame = Packet::Frame(vec![1, 2]);
    assert_eq!(on_packet(&mut peers, &mut peer, local(40000), &frame, Mode::Dynamic), Incoming::Drop);
    on_packet(&mut peers, &mut peer, local(40000), &Packet::Hello { port: 9000 }, Mode::Dynamic);
    // the table now holds the peer under a new id, found by its source
    assert_eq!(on_packet(&mut peers, &mut peer, local(40000), &frame, Mode::Dynamic), Incoming::Forward { id: 2 });
}

#[test]
fn keep_alives_and_repeated_hello() {
    let mut peers = Peers::new();
    let mut peer = accept_peer(&mut peers, local(40000)).unwrap();
    on_packet(&mut peers, &mut peer, local(40000), &Packet::Hello { port: 9000 }, Mode::Dynamic);
    assert_eq!(
        on_packet(&mut peers, &mut peer, local(40000), &Packet::Hello { port: 9000 }, Mode::Dynamic),
        Incoming::KeepAlive { dst: local(9000) }
    );
    assert_eq!(
        on_packet(&mut peers, &mut peer, local(40000), &Packet::KeepAlive, Mode::Dynamic),
        Incoming::KeepAliveLater { dst: local(9000) }
    );
}

#[test]
fn mode_dynamic() {
    assert!(Mode::Dynamic.dynamic());
    assert!(!Mode::Static.dynamic());
}
