//! What a TCP link does with each packet it receives from a peer.
//!
//! The reading of packets and the sending of replies stay with the caller;
//! each step here takes the peer table, the connection's view of its peer
//! and the packet, updates the table and the peer, and says what to do.

use vstd::prelude::*;
use crate::addr::PeerAddr;
use crate::addr::lemma_key_injective;
use crate::peers::{LinkState, Peer, Peers, PeersModel};
use crate::peer_laws::{lemma_add_keeps_wf, lemma_add_then_lookup, lemma_change_dst_moves_peer, lemma_change_keeps_wf};

verus! {

/// A packet of the link protocol.
#[derive(Clone, Debug)]
pub enum Packet {
    /// A frame for the layer above, as bytes.
    Frame(Vec<u8>),
    /// A peer introduces itself, with the port it listens on.
    Hello { port: u16 },
    /// Keep the link alive.
    KeepAlive,
}

/// Whether peers that were not configured may connect.
#[derive(Clone, Copy, Debug, PartialEq, Eq, Structural)]
pub enum Mode {
    /// Only configured peers may connect.
    Static,
    /// Any peer may connect.
    Dynamic,
}

impl Mode {
    /// Whether unknown peers are accepted.
    pub fn dynamic(&self) -> (d: bool)
        ensures
            d == (*self == Mode::Dynamic),
    {
        match self {
            Mode::Static => false,
            Mode::Dynamic => true,
        }
    }
}

/// What to do with a received packet.
#[derive(Clone, Copy, Debug, PartialEq, Eq, Structural)]
pub enum Incoming {
    /// Pass the frame up, as coming from the peer with this id.
    Forward { id: usize },
    /// Drop the frame: the peer has not said Hello yet.
    Drop,
    /// Introduce ourselves to the peer with this id at `dst`; where we had
    /// done so already, send it a keep-alive there instead.
    Introduce { id: usize, dst: PeerAddr },
    /// Close the connection: an unknown peer said Hello while unknown peers
    /// are not accepted.
    Close,
    /// Send a keep-alive to `dst` now.
    KeepAlive { dst: PeerAddr },
    /// Send a keep-alive to `dst` after a delay.
    KeepAliveLater { dst: PeerAddr },
}

/// The packets that the link has no answer for in the given link state.
pub open spec fn unhandled(packet: Packet, state: LinkState) -> bool {
    match (packet, state) {
        (Packet::Frame(_), LinkState::Duplex) => false,
        (Packet::Frame(_), LinkState::DownlinkOnly) => false,
        (Packet::Hello { .. }, LinkState::DownlinkOnly) => false,
        (Packet::Hello { .. }, LinkState::Duplex) => false,
        (Packet::KeepAlive, LinkState::UplinkOnly) => false,
        (Packet::KeepAlive, LinkState::Duplex) => false,
        _ => true,
    }
}

/// What the link needs of the table to handle the packet: a Duplex peer
/// whose frames or Hello arrive is found by its source address, and a
/// destination change that assigns an id has one left.
pub open spec fn can_handle(m: PeersModel, peer: Peer, src: PeerAddr, packet: Packet) -> bool {
    &&& !unhandled(packet, peer.spec_link())
    &&& peer.spec_link() == LinkState::Duplex && !(packet is KeepAlive) ==> m.lookup_src(src) is Some
    &&& match packet {
        Packet::Hello { port } => peer.spec_link() == LinkState::DownlinkOnly
            && m.change_assigns_id(peer.id, PeerAddr { port, ..src }) ==> m.cur < usize::MAX,
        _ => true,
    }
}

/// The table, the connection's peer and the action after receiving
/// `packet` from `src`.
pub open spec fn spec_on_packet(m: PeersModel, peer: Peer, src: PeerAddr, packet: Packet, dynamic: bool)
    -> (PeersModel, Peer, Incoming)
{
    match packet {
        Packet::Frame(_) => {
            if peer.spec_link() == LinkState::Duplex {
                (m, peer, Incoming::Forward { id: m.lookup_src(src).unwrap().id })
            } else {
                (m, peer, Incoming::Drop)
            }
        },
        Packet::Hello { port } => {
            if peer.spec_link() == LinkState::DownlinkOnly {
                let dst = PeerAddr { port, ..src };
                let (m2, r) = m.change_dst(peer.id, dst);
                let p2 = match r {
                    Ok(p) => p,
                    Err(_) => peer,
                };
                if !p2.known && !dynamic {
                    (m2, p2, Incoming::Close)
                } else {
                    (m2, p2, Incoming::Introduce { id: p2.id, dst })
                }
            } else {
                (m, peer, Incoming::KeepAlive { dst: peer.dst.unwrap() })
            }
        },
        Packet::KeepAlive => (m, peer, Incoming::KeepAliveLater { dst: peer.dst.unwrap() }),
    }
}

/// Handle one packet received from `src` on a connection whose peer is
/// `peer`.
pub fn on_packet(peers: &mut Peers, peer: &mut Peer, src: PeerAddr, packet: &Packet, mode: Mode)
    -> (action: Incoming)
    requires
        can_handle(old(peers)@, *old(peer), src, *packet),
    ensures
        (final(peers)@, *final(peer), action)
            == spec_on_packet(old(peers)@, *old(peer), src, *packet, mode == Mode::Dynamic),
        // a frame from a duplex peer goes up under the id of the stored peer
        // that has the sender's address as its source
        packet is Frame && old(peer).spec_link() == LinkState::Duplex ==> {
            &&& final(peers)@ == old(peers)@
            &&& action matches Incoming::Forward { id }
            &&& final(peers)@.peers.contains_key(id) && final(peers)@.peers[id].src == Some(src)
        },
        // only a Hello from a downlink-only peer changes the table or the peer
        !(packet is Hello && old(peer).spec_link() == LinkState::DownlinkOnly)
            ==> final(peers)@ == old(peers)@ && *final(peer) == *old(peer),
        // a frame before the peer's Hello is dropped
        packet is Frame && old(peer).spec_link() == LinkState::DownlinkOnly ==> action == Incoming::Drop,
        // a keep-alive is answered later at the peer's destination
        packet is KeepAlive ==> action == (Incoming::KeepAliveLater { dst: old(peer).dst.unwrap() }),
        // a Hello from a duplex peer is answered at once at its destination
        packet is Hello && old(peer).spec_link() == LinkState::Duplex
            ==> action == (Incoming::KeepAlive { dst: old(peer).dst.unwrap() }),
        // a Hello from a downlink-only peer gives it the Hello's port on the
        // sender's address as destination, and the link closes exactly when
        // the peer is unknown and unknown peers are not accepted; otherwise
        // the peer is introduced to at that destination
        match *packet {
            Packet::Hello { port } => old(peer).spec_link() == LinkState::DownlinkOnly ==> {
                let dst = PeerAddr { port, ..src };
                &&& (action == Incoming::Close) == (!final(peer).known && mode == Mode::Static)
                &&& action != Incoming::Close ==> action == (Incoming::Introduce { id: final(peer).id, dst })
                &&& (final(peer).dst == Some(dst) || *final(peer) == *old(peer))
            },
            _ => true,
        },
{
    let state = peer.link_state();
    match packet {
        Packet::Frame(_) => {
            match state {
                // Frames from a peer we are in duplex communication with go up.
                LinkState::Duplex => {
                    let id = peers.peer_with_src(&src).unwrap().id;
                    proof { lemma_frame_goes_to_sender(peers@, *peer, src, *packet, mode == Mode::Dynamic); }
                    Incoming::Forward { id }
                },
                // Frames from a peer that has not said Hello are junk.
                _ => Incoming::Drop,
            }
        },
        Packet::Hello { port } => {
            match state {
                // A Hello from a peer we are in simplex with lets us
                // establish duplex communication.
                LinkState::DownlinkOnly => {
                    let dst = src.with_port(*port);
                    match peers.change_peer_dst(peer.id, &dst) {
                        Ok(p) => {
                            *peer = p;
                        },
                        Err(_) => {},
                    }
                    if !peer.known && !mode.dynamic() {
                        Incoming::Close
                    } else {
                        Incoming::Introduce { id: peer.id, dst }
                    }
                },
                // A Hello from a duplex peer is redundant: answer with a
                // keep-alive.
                _ => {
                    let _id = peers.peer_with_src(&src).unwrap().id;
                    Incoming::KeepAlive { dst: peer.dst.unwrap() }
                },
            }
        },
        // Reply to a keep-alive after a delay.
        Packet::KeepAlive => Incoming::KeepAliveLater { dst: peer.dst.unwrap() },
    }
}

/// The peer that a new connection from `src` belongs to: the one the table
/// finds by this source address, or else a new unknown peer with only this
/// source; `None` where the new peer cannot be recorded or found again.
pub open spec fn spec_accept(m: PeersModel, src: PeerAddr) -> (PeersModel, Option<Peer>) {
    match m.lookup_src(src) {
        Some(p) => (m, Some(p)),
        None => {
            let (m2, r) = m.add(Peer { id: 0, src: Some(src), dst: None, known: false });
            match r {
                Ok(id) => (m2, m2.lookup_id(id)),
                Err(_) => (m2, None),
            }
        },
    }
}

/// Find or record the peer of a new connection from `src`.
pub fn accept_peer(peers: &mut Peers, src: PeerAddr) -> (p: Option<Peer>)
    requires
        old(peers)@.lookup_src(src) is None
            && old(peers)@.exclude(Peer { id: 0, src: Some(src), dst: None, known: false }) is Ok
            ==> old(peers)@.cur < usize::MAX,
    ensures
        (final(peers)@, p) == spec_accept(old(peers)@, src),
        // a known source finds its peer; an unknown one is recorded as a new
        // unknown peer with only this source, under the next id
        match old(peers)@.lookup_src(src) {
            Some(q) => p == Some(q) && final(peers)@ == old(peers)@,
            None => p == Some(Peer { id: (old(peers)@.cur + 1) as usize, src: Some(src), dst: None, known: false }),
        },
{
    proof { lemma_accept_new_peer(old(peers)@, src); }
    match peers.peer_with_src(&src) {
        Some(p) => Some(p),
        None => {
            match peers.add_peer(Peer { id: 0, src: Some(src), dst: None, known: false }) {
                Ok(v) => peers.peer_with_id(v),
                Err(_) => None,
            }
        },
    }
}

/// In a consistent table with an id left to assign, a new connection
/// always finds its peer: one whose source is the connection's address,
/// which the table then finds by that address, and the table stays
/// consistent.
pub proof fn lemma_accept_finds_peer(m: PeersModel, src: PeerAddr)
    requires
        m.wf(),
        m.cur < usize::MAX,
    ensures
        ({
            let (m2, r) = spec_accept(m, src);
            &&& r matches Some(p)
            &&& p.src == Some(src)
            &&& m2.lookup_src(src) == r
            &&& m2.wf()
        }),
{
    let newp = Peer { id: 0, src: Some(src), dst: None, known: false };
    match m.lookup_src(src) {
        Some(p) => {
            lemma_key_injective(p.src.unwrap(), src);
        },
        None => {
            if m.src.contains_key(src.key()) {
                assert(m.peers.contains_key(m.src[src.key()]));
            }
            assert(m.exclude(newp) is Ok);
            lemma_add_keeps_wf(m, newp);
            lemma_add_then_lookup(m, newp);
        },
    }
}

/// Handling a packet keeps a consistent table consistent.
pub proof fn lemma_on_packet_keeps_wf(m: PeersModel, peer: Peer, src: PeerAddr, packet: Packet, dynamic: bool)
    requires
        m.wf(),
        can_handle(m, peer, src, packet),
    ensures
        spec_on_packet(m, peer, src, packet, dynamic).0.wf(),
{
    if let Packet::Hello { port } = packet {
        if peer.spec_link() == LinkState::DownlinkOnly {
            lemma_change_keeps_wf(m, peer.id, PeerAddr { port, ..src });
        }
    }
}

/// A Hello from a downlink-only peer that the table holds makes the link
/// duplex: the peer gets the Hello's port on the sender's address as its
/// destination, and the table finds it by that destination with the same
/// source.
pub proof fn lemma_hello_makes_duplex(m: PeersModel, peer: Peer, src: PeerAddr, port: u16, dynamic: bool)
    requires
        m.wf(),
        m.lookup_id(peer.id) == Some(peer),
        peer.spec_link() == LinkState::DownlinkOnly,
        m.cur < usize::MAX,
    ensures
        ({
            let dst = PeerAddr { port, ..src };
            let (m2, p2, action) = spec_on_packet(m, peer, src, Packet::Hello { port }, dynamic);
            &&& p2.spec_link() == LinkState::Duplex
            &&& p2.dst == Some(dst)
            &&& p2.src == peer.src
            &&& p2.id == peer.id
            &&& p2.known == (peer.known || (m.lookup_dst(dst) matches Some(g) && g.known))
            &&& (m2.lookup_dst(dst) matches Some(q) && q.src == peer.src && q.dst == Some(dst))
            &&& action == (if !p2.known && !dynamic { Incoming::Close } else { Incoming::Introduce { id: peer.id, dst } })
            &&& m2.wf()
        }),
{
    lemma_change_dst_moves_peer(m, peer.id, PeerAddr { port, ..src });
}

/// A frame from a duplex peer, in a consistent table that finds a peer by
/// the sender's address, goes up under the id of the stored peer whose
/// source is that address, and changes nothing.
pub proof fn lemma_frame_goes_to_sender(m: PeersModel, peer: Peer, src: PeerAddr, packet: Packet, dynamic: bool)
    requires
        m.wf(),
        packet is Frame,
        peer.spec_link() == LinkState::Duplex,
        m.lookup_src(src) is Some,
    ensures
        ({
            let (m2, p2, action) = spec_on_packet(m, peer, src, packet, dynamic);
            &&& m2 == m
            &&& p2 == peer
            &&& action matches Incoming::Forward { id }
            &&& m.peers.contains_key(id) && m.peers[id].src == Some(src)
        }),
{
    let k = src.key();
    assert(m.src.contains_key(k));
    let q = m.peers[m.src[k]];
    lemma_key_injective(q.src.unwrap(), src);
}

/// A connection from an address the table finds belongs to that peer, and
/// changes nothing; one from an address it does not find is recorded as a
/// new unknown peer with only that source, under the next id.
pub proof fn lemma_accept_new_peer(m: PeersModel, src: PeerAddr)
    requires
        m.lookup_src(src) is None ==> m.cur < usize::MAX,
    ensures
        match m.lookup_src(src) {
            Some(q) => spec_accept(m, src) == (m, Some(q)),
            None => {
                let newp = Peer { id: (m.cur + 1) as usize, src: Some(src), dst: None, known: false };
                &&& spec_accept(m, src).1 == Some(newp)
                &&& spec_accept(m, src).0.lookup_id(newp.id) == Some(newp)
                &&& spec_accept(m, src).0.lookup_src(src) == Some(newp)
            },
        },
{
    if m.lookup_src(src) is None {
        lemma_add_then_lookup(m, Peer { id: 0, src: Some(src), dst: None, known: false });
    }
}

} // verus!
