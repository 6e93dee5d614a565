//! Peer tracking: a table of peers, found by id, by the address they
//! connect from (source) and by the address we connect to (destination).

use vstd::prelude::*;
use std::collections::{BTreeMap, HashMap};
use crate::addr::{AddrKey, PeerAddr};
use vstd::std_specs::iter::IteratorSpec;
use crate::peer_laws::{lemma_add_keeps_wf, lemma_add_then_lookup, lemma_change_dst_moves_peer, lemma_change_keeps_others, lemma_change_keeps_wf, lemma_del_then_lookup, lemma_load_refuses_exactly_repeats, loads_cleanly, lemma_del_keeps_wf, lemma_load_keeps_wf};

verus! {

/// A peer of this node.
#[derive(Clone, Copy, Debug, PartialEq, Eq, Structural)]
pub struct Peer {
    pub id: usize,
    /// The address this peer connects to us from.
    pub src: Option<PeerAddr>,
    /// The address we connect to this peer at.
    pub dst: Option<PeerAddr>,
    /// Whether the peer was configured as known.
    pub known: bool,
}

/// The state of a peer's TCP links.
#[derive(Clone, Copy, Debug, PartialEq, Eq, Structural)]
pub enum LinkState {
    /// We're in communication with this peer
    Duplex,
    /// They can send data but not recieve it (we are the server)
    DownlinkOnly,
    /// We can send data but not receive it (they are the server)
    UplinkOnly,
    /// No communication is available over TCP
    NoLink,
}

/// The link state of a peer with the given source and destination.
pub open spec fn spec_link_state(src: Option<PeerAddr>, dst: Option<PeerAddr>) -> LinkState {
    match (src, dst) {
        (None, None) => LinkState::NoLink,
        (Some(_), None) => LinkState::DownlinkOnly,
        (None, Some(_)) => LinkState::UplinkOnly,
        (Some(_), Some(_)) => LinkState::Duplex,
    }
}

impl Peer {
    /// The state of this peer's links.
    pub open spec fn spec_link(self) -> LinkState {
        spec_link_state(self.src, self.dst)
    }

    /// The state of this peer's links.
    pub fn link_state(&self) -> (s: LinkState)
        ensures
            s == self.spec_link(),
    {
        match (self.src, self.dst) {
            (None, None) => LinkState::NoLink,
            (Some(_), None) => LinkState::DownlinkOnly,
            (None, Some(_)) => LinkState::UplinkOnly,
            (Some(_), Some(_)) => LinkState::Duplex,
        }
    }
}

/// Why a peer could not be inserted.
#[derive(Clone, Copy, Debug, PartialEq, Eq, Structural)]
pub enum PeerInsertError {
    /// A peer with this source address already exists
    SameSrcAddr,
    /// A peer with this destination address already exists
    SameDstAddr,
    /// A peer with the requested ID was not found
    NoSuchPeer,
}

/// The addresses that loading refused, in the order they were given.
#[derive(Clone, Debug)]
pub struct PeerErrs {
    pub addrs: Vec<PeerAddr>,
}

impl PeerErrs {
    /// A failure for a first refused address.
    pub fn new(addr: PeerAddr) -> (r: Result<(), PeerErrs>)
        ensures
            r matches Err(e) && e.addrs@ == seq![addr],
    {
        Err(PeerErrs { addrs: vec![addr] })
    }

    /// The failure with one more refused address.
    pub fn append(self, addr: PeerAddr) -> (e: PeerErrs)
        ensures
            e.addrs@ == self.addrs@.push(addr),
    {
        let mut e = self;
        e.addrs.push(addr);
        e
    }
}

/// The contents of a peer table.
#[verifier::ext_equal]
pub struct PeersModel {
    /// source address key -> peer id
    pub src: Map<AddrKey, usize>,
    /// destination address key -> peer id
    pub dst: Map<AddrKey, usize>,
    /// peer id -> peer
    pub peers: Map<usize, Peer>,
    /// most recently assigned peer id
    pub cur: nat,
}

impl PeersModel {
    /// The peer with this id.
    pub open spec fn lookup_id(self, id: usize) -> Option<Peer> {
        if self.peers.contains_key(id) { Some(self.peers[id]) } else { None }
    }

    /// The peer that the source table gives for this address.
    pub open spec fn lookup_src(self, a: PeerAddr) -> Option<Peer> {
        if self.src.contains_key(a.key()) { self.lookup_id(self.src[a.key()]) } else { None }
    }

    /// The peer that the destination table gives for this address.
    pub open spec fn lookup_dst(self, a: PeerAddr) -> Option<Peer> {
        if self.dst.contains_key(a.key()) { self.lookup_id(self.dst[a.key()]) } else { None }
    }

    /// Why inserting `p` is refused, if it is: another peer is found by its
    /// source address, or else by its destination address.
    pub open spec fn exclude(self, p: Peer) -> Result<(), PeerInsertError> {
        if p.src is Some && self.lookup_src(p.src.unwrap()) is Some {
            Err(PeerInsertError::SameSrcAddr)
        } else if p.dst is Some && self.lookup_dst(p.dst.unwrap()) is Some {
            Err(PeerInsertError::SameDstAddr)
        } else {
            Ok(())
        }
    }

    /// The table after inserting `p` under the next id, and that id; or the
    /// table unchanged and the reason `p` is refused.
    pub open spec fn add(self, p: Peer) -> (PeersModel, Result<usize, PeerInsertError>) {
        match self.exclude(p) {
            Err(e) => (self, Err(e)),
            Ok(_) => {
                let id = (self.cur + 1) as usize;
                let q = Peer { id, ..p };
                (PeersModel {
                    src: if p.src is Some { self.src.insert(p.src.unwrap().key(), id) } else { self.src },
                    dst: if p.dst is Some { self.dst.insert(p.dst.unwrap().key(), id) } else { self.dst },
                    peers: self.peers.insert(id, q),
                    cur: self.cur + 1,
                }, Ok(id))
            },
        }
    }

    /// The table without the peer with this id, and without the table
    /// entries of its addresses.
    pub open spec fn del(self, id: usize) -> PeersModel {
        if self.peers.contains_key(id) {
            let p = self.peers[id];
            PeersModel {
                src: if p.src is Some { self.src.remove(p.src.unwrap().key()) } else { self.src },
                dst: if p.dst is Some { self.dst.remove(p.dst.unwrap().key()) } else { self.dst },
                peers: self.peers.remove(id),
                cur: self.cur,
            }
        } else {
            self
        }
    }

    /// The table once the entries that a destination change of peer `id`
    /// to `dst` replaces are deleted, and the peer then to be inserted: the
    /// peer with its new destination, which also becomes known when the peer
    /// that had this destination was known.
    pub open spec fn change_target(self, id: usize, dst: PeerAddr) -> (PeersModel, Peer) {
        let p = Peer { dst: Some(dst), ..self.peers[id] };
        match self.lookup_dst(dst) {
            Some(g) => (self.del(g.id).del(p.id), Peer { known: p.known || g.known, ..p }),
            None => (self.del(p.id), p),
        }
    }

    /// Whether a destination change of peer `id` goes as far as assigning a
    /// new id.
    pub open spec fn change_assigns_id(self, id: usize, dst: PeerAddr) -> bool {
        self.peers.contains_key(id) && {
            let (m, q) = self.change_target(id, dst);
            m.exclude(q) is Ok
        }
    }

    /// The table and result after changing the destination of peer `id`
    /// to `dst`.
    pub open spec fn change_dst(self, id: usize, dst: PeerAddr) -> (PeersModel, Result<Peer, PeerInsertError>) {
        if !self.peers.contains_key(id) {
            (self, Err(PeerInsertError::NoSuchPeer))
        } else {
            let (m, q) = self.change_target(id, dst);
            let (m2, r) = m.add(q);
            (m2, match r {
                Ok(_) => Ok(q),
                Err(e) => Err(e),
            })
        }
    }

    /// The table after loading the addresses `addrs` as known destinations,
    /// each under the next id,
    /// and the addresses that were refused because the destination table
    /// already held them.
    pub open spec fn load(self, addrs: Seq<PeerAddr>) -> (PeersModel, Seq<PeerAddr>)
        decreases addrs.len(),
    {
        if addrs.len() == 0 {
            (self, Seq::empty())
        } else {
            let (m, dups) = self.load(addrs.drop_last());
            let a = addrs.last();
            if m.dst.contains_key(a.key()) {
                (m, dups.push(a))
            } else {
                let id = (m.cur + 1) as usize;
                (PeersModel {
                    src: m.src,
                    dst: m.dst.insert(a.key(), id),
                    peers: m.peers.insert(id, Peer { id, src: None, dst: Some(a), known: true }),
                    cur: m.cur + 1,
                }, dups)
            }
        }
    }
}

/// Loading a prefix of the addresses never counts further than loading
/// them all.
pub proof fn lemma_load_cur_monotone(m: PeersModel, addrs: Seq<PeerAddr>, i: int)
    requires
        0 <= i <= addrs.len(),
    ensures
        m.cur <= m.load(addrs.take(i)).0.cur <= m.load(addrs).0.cur,
    decreases addrs.len(),
{
    if addrs.len() > 0 {
        assert(addrs.take(addrs.len() as int) =~= addrs);
        if i < addrs.len() {
            assert(addrs.drop_last().take(i) =~= addrs.take(i));
            lemma_load_cur_monotone(m, addrs.drop_last(), i);
        } else {
            lemma_load_cur_monotone(m, addrs.drop_last(), addrs.len() - 1);
        }
    }
}

/// Loading never counts further than one id per address.
pub proof fn lemma_load_cur_bound(m: PeersModel, addrs: Seq<PeerAddr>)
    ensures
        m.load(addrs).0.cur <= m.cur + addrs.len(),
    decreases addrs.len(),
{
    if addrs.len() > 0 {
        lemma_load_cur_bound(m, addrs.drop_last());
    }
}

/// The three tables of the peer table and its counter.
struct Tables {
    /// Lookup table by source address.
    src_to_id: BTreeMap<AddrKey, usize>,
    /// Lookup table by destination address.
    dst_to_id: BTreeMap<AddrKey, usize>,
    /// Mapping from ID to peer data
    peers: HashMap<usize, Peer>,
    /// Most recently assigned peer ID
    cur: usize,
}

impl View for Tables {
    type V = PeersModel;

    closed spec fn view(&self) -> PeersModel {
        PeersModel {
            src: self.src_to_id@,
            dst: self.dst_to_id@,
            peers: self.peers@,
            cur: self.cur as nat,
        }
    }
}

impl Tables {
    /// Empty tables
    fn new() -> (p: Tables)
        ensures
            p@.src == Map::<AddrKey, usize>::empty(),
            p@.dst == Map::<AddrKey, usize>::empty(),
            p@.peers == Map::<usize, Peer>::empty(),
            p@.cur == 0,
    {
        Tables { src_to_id: BTreeMap::new(), dst_to_id: BTreeMap::new(), peers: HashMap::new(), cur: 0 }
    }

    /// The most recently assigned peer id.
    fn last_id(&self) -> (c: usize)
        ensures
            c == self@.cur,
    {
        self.cur
    }

    /// All peers of the table, in the order the table walks them.
    fn all_known(&self) -> (v: Vec<Peer>)
        ensures
            v@.to_set() == self@.peers.values(),
            v@.len() == self@.peers.dom().len(),
    {
        let mut v: Vec<Peer> = Vec::new();
        let values = self.peers.values();
        let ghost all = values.remaining().unref();
        for p in it: values
            invariant
                it.seq().unref() == all,
                v@ == all.take(it.index()),
        {
            v.push(*p);
            assert(all.take(it.index() + 1) =~= all.take(it.index()).push(*p));
        }
        assert(v@ =~= all);
        v
    }

    /// Get the state of a peer
    fn peer_with_id(&self, id: usize) -> (p: Option<Peer>)
        ensures
            p == self@.lookup_id(id),
    {
        match self.peers.get(&id) {
            Some(v) => Some(*v),
            None => None,
        }
    }

    /// Get a peer with the source socket address
    fn peer_with_src(&self, src: &PeerAddr) -> (p: Option<Peer>)
        ensures
            p == self@.lookup_src(*src),
    {
        let k = src.addr_key();
        match self.src_to_id.get(&k) {
            Some(id) => self.peer_with_id(*id),
            None => None,
        }
    }

    /// Get a peer with the destination socket address
    fn peer_with_dst(&self, dst: &PeerAddr) -> (p: Option<Peer>)
        ensures
            p == self@.lookup_dst(*dst),
    {
        let k = dst.addr_key();
        match self.dst_to_id.get(&k) {
            Some(id) => self.peer_with_id(*id),
            None => None,
        }
    }
    fn exclude_existing_peer(&self, peer: &Peer) -> (r: Result<(), PeerInsertError>)
        ensures
            r == self@.exclude(*peer),
    {
        if let Some(src) = peer.src {
            if self.peer_with_src(&src).is_some() {
                return Err(PeerInsertError::SameSrcAddr);
            }
        }
        if let Some(dst) = peer.dst {
            if self.peer_with_dst(&dst).is_some() {
                return Err(PeerInsertError::SameDstAddr);
            }
        }
        Ok(())
    }

    /// Insert a new peer, returning an error if the peer already exists. The ID will be overwritten.
    fn add_peer(&mut self, peer: Peer) -> (r: Result<usize, PeerInsertError>)
        requires
            old(self)@.exclude(peer) is Ok ==> old(self)@.cur < usize::MAX,
        ensures
            (final(self)@, r) == old(self)@.add(peer),
    {
        self.exclude_existing_peer(&peer)?;
        self.cur = self.cur + 1;
        let id = self.cur;
        let mut peer = peer;
        peer.id = id;
        if let Some(src) = peer.src {
            self.src_to_id.insert(src.addr_key(), id);
        }
        if let Some(dst) = peer.dst {
            self.dst_to_id.insert(dst.addr_key(), id);
        }
        self.peers.insert(id, peer);
        Ok(id)
    }

    /// Remove the peer with the given ID, or do nothing if no such peer exists.
    fn del_peer(&mut self, id: usize)
        ensures
            final(self)@ == old(self)@.del(id),
    {
        let ghost before = self@;
        if let Some(peer) = self.peers.remove(&id) {
            assert(before.peers.contains_key(id) && before.peers[id] == peer);
            if let Some(src) = peer.src {
                let k = src.addr_key();
                self.src_to_id.remove(&k);
            }
            if let Some(dst) = peer.dst {
                let k = dst.addr_key();
                self.dst_to_id.remove(&k);
            }
        }
    }
    fn change_peer_dst(&mut self, id: usize, dst: &PeerAddr) -> (r: Result<Peer, PeerInsertError>)
        requires
            old(self)@.change_assigns_id(id, *dst) ==> old(self)@.cur < usize::MAX,
        ensures
            (final(self)@, r) == old(self)@.change_dst(id, *dst),
    {
        if let Some(mut peer) = self.peer_with_id(id) {
            // Get an existing peer with this destination - basically just checking if this is a trusted destination. We'll co-opt
            // this earlier identity.
            let former = self.peer_with_dst(dst);
            // Set the current peer's destination to the new destination
            peer.dst = Some(*dst);
            // Copy the "known" status from the earlier identity
            if let Some(g) = former {
                peer.known = peer.known || g.known;
                self.del_peer(g.id);
            }
            // Remove old associations with the previous ID
            self.del_peer(peer.id);
            // Add new associations with the current ID
            self.add_peer(peer)?;
            Ok(peer)
        } else {
            Err(PeerInsertError::NoSuchPeer)
        }
    }

    /// Record each address as the destination of a new known peer; an
    /// address that the destination table already holds is refused and
    /// reported, and the others are still recorded.
    fn load(&mut self, addrs: Vec<PeerAddr>) -> (r: Result<(), PeerErrs>)
        requires
            old(self)@.load(addrs@).0.cur <= usize::MAX,
        ensures
            final(self)@ == old(self)@.load(addrs@).0,
            match r {
                Ok(()) => old(self)@.load(addrs@).1.len() == 0,
                Err(e) => e.addrs@ == old(self)@.load(addrs@).1 && e.addrs@.len() > 0,
            },
    {
        let ghost start = self@;
        let mut res: Result<(), PeerErrs> = Ok(());
        let mut i: usize = 0;
        assert(addrs@.take(0) =~= Seq::<PeerAddr>::empty());
        while i < addrs.len()
            invariant
                i <= addrs@.len(),
                start.load(addrs@).0.cur <= usize::MAX,
                self@ == start.load(addrs@.take(i as int)).0,
                match res {
                    Ok(()) => start.load(addrs@.take(i as int)).1.len() == 0,
                    Err(e) => e.addrs@ == start.load(addrs@.take(i as int)).1 && e.addrs@.len() > 0,
                },
            decreases addrs@.len() - i,
        {
            let addr = addrs[i];
            proof {
                assert(addrs@.take(i as int + 1).drop_last() =~= addrs@.take(i as int));
                lemma_load_cur_monotone(start, addrs@, i as int + 1);
            }
            let k = addr.addr_key();
            let dup = self.dst_to_id.contains_key(&k);
            res = match res {
                Ok(()) => {
                    if dup {
                        PeerErrs::new(addr)
                    } else {
                        self.insert_loaded(addr);
                        Ok(())
                    }
                },
                Err(e) => {
                    if dup {
                        Err(e.append(addr))
                    } else {
                        self.insert_loaded(addr);
                        Err(e)
                    }
                },
            };
            i = i + 1;
        }
        assert(addrs@.take(addrs@.len() as int) =~= addrs@);
        res
    }

    /// Record `addr` as the destination of a new known peer under the next
    /// id.
    fn insert_loaded(&mut self, addr: PeerAddr)
        requires
            old(self)@.cur < usize::MAX,
        ensures
            final(self)@ == (PeersModel {
                src: old(self)@.src,
                dst: old(self)@.dst.insert(addr.key(), (old(self)@.cur + 1) as usize),
                peers: old(self)@.peers.insert(
                    (old(self)@.cur + 1) as usize,
                    Peer { id: (old(self)@.cur + 1) as usize, src: None, dst: Some(addr), known: true },
                ),
                cur: old(self)@.cur + 1,
            }),
    {
        self.cur = self.cur + 1;
        let id = self.cur;
        self.dst_to_id.insert(addr.addr_key(), id);
        let peer = Peer { id, src: None, dst: Some(addr), known: true };
        self.peers.insert(id, peer);
    }
}

/// The peer table. Its tables always agree (see `PeersModel::wf`).
pub struct Peers {
    tables: Tables,
}

impl View for Peers {
    type V = PeersModel;

    closed spec fn view(&self) -> PeersModel {
        self.tables@
    }
}

impl Peers {
    #[verifier::type_invariant]
    closed spec fn consistent(self) -> bool {
        self.tables@.wf()
    }

    /// Create a new empty peer list
    pub fn new() -> (p: Peers)
        ensures
            p@.src == Map::<AddrKey, usize>::empty(),
            p@.dst == Map::<AddrKey, usize>::empty(),
            p@.peers == Map::<usize, Peer>::empty(),
            p@.cur == 0,
            p@.wf(),
    {
        Peers { tables: Tables::new() }
    }

    /// The most recently assigned peer id.
    pub fn last_id(&self) -> (c: usize)
        ensures
            c == self@.cur,
            self@.wf(),
    {
        proof { use_type_invariant(self); }
        self.tables.last_id()
    }

    /// All peers of the table, in the order the table walks them.
    pub fn all_known(&self) -> (v: Vec<Peer>)
        ensures
            v@.to_set() == self@.peers.values(),
            v@.len() == self@.peers.dom().len(),
            self@.wf(),
    {
        proof { use_type_invariant(self); }
        self.tables.all_known()
    }

    /// Get the state of a peer
    pub fn peer_with_id(&self, id: usize) -> (p: Option<Peer>)
        ensures
            p == self@.lookup_id(id),
            self@.wf(),
    {
        proof { use_type_invariant(self); }
        self.tables.peer_with_id(id)
    }

    /// Get a peer with the source socket address
    pub fn peer_with_src(&self, src: &PeerAddr) -> (p: Option<Peer>)
        ensures
            p == self@.lookup_src(*src),
            self@.wf(),
    {
        proof { use_type_invariant(self); }
        self.tables.peer_with_src(src)
    }

    /// Get a peer with the destination socket address
    pub fn peer_with_dst(&self, dst: &PeerAddr) -> (p: Option<Peer>)
        ensures
            p == self@.lookup_dst(*dst),
            self@.wf(),
    {
        proof { use_type_invariant(self); }
        self.tables.peer_with_dst(dst)
    }

    /// Take the tables out, leaving empty ones behind.
    fn take_tables(&mut self) -> (t: Tables)
        ensures
            t@ == old(self)@,
            old(self)@.wf(),
    {
        proof { use_type_invariant(&*self); }
        let mut t = Tables::new();
        std::mem::swap(&mut t, &mut self.tables);
        t
    }

    /// Insert a new peer, returning an error if the peer already exists. The ID will be overwritten.
    pub fn add_peer(&mut self, peer: Peer) -> (r: Result<usize, PeerInsertError>)
        requires
            old(self)@.exclude(peer) is Ok ==> old(self)@.cur < usize::MAX,
        ensures
            (final(self)@, r) == old(self)@.add(peer),
            final(self)@.wf(),
            // refused exactly when another peer is found by its source, or
            // else by its destination, and then nothing changes
            r == Err::<usize, PeerInsertError>(PeerInsertError::SameSrcAddr)
                <==> (peer.src is Some && old(self)@.lookup_src(peer.src.unwrap()) is Some),
            r == Err::<usize, PeerInsertError>(PeerInsertError::SameDstAddr)
                <==> (!(peer.src is Some && old(self)@.lookup_src(peer.src.unwrap()) is Some)
                    && peer.dst is Some && old(self)@.lookup_dst(peer.dst.unwrap()) is Some),
            r is Err ==> final(self)@ == old(self)@,
            // accepted: stored under the next id, found by it and by its
            // addresses, every other id finding what it found
            r matches Ok(id) ==> {
                &&& id == old(self)@.cur + 1
                &&& final(self)@.lookup_id(id) == Some(Peer { id, ..peer })
                &&& peer.src is Some ==> final(self)@.lookup_src(peer.src.unwrap()) == Some(Peer { id, ..peer })
                &&& peer.dst is Some ==> final(self)@.lookup_dst(peer.dst.unwrap()) == Some(Peer { id, ..peer })
                &&& !old(self)@.peers.contains_key(id)
                &&& forall|other: usize| other != id ==> #[trigger] final(self)@.lookup_id(other) == old(self)@.lookup_id(other)
            },
    {
        let mut t = self.take_tables();
        proof {
            lemma_add_keeps_wf(t@, peer);
            lemma_add_then_lookup(t@, peer);
        }
        let r = t.add_peer(peer);
        self.tables = t;
        r
    }

    /// Remove the peer with the given ID, or do nothing if no such peer exists.
    pub fn del_peer(&mut self, id: usize)
        ensures
            final(self)@ == old(self)@.del(id),
            final(self)@.wf(),
            // the id and the peer's addresses find nothing; every other id
            // finds what it found
            final(self)@.lookup_id(id) is None,
            old(self)@.peers.contains_key(id) && old(self)@.peers[id].src is Some
                ==> final(self)@.lookup_src(old(self)@.peers[id].src.unwrap()) is None,
            old(self)@.peers.contains_key(id) && old(self)@.peers[id].dst is Some
                ==> final(self)@.lookup_dst(old(self)@.peers[id].dst.unwrap()) is None,
            forall|other: usize| other != id ==> #[trigger] final(self)@.lookup_id(other) == old(self)@.lookup_id(other),
    {
        let mut t = self.take_tables();
        proof {
            lemma_del_keeps_wf(t@, id);
            lemma_del_then_lookup(t@, id);
        }
        t.del_peer(id);
        self.tables = t;
    }

    /// Give the peer `id` the destination `dst`, taking over the peer that
    /// had it: the peer is stored again under the next id.
    pub fn change_peer_dst(&mut self, id: usize, dst: &PeerAddr) -> (r: Result<Peer, PeerInsertError>)
        requires
            old(self)@.change_assigns_id(id, *dst) ==> old(self)@.cur < usize::MAX,
        ensures
            (final(self)@, r) == old(self)@.change_dst(id, *dst),
            final(self)@.wf(),
            // a missing peer is refused and nothing changes
            !old(self)@.peers.contains_key(id) ==> r == Err::<Peer, PeerInsertError>(PeerInsertError::NoSuchPeer)
                && final(self)@ == old(self)@,
            // a stored peer gets the destination, takes over the known flag of
            // the peer that had it, and is stored again under the next id,
            // found there by its destination and its source; the old id
            // finds nothing
            old(self)@.peers.contains_key(id) && old(self)@.cur < usize::MAX ==> {
                let p = old(self)@.peers[id];
                let new_id = (old(self)@.cur + 1) as usize;
                &&& r matches Ok(q)
                &&& q.id == id
                &&& q.src == p.src
                &&& q.dst == Some(*dst)
                &&& q.known == (p.known || (old(self)@.lookup_dst(*dst) matches Some(g) && g.known))
                &&& final(self)@.lookup_dst(*dst) == Some(Peer { id: new_id, ..q })
                &&& q.src is Some ==> final(self)@.lookup_src(q.src.unwrap()) == Some(Peer { id: new_id, ..q })
                &&& final(self)@.lookup_id(id) is None
            },
            // every other peer stays where it was
            forall|other: usize|
                other != id && (old(self)@.lookup_dst(*dst) matches Some(g) ==> other != g.id)
                    && other != (old(self)@.cur + 1) as usize
                ==> #[trigger] final(self)@.lookup_id(other) == old(self)@.lookup_id(other),
            forall|a: PeerAddr|
                (old(self)@.lookup_src(a) matches Some(q) && q.id != id
                    && (old(self)@.lookup_dst(*dst) matches Some(g) ==> q.id != g.id))
                ==> #[trigger] final(self)@.lookup_src(a) == old(self)@.lookup_src(a),
    {
        let mut t = self.take_tables();
        proof {
            lemma_change_keeps_wf(t@, id, *dst);
            lemma_change_keeps_others(t@, id, *dst);
            if t@.peers.contains_key(id) && t@.cur < usize::MAX {
                lemma_change_dst_moves_peer(t@, id, *dst);
            }
        }
        let r = t.change_peer_dst(id, dst);
        self.tables = t;
        r
    }

    /// Record each address as the destination of a new known peer under the
    /// next id; an address that the destination table already holds is
    /// refused and reported, and the others are still recorded.
    pub fn load(&mut self, addrs: Vec<PeerAddr>) -> (r: Result<(), PeerErrs>)
        requires
            old(self)@.load(addrs@).0.cur <= usize::MAX,
        ensures
            final(self)@ == old(self)@.load(addrs@).0,
            match r {
                Ok(()) => old(self)@.load(addrs@).1.len() == 0,
                Err(e) => e.addrs@ == old(self)@.load(addrs@).1 && e.addrs@.len() > 0,
            },
            final(self)@.wf(),
            // the peers held before stay as they were
            forall|i: usize| #[trigger] old(self)@.peers.contains_key(i)
                ==> final(self)@.lookup_id(i) == old(self)@.lookup_id(i),
            // each address the destination table did not hold is recorded as
            // a new known peer with only that destination, whatever else was
            // refused
            forall|j: int| 0 <= j < addrs@.len() && !old(self)@.dst.contains_key(addrs@[j].key()) ==>
                ((#[trigger] final(self)@.lookup_dst(addrs@[j])) matches Some(p)
                    && !old(self)@.peers.contains_key(p.id) && p.src is None && p.known && p.dst == Some(addrs@[j])),
            // it succeeds exactly when no address is already a destination or
            // repeats an earlier one, and it reports only loaded addresses
            r is Ok <==> loads_cleanly(old(self)@, addrs@),
            r matches Err(e) ==> forall|d: PeerAddr| #[trigger] e.addrs@.contains(d) ==> addrs@.contains(d),
            // and loading adds no other peers
            forall|i: usize| #[trigger] final(self)@.peers.contains_key(i) && !old(self)@.peers.contains_key(i) ==> {
                let q = final(self)@.peers[i];
                &&& q.id == i
                &&& q.src is None
                &&& q.known
                &&& q.dst is Some
                &&& addrs@.contains(q.dst.unwrap())
            },
    {
        let mut t = self.take_tables();
        proof {
            lemma_load_keeps_wf(t@, addrs@);
            lemma_load_refuses_exactly_repeats(t@, addrs@);
        }
        let r = t.load(addrs);
        self.tables = t;
        r
    }
}

impl Default for Peers {
    /// An empty peer list.
    fn default() -> (p: Peers)
        ensures
            p@.src == Map::<AddrKey, usize>::empty(),
            p@.dst == Map::<AddrKey, usize>::empty(),
            p@.peers == Map::<usize, Peer>::empty(),
            p@.cur == 0,
            p@.wf(),
    {
        Peers::new()
    }
}

} // verus!
