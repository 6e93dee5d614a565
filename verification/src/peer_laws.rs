//! What the peer table's operations keep and what a lookup gives back
//! after them.

use vstd::prelude::*;
use crate::addr::{AddrKey, PeerAddr, lemma_key_injective};
use crate::peers::{Peer, PeersModel, lemma_load_cur_monotone};

verus! {

impl PeersModel {
    /// The tables agree: every peer is stored under its own id, no id is
    /// above the last one assigned, and each address table maps exactly the
    /// addresses of the stored peers to their ids.
    pub open spec fn wf(self) -> bool {
        &&& forall|id: usize| #[trigger] self.peers.contains_key(id)
            ==> self.peers[id].id == id && id <= self.cur
        &&& forall|id: usize| #[trigger] self.peers.contains_key(id) && self.peers[id].src is Some
            ==> self.src.contains_key(self.peers[id].src.unwrap().key())
                && self.src[self.peers[id].src.unwrap().key()] == id
        &&& forall|id: usize| #[trigger] self.peers.contains_key(id) && self.peers[id].dst is Some
            ==> self.dst.contains_key(self.peers[id].dst.unwrap().key())
                && self.dst[self.peers[id].dst.unwrap().key()] == id
        &&& forall|k: AddrKey| #[trigger] self.src.contains_key(k)
            ==> self.peers.contains_key(self.src[k]) && self.peers[self.src[k]].src is Some
                && self.peers[self.src[k]].src.unwrap().key() == k
        &&& forall|k: AddrKey| #[trigger] self.dst.contains_key(k)
            ==> self.peers.contains_key(self.dst[k]) && self.peers[self.dst[k]].dst is Some
                && self.peers[self.dst[k]].dst.unwrap().key() == k
    }
}

/// A new, empty table is consistent.
pub proof fn lemma_empty_wf()
    ensures
        (PeersModel {
            src: Map::empty(),
            dst: Map::empty(),
            peers: Map::empty(),
            cur: 0,
        }).wf(),
{
}

/// Inserting a peer keeps a consistent table consistent, whether the peer
/// is refused or not.
pub proof fn lemma_add_keeps_wf(m: PeersModel, p: Peer)
    requires
        m.wf(),
        m.exclude(p) is Ok ==> m.cur < usize::MAX,
    ensures
        m.add(p).0.wf(),
{
    if m.exclude(p) is Ok {
        let id = (m.cur + 1) as usize;
        let q = Peer { id, ..p };
        let m2 = m.add(p).0;
        assert(!m.peers.contains_key(id));
        if p.src is Some {
            let k = p.src.unwrap().key();
            assert(!m.src.contains_key(k));
        }
        if p.dst is Some {
            let k = p.dst.unwrap().key();
            assert(!m.dst.contains_key(k));
        }
        assert forall|i: usize| #[trigger] m2.peers.contains_key(i) && m2.peers[i].src is Some
            implies m2.src.contains_key(m2.peers[i].src.unwrap().key())
                && m2.src[m2.peers[i].src.unwrap().key()] == i by {
            if i != id {
                assert(m.peers.contains_key(i));
                if p.src is Some {
                    if m.peers[i].src.unwrap().key() == p.src.unwrap().key() {
                        assert(m.src.contains_key(p.src.unwrap().key()));
                    }
                }
            }
        }
        assert forall|i: usize| #[trigger] m2.peers.contains_key(i) && m2.peers[i].dst is Some
            implies m2.dst.contains_key(m2.peers[i].dst.unwrap().key())
                && m2.dst[m2.peers[i].dst.unwrap().key()] == i by {
            if i != id {
                assert(m.peers.contains_key(i));
                if p.dst is Some {
                    if m.peers[i].dst.unwrap().key() == p.dst.unwrap().key() {
                        assert(m.dst.contains_key(p.dst.unwrap().key()));
                    }
                }
            }
        }
        assert forall|k: AddrKey| #[trigger] m2.src.contains_key(k)
            implies m2.peers.contains_key(m2.src[k]) && m2.peers[m2.src[k]].src is Some
                && m2.peers[m2.src[k]].src.unwrap().key() == k by {
            if !(p.src is Some && k == p.src.unwrap().key()) {
                assert(m.src.contains_key(k));
            }
        }
        assert forall|k: AddrKey| #[trigger] m2.dst.contains_key(k)
            implies m2.peers.contains_key(m2.dst[k]) && m2.peers[m2.dst[k]].dst is Some
                && m2.peers[m2.dst[k]].dst.unwrap().key() == k by {
            if !(p.dst is Some && k == p.dst.unwrap().key()) {
                assert(m.dst.contains_key(k));
            }
        }
    }
}

/// Deleting a peer keeps a consistent table consistent.
pub proof fn lemma_del_keeps_wf(m: PeersModel, id: usize)
    requires
        m.wf(),
    ensures
        m.del(id).wf(),
{
    if m.peers.contains_key(id) {
        let p = m.peers[id];
        let m2 = m.del(id);
        assert forall|i: usize| #[trigger] m2.peers.contains_key(i) && m2.peers[i].src is Some
            implies m2.src.contains_key(m2.peers[i].src.unwrap().key())
                && m2.src[m2.peers[i].src.unwrap().key()] == i by {
            assert(m.peers.contains_key(i));
        }
        assert forall|i: usize| #[trigger] m2.peers.contains_key(i) && m2.peers[i].dst is Some
            implies m2.dst.contains_key(m2.peers[i].dst.unwrap().key())
                && m2.dst[m2.peers[i].dst.unwrap().key()] == i by {
            assert(m.peers.contains_key(i));
        }
        assert forall|k: AddrKey| #[trigger] m2.src.contains_key(k)
            implies m2.peers.contains_key(m2.src[k]) && m2.peers[m2.src[k]].src is Some
                && m2.peers[m2.src[k]].src.unwrap().key() == k by {
            assert(m.src.contains_key(k));
        }
        assert forall|k: AddrKey| #[trigger] m2.dst.contains_key(k)
            implies m2.peers.contains_key(m2.dst[k]) && m2.peers[m2.dst[k]].dst is Some
                && m2.peers[m2.dst[k]].dst.unwrap().key() == k by {
            assert(m.dst.contains_key(k));
        }
    }
}

/// After an insertion that is not refused, the new id gives the peer under
/// that id, and so do its source and its destination address.
pub proof fn lemma_add_then_lookup(m: PeersModel, p: Peer)
    ensures
        match m.add(p) {
            (m2, Ok(id)) => {
                let q = Peer { id, ..p };
                &&& m2.lookup_id(id) == Some(q)
                &&& p.src is Some ==> m2.lookup_src(p.src.unwrap()) == Some(q)
                &&& p.dst is Some ==> m2.lookup_dst(p.dst.unwrap()) == Some(q)
            },
            (m2, Err(_)) => m2 == m,
        },
{
}

/// After deleting a peer of a consistent table, neither its id nor its
/// addresses find a peer, and every other peer is found as before.
pub proof fn lemma_del_then_lookup(m: PeersModel, id: usize)
    requires
        m.wf(),
    ensures
        m.del(id).lookup_id(id) is None,
        m.peers.contains_key(id) && m.peers[id].src is Some
            ==> m.del(id).lookup_src(m.peers[id].src.unwrap()) is None,
        m.peers.contains_key(id) && m.peers[id].dst is Some
            ==> m.del(id).lookup_dst(m.peers[id].dst.unwrap()) is None,
        forall|other: usize| other != id ==> #[trigger] m.del(id).lookup_id(other) == m.lookup_id(other),
{
}

/// Changing a peer's destination keeps a consistent table consistent.
pub proof fn lemma_change_keeps_wf(m: PeersModel, id: usize, dst: PeerAddr)
    requires
        m.wf(),
        m.change_assigns_id(id, dst) ==> m.cur < usize::MAX,
    ensures
        m.change_dst(id, dst).0.wf(),
{
    if m.peers.contains_key(id) {
        let p = Peer { dst: Some(dst), ..m.peers[id] };
        match m.lookup_dst(dst) {
            Some(g) => {
                lemma_del_keeps_wf(m, g.id);
                lemma_del_keeps_wf(m.del(g.id), p.id);
            },
            None => {
                lemma_del_keeps_wf(m, p.id);
            },
        }
        let (m1, q) = m.change_target(id, dst);
        lemma_add_keeps_wf(m1, q);
    }
}

/// In a consistent table, changing the destination of a stored peer
/// succeeds when an id is left to assign: the peer is stored again under
/// the new id with its new destination, found by that destination and by
/// its source, the old id finds nothing, and it is known when it or the
/// peer that had the destination was known.
pub proof fn lemma_change_dst_moves_peer(m: PeersModel, id: usize, dst: PeerAddr)
    requires
        m.wf(),
        m.peers.contains_key(id),
        m.cur < usize::MAX,
    ensures
        ({
            let old_peer = m.peers[id];
            let (m2, r) = m.change_dst(id, dst);
            let new_id = (m.cur + 1) as usize;
            &&& r matches Ok(q)
            &&& q.id == id
            &&& q.src == old_peer.src
            &&& q.dst == Some(dst)
            &&& q.known == (old_peer.known || (m.lookup_dst(dst) matches Some(g) && g.known))
            &&& m2.lookup_dst(dst) == Some(Peer { id: new_id, ..q })
            &&& q.src is Some ==> m2.lookup_src(q.src.unwrap()) == Some(Peer { id: new_id, ..q })
            &&& m2.lookup_id(id) is None
            &&& m2.wf()
        }),
{
    let p = Peer { dst: Some(dst), ..m.peers[id] };
    assert(p.id == id);
    let (m1, q) = m.change_target(id, dst);
    match m.lookup_dst(dst) {
        Some(g) => {
            lemma_del_keeps_wf(m, g.id);
            lemma_del_keeps_wf(m.del(g.id), p.id);
            assert(m.dst.contains_key(dst.key()) && m.dst[dst.key()] == g.id);
            assert(!m.del(g.id).dst.contains_key(dst.key()));
        },
        None => {
            lemma_del_keeps_wf(m, p.id);
            if m.dst.contains_key(dst.key()) {
                assert(m.peers.contains_key(m.dst[dst.key()]));
            }
        },
    }
    assert(m1.wf());
    assert(m1.lookup_dst(dst) is None);
    if q.src is Some {
        assert(m.src.contains_key(q.src.unwrap().key()) && m.src[q.src.unwrap().key()] == id);
        assert(!m1.src.contains_key(q.src.unwrap().key()));
        assert(m1.lookup_src(q.src.unwrap()) is None);
    }
    assert(m1.exclude(q) is Ok);
    lemma_add_keeps_wf(m1, q);
    lemma_add_then_lookup(m1, q);
}

/// Loading keeps a consistent table consistent, keeps every peer and source
/// entry it held, and leaves every loaded address in the destination table.
proof fn lemma_load_induct(m: PeersModel, addrs: Seq<PeerAddr>)
    requires
        m.wf(),
        m.load(addrs).0.cur <= usize::MAX,
    ensures
        m.load(addrs).0.wf(),
        m.load(addrs).0.src == m.src,
        forall|i: usize| #[trigger] m.peers.contains_key(i)
            ==> m.load(addrs).0.peers.contains_key(i) && m.load(addrs).0.peers[i] == m.peers[i],
        forall|j: int| 0 <= j < addrs.len() ==> #[trigger] m.load(addrs).0.dst.contains_key(addrs[j].key()),
        forall|i: usize| #[trigger] m.load(addrs).0.peers.contains_key(i) && !m.peers.contains_key(i) ==> {
            let q = m.load(addrs).0.peers[i];
            &&& q.src is None
            &&& q.known
            &&& q.dst is Some
            &&& addrs.contains(q.dst.unwrap())
        },
        forall|k: AddrKey| #[trigger] m.load(addrs).0.dst.contains_key(k) && !m.dst.contains_key(k)
            ==> !m.peers.contains_key(m.load(addrs).0.dst[k]),
    decreases addrs.len(),
{
    if addrs.len() > 0 {
        let n = addrs.len() - 1;
        assert(addrs.take(n) =~= addrs.drop_last());
        lemma_load_cur_monotone(m, addrs, n);
        lemma_load_induct(m, addrs.drop_last());
        let m1 = m.load(addrs.drop_last()).0;
        let a = addrs.last();
        let r = m.load(addrs).0;
        assert forall|j: int| 0 <= j < n implies #[trigger] r.dst.contains_key(addrs[j].key()) by {
            assert(addrs.drop_last()[j] == addrs[j]);
            assert(m1.dst.contains_key(addrs.drop_last()[j].key()));
        }
        assert forall|i: usize| #[trigger] m1.peers.contains_key(i) && !m.peers.contains_key(i)
            && m1.peers[i].dst is Some implies addrs.contains(m1.peers[i].dst.unwrap()) by {
            let j = choose|j: int| 0 <= j < n && addrs.drop_last()[j] == m1.peers[i].dst.unwrap();
            assert(addrs[j] == m1.peers[i].dst.unwrap());
        }
        if !m1.dst.contains_key(a.key()) {
            let id = (m1.cur + 1) as usize;
            lemma_load_cur_monotone(m, addrs.drop_last(), 0);
            assert(addrs.drop_last().take(0) =~= Seq::<PeerAddr>::empty());
            assert(!m1.peers.contains_key(id));
            assert(!m.peers.contains_key(id));
            assert(addrs.contains(a)) by { assert(addrs[n] == a); }
            assert forall|i: usize| #[trigger] m.peers.contains_key(i)
                implies r.peers.contains_key(i) && r.peers[i] == m.peers[i] by {
                assert(m1.peers.contains_key(i));
            }
            assert forall|i: usize| #[trigger] r.peers.contains_key(i) && r.peers[i].dst is Some
                implies r.dst.contains_key(r.peers[i].dst.unwrap().key())
                    && r.dst[r.peers[i].dst.unwrap().key()] == i by {
                if i != id {
                    assert(m1.peers.contains_key(i));
                }
            }
            assert forall|i: usize| #[trigger] r.peers.contains_key(i) && r.peers[i].src is Some
                implies r.src.contains_key(r.peers[i].src.unwrap().key())
                    && r.src[r.peers[i].src.unwrap().key()] == i by {
                if i != id {
                    assert(m1.peers.contains_key(i));
                }
            }
            assert forall|k: AddrKey| #[trigger] r.src.contains_key(k)
                implies r.peers.contains_key(r.src[k]) && r.peers[r.src[k]].src is Some
                    && r.peers[r.src[k]].src.unwrap().key() == k by {
                assert(m1.src.contains_key(k));
            }
            assert forall|k: AddrKey| #[trigger] r.dst.contains_key(k)
                implies r.peers.contains_key(r.dst[k]) && r.peers[r.dst[k]].dst is Some
                    && r.peers[r.dst[k]].dst.unwrap().key() == k by {
                if k != a.key() {
                    assert(m1.dst.contains_key(k));
                }
            }
        }
    }
}

/// Loading addresses into a consistent table keeps it consistent, keeps
/// every peer it held (under its id, with its addresses and known flag) and
/// every source entry, and afterwards each loaded address finds a peer with
/// that destination.
pub proof fn lemma_load_keeps_wf(m: PeersModel, addrs: Seq<PeerAddr>)
    requires
        m.wf(),
        m.load(addrs).0.cur <= usize::MAX,
    ensures
        m.load(addrs).0.wf(),
        m.load(addrs).0.src == m.src,
        forall|i: usize| #[trigger] m.peers.contains_key(i)
            ==> m.load(addrs).0.lookup_id(i) == m.lookup_id(i),
        forall|j: int| 0 <= j < addrs.len() ==>
            ((#[trigger] m.load(addrs).0.lookup_dst(addrs[j])) matches Some(p) && p.dst == Some(addrs[j])),
        // every peer that loading adds is a known peer with only a destination,
        // one of the loaded addresses
        forall|i: usize| #[trigger] m.load(addrs).0.peers.contains_key(i) && !m.peers.contains_key(i) ==> {
            let q = m.load(addrs).0.peers[i];
            &&& q.id == i
            &&& q.src is None
            &&& q.known
            &&& q.dst is Some
            &&& addrs.contains(q.dst.unwrap())
        },
        // an address the destination table did not hold is recorded as such
        // a new peer, whatever else was refused
        forall|j: int| 0 <= j < addrs.len() && !m.dst.contains_key(addrs[j].key()) ==>
            ((#[trigger] m.load(addrs).0.lookup_dst(addrs[j])) matches Some(p)
                && !m.peers.contains_key(p.id) && p.src is None && p.known && p.dst == Some(addrs[j])),
{
    lemma_load_induct(m, addrs);
    let r = m.load(addrs).0;
    assert forall|j: int| 0 <= j < addrs.len() implies
        ((#[trigger] r.lookup_dst(addrs[j])) matches Some(p) && p.dst == Some(addrs[j])) by {
        let k = addrs[j].key();
        assert(r.dst.contains_key(k));
        lemma_key_injective(r.peers[r.dst[k]].dst.unwrap(), addrs[j]);
    }
}

/// Inserting a peer into a consistent table and then deleting it again
/// gives back the table, but for the counter, which stays advanced.
pub proof fn lemma_add_then_del(m: PeersModel, p: Peer)
    requires
        m.wf(),
        m.exclude(p) is Ok ==> m.cur < usize::MAX,
    ensures
        match m.add(p) {
            (m2, Ok(id)) => m2.del(id) == (PeersModel { cur: m.cur + 1, ..m }),
            (m2, Err(_)) => m2 == m,
        },
{
    if m.exclude(p) is Ok {
        let id = (m.cur + 1) as usize;
        let m2 = m.add(p).0;
        let m3 = m2.del(id);
        assert(!m.peers.contains_key(id));
        if p.src is Some {
            let k = p.src.unwrap().key();
            if m.src.contains_key(k) {
                assert(m.peers.contains_key(m.src[k]));
            }
            assert(m3.src =~= m.src);
        } else {
            assert(m3.src =~= m.src);
        }
        if p.dst is Some {
            let k = p.dst.unwrap().key();
            if m.dst.contains_key(k) {
                assert(m.peers.contains_key(m.dst[k]));
            }
            assert(m3.dst =~= m.dst);
        } else {
            assert(m3.dst =~= m.dst);
        }
        assert(m3.peers =~= m.peers);
    }
}

/// Changing the destination of peer `id` in a consistent table leaves every
/// other peer where it was: apart from `id`, the peer that had the
/// destination and the new id, each id finds what it found before, and each
/// source address of another peer still finds that peer.
pub proof fn lemma_change_keeps_others(m: PeersModel, id: usize, dst: PeerAddr)
    requires
        m.wf(),
        m.change_assigns_id(id, dst) ==> m.cur < usize::MAX,
    ensures
        forall|other: usize|
            other != id && (m.lookup_dst(dst) matches Some(g) ==> other != g.id) && other != (m.cur + 1) as usize
            ==> #[trigger] m.change_dst(id, dst).0.lookup_id(other) == m.lookup_id(other),
        forall|a: PeerAddr|
            (m.lookup_src(a) matches Some(q) && q.id != id && (m.lookup_dst(dst) matches Some(g) ==> q.id != g.id))
            ==> #[trigger] m.change_dst(id, dst).0.lookup_src(a) == m.lookup_src(a),
{
    if m.peers.contains_key(id) {
        let p = Peer { dst: Some(dst), ..m.peers[id] };
        assert(p.id == id);
        let m1 = m.change_target(id, dst).0;
        let q = m.change_target(id, dst).1;
        match m.lookup_dst(dst) {
            Some(g) => {
                lemma_del_then_lookup(m, g.id);
                lemma_del_keeps_wf(m, g.id);
                lemma_del_then_lookup(m.del(g.id), id);
                lemma_del_keeps_wf(m.del(g.id), id);
            },
            None => {
                lemma_del_then_lookup(m, id);
                lemma_del_keeps_wf(m, id);
            },
        }
        assert(m1.wf());
        assert(m1.cur == m.cur);
        assert forall|other: usize|
            other != id && (m.lookup_dst(dst) matches Some(g) ==> other != g.id) && other != (m.cur + 1) as usize
            implies #[trigger] m.change_dst(id, dst).0.lookup_id(other) == m.lookup_id(other) by {
            assert(m1.lookup_id(other) == m.lookup_id(other));
        }
        assert forall|a: PeerAddr|
            (m.lookup_src(a) matches Some(r) && r.id != id && (m.lookup_dst(dst) matches Some(g) ==> r.id != g.id))
            implies #[trigger] m.change_dst(id, dst).0.lookup_src(a) == m.lookup_src(a) by {
            let r = m.lookup_src(a).unwrap();
            let k = a.key();
            assert(m.src.contains_key(k) && m.src[k] == r.id);
            assert(r.id <= m.cur);
            assert(m1.lookup_id(r.id) == m.lookup_id(r.id));
            assert(m1.src.contains_key(k) && m1.src[k] == r.id);
            if q.src is Some {
                let kq = q.src.unwrap().key();
                assert(m.src.contains_key(kq) && m.src[kq] == id);
                assert(kq != k);
            }
            if m1.exclude(q) is Ok {
                let nid = (m1.cur + 1) as usize;
                assert(nid != r.id);
                let m2 = m1.add(q).0;
                assert(m2.src.contains_key(k) && m2.src[k] == r.id);
                assert(m2.lookup_id(r.id) == m1.lookup_id(r.id));
            }
        }
    }
}

/// After loading, the destination table holds a key exactly when it held
/// it before or a loaded address has it.
proof fn lemma_load_dst_keys(m: PeersModel, addrs: Seq<PeerAddr>)
    ensures
        forall|k: AddrKey| #[trigger] m.load(addrs).0.dst.contains_key(k)
            <==> (m.dst.contains_key(k) || exists|j: int| 0 <= j < addrs.len() && addrs[j].key() == k),
    decreases addrs.len(),
{
    if addrs.len() > 0 {
        let n = addrs.len() - 1;
        lemma_load_dst_keys(m, addrs.drop_last());
        let pre = addrs.drop_last();
        let a = addrs.last();
        let m1 = m.load(pre).0;
        let r = m.load(addrs).0;
        assert(addrs[n] == a);
        assert(forall|k: AddrKey| #[trigger] r.dst.contains_key(k) <==> (m1.dst.contains_key(k) || k == a.key()));
        assert forall|k: AddrKey| #[trigger] r.dst.contains_key(k)
            <==> (m.dst.contains_key(k) || exists|j: int| 0 <= j < addrs.len() && addrs[j].key() == k) by {
            if exists|j: int| 0 <= j < addrs.len() && addrs[j].key() == k {
                let j = choose|j: int| 0 <= j < addrs.len() && addrs[j].key() == k;
                if j < n {
                    assert(pre[j] == addrs[j]);
                    assert(m1.dst.contains_key(k));
                }
            }
            if m1.dst.contains_key(k) && !m.dst.contains_key(k) {
                let j = choose|j: int| 0 <= j < pre.len() && pre[j].key() == k;
                assert(addrs[j] == pre[j]);
            }
        }
    }
}

/// Whether no loaded address is already in the destination table or
/// repeats an earlier one.
pub open spec fn loads_cleanly(m: PeersModel, addrs: Seq<PeerAddr>) -> bool {
    forall|j: int| 0 <= j < addrs.len() ==> !m.dst.contains_key(#[trigger] addrs[j].key())
        && forall|i: int| 0 <= i < j ==> addrs[i].key() != addrs[j].key()
}

/// Loading refuses nothing exactly when no address is already in the
/// destination table or repeats an earlier one; whatever it refuses is a
/// loaded address.
pub proof fn lemma_load_refuses_exactly_repeats(m: PeersModel, addrs: Seq<PeerAddr>)
    ensures
        (m.load(addrs).1.len() == 0) <==> loads_cleanly(m, addrs),
        forall|d: PeerAddr| #[trigger] m.load(addrs).1.contains(d) ==> addrs.contains(d),
    decreases addrs.len(),
{
    if addrs.len() > 0 {
        let n = addrs.len() - 1;
        let pre = addrs.drop_last();
        let a = addrs.last();
        lemma_load_refuses_exactly_repeats(m, pre);
        lemma_load_dst_keys(m, pre);
        let m1 = m.load(pre).0;
        let dups1 = m.load(pre).1;
        assert(loads_cleanly(m, addrs) <==> (loads_cleanly(m, pre) && !m1.dst.contains_key(a.key()))) by {
            if loads_cleanly(m, addrs) {
                assert forall|j: int| 0 <= j < pre.len() implies !m.dst.contains_key(#[trigger] pre[j].key())
                    && forall|i: int| 0 <= i < j ==> pre[i].key() != pre[j].key() by {
                    assert(pre[j] == addrs[j]);
                    assert forall|i: int| 0 <= i < j implies pre[i].key() != pre[j].key() by {
                        assert(pre[i] == addrs[i]);
                    }
                }
                if m1.dst.contains_key(a.key()) {
                    assert(!m.dst.contains_key(addrs[n].key()));
                    let j = choose|j: int| 0 <= j < pre.len() && pre[j].key() == a.key();
                    assert(addrs[j] == pre[j]);
                    assert(addrs[j].key() != addrs[n].key());
                }
            }
            if loads_cleanly(m, pre) && !m1.dst.contains_key(a.key()) {
                assert forall|j: int| 0 <= j < addrs.len() implies !m.dst.contains_key(#[trigger] addrs[j].key())
                    && forall|i: int| 0 <= i < j ==> addrs[i].key() != addrs[j].key() by {
                    if j < n {
                        assert(pre[j] == addrs[j]);
                        assert(!m.dst.contains_key(pre[j].key()));
                        assert forall|i: int| 0 <= i < j implies addrs[i].key() != addrs[j].key() by {
                            assert(pre[i] == addrs[i]);
                        }
                    } else {
                        assert forall|i: int| 0 <= i < j implies addrs[i].key() != addrs[j].key() by {
                            assert(pre[i] == addrs[i]);
                            if addrs[i].key() == a.key() {
                                assert(0 <= i < pre.len() && pre[i].key() == a.key());
                            }
                        }
                    }
                }
            }
        }
        assert forall|d: PeerAddr| #[trigger] m.load(addrs).1.contains(d) implies addrs.contains(d) by {
            if dups1.contains(d) {
                assert(pre.contains(d));
                let j = choose|j: int| 0 <= j < pre.len() && pre[j] == d;
                assert(addrs[j] == d);
            } else {
                assert(d == a);
                assert(addrs[n] == a);
            }
        }
    }
}

} // verus!
