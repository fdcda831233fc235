//! The peer store: what the node knows of each peer (public key, chain address,
//! multiaddrs, connectedness) and which peer owns each chain address.
//!
//! Peers and chain addresses are kept in insertion order.
use vstd::prelude::*;
use crate::digest::{keccak256, keccak256_of};
use crate::event::PublicKey;
use crate::text::{bytes_eq, copy_bytes};

verus! {

#[derive(Debug, Clone, Copy, PartialEq, Eq, Structural)]
pub enum Connectedness {
    NotConnected,
    CanConnect,
    Connected,
    CannotConnect,
}

/// The chain address of a public key: the first 20 bytes of its Keccak-256 digest.
pub open spec fn chain_address_of(pubkey: Seq<u8>) -> Seq<u8> {
    keccak256_of(pubkey).subrange(0, 20)
}

/// The chain address of a public key.
pub fn chain_address(pubkey: &[u8]) -> (r: Vec<u8>)
    ensures
        r@ == chain_address_of(pubkey@),
{
    let digest = keccak256(pubkey);
    let mut r: Vec<u8> = Vec::new();
    let mut i: usize = 0;
    while i < 20
        invariant
            i <= 20,
            digest@.len() == 32,
            r@ == digest@.subrange(0, i as int),
        decreases 20 - i,
    {
        r.push(digest[i]);
        i = i + 1;
        assert(r@ =~= digest@.subrange(0, i as int));
    }
    r
}

/// What the store knows of one peer.
pub struct PeerView {
    pub id: Seq<u8>,
    pub pubkey: Option<Seq<u8>>,
    pub chain_addr: Option<Seq<u8>>,
    pub multiaddrs: Seq<Seq<u8>>,
    pub connectedness: Connectedness,
}

pub struct Peer {
    id: Vec<u8>,
    pubkey: Option<Vec<u8>>,
    chain_addr: Option<Vec<u8>>,
    multiaddrs: Vec<Vec<u8>>,
    connectedness: Connectedness,
}

pub open spec fn opt_bytes(o: Option<Vec<u8>>) -> Option<Seq<u8>> {
    match o {
        Some(v) => Some(v@),
        None => None,
    }
}

pub open spec fn addrs_view(v: Seq<Vec<u8>>) -> Seq<Seq<u8>> {
    v.map_values(|a: Vec<u8>| a@)
}

impl Peer {
    pub closed spec fn view(&self) -> PeerView {
        PeerView {
            id: self.id@,
            pubkey: opt_bytes(self.pubkey),
            chain_addr: opt_bytes(self.chain_addr),
            multiaddrs: addrs_view(self.multiaddrs@),
            connectedness: self.connectedness,
        }
    }

    /// A new peer: nothing known but its id, not connected.
    pub fn new(id: Vec<u8>) -> (r: Peer)
        ensures
            r@ == fresh_peer(id@),
    {
        let r = Peer { id, pubkey: None, chain_addr: None, multiaddrs: Vec::new(), connectedness: Connectedness::NotConnected };
        assert(addrs_view(r.multiaddrs@) =~= Seq::<Seq<u8>>::empty());
        r
    }
}

/// A peer known only by its id.
pub open spec fn fresh_peer(id: Seq<u8>) -> PeerView {
    PeerView {
        id,
        pubkey: None,
        chain_addr: None,
        multiaddrs: Seq::empty(),
        connectedness: Connectedness::NotConnected,
    }
}

/// `addrs` with `addr` added, unless already there.
pub open spec fn add_addr(addrs: Seq<Seq<u8>>, addr: Seq<u8>) -> Seq<Seq<u8>> {
    if addrs.contains(addr) {
        addrs
    } else {
        addrs.push(addr)
    }
}

/// Whether a peer with id `id` is in `peers`.
pub open spec fn has_peer(peers: Seq<PeerView>, id: Seq<u8>) -> bool {
    exists|i: int| 0 <= i < peers.len() && peers[i].id == id
}

/// The position of the peer with id `id` in `peers` (meaningful when there is one).
pub open spec fn peer_index(peers: Seq<PeerView>, id: Seq<u8>) -> int {
    choose|i: int| 0 <= i < peers.len() && peers[i].id == id
}

/// The peer with id `id` in `peers`, if any.
pub open spec fn peer_of(peers: Seq<PeerView>, id: Seq<u8>) -> Option<PeerView> {
    if has_peer(peers, id) {
        Some(peers[peer_index(peers, id)])
    } else {
        None
    }
}

/// `peers` after applying `change` to the peer with id `id`, or after adding a
/// fresh peer with that id changed so, when there is none.
pub open spec fn update_peer(peers: Seq<PeerView>, id: Seq<u8>, change: spec_fn(PeerView) -> PeerView) -> Seq<PeerView> {
    if has_peer(peers, id) {
        peers.update(peer_index(peers, id), change(peers[peer_index(peers, id)]))
    } else {
        peers.push(change(fresh_peer(id)))
    }
}

pub open spec fn with_connectedness(c: Connectedness) -> spec_fn(PeerView) -> PeerView {
    |p: PeerView| PeerView { connectedness: c, ..p }
}

pub open spec fn with_addr(addr: Seq<u8>) -> spec_fn(PeerView) -> PeerView {
    |p: PeerView| PeerView { multiaddrs: add_addr(p.multiaddrs, addr), ..p }
}

pub open spec fn with_pubkey(pubkey: Seq<u8>) -> spec_fn(PeerView) -> PeerView {
    |p: PeerView| PeerView { pubkey: Some(pubkey), chain_addr: Some(chain_address_of(pubkey)), ..p }
}

/// The id of the peer owning chain address `addr` in `chain`, if any.
pub open spec fn owner_of(chain: Seq<(Seq<u8>, Seq<u8>)>, addr: Seq<u8>) -> Option<Seq<u8>> {
    if exists|i: int| 0 <= i < chain.len() && chain[i].0 == addr {
        Some(chain[choose|i: int| 0 <= i < chain.len() && chain[i].0 == addr].1)
    } else {
        None
    }
}

pub open spec fn unique_ids(peers: Seq<PeerView>) -> bool {
    forall|i: int, j: int| 0 <= i < j < peers.len() ==> #[trigger] peers[i].id != #[trigger] peers[j].id
}

pub open spec fn unique_addrs(chain: Seq<(Seq<u8>, Seq<u8>)>) -> bool {
    forall|i: int, j: int| 0 <= i < j < chain.len() ==> #[trigger] chain[i].0 != #[trigger] chain[j].0
}

pub open spec fn distinct(s: Seq<Seq<u8>>) -> bool {
    forall|i: int, j: int| 0 <= i < j < s.len() ==> #[trigger] s[i] != #[trigger] s[j]
}

proof fn lemma_peer_at(peers: Seq<PeerView>, i: int)
    requires
        unique_ids(peers),
        0 <= i < peers.len(),
    ensures
        peer_of(peers, peers[i].id) == Some(peers[i]),
{
    let id = peers[i].id;
    let k = choose|k: int| 0 <= k < peers.len() && peers[k].id == id;
    if k < i {
        assert(peers[k].id != peers[i].id);
    } else if k > i {
        assert(peers[i].id != peers[k].id);
    }
}

proof fn lemma_owner_at(chain: Seq<(Seq<u8>, Seq<u8>)>, i: int)
    requires
        unique_addrs(chain),
        0 <= i < chain.len(),
    ensures
        owner_of(chain, chain[i].0) == Some(chain[i].1),
{
    let a = chain[i].0;
    let k = choose|k: int| 0 <= k < chain.len() && chain[k].0 == a;
    if k < i {
        assert(chain[k].0 != chain[i].0);
    } else if k > i {
        assert(chain[i].0 != chain[k].0);
    }
}

/// The ids of the peers, in order, whose connectedness lets us dial them.
pub open spec fn connectable_ids(peers: Seq<PeerView>) -> Seq<Seq<u8>>
    decreases peers.len(),
{
    if peers.len() == 0 {
        Seq::empty()
    } else {
        let rest = connectable_ids(peers.drop_last());
        let p = peers.last();
        if p.connectedness == Connectedness::CanConnect || p.connectedness == Connectedness::NotConnected {
            rest.push(p.id)
        } else {
            rest
        }
    }
}

/// Splits `addrs` into the ids of their owners (in order) and the addresses with no owner.
pub open spec fn split_by_owner(chain: Seq<(Seq<u8>, Seq<u8>)>, addrs: Seq<Seq<u8>>) -> (Seq<Seq<u8>>, Seq<Seq<u8>>)
    decreases addrs.len(),
{
    if addrs.len() == 0 {
        (Seq::empty(), Seq::empty())
    } else {
        let (found, missing) = split_by_owner(chain, addrs.drop_last());
        match owner_of(chain, addrs.last()) {
            Some(id) => (found.push(id), missing),
            None => (found, missing.push(addrs.last())),
        }
    }
}

fn add_addr_exec(addrs: &mut Vec<Vec<u8>>, addr: Vec<u8>)
    ensures
        addrs_view(final(addrs)@) == add_addr(addrs_view(old(addrs)@), addr@),
        distinct(addrs_view(old(addrs)@)) ==> distinct(addrs_view(final(addrs)@)),
{
    let ghost before = addrs_view(addrs@);
    let mut i: usize = 0;
    while i < addrs.len()
        invariant
            i <= addrs@.len(),
            addrs_view(addrs@) == before,
            forall|j: int| 0 <= j < i ==> before[j] != addr@,
        decreases addrs@.len() - i,
    {
        if bytes_eq(addrs[i].as_slice(), addr.as_slice()) {
            assert(before[i as int] == addr@);
            assert(before.contains(addr@));
            return;
        }
        i = i + 1;
    }
    assert(!before.contains(addr@));
    let ghost old_v = addrs@;
    addrs.push(addr);
    assert(addrs_view(addrs@) =~= before.push(addr@));
    proof {
        if distinct(before) {
            let after = addrs_view(addrs@);
            assert forall|a: int, b: int| 0 <= a < b < after.len() implies #[trigger] after[a] != #[trigger] after[b] by {
                if b == before.len() {
                    assert(before[a] != addr@);
                } else {
                    assert(before[a] != before[b]);
                }
            }
        }
    }
}

/// The first `n` items of `s` (all of them when there are fewer).
pub open spec fn first_n<T>(s: Seq<T>, n: nat) -> Seq<T> {
    if s.len() <= n {
        s
    } else {
        s.take(n as int)
    }
}

/// The peer added by registering public key `pubkey` (with peer id `id`) at `addr`.
pub open spec fn registered_peer(pubkey: Seq<u8>, id: Seq<u8>, addr: Seq<u8>) -> PeerView {
    PeerView {
        id,
        pubkey: Some(pubkey),
        chain_addr: Some(chain_address_of(pubkey)),
        multiaddrs: seq![addr],
        connectedness: Connectedness::NotConnected,
    }
}

/// `chain` with chain address `addr` owned by `id` (replacing any previous owner).
pub open spec fn set_owner(chain: Seq<(Seq<u8>, Seq<u8>)>, addr: Seq<u8>, id: Seq<u8>) -> Seq<(Seq<u8>, Seq<u8>)> {
    if exists|i: int| 0 <= i < chain.len() && chain[i].0 == addr {
        chain.update(choose|i: int| 0 <= i < chain.len() && chain[i].0 == addr, (addr, id))
    } else {
        chain.push((addr, id))
    }
}

/// The store after registering each `(public key, peer id, multiaddr)` of `regs`
/// in order: a peer not yet known is added; the chain address of the key is given
/// to the peer in any case.
pub open spec fn register_all(
    peers: Seq<PeerView>,
    chain: Seq<(Seq<u8>, Seq<u8>)>,
    regs: Seq<(Seq<u8>, Seq<u8>, Seq<u8>)>,
) -> (Seq<PeerView>, Seq<(Seq<u8>, Seq<u8>)>)
    decreases regs.len(),
{
    if regs.len() == 0 {
        (peers, chain)
    } else {
        let (p, c) = register_all(peers, chain, regs.drop_last());
        let (pubkey, id, addr) = regs.last();
        let p2 = if has_peer(p, id) { p } else { p.push(registered_peer(pubkey, id, addr)) };
        (p2, set_owner(c, chain_address_of(pubkey), id))
    }
}

pub open spec fn regs_view(regs: Seq<(PublicKey, Vec<u8>)>) -> Seq<(Seq<u8>, Seq<u8>, Seq<u8>)> {
    regs.map_values(|r: (PublicKey, Vec<u8>)| (r.0.bytes@, r.0.peer_id@, r.1@))
}

pub struct PeerStore {
    peers: Vec<Peer>,
    chain: Vec<(Vec<u8>, Vec<u8>)>,
}

impl PeerStore {
    pub closed spec fn peers(&self) -> Seq<PeerView> {
        self.peers@.map_values(|p: Peer| p@)
    }

    pub closed spec fn chain(&self) -> Seq<(Seq<u8>, Seq<u8>)> {
        self.chain@.map_values(|e: (Vec<u8>, Vec<u8>)| (e.0@, e.1@))
    }

    /// Peer ids and chain addresses are unique, and each peer's multiaddrs are distinct.
    pub open spec fn wf(&self) -> bool {
        &&& unique_ids(self.peers())
        &&& unique_addrs(self.chain())
        &&& forall|i: int| 0 <= i < self.peers().len() ==> distinct(#[trigger] self.peers()[i].multiaddrs)
    }

    pub fn default() -> (r: Self)
        ensures
            r.wf(),
            r.peers() == Seq::<PeerView>::empty(),
            r.chain() == Seq::<(Seq<u8>, Seq<u8>)>::empty(),
    {
        let r = PeerStore { peers: Vec::new(), chain: Vec::new() };
        assert(r.peers() =~= Seq::<PeerView>::empty());
        assert(r.chain() =~= Seq::<(Seq<u8>, Seq<u8>)>::empty());
        r
    }


    /// The connectedness of peer `id`; an unknown peer cannot be connected.
    pub fn get_connectedness(&self, id: &[u8]) -> (r: Connectedness)
        requires
            self.wf(),
        ensures
            r == (match peer_of(self.peers(), id@) {
                Some(p) => p.connectedness,
                None => Connectedness::CannotConnect,
            }),
    {
        match self.find_peer(id) {
            Some(i) => self.peers[i].connectedness,
            None => Connectedness::CannotConnect,
        }
    }

    /// The public key of peer `id`, if known.
    pub fn get_pubkey(&self, id: &[u8]) -> (r: Option<Vec<u8>>)
        requires
            self.wf(),
        ensures
            opt_bytes(r) == (match peer_of(self.peers(), id@) {
                Some(p) => p.pubkey,
                None => None,
            }),
    {
        match self.find_peer(id) {
            Some(i) => match &self.peers[i].pubkey {
                Some(k) => Some(copy_bytes(k)),
                None => None,
            },
            None => None,
        }
    }

    /// The multiaddrs of peer `id`, if the peer is known.
    pub fn get_multiaddrs(&self, id: &[u8]) -> (r: Option<Vec<Vec<u8>>>)
        requires
            self.wf(),
        ensures
            (match r {
                Some(v) => Some(addrs_view(v@)),
                None => None,
            }) == (match peer_of(self.peers(), id@) {
                Some(p) => Some(p.multiaddrs),
                None => None,
            }),
    {
        match self.find_peer(id) {
            Some(i) => {
                let addrs = &self.peers[i].multiaddrs;
                let mut out: Vec<Vec<u8>> = Vec::new();
                let mut k: usize = 0;
                while k < addrs.len()
                    invariant
                        k <= addrs@.len(),
                        addrs_view(out@) == addrs_view(addrs@).subrange(0, k as int),
                    decreases addrs@.len() - k,
                {
                    let c = copy_bytes(&addrs[k]);
                    let ghost old_out = out@;
                    out.push(c);
                    assert(out@ == old_out.push(c));
                    assert(addrs_view(out@) =~= addrs_view(old_out).push(c@));
                    k = k + 1;
                    assert(addrs_view(out@) =~= addrs_view(addrs@).subrange(0, k as int));
                }
                assert(addrs_view(addrs@).subrange(0, addrs@.len() as int) =~= addrs_view(addrs@));
                Some(out)
            },
            None => None,
        }
    }

    /// Takes peer `id` out of the store for a change, or makes a fresh one.
    fn take_or_fresh(&mut self, id: &[u8]) -> (r: (Option<usize>, Peer))
        requires
            old(self).wf(),
        ensures
            match r.0 {
                Some(i) => {
                    &&& i < old(self).peers().len()
                    &&& has_peer(old(self).peers(), id@)
                    &&& i == peer_index(old(self).peers(), id@)
                    &&& r.1@ == old(self).peers()[i as int]
                    &&& final(self).peers() == old(self).peers().remove(i as int)
                },
                None => {
                    &&& !has_peer(old(self).peers(), id@)
                    &&& r.1@ == fresh_peer(id@)
                    &&& final(self).peers() == old(self).peers()
                },
            },
            final(self).chain() == old(self).chain(),
    {
        match self.find_peer(id) {
            Some(i) => {
                let ghost before = self.peers();
                proof {
                    let k = peer_index(before, id@);
                    if k < i {
                        assert(before[k].id != before[i as int].id);
                    } else if k > i {
                        assert(before[i as int].id != before[k].id);
                    }
                }
                let p = self.peers.remove(i);
                assert(self.peers() =~= before.remove(i as int));
                (Some(i), p)
            },
            None => {
                let p = Peer::new(vstd::slice::slice_to_vec(id));
                (None, p)
            },
        }
    }

    /// Puts back a peer taken by [`take_or_fresh`].
    fn put_back(&mut self, at: Option<usize>, p: Peer)
        requires
            match at {
                Some(i) => i <= old(self).peers().len(),
                None => true,
            },
        ensures
            final(self).peers() == (match at {
                Some(i) => old(self).peers().insert(i as int, p@),
                None => old(self).peers().push(p@),
            }),
            final(self).chain() == old(self).chain(),
    {
        let ghost before = self.peers();
        match at {
            Some(i) => {
                self.peers.insert(i, p);
                assert(self.peers() =~= before.insert(i as int, p@));
            },
            None => {
                self.peers.push(p);
                assert(self.peers() =~= before.push(p@));
            },
        }
    }

    proof fn lemma_replaced(old_peers: Seq<PeerView>, mid: Seq<PeerView>, fin: Seq<PeerView>, i: int, x: PeerView)
        requires
            0 <= i < old_peers.len(),
            mid == old_peers.remove(i),
            fin == mid.insert(i, x),
        ensures
            fin == old_peers.update(i, x),
    {
        assert(fin =~= old_peers.update(i, x));
    }

    /// Applies `change` (which keeps ids and keeps multiaddrs distinct) to peer `id`
    /// in the store view, proving the store stays well formed.
    proof fn lemma_update_wf(peers: Seq<PeerView>, chain: Seq<(Seq<u8>, Seq<u8>)>, id: Seq<u8>, change: spec_fn(PeerView) -> PeerView)
        requires
            unique_ids(peers),
            forall|i: int| 0 <= i < peers.len() ==> distinct(#[trigger] peers[i].multiaddrs),
            forall|p: PeerView| (#[trigger] change(p)).id == p.id,
            forall|p: PeerView| distinct(p.multiaddrs) ==> distinct(#[trigger] change(p).multiaddrs),
        ensures
            unique_ids(update_peer(peers, id, change)),
            forall|i: int| 0 <= i < update_peer(peers, id, change).len()
                ==> distinct(#[trigger] update_peer(peers, id, change)[i].multiaddrs),
    {
        let np = update_peer(peers, id, change);
        if has_peer(peers, id) {
            let k = peer_index(peers, id);
            assert forall|i: int, j: int| 0 <= i < j < np.len() implies #[trigger] np[i].id != #[trigger] np[j].id by {
                assert(peers[i].id != peers[j].id);
            }
            assert forall|i: int| 0 <= i < np.len() implies distinct(#[trigger] np[i].multiaddrs) by {
                if i == k {
                    assert(distinct(peers[k].multiaddrs));
                } else {
                    assert(distinct(peers[i].multiaddrs));
                }
            }
        } else {
            assert(distinct(fresh_peer(id).multiaddrs));
            assert forall|i: int, j: int| 0 <= i < j < np.len() implies #[trigger] np[i].id != #[trigger] np[j].id by {
                if j == peers.len() {
                    assert(peers[i].id != id);
                } else {
                    assert(peers[i].id != peers[j].id);
                }
            }
            assert forall|i: int| 0 <= i < np.len() implies distinct(#[trigger] np[i].multiaddrs) by {
                if i < peers.len() {
                    assert(distinct(peers[i].multiaddrs));
                }
            }
        }
    }

    /// Sets the connectedness of peer `id`, adding the peer if unknown.
    pub fn set_connectedness(&mut self, id: &[u8], connectedness: Connectedness)
        requires
            old(self).wf(),
        ensures
            final(self).wf(),
            final(self).peers() == update_peer(old(self).peers(), id@, with_connectedness(connectedness)),
            final(self).chain() == old(self).chain(),
    {
        let ghost before = self.peers();
        let (at, mut p) = self.take_or_fresh(id);
        let ghost mid = self.peers();
        p.connectedness = connectedness;
        assert(p@ == with_connectedness(connectedness)(if at is Some { before[at->0 as int] } else { fresh_peer(id@) }));
        self.put_back(at, p);
        proof {
            if at is Some {
                Self::lemma_replaced(before, mid, self.peers(), at->0 as int, p@);
            }
            Self::lemma_update_wf(before, self.chain(), id@, with_connectedness(connectedness));
        }
    }

    /// Adds `addr` to the multiaddrs of peer `id`, adding the peer if unknown.
    pub fn add_multiaddr(&mut self, id: &[u8], addr: Vec<u8>)
        requires
            old(self).wf(),
        ensures
            final(self).wf(),
            final(self).peers() == update_peer(old(self).peers(), id@, with_addr(addr@)),
            final(self).chain() == old(self).chain(),
    {
        let ghost before = self.peers();
        let ghost a = addr@;
        let (at, mut p) = self.take_or_fresh(id);
        let ghost mid = self.peers();
        let ghost p0 = p@;
        add_addr_exec(&mut p.multiaddrs, addr);
        assert(p@ == with_addr(a)(p0));
        self.put_back(at, p);
        proof {
            if at is Some {
                Self::lemma_replaced(before, mid, self.peers(), at->0 as int, p@);
            }
            assert forall|q: PeerView| distinct(q.multiaddrs) implies distinct(#[trigger] with_addr(a)(q).multiaddrs) by {
                if !q.multiaddrs.contains(a) {
                    let after = q.multiaddrs.push(a);
                    assert forall|x: int, y: int| 0 <= x < y < after.len() implies #[trigger] after[x] != #[trigger] after[y] by {
                        if y == q.multiaddrs.len() {
                            assert(q.multiaddrs[x] != a);
                        } else {
                            assert(q.multiaddrs[x] != q.multiaddrs[y]);
                        }
                    }
                }
            }
            Self::lemma_update_wf(before, self.chain(), id@, with_addr(a));
        }
    }

    /// Sets the public key of peer `id`, and with it the chain address derived from
    /// the key, adding the peer if unknown.
    pub fn set_pubkey(&mut self, id: &[u8], pubkey: Vec<u8>)
        requires
            old(self).wf(),
        ensures
            final(self).wf(),
            final(self).peers() == update_peer(old(self).peers(), id@, with_pubkey(pubkey@)),
            final(self).chain() == old(self).chain(),
    {
        let ghost before = self.peers();
        let ghost k = pubkey@;
        let (at, mut p) = self.take_or_fresh(id);
        let ghost mid = self.peers();
        let ghost p0 = p@;
        let chain_addr = chain_address(pubkey.as_slice());
        p.pubkey = Some(pubkey);
        p.chain_addr = Some(chain_addr);
        assert(p@ == with_pubkey(k)(p0));
        self.put_back(at, p);
        proof {
            if at is Some {
                Self::lemma_replaced(before, mid, self.peers(), at->0 as int, p@);
            }
            Self::lemma_update_wf(before, self.chain(), id@, with_pubkey(k));
        }
    }

    /// Ids of up to `max` peers that may be dialed (not connected, or able to connect), in store order.
    pub fn connectable(&self, max: usize) -> (r: Vec<Vec<u8>>)
        ensures
            addrs_view(r@) == first_n(connectable_ids(self.peers()), max as nat),
    {
        let mut out: Vec<Vec<u8>> = Vec::new();
        let mut i: usize = 0;
        assert(self.peers().take(0) =~= Seq::<PeerView>::empty());
        assert(addrs_view(out@) =~= Seq::<Seq<u8>>::empty());
        while i < self.peers.len()
            invariant
                i <= self.peers@.len(),
                self.peers().len() == self.peers@.len(),
                addrs_view(out@) == first_n(connectable_ids(self.peers().take(i as int)), max as nat),
            decreases self.peers@.len() - i,
        {
            let ghost pre = self.peers().take(i as int);
            let ghost next = self.peers().take(i + 1);
            assert(next.drop_last() =~= pre);
            assert(next.last() == self.peers()[i as int]);
            assert(self.peers()[i as int] == self.peers@[i as int]@);
            let c = self.peers[i].connectedness;
            if c == Connectedness::CanConnect || c == Connectedness::NotConnected {
                if out.len() < max {
                    let id = copy_bytes(&self.peers[i].id);
                    let ghost old_out = out@;
                    out.push(id);
                    assert(addrs_view(out@) =~= addrs_view(old_out).push(id@));
                } else {
                    let ghost ids = connectable_ids(pre);
                    assert(ids.push(self.peers()[i as int].id).take(max as int) =~= first_n(ids, max as nat));
                }
            }
            i = i + 1;
        }
        assert(self.peers().take(self.peers@.len() as int) =~= self.peers());
        out
    }

    /// For each chain address in order, the id of its peer; the addresses with no
    /// peer are returned apart.
    pub fn peer_ids_by_chain_addr(&self, chain_addrs: Vec<Vec<u8>>) -> (r: (Vec<Vec<u8>>, Vec<Vec<u8>>))
        requires
            self.wf(),
        ensures
            (addrs_view(r.0@), addrs_view(r.1@)) == split_by_owner(self.chain(), addrs_view(chain_addrs@)),
    {
        let mut found: Vec<Vec<u8>> = Vec::new();
        let mut missing: Vec<Vec<u8>> = Vec::new();
        let ghost addrs = addrs_view(chain_addrs@);
        let mut i: usize = 0;
        assert(addrs.take(0) =~= Seq::<Seq<u8>>::empty());
        assert(addrs_view(found@) =~= Seq::<Seq<u8>>::empty());
        assert(addrs_view(missing@) =~= Seq::<Seq<u8>>::empty());
        while i < chain_addrs.len()
            invariant
                i <= chain_addrs@.len(),
                self.wf(),
                addrs == addrs_view(chain_addrs@),
                (addrs_view(found@), addrs_view(missing@)) == split_by_owner(self.chain(), addrs.take(i as int)),
            decreases chain_addrs@.len() - i,
        {
            let ghost next = addrs.take(i + 1);
            assert(next.drop_last() =~= addrs.take(i as int));
            assert(next.last() == chain_addrs@[i as int]@);
            match self.find_chain(chain_addrs[i].as_slice()) {
                Some(k) => {
                    assert(self.chain()[k as int] == (self.chain@[k as int].0@, self.chain@[k as int].1@));
                    let id = copy_bytes(&self.chain[k].1);
                    let ghost old_found = found@;
                    found.push(id);
                    assert(addrs_view(found@) =~= addrs_view(old_found).push(id@));
                },
                None => {
                    let a = copy_bytes(&chain_addrs[i]);
                    let ghost old_missing = missing@;
                    missing.push(a);
                    assert(addrs_view(missing@) =~= addrs_view(old_missing).push(a@));
                },
            }
            i = i + 1;
        }
        assert(addrs.take(chain_addrs@.len() as int) =~= addrs);
        (found, missing)
    }

    fn set_chain_owner(&mut self, addr: Vec<u8>, id: Vec<u8>)
        requires
            old(self).wf(),
        ensures
            final(self).wf(),
            final(self).peers() == old(self).peers(),
            final(self).chain() == set_owner(old(self).chain(), addr@, id@),
    {
        let ghost before = self.chain();
        let ghost a = addr@;
        let ghost d = id@;
        match self.find_chain(addr.as_slice()) {
            Some(k) => {
                proof {
                    let c = choose|c: int| 0 <= c < before.len() && before[c].0 == a;
                    if c < k {
                        assert(before[c].0 != before[k as int].0);
                    } else if c > k {
                        assert(before[k as int].0 != before[c].0);
                    }
                }
                self.chain.set(k, (addr, id));
                assert(self.chain() =~= before.update(k as int, (a, d)));
                proof {
                    let after = self.chain();
                    assert forall|x: int, y: int| 0 <= x < y < after.len() implies #[trigger] after[x].0 != #[trigger] after[y].0 by {
                        assert(before[x].0 != before[y].0);
                    }
                }
            },
            None => {
                self.chain.push((addr, id));
                assert(self.chain() =~= before.push((a, d)));
                proof {
                    let after = self.chain();
                    assert forall|x: int, y: int| 0 <= x < y < after.len() implies #[trigger] after[x].0 != #[trigger] after[y].0 by {
                        if y == before.len() {
                            if before[x].0 == a {
                                assert(exists|i: int| 0 <= i < before.len() && before[i].0 == a);
                            }
                        } else {
                            assert(before[x].0 != before[y].0);
                        }
                    }
                }
            },
        }
    }

    /// Registers peers by public key and multiaddr: a peer not yet known is added
    /// with its key, chain address and the multiaddr; the key's chain address is
    /// given to the peer in any case.
    pub fn register(&mut self, new_peers: Vec<(PublicKey, Vec<u8>)>)
        requires
            old(self).wf(),
        ensures
            final(self).wf(),
            (final(self).peers(), final(self).chain()) == register_all(old(self).peers(), old(self).chain(), regs_view(new_peers@)),
    {
        let ghost regs = regs_view(new_peers@);
        let ghost p0 = self.peers();
        let ghost c0 = self.chain();
        let mut i: usize = 0;
        assert(regs.take(0) =~= Seq::<(Seq<u8>, Seq<u8>, Seq<u8>)>::empty());
        while i < new_peers.len()
            invariant
                i <= new_peers@.len(),
                self.wf(),
                regs == regs_view(new_peers@),
                (self.peers(), self.chain()) == register_all(p0, c0, regs.take(i as int)),
            decreases new_peers@.len() - i,
        {
            let ghost next = regs.take(i + 1);
            assert(next.drop_last() =~= regs.take(i as int));
            assert(next.last() == regs[i as int]);
            let (pk, ma) = &new_peers[i];
            let chain_addr = chain_address(pk.bytes.as_slice());
            let ghost before = self.peers();
            match self.find_peer(pk.peer_id.as_slice()) {
                Some(_) => {},
                None => {
                    let mut addrs: Vec<Vec<u8>> = Vec::new();
                    addrs.push(copy_bytes(ma));
                    let p = Peer {
                        id: copy_bytes(&pk.peer_id),
                        pubkey: Some(copy_bytes(&pk.bytes)),
                        chain_addr: Some(copy_bytes(&chain_addr)),
                        multiaddrs: addrs,
                        connectedness: Connectedness::NotConnected,
                    };
                    assert(addrs_view(p.multiaddrs@) =~= seq![ma@]);
                    self.peers.push(p);
                    assert(self.peers() =~= before.push(p@));
                    proof {
                        let after = self.peers();
                        assert forall|x: int, y: int| 0 <= x < y < after.len() implies #[trigger] after[x].id != #[trigger] after[y].id by {
                            if y == before.len() {
                                if before[x].id == pk.peer_id@ {
                                    assert(has_peer(before, pk.peer_id@));
                                }
                            } else {
                                assert(before[x].id != before[y].id);
                            }
                        }
                        assert forall|x: int| 0 <= x < after.len() implies distinct(#[trigger] after[x].multiaddrs) by {
                            if x < before.len() {
                                assert(distinct(before[x].multiaddrs));
                            }
                        }
                    }
                },
            }
            self.set_chain_owner(chain_addr, copy_bytes(&pk.peer_id));
            i = i + 1;
        }
        assert(regs.take(new_peers@.len() as int) =~= regs);
    }

    fn find_peer(&self, id: &[u8]) -> (r: Option<usize>)
        requires
            self.wf(),
        ensures
            r is None <==> peer_of(self.peers(), id@) is None,
            r matches Some(i) ==> i < self.peers().len() && self.peers()[i as int].id == id@
                && peer_of(self.peers(), id@) == Some(self.peers()[i as int]),
    {
        let mut i: usize = 0;
        while i < self.peers.len()
            invariant
                i <= self.peers@.len(),
                self.wf(),
                self.peers().len() == self.peers@.len(),
                forall|j: int| 0 <= j < i ==> self.peers()[j].id != id@,
            decreases self.peers@.len() - i,
        {
            assert(self.peers()[i as int] == self.peers@[i as int]@);
            if bytes_eq(self.peers[i].id.as_slice(), id) {
                proof {
                    lemma_peer_at(self.peers(), i as int);
                }
                return Some(i);
            }
            i = i + 1;
        }
        None
    }

    fn find_chain(&self, addr: &[u8]) -> (r: Option<usize>)
        requires
            self.wf(),
        ensures
            r is None <==> owner_of(self.chain(), addr@) is None,
            r matches Some(i) ==> i < self.chain().len() && self.chain()[i as int].0 == addr@
                && owner_of(self.chain(), addr@) == Some(self.chain()[i as int].1),
    {
        let mut i: usize = 0;
        while i < self.chain.len()
            invariant
                i <= self.chain@.len(),
                self.wf(),
                self.chain().len() == self.chain@.len(),
                forall|j: int| 0 <= j < i ==> self.chain()[j].0 != addr@,
            decreases self.chain@.len() - i,
        {
            assert(self.chain()[i as int] == (self.chain@[i as int].0@, self.chain@[i as int].1@));
            if bytes_eq(self.chain[i].0.as_slice(), addr) {
                proof {
                    lemma_owner_at(self.chain(), i as int);
                }
                return Some(i);
            }
            i = i + 1;
        }
        None
    }
}

/// After a change to peer `id`, the store holds exactly one peer with that id, and
/// it is the changed one (a fresh peer changed so, if `id` was unknown).
pub proof fn lemma_update_then_get(peers: Seq<PeerView>, id: Seq<u8>, change: spec_fn(PeerView) -> PeerView)
    requires
        unique_ids(peers),
        forall|p: PeerView| (#[trigger] change(p)).id == p.id,
    ensures
        peer_of(update_peer(peers, id, change), id) == Some(change(
            match peer_of(peers, id) {
                Some(p) => p,
                None => fresh_peer(id),
            },
        )),
{
    let np = update_peer(peers, id, change);
    if has_peer(peers, id) {
        let k = peer_index(peers, id);
        assert(np[k].id == id);
        assert(unique_ids(np)) by {
            assert forall|i: int, j: int| 0 <= i < j < np.len() implies #[trigger] np[i].id != #[trigger] np[j].id by {
                assert(peers[i].id != peers[j].id);
            }
        }
        lemma_peer_at(np, k);
    } else {
        let k = peers.len() as int;
        assert(np[k].id == id);
        assert(unique_ids(np)) by {
            assert forall|i: int, j: int| 0 <= i < j < np.len() implies #[trigger] np[i].id != #[trigger] np[j].id by {
                if j == k {
                    assert(peers[i].id != id);
                } else {
                    assert(peers[i].id != peers[j].id);
                }
            }
        }
        lemma_peer_at(np, k);
    }
}

/// Get after set: the connectedness read back for a peer is the one last set.
pub proof fn lemma_set_then_get_connectedness(peers: Seq<PeerView>, id: Seq<u8>, c: Connectedness)
    requires
        unique_ids(peers),
    ensures
        peer_of(update_peer(peers, id, with_connectedness(c)), id) matches Some(p) && p.connectedness == c,
{
    lemma_update_then_get(peers, id, with_connectedness(c));
}

/// After a public key is registered, its chain address leads to the registered peer.
pub proof fn lemma_register_then_lookup(
    peers: Seq<PeerView>,
    chain: Seq<(Seq<u8>, Seq<u8>)>,
    regs: Seq<(Seq<u8>, Seq<u8>, Seq<u8>)>,
)
    requires
        unique_addrs(chain),
        regs.len() > 0,
    ensures
        owner_of(register_all(peers, chain, regs).1, chain_address_of(regs.last().0)) == Some(regs.last().1),
{
    let (p, c) = register_all(peers, chain, regs.drop_last());
    lemma_register_keeps_unique(peers, chain, regs.drop_last());
    lemma_set_owner_then_owner(c, chain_address_of(regs.last().0), regs.last().1);
}

proof fn lemma_register_keeps_unique(
    peers: Seq<PeerView>,
    chain: Seq<(Seq<u8>, Seq<u8>)>,
    regs: Seq<(Seq<u8>, Seq<u8>, Seq<u8>)>,
)
    requires
        unique_addrs(chain),
    ensures
        unique_addrs(register_all(peers, chain, regs).1),
    decreases regs.len(),
{
    if regs.len() > 0 {
        lemma_register_keeps_unique(peers, chain, regs.drop_last());
        let c = register_all(peers, chain, regs.drop_last()).1;
        lemma_set_owner_then_owner(c, chain_address_of(regs.last().0), regs.last().1);
    }
}

proof fn lemma_set_owner_then_owner(chain: Seq<(Seq<u8>, Seq<u8>)>, addr: Seq<u8>, id: Seq<u8>)
    requires
        unique_addrs(chain),
    ensures
        unique_addrs(set_owner(chain, addr, id)),
        owner_of(set_owner(chain, addr, id), addr) == Some(id),
{
    let nc = set_owner(chain, addr, id);
    if exists|i: int| 0 <= i < chain.len() && chain[i].0 == addr {
        let k = choose|i: int| 0 <= i < chain.len() && chain[i].0 == addr;
        assert forall|x: int, y: int| 0 <= x < y < nc.len() implies #[trigger] nc[x].0 != #[trigger] nc[y].0 by {
            assert(chain[x].0 != chain[y].0);
        }
        lemma_owner_at(nc, k);
    } else {
        let k = chain.len() as int;
        assert forall|x: int, y: int| 0 <= x < y < nc.len() implies #[trigger] nc[x].0 != #[trigger] nc[y].0 by {
            if y == k {
                assert(chain[x].0 != addr);
            } else {
                assert(chain[x].0 != chain[y].0);
            }
        }
        lemma_owner_at(nc, k);
    }
}

/// Only peers that may be dialed are offered for dialing.
pub proof fn lemma_connectable_are_dialable(peers: Seq<PeerView>, id: Seq<u8>)
    requires
        connectable_ids(peers).contains(id),
    ensures
        exists|i: int|
            0 <= i < peers.len() && peers[i].id == id && (peers[i].connectedness == Connectedness::CanConnect
                || peers[i].connectedness == Connectedness::NotConnected),
    decreases peers.len(),
{
    let rest = connectable_ids(peers.drop_last());
    let p = peers.last();
    if rest.contains(id) {
        lemma_connectable_are_dialable(peers.drop_last(), id);
        let i = choose|i: int|
            0 <= i < peers.drop_last().len() && peers.drop_last()[i].id == id && (peers.drop_last()[i].connectedness == Connectedness::CanConnect
                || peers.drop_last()[i].connectedness == Connectedness::NotConnected);
        assert(peers[i] == peers.drop_last()[i]);
    } else {
        assert(peers[peers.len() - 1] == p);
    }
}

/// Whether a peer may be dialed: it is not connected, or it can connect.
pub open spec fn dialable(p: PeerView) -> bool {
    p.connectedness == Connectedness::CanConnect || p.connectedness == Connectedness::NotConnected
}

/// The dialable peers are exactly those offered: the connectable ids are the ids of
/// the dialable peers, in store order, whatever else (key, chain address,
/// multiaddrs) is known of them; in particular every dialable peer is offered.
pub proof fn lemma_connectable_exact(peers: Seq<PeerView>)
    ensures
        connectable_ids(peers) == peers.filter(|p: PeerView| dialable(p)).map_values(|p: PeerView| p.id),
        forall|i: int| 0 <= i < peers.len() && dialable(peers[i]) ==> connectable_ids(peers).contains(#[trigger] peers[i].id),
    decreases peers.len(),
{
    reveal(Seq::filter);
    let pred = |p: PeerView| dialable(p);
    if peers.len() == 0 {
        assert(peers.filter(pred) =~= Seq::<PeerView>::empty());
        assert(peers.filter(pred).map_values(|p: PeerView| p.id) =~= Seq::<Seq<u8>>::empty());
    } else {
        let front = peers.drop_last();
        lemma_connectable_exact(front);
        let rest = connectable_ids(front);
        let f = front.filter(pred);
        let last = peers.last();
        if dialable(last) {
            assert(peers.filter(pred) == f.push(last));
            assert(f.push(last).map_values(|p: PeerView| p.id) =~= f.map_values(|p: PeerView| p.id).push(last.id));
        } else {
            assert(peers.filter(pred) == f);
        }
        assert forall|i: int| 0 <= i < peers.len() && dialable(peers[i]) implies connectable_ids(peers).contains(
            #[trigger] peers[i].id,
        ) by {
            if i == peers.len() - 1 {
                assert(connectable_ids(peers) == rest.push(last.id));
                assert(connectable_ids(peers)[rest.len() as int] == peers[i].id);
            } else {
                assert(front[i] == peers[i]);
                assert(rest.contains(front[i].id));
                let k = choose|k: int| 0 <= k < rest.len() && rest[k] == front[i].id;
                if dialable(last) {
                    assert(connectable_ids(peers)[k] == rest[k]);
                }
            }
        }
    }
}

} // verus!
