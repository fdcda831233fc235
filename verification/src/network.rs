//! Upkeep of the network's connections: whom to dial to keep the connection count
//! up, and how bootstrapping starts.
use vstd::prelude::*;
use crate::event::PublicKey;
use crate::peer_store::{addrs_view, connectable_ids, first_n, register_all, regs_view, PeerStore};

verus! {

/// The peers to dial when `connected` of at most `max_connections` connections are
/// open: none when the limit is reached, otherwise up to as many connectable peers
/// as there are free connections, in store order.
pub open spec fn dial_plan(peers: Seq<Seq<u8>>, connected: nat, max_connections: nat) -> Seq<Seq<u8>> {
    if connected >= max_connections {
        Seq::empty()
    } else {
        first_n(peers, (max_connections - connected) as nat)
    }
}

/// The peers to dial in one round of upkeep.
pub fn peers_to_dial(store: &PeerStore, connected: usize, max_connections: usize) -> (r: Vec<Vec<u8>>)
    ensures
        addrs_view(r@) == dial_plan(connectable_ids(store.peers()), connected as nat, max_connections as nat),
{
    if connected >= max_connections {
        let r: Vec<Vec<u8>> = Vec::new();
        assert(addrs_view(r@) =~= Seq::<Seq<u8>>::empty());
        return r;
    }
    store.connectable(max_connections - connected)
}

/// Upkeep never opens more connections than the limit allows.
pub proof fn lemma_dial_within_limit(peers: Seq<Seq<u8>>, connected: nat, max_connections: nat)
    ensures
        connected >= max_connections ==> dial_plan(peers, connected, max_connections).len() == 0,
        connected < max_connections ==> connected + dial_plan(peers, connected, max_connections).len() <= max_connections,
{
}

/// Whether this node waits to be found or goes looking for bootstrap peers.
#[derive(Debug, Clone, Copy, PartialEq, Eq, Structural)]
pub enum BootstrapMode {
    /// No bootstrap peers: others find this node.
    Publisher,
    /// Bootstrap peers given: this node reaches out to them.
    Subscriber,
}

pub open spec fn peer_ids_view(peers: Seq<(PublicKey, Vec<u8>)>) -> Seq<Seq<u8>> {
    peers.map_values(|p: (PublicKey, Vec<u8>)| p.0.peer_id@)
}

/// Bootstraps from `bootstrap_peers` (public key and multiaddr of each): registers
/// them in the store and answers their peer ids, in order, and the mode, which is
/// publishing when there are none.
pub fn bootstrap(store: &mut PeerStore, bootstrap_peers: Vec<(PublicKey, Vec<u8>)>) -> (r: (Vec<Vec<u8>>, BootstrapMode))
    requires
        old(store).wf(),
    ensures
        final(store).wf(),
        (final(store).peers(), final(store).chain()) == register_all(old(store).peers(), old(store).chain(), regs_view(bootstrap_peers@)),
        addrs_view(r.0@) == peer_ids_view(bootstrap_peers@),
        r.1 == (if bootstrap_peers@.len() == 0 { BootstrapMode::Publisher } else { BootstrapMode::Subscriber }),
{
    let mut ids: Vec<Vec<u8>> = Vec::new();
    let mut i: usize = 0;
    while i < bootstrap_peers.len()
        invariant
            i <= bootstrap_peers@.len(),
            addrs_view(ids@) == peer_ids_view(bootstrap_peers@).take(i as int),
        decreases bootstrap_peers@.len() - i,
    {
        let id = crate::text::copy_bytes(&bootstrap_peers[i].0.peer_id);
        let ghost before = ids@;
        ids.push(id);
        assert(addrs_view(ids@) =~= addrs_view(before).push(id@));
        assert(peer_ids_view(bootstrap_peers@)[i as int] == bootstrap_peers@[i as int].0.peer_id@);
        assert(addrs_view(ids@) =~= peer_ids_view(bootstrap_peers@).take(i + 1));
        i = i + 1;
    }
    assert(peer_ids_view(bootstrap_peers@).take(bootstrap_peers@.len() as int) =~= peer_ids_view(bootstrap_peers@));
    let mode = if bootstrap_peers.len() == 0 { BootstrapMode::Publisher } else { BootstrapMode::Subscriber };
    store.register(bootstrap_peers);
    (ids, mode)
}

} // verus!
