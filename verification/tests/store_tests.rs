use hasher::Hasher;
use muta_network::event::PublicKey;
use muta_network::network::{bootstrap, peers_to_dial, BootstrapMode};
use muta_network::peer_store::{chain_address, Connectedness, PeerStore};
use muta_network::text::{bytes_eq, str_contains};

fn pk(tag: u8) -> PublicKey {
    PublicKey { bytes: vec![tag; 33], peer_id: vec![tag, tag] }
}

#[test]
fn chain_address_is_the_digest_prefix() {
    let key = vec![2u8; 33];
    let addr = chain_address(&key);
    assert_eq!(addr.len(), 20);
    assert_eq!(addr, hasher::HasherKeccak::new().digest(&key)[..20].to_vec());
}

#[test]
fn bytes_eq_compares_contents() {
    assert!(bytes_eq(&[1, 2, 3], &[1, 2, 3]));
    assert!(!bytes_eq(&[1, 2, 3], &[1, 2]));
    assert!(!bytes_eq(&[1, 2, 3], &[1, 2, 4]));
    assert!(bytes_eq(&[], &[]));
}

#[test]
fn unknown_peers_cannot_connect() {
    let store = PeerStore::default();
    assert_eq!(store.get_connectedness(&[1]), Connectedness::CannotConnect);
    assert_eq!(store.get_pubkey(&[1]), None);
    assert_eq!(store.get_multiaddrs(&[1]), None);
}

#[test]
fn set_then_get_connectedness() {
    let mut store = PeerStore::default();
    store.set_connectedness(&[1], Connectedness::Connected);
    assert_eq!(store.get_connectedness(&[1]), Connectedness::Connected);
    store.set_connectedness(&[1], Connectedness::CanConnect);
    assert_eq!(store.get_connectedness(&[1]), Connectedness::CanConnect);
    assert_eq!(store.get_connectedness(&[2]), Connectedness::CannotConnect);
}

#[test]
fn multiaddrs_are_a_set() {
    let mut store = PeerStore::default();
    store.add_multiaddr(&[1], b"/ip4/1.1.1.1/tcp/1".to_vec());
    store.add_multiaddr(&[1], b"/ip4/2.2.2.2/tcp/2".to_vec());
    store.add_multiaddr(&[1], b"/ip4/1.1.1.1/tcp/1".to_vec());
    assert_eq!(
        store.get_multiaddrs(&[1]),
        Some(vec![b"/ip4/1.1.1.1/tcp/1".to_vec(), b"/ip4/2.2.2.2/tcp/2".to_vec()])
    );
    assert_eq!(store.get_connectedness(&[1]), Connectedness::NotConnected);
}

#[test]
fn set_pubkey_is_read_back() {
    let mut store = PeerStore::default();
    store.set_pubkey(&[7], vec![3; 33]);
    assert_eq!(store.get_pubkey(&[7]), Some(vec![3; 33]));
    assert_eq!(store.get_multiaddrs(&[7]), Some(vec![]));
}

#[test]
fn connectable_skips_connected_peers_and_stops_at_max() {
    let mut store = PeerStore::default();
    store.set_connectedness(&[1], Connectedness::Connected);
    store.set_connectedness(&[2], Connectedness::CanConnect);
    store.set_connectedness(&[3], Connectedness::CannotConnect);
    store.set_connectedness(&[4], Connectedness::NotConnected);
    store.set_connectedness(&[5], Connectedness::NotConnected);
    assert_eq!(store.connectable(10), vec![vec![2], vec![4], vec![5]]);
    assert_eq!(store.connectable(2), vec![vec![2], vec![4]]);
    assert_eq!(store.connectable(0), Vec::<Vec<u8>>::new());
}

#[test]
fn registered_peers_are_found_by_chain_address() {
    let mut store = PeerStore::default();
    store.register(vec![(pk(1), b"/ip4/1.1.1.1/tcp/1".to_vec()), (pk(2), b"/ip4/2.2.2.2/tcp/2".to_vec())]);
    let a1 = chain_address(&pk(1).bytes);
    let a2 = chain_address(&pk(2).bytes);
    let unknown = vec![0u8; 20];
    let (found, missing) = store.peer_ids_by_chain_addr(vec![a2.clone(), unknown.clone(), a1.clone()]);
    assert_eq!(found, vec![vec![2, 2], vec![1, 1]]);
    assert_eq!(missing, vec![unknown]);
    assert_eq!(store.get_pubkey(&[1, 1]), Some(vec![1; 33]));
    assert_eq!(store.get_multiaddrs(&[2, 2]), Some(vec![b"/ip4/2.2.2.2/tcp/2".to_vec()]));
    assert_eq!(store.get_connectedness(&[2, 2]), Connectedness::NotConnected);
}

#[test]
fn registering_a_known_peer_keeps_it() {
    let mut store = PeerStore::default();
    store.set_connectedness(&[1, 1], Connectedness::Connected);
    store.register(vec![(pk(1), b"/ip4/9.9.9.9/tcp/9".to_vec())]);
    assert_eq!(store.get_connectedness(&[1, 1]), Connectedness::Connected);
    assert_eq!(store.get_multiaddrs(&[1, 1]), Some(vec![]));
    let (found, missing) = store.peer_ids_by_chain_addr(vec![chain_address(&pk(1).bytes)]);
    assert_eq!(found, vec![vec![1, 1]]);
    assert!(missing.is_empty());
}

#[test]
fn substring_search() {
    assert!(str_contains("call failed: RpcTimeout", "RpcTimeout"));
    assert!(str_contains("abc", ""));
    assert!(str_contains("abc", "abc"));
    assert!(!str_contains("ab", "abc"));
    assert!(!str_contains("rpc time out", "rpc timeout"));
}

#[test]
fn upkeep_dials_only_the_free_connections() {
    let mut store = PeerStore::default();
    for id in 1u8..=4 {
        store.set_connectedness(&[id], Connectedness::NotConnected);
    }
    store.set_connectedness(&[2], Connectedness::Connected);
    assert_eq!(peers_to_dial(&store, 1, 3), vec![vec![1], vec![3]]);
    assert_eq!(peers_to_dial(&store, 0, 10), vec![vec![1], vec![3], vec![4]]);
    assert_eq!(peers_to_dial(&store, 3, 3), Vec::<Vec<u8>>::new());
    assert_eq!(peers_to_dial(&store, 7, 3), Vec::<Vec<u8>>::new());
}

#[test]
fn bootstrap_registers_peers_and_picks_a_mode() {
    let mut store = PeerStore::default();
    let (ids, mode) = bootstrap(&mut store, vec![]);
    assert!(ids.is_empty());
    assert_eq!(mode, BootstrapMode::Publisher);
    let (ids, mode) = bootstrap(&mut store, vec![(pk(5), b"/ip4/5.5.5.5/tcp/5".to_vec()), (pk(6), b"/ip4/6.6.6.6/tcp/6".to_vec())]);
    assert_eq!(ids, vec![vec![5, 5], vec![6, 6]]);
    assert_eq!(mode, BootstrapMode::Subscriber);
    assert_eq!(store.get_multiaddrs(&[6, 6]), Some(vec![b"/ip4/6.6.6.6/tcp/6".to_vec()]));
}
