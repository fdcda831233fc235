use muta_network::client::{next_step, start, BroadcastOutcome, ClientAction, ClientEvent, ClientState};
use hasher::Hasher;
use muta_network::measure::{gossip_pauses, record_candy, IncomingFilter, IpAddr, Target, END_GOSSIP_TEST_PAYLOAD};
use muta_network::message::{Candy, Identity};
use muta_network::node::{
    broadcast_failure, connect_wait, decode_prefixed_hex, ConnectWait, CONNECT_ROUNDS, is_rpc_timeout, rpc_failure, stx_builder, ClientNodeError, ConfigNetworkBootstrap, FullNodeInfo, Genesis, ServiceParam, SignedTransactionBuilder, DEFAULT_TX_CYCLES_LIMIT,
    DEFAULT_TX_PAYLOAD, DEFAULT_TX_TIMEOUT,
};
use muta_network::peer_store::chain_address;
use muta_network::protocol_id::{next_protocol_id, ProtocolIds};
use muta_network::payload::{Payload, PayloadBlock, BLOCK_LEN, SIZE_500K, SIZE_50K, SIZE_512B, SIZE_5K};
use muta_network::statistics::{Latency, Statistics};

fn keccak(data: &[u8]) -> Vec<u8> {
    hasher::HasherKeccak::new().digest(data)
}

#[test]
fn payload_sizes() {
    assert_eq!(Payload::B512.size(), 512);
    assert_eq!(Payload::K5.size(), 5 * 1024);
    assert_eq!(Payload::K50.size(), 50 * 1024);
    assert_eq!(Payload::K500.size(), 500 * 1024);
    assert_eq!(Payload::iter(), vec![Payload::B512, Payload::K5, Payload::K50, Payload::K500]);
    for p in Payload::iter() {
        assert_eq!(Payload::from_size(p.size()), p);
    }
    assert_eq!(Payload::from_size(SIZE_5K), Payload::K5);
    assert_eq!(Payload::from_size(Payload::K500.size()), Payload::K500);
    assert_eq!(Payload::from_size(SIZE_512B), Payload::B512);
    assert_eq!(Payload::from_size(SIZE_50K), Payload::K50);
    assert_eq!(Payload::from_size(SIZE_500K), Payload::K500);
}

fn test_block() -> PayloadBlock {
    PayloadBlock::new((0..BLOCK_LEN).map(|i| (i * 7 % 251) as u8).collect()).unwrap()
}

#[test]
fn payload_bytes_repeat_one_block() {
    let bytes: Vec<u8> = (0..BLOCK_LEN).map(|i| (i * 7 % 251) as u8).collect();
    let block = test_block();
    let k5 = Payload::K5.gen(&block);
    assert_eq!(k5.len(), 5120);
    for (i, b) in k5.iter().enumerate() {
        assert_eq!(*b, bytes[i % BLOCK_LEN]);
    }
    assert_eq!(Payload::B512.gen(&block), bytes);
    assert_eq!(k5, Payload::B512.gen(&block).repeat(10));
    assert_eq!(Payload::K50.gen(&block), k5.repeat(10));
    assert_eq!(Payload::K500.gen(&block), Payload::K50.gen(&block).repeat(10));
    assert_eq!(Payload::K50.gen(&block), Payload::K50.gen(&block));
    assert!(PayloadBlock::new(vec![0; 511]).is_none());
    let random = PayloadBlock::draw().expect("random source");
    let bytes = Payload::K5.gen(&random);
    assert_eq!(&bytes[..BLOCK_LEN], &bytes[BLOCK_LEN..2 * BLOCK_LEN]);
}

#[test]
fn identity_hash_is_hex_keccak_of_name() {
    let id = Identity::new("alice".to_string());
    assert_eq!(id.name, "alice");
    assert_eq!(id.hash, hex::encode(keccak(b"alice")));
    assert_eq!(
        Identity::new(String::new()).hash,
        "c5d2460186f7233c927e7db2dcc703c0e500b653ca82273b7bfad8045d85a470"
    );
    assert!(id.same(&Identity::new("alice".to_string())));
    assert!(!id.same(&Identity::new("bob".to_string())));
}

#[test]
fn candy_carries_its_payload() {
    let candy = Candy::new("bob".to_string(), Payload::B512, 1234, &test_block());
    assert_eq!(candy.timestamp, 1234);
    assert_eq!(candy.size, 512);
    assert_eq!(candy.payload, Payload::B512.gen(&test_block()));
    assert_eq!(candy.identity, Identity::new("bob".to_string()));
}

#[test]
fn latency_summary() {
    assert_eq!(Latency::of(&vec![]), None);
    assert_eq!(Latency::of(&vec![5, 1, 9, 4]), Some(Latency { max: 9, min: 1, average: 4, packets: 4 }));
    assert_eq!(Latency::of(&vec![7]), Some(Latency { max: 7, min: 7, average: 7, packets: 1 }));
}

#[test]
fn statistics_group_by_sender_and_payload() {
    let alice = Identity::new("alice".to_string());
    let bob = Identity::new("bob".to_string());
    let mut stats = Statistics::new();
    stats.insert(alice.clone(), Payload::B512, 10);
    stats.insert(alice.clone(), Payload::B512, 20);
    stats.insert(alice.clone(), Payload::K5, 3);
    stats.insert(bob.clone(), Payload::K500, 100);
    assert!(stats.sums_fit());
    assert_eq!(
        stats.average_identity_latencies(&alice),
        vec![
            (Payload::B512, Latency { max: 20, min: 10, average: 15, packets: 2 }),
            (Payload::K5, Latency { max: 3, min: 3, average: 3, packets: 1 }),
        ]
    );
    assert_eq!(stats.average_identity_latencies(&Identity::new("carol".to_string())), vec![]);
    let all = stats.average_latencies();
    assert_eq!(all.len(), 2);
    assert_eq!(all[0].0, alice);
    assert_eq!(all[1], (bob, vec![(Payload::K500, Latency { max: 100, min: 100, average: 100, packets: 1 })]));
}

#[test]
fn statistics_detect_sums_that_overflow() {
    let alice = Identity::new("alice".to_string());
    let mut stats = Statistics::new();
    stats.insert(alice.clone(), Payload::B512, u128::MAX);
    assert!(stats.sums_fit());
    stats.insert(alice, Payload::B512, 1);
    assert!(!stats.sums_fit());
}

#[test]
fn received_candy_records_its_latency() {
    let mut stats = Statistics::new();
    let candy = Candy::new("alice".to_string(), Payload::K5, 1000, &test_block());
    record_candy(&mut stats, &candy, 1250);
    assert_eq!(
        stats.average_identity_latencies(&Identity::new("alice".to_string())),
        vec![(Payload::K5, Latency { max: 250, min: 250, average: 250, packets: 1 })]
    );
}

#[test]
fn sender_pauses_when_remaining_count_is_a_multiple_of_the_batch() {
    assert_eq!(
        gossip_pauses(10, 3),
        vec![false, true, false, false, true, false, false, true, false, false]
    );
    assert_eq!(gossip_pauses(4, 2), vec![true, false, true, false]);
    assert_eq!(gossip_pauses(3, -3), vec![true, false, false]);
    assert_eq!(gossip_pauses(0, 0), vec![]);
    assert_eq!(gossip_pauses(-5, 1), vec![]);
}

#[test]
fn inbound_connections_once_per_ip() {
    let mut filter = IncomingFilter::new();
    assert!(filter.accept(Some(IpAddr::V4(0x7f000001))));
    assert!(!filter.accept(Some(IpAddr::V4(0x7f000001))));
    assert!(filter.accept(Some(IpAddr::V6(1))));
    assert!(filter.accept(None));
    assert!(filter.accept(None));
    assert!(!filter.accept(Some(IpAddr::V6(1))));
}

#[test]
fn end_of_gossip_endpoint() {
    assert_eq!(END_GOSSIP_TEST_PAYLOAD, "/gossip/benchmark/measure_latency");
}

#[test]
fn genesis_payload_is_found_by_service_name() {
    let genesis = Genesis {
        timestamp: 0,
        prevhash: "0x00".to_string(),
        services: vec![
            ServiceParam { name: "asset".to_string(), payload: "{}".to_string() },
            ServiceParam { name: "metadata".to_string(), payload: "{\"a\":1}".to_string() },
            ServiceParam { name: "metadata".to_string(), payload: "second".to_string() },
        ],
    };
    assert_eq!(genesis.get_payload("metadata"), "{\"a\":1}");
    assert_eq!(genesis.get_payload("asset"), "{}");
}

#[test]
fn transaction_builder_defaults_and_setters() {
    let b = stx_builder(vec![1; 32]);
    assert_eq!((b.timeout, b.cycles_limit), (DEFAULT_TX_TIMEOUT, DEFAULT_TX_CYCLES_LIMIT));
    assert_eq!((b.timeout, b.cycles_limit, b.payload.as_str()), (19, 314_159, "test"));
    assert_eq!(b.payload, DEFAULT_TX_PAYLOAD);
    let b = SignedTransactionBuilder::new(vec![0; 32])
        .chain_id(b"muta".to_vec())
        .timeout(5)
        .cycles_limit(6)
        .payload("{}".to_string());
    assert_eq!(b.chain_id, keccak(b"muta"));
    assert_eq!((b.timeout, b.cycles_limit, b.payload.as_str()), (5, 6, "{}"));
    assert_ne!(ClientNodeError::NotConnected, ClientNodeError::Unexpected("x".to_string()));
}

#[test]
fn targets_are_parsed_by_name() {
    assert_eq!(Target::from_str("tentacle"), Ok(Target::Tentacle));
    assert_eq!(Target::from_str("core_network"), Ok(Target::CoreNetwork));
    assert_eq!(Target::from_str("tokio"), Ok(Target::Tokio));
    assert_eq!(Target::from_str("Tokio"), Err(()));
    assert_eq!(Target::from_str(""), Err(()));
}

#[test]
fn protocol_ids_count_up_from_one() {
    let mut ids = ProtocolIds::new();
    assert_eq!(next_protocol_id(&mut ids), 1);
    assert_eq!(next_protocol_id(&mut ids), 2);
    assert_eq!(next_protocol_id(&mut ids), 3);
}

#[test]
fn full_node_is_the_last_bootstrap() {
    let first = ConfigNetworkBootstrap { pubkey: "0x00".to_string(), address: "/ip4/1.1.1.1/tcp/1".to_string() };
    let last = ConfigNetworkBootstrap { pubkey: "0x02AbCd".to_string(), address: "/ip4/2.2.2.2/tcp/2".to_string() };
    let info = FullNodeInfo::from_conf(Some(vec![first, last]));
    assert_eq!(info.pubkey, "02AbCd");
    assert_eq!(info.chain_addr, chain_address(&[0x02, 0xab, 0xcd]));
    assert_eq!(info.chain_addr, keccak(&[0x02, 0xab, 0xcd])[..20].to_vec());
    assert_eq!(info.multiaddr, "/ip4/2.2.2.2/tcp/2");
}

#[test]
fn rpc_timeouts_on_a_lost_connection_mean_not_connected() {
    assert!(is_rpc_timeout("network: rpc timeout"));
    assert!(is_rpc_timeout("RpcTimeout(3)"));
    assert!(!is_rpc_timeout("rpc closed"));
    assert_eq!(rpc_failure("/rpc/x", "rpc timeout", false), ClientNodeError::NotConnected);
    assert_eq!(
        rpc_failure("/rpc/x", "rpc timeout", true),
        ClientNodeError::Unexpected("rpc to /rpc/x rpc timeout".to_string())
    );
    assert_eq!(
        rpc_failure("/rpc/x", "bad message", false),
        ClientNodeError::Unexpected("rpc to /rpc/x bad message".to_string())
    );
    assert_eq!(broadcast_failure("/gossip/y", "e", false), ClientNodeError::NotConnected);
    assert_eq!(
        broadcast_failure("/gossip/y", "e", true),
        ClientNodeError::Unexpected("broadcast to /gossip/y e".to_string())
    );
}

#[test]
fn prefixed_hex_decodes() {
    assert_eq!(decode_prefixed_hex("0x00ff"), Some(vec![0x00, 0xff]));
    assert_eq!(decode_prefixed_hex("0XaB"), Some(vec![0xab]));
    assert_eq!(decode_prefixed_hex("0x"), Some(vec![]));
    assert_eq!(decode_prefixed_hex("00ff"), None);
    assert_eq!(decode_prefixed_hex("0x0"), None);
    assert_eq!(decode_prefixed_hex("0xzz"), None);
}

#[test]
fn mock_block_fields() {
    let block = muta_network::block::mock_block(7);
    let h = &block.header;
    assert_eq!((h.height, h.exec_height, h.timestamp, h.validator_version), (7, 6, 1000, 1));
    assert_eq!(h.chain_id, keccak(b"33"));
    assert_eq!(h.pre_hash, keccak(b"33"));
    assert_eq!(h.order_root, keccak(b"33"));
    assert_eq!(h.state_root, keccak(b"33"));
    assert_eq!(h.proof.block_hash, keccak(b"22"));
    assert_eq!((h.proof.height, h.proof.round), (0, 0));
    assert_eq!(h.logs_bloom, vec![0u8; 256]);
    assert_eq!(h.cycles_used, vec![999_999]);
    assert_eq!(h.proposer, hex::decode("CAB8EEA4799C21379C20EF5BAA2CC8AF1BEC475B").unwrap());
    assert!(h.confirm_root.is_empty() && h.receipt_root.is_empty() && h.validators.is_empty());
    assert!(block.ordered_tx_hashes.is_empty());
}

#[test]
fn raw_transaction_calls_get_metadata() {
    let t = stx_builder(vec![4; 32]).payload("{}".to_string()).raw_transaction(&[9; 32]);
    assert_eq!(t.chain_id, vec![4; 32]);
    assert_eq!(t.nonce, keccak(&[9; 32]));
    assert_eq!((t.timeout, t.cycles_limit, t.cycles_price), (19, 314_159, 1));
    assert_eq!(t.request.service_name, "metadata");
    assert_eq!(t.request.method, "get_metadata");
    assert_eq!(t.request.payload, "{}");
    let random = stx_builder(vec![4; 32]).build_raw().expect("random source");
    assert_eq!(random.nonce.len(), 32);
    assert_eq!(random.request.method, "get_metadata");
}

#[test]
fn waiting_for_the_full_node() {
    assert_eq!(CONNECT_ROUNDS, 30);
    assert_eq!(connect_wait(30, true), ConnectWait::Connected);
    assert_eq!(connect_wait(30, false), ConnectWait::Retry { remaining: 29 });
    assert_eq!(connect_wait(2, true), ConnectWait::Connected);
    assert_eq!(connect_wait(1, false), ConnectWait::Retry { remaining: 0 });
    assert_eq!(connect_wait(1, true), ConnectWait::Failed);
    assert_eq!(connect_wait(0, true), ConnectWait::Failed);
    let mut remaining = CONNECT_ROUNDS;
    let mut rounds = 0;
    while let ConnectWait::Retry { remaining: left } = connect_wait(remaining, false) {
        remaining = left;
        rounds += 1;
    }
    assert_eq!(rounds, 30);
}

#[test]
fn byzantine_loop_rounds() {
    let (mut state, action) = start();
    assert_eq!((state, action), (ClientState::Connecting, ClientAction::PullGenesis));
    let (s, a) = next_step(state, ClientEvent::GenesisPulled(false), None, None);
    assert_eq!((s, a), (ClientState::Connecting, ClientAction::PullGenesis));
    let (s, a) = next_step(s, ClientEvent::GenesisPulled(true), None, None);
    assert_eq!((s, a), (ClientState::Sending { round: 0, sent: 0 }, ClientAction::Broadcast));
    state = s;
    let mut broadcasts = 0;
    let mut sleeps = Vec::new();
    loop {
        let event = match state {
            ClientState::Sending { .. } => {
                broadcasts += 1;
                ClientEvent::Broadcasted(BroadcastOutcome::Sent)
            }
            _ => ClientEvent::Slept,
        };
        let (s, a) = next_step(state, event, None, None);
        if let ClientAction::Sleep(secs) = a {
            sleeps.push(secs);
        }
        state = s;
        if state == ClientState::Banned {
            break;
        }
    }
    assert_eq!(broadcasts, 40);
    assert_eq!(sleeps.iter().filter(|s| **s == 2).count(), 40);
    assert_eq!(sleeps.iter().filter(|s| **s == 41).count(), 4);
    assert_eq!(sleeps.last(), Some(&1200));
    assert_eq!(next_step(state, ClientEvent::Slept, None, None), (ClientState::Connecting, ClientAction::PullGenesis));
    let sending = ClientState::Sending { round: 2, sent: 5 };
    assert_eq!(
        next_step(sending, ClientEvent::Broadcasted(BroadcastOutcome::NotConnected), Some(30), Some(7)),
        (ClientState::Banned, ClientAction::Sleep(14))
    );
    assert_eq!(
        next_step(sending, ClientEvent::Broadcasted(BroadcastOutcome::Unexpected), None, None),
        (ClientState::Pausing { round: 2, sent: 5 }, ClientAction::Sleep(2))
    );
    assert_eq!(
        next_step(ClientState::Pausing { round: 1, sent: 9 }, ClientEvent::Slept, Some(30), None),
        (ClientState::Resting { round: 1 }, ClientAction::Sleep(11))
    );
}
