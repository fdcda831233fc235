use muta_network::digest::hex_encode_bytes;
use muta_network::message::Identity;
use muta_network::node::SignedTransactionBuilder;
use muta_network::packet::{Kind, Packet, TokioError};
use muta_network::rpc::{
    frame_response, multicast_protocol, rejection_message, rpc_protocol, split_response, usercast_outcome,
    BroadcastError, EndpointBook, ErrorMessage, QueueError, RpcError, RpcReply, RPC_ERROR, RPC_ERR_MSG_BUSY,
    RPC_ERR_MSG_SHUTDOWN, RPC_SUCCESS,
};
use muta_network::protocol_id::ProtocolIds;
use muta_network::rpc::register_endpoint;
use muta_network::text::str_eq;
use muta_network::transmitter::{Received, SeqChunkMessage, TransmitterProtocol};

const KECCAK_EMPTY: &str = "c5d2460186f7233c927e7db2dcc703c0e500b653ca82273b7bfad8045d85a470";
const KECCAK_ABC: &str = "4e03657aea45a94fc7d47ba826c8d667c0d1e6e33a64a036ec44f58fa12d6c45";

#[test]
fn keccak_of_known_inputs() {
    assert_eq!(Identity::new(String::new()).hash, KECCAK_EMPTY);
    assert_eq!(Identity::new("abc".to_string()).hash, KECCAK_ABC);
    let chain_id = SignedTransactionBuilder::new(vec![]).chain_id(b"abc".to_vec()).chain_id;
    assert_eq!(hex_encode_bytes(&chain_id), KECCAK_ABC.as_bytes().to_vec());
}

#[test]
fn hex_is_lower_case_two_digits_per_byte() {
    assert_eq!(hex_encode_bytes(&[0xbe, 0xef, 0x00, 0x0a]), b"beef000a".to_vec());
    assert_eq!(hex_encode_bytes(&[0x01, 0xff]), b"01ff".to_vec());
    assert_eq!(hex_encode_bytes(&[]), Vec::<u8>::new());
}

#[test]
fn packet_header_fields_are_big_endian() {
    let bytes = [0x00, 0x00, 0x01, 0x02, 0xde, 0xad, 0xbe, 0xef, 0x55];
    assert_eq!(Packet::length(&bytes), Ok(258));
    assert_eq!(Packet::crc32(&bytes), Ok(0xdeadbeef));
}

#[test]
fn packet_short_headers_are_corrupted() {
    assert_eq!(Packet::length(&[1, 2, 3]), Err(TokioError::CorruptedHeader(Kind::HeaderNoLength)));
    assert_eq!(Packet::crc32(&[1, 2, 3, 4, 5, 6, 7]), Err(TokioError::CorruptedHeader(Kind::HeaderNoCrc)));
    let short = Packet { length: 0, crc: 0, bytes: vec![0, 0] };
    assert_eq!(short.verify(), Err(TokioError::CorruptedHeader(Kind::HeaderNoLength)));
    let no_crc = Packet { length: 0, crc: 0, bytes: vec![0, 0, 0, 1, 9] };
    assert_eq!(no_crc.verify(), Err(TokioError::CorruptedHeader(Kind::HeaderNoCrc)));
    let whole = Packet { length: 1, crc: 2, bytes: vec![0, 0, 0, 1, 0, 0, 0, 2, 7] };
    assert_eq!(whole.verify(), Ok(()));
}

#[test]
fn rpc_response_framing_round_trips() {
    let framed = frame_response(RPC_SUCCESS, b"hello world");
    assert_eq!(framed[0], RPC_SUCCESS);
    assert_eq!(split_response(framed), Ok(RpcReply::Success(b"hello world".to_vec())));
    let framed = frame_response(RPC_ERROR, b"oops");
    assert_eq!(split_response(framed), Ok(RpcReply::Failure(b"oops".to_vec())));
    let framed = frame_response(7, b"");
    assert_eq!(split_response(framed), Ok(RpcReply::Failure(vec![])));
}

#[test]
fn rpc_empty_response_is_bad() {
    assert_eq!(split_response(vec![]), Err(RpcError::BadResponse));
}

#[test]
fn rpc_error_messages() {
    assert_eq!(ErrorMessage::busy().msg, RPC_ERR_MSG_BUSY);
    assert_eq!(ErrorMessage::shutdown().msg, "service shutdown");
    assert_eq!(ErrorMessage::new("x".to_owned()).msg, "x");
    assert_eq!(rejection_message(QueueError::Full).msg, "service busy");
    assert_eq!(rejection_message(QueueError::Disconnected).msg, RPC_ERR_MSG_SHUTDOWN);
}

#[test]
fn endpoint_book_keeps_first_registration() {
    let mut book = EndpointBook::new();
    assert_eq!(book.get("/muta/rpc/echo"), None);
    assert!(book.insert("/muta/rpc/echo", 3));
    assert!(book.insert("/muta/rpc/other", 4));
    assert!(!book.insert("/muta/rpc/echo", 9));
    assert_eq!(book.get("/muta/rpc/echo"), Some(3));
    assert_eq!(book.get("/muta/rpc/other"), Some(4));
    assert_eq!(book.get("/muta/rpc/none"), None);
}

#[test]
fn string_equality_is_byte_equality() {
    assert!(str_eq("abc", "abc"));
    assert!(!str_eq("abc", "abd"));
    assert!(!str_eq("abc", "ab"));
}

fn chunk(seq: u64, eof: bool, data: &[u8]) -> Vec<u8> {
    let mut v = seq.to_be_bytes().to_vec();
    v.push(if eof { 1 } else { 0 });
    v.extend_from_slice(data);
    v
}

#[test]
fn chunk_decoding() {
    let m = SeqChunkMessage::decode(&chunk(0x0102030405060708, true, b"abc"));
    assert_eq!(m.seq, 0x0102030405060708);
    assert!(m.eof);
    assert_eq!(m.data, b"abc".to_vec());
    let m = SeqChunkMessage::decode(&chunk(u64::MAX, false, b""));
    assert_eq!(m.seq, u64::MAX);
    assert!(!m.eof);
    assert!(m.data.is_empty());
}

#[test]
fn chunks_reassemble_into_message() {
    let mut proto = TransmitterProtocol::new(16);
    match proto.received(7, Some(vec![1, 2]), &chunk(5, false, b"hello "), false) {
        Received::Buffered { restart_timer } => assert!(restart_timer),
        _ => panic!("first chunk should be buffered"),
    }
    match proto.received(7, Some(vec![1, 2]), &chunk(5, false, b"big "), false) {
        Received::Buffered { restart_timer } => assert!(!restart_timer),
        _ => panic!("second chunk should be buffered"),
    }
    match proto.received(7, Some(vec![1, 2]), &chunk(5, true, b"world"), false) {
        Received::Complete { session_id, peer_id, data, restart_timer } => {
            assert_eq!((session_id, peer_id), (7, vec![1, 2]));
            assert_eq!(data, b"hello big world".to_vec());
            assert!(!restart_timer);
        }
        _ => panic!("last chunk should complete"),
    }
}

#[test]
fn single_chunk_message_completes_at_once() {
    let mut proto = TransmitterProtocol::new(16);
    match proto.received(7, Some(vec![1, 2]), &chunk(1, true, b"x"), false) {
        Received::Complete { data, restart_timer, .. } => {
            assert_eq!(data, b"x".to_vec());
            assert!(restart_timer);
        }
        _ => panic!("should complete"),
    }
}

#[test]
fn new_sequence_discards_unfinished_message() {
    let mut proto = TransmitterProtocol::new(16);
    let _ = proto.received(7, Some(vec![1, 2]), &chunk(1, false, b"stale"), false);
    match proto.received(7, Some(vec![1, 2]), &chunk(2, true, b"fresh"), false) {
        Received::Complete { data, .. } => assert_eq!(data, b"fresh".to_vec()),
        _ => panic!("should complete"),
    }
}

#[test]
fn transmitter_drops_bad_chunks() {
    let mut proto = TransmitterProtocol::new(4);
    assert!(matches!(proto.received(7, None, &chunk(1, true, b"x"), false), Received::Disconnect));
    assert!(matches!(proto.received(7, Some(vec![1, 2]), &[0u8; 9], false), Received::Dropped));
    assert!(matches!(proto.received(7, Some(vec![1, 2]), &chunk(1, true, b"too long"), false), Received::Dropped));
}

#[test]
fn timed_out_message_is_dropped() {
    let mut proto = TransmitterProtocol::new(16);
    let _ = proto.received(7, Some(vec![1, 2]), &chunk(3, false, b"part"), false);
    assert!(matches!(proto.received(7, Some(vec![1, 2]), &chunk(3, false, b"more"), true), Received::Dropped));
    match proto.received(7, Some(vec![1, 2]), &chunk(3, true, b"end"), false) {
        Received::Complete { data, .. } => assert_eq!(data, b"end".to_vec()),
        _ => panic!("should complete with what came after the timeout"),
    }
}

#[test]
fn calls_need_a_registered_endpoint() {
    let mut book = EndpointBook::new();
    assert!(book.insert("/muta/rpc/echo/echoed/1", 9));
    assert_eq!(rpc_protocol(&book, "/muta/rpc/echo/echoed/1"), Ok(9));
    assert_eq!(
        rpc_protocol(&book, "/muta/rpc/other"),
        Err(RpcError::UnregisteredEndpoint("/muta/rpc/other".to_string()))
    );
    assert_eq!(multicast_protocol(&book, "/muta/rpc/echo/echoed/1"), Ok(9));
    assert_eq!(
        multicast_protocol(&book, "/muta/broadcast/x"),
        Err(BroadcastError::UnregisteredEndpoint("/muta/broadcast/x"))
    );
}

#[test]
fn usercast_reports_unknown_users() {
    assert_eq!(usercast_outcome(vec![]), Ok(()));
    assert_eq!(
        usercast_outcome(vec![vec![1; 20]]),
        Err(BroadcastError::UserAddrsNotFound(vec![vec![1; 20]]))
    );
}

#[test]
fn registered_endpoints_take_successive_ids() {
    let mut book = EndpointBook::new();
    let mut ids = ProtocolIds::new();
    assert_eq!(register_endpoint(&mut book, &mut ids, "/muta/rpc/a"), 1);
    assert_eq!(register_endpoint(&mut book, &mut ids, "/muta/multicast/b"), 2);
    assert_eq!(register_endpoint(&mut book, &mut ids, "/muta/rpc/a"), 3);
    assert_eq!(rpc_protocol(&book, "/muta/rpc/a"), Ok(1));
    assert_eq!(multicast_protocol(&book, "/muta/multicast/b"), Ok(2));
}
