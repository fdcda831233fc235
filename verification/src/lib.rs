//! The network layer of a blockchain node, with its test tools: peer store, p2p
//! events, rpc and broadcast framing, chunk reassembly, the RISC-V environment
//! syscalls, and the latency-measurement and byzantine-client helpers.
pub mod block;
pub mod client;
pub mod digest;
pub mod endpoint;
pub mod event;
pub mod eventv2;
pub mod measure;
pub mod message;
pub mod network;
pub mod node;
pub mod p2p;
pub mod packet;
pub mod payload;
pub mod protocol_id;
pub mod random;
pub mod peer_store;
pub mod rpc;
pub mod statistics;
pub mod syscall;
pub mod text;
pub mod transmitter;
