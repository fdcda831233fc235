//! Measurement messages: who sent them, when, and a payload.
use vstd::prelude::*;
use vstd::string::*;
use vstd::utf8::encode_utf8;
use crate::digest::{hex_chars, hex_encode, keccak256, keccak256_of};
use crate::payload::{Payload, PayloadBlock, payload_bytes, payload_size};

verus! {

/// A named sender, with the hex Keccak-256 digest of its name.
#[derive(Debug, Clone, PartialEq, Eq, Hash)]
pub struct Identity {
    pub name: String,
    pub hash: String,
}

/// The hash text of an identity named `name`.
pub open spec fn identity_hash(name: Seq<char>) -> Seq<char> {
    hex_chars(keccak256_of(encode_utf8(name)))
}

impl Identity {
    pub open spec fn view(&self) -> (Seq<char>, Seq<char>) {
        (self.name@, self.hash@)
    }

    pub fn new(name: String) -> (r: Self)
        ensures
            r.name@ == name@,
            r.hash@ == identity_hash(name@),
    {
        let digest = keccak256(name.as_str().as_bytes());
        let hash = hex_encode(digest.as_slice());
        Identity { name, hash }
    }

    /// Whether two identities are the same sender.
    pub fn same(&self, other: &Identity) -> (r: bool)
        ensures
            r == (self@ == other@),
    {
        self.name == other.name && self.hash == other.hash
    }
}

/// A measurement message: its sender, when it was sent (milliseconds since the
/// Unix epoch), the payload size and the payload's bytes.
#[derive(Debug)]
pub struct Candy {
    pub identity: Identity,
    pub timestamp: u128,
    pub size: u64,
    pub payload: Vec<u8>,
}

impl Candy {
    /// A message from `name`, sent at `timestamp`, carrying `payload` built from `block`.
    pub fn new(name: String, payload: Payload, timestamp: u128, block: &PayloadBlock) -> (r: Self)
        ensures
            r.identity.name@ == name@,
            r.identity.hash@ == identity_hash(name@),
            r.timestamp == timestamp,
            r.size == payload_size(payload),
            r.payload@ == payload_bytes(block@, payload),
    {
        Candy { identity: Identity::new(name), timestamp, size: payload.size(), payload: payload.gen(block) }
    }
}

} // verus!
