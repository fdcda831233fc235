//! Measurement payloads: four sizes, each filled with one random block repeated.
use vstd::prelude::*;
use crate::random::os_random_bytes;

verus! {

pub const SIZE_512B: u64 = 512;
pub const SIZE_5K: u64 = 5120;
pub const SIZE_50K: u64 = 51200;
pub const SIZE_500K: u64 = 512000;

/// Length of the random block that every payload repeats.
pub const BLOCK_LEN: usize = 512;

#[derive(Debug, Clone, Copy, PartialEq, Eq, Hash, Structural)]
pub enum Payload {
    B512,
    K5,
    K50,
    K500,
}

pub open spec fn payload_size(p: Payload) -> u64 {
    match p {
        Payload::B512 => SIZE_512B,
        Payload::K5 => SIZE_5K,
        Payload::K50 => SIZE_50K,
        Payload::K500 => SIZE_500K,
    }
}

/// Whether `size` is the size of some payload.
pub open spec fn is_payload_size(size: u64) -> bool {
    size == SIZE_512B || size == SIZE_5K || size == SIZE_50K || size == SIZE_500K
}

/// The payload of a given size.
pub open spec fn payload_of_size(size: u64) -> Payload {
    if size == SIZE_512B {
        Payload::B512
    } else if size == SIZE_5K {
        Payload::K5
    } else if size == SIZE_50K {
        Payload::K50
    } else {
        Payload::K500
    }
}

/// The block of [`BLOCK_LEN`] random bytes that every payload repeats; a process
/// draws it once, so that all its payloads share it.
pub struct PayloadBlock {
    bytes: Vec<u8>,
}

/// The bytes of payload `p` built from `block`: the block repeated to the payload's size.
pub open spec fn payload_bytes(block: Seq<u8>, p: Payload) -> Seq<u8> {
    Seq::new(payload_size(p) as nat, |i: int| block[i % BLOCK_LEN as int])
}

/// `s` repeated `n` times.
pub open spec fn repeated(s: Seq<u8>, n: nat) -> Seq<u8> {
    Seq::new(s.len() * n, |i: int| s[i % s.len() as int])
}

impl PayloadBlock {
    #[verifier::type_invariant]
    spec fn inv(self) -> bool {
        self.bytes@.len() == BLOCK_LEN
    }

    pub closed spec fn view(&self) -> Seq<u8> {
        self.bytes@
    }

    /// The block holding `bytes`, which must be [`BLOCK_LEN`] long.
    pub fn new(bytes: Vec<u8>) -> (r: Option<PayloadBlock>)
        ensures
            r is Some <==> bytes@.len() == BLOCK_LEN,
            r matches Some(b) ==> b@ == bytes@,
    {
        if bytes.len() == BLOCK_LEN {
            Some(PayloadBlock { bytes })
        } else {
            None
        }
    }

    /// A block drawn from the operating system's random source; nothing when the
    /// source fails.
    pub fn draw() -> (r: Option<PayloadBlock>)
        ensures
            r matches Some(b) ==> b@.len() == BLOCK_LEN,
    {
        match os_random_bytes(BLOCK_LEN) {
            Some(bytes) => PayloadBlock::new(bytes),
            None => None,
        }
    }
}

impl Payload {
    pub fn size(self) -> (r: u64)
        ensures
            r == payload_size(self),
    {
        match self {
            Payload::B512 => SIZE_512B,
            Payload::K5 => SIZE_5K,
            Payload::K50 => SIZE_50K,
            Payload::K500 => SIZE_500K,
        }
    }

    /// The payload of `size`, which must be one of the four sizes.
    pub fn from_size(size: u64) -> (r: Payload)
        requires
            is_payload_size(size),
        ensures
            r == payload_of_size(size),
            payload_size(r) == size,
            forall|p: Payload| payload_size(p) == size ==> r == p,
    {
        if size == SIZE_512B {
            Payload::B512
        } else if size == SIZE_5K {
            Payload::K5
        } else if size == SIZE_50K {
            Payload::K50
        } else {
            Payload::K500
        }
    }

    /// All payloads, smallest first.
    pub fn iter() -> (r: Vec<Payload>)
        ensures
            r@ == seq![Payload::B512, Payload::K5, Payload::K50, Payload::K500],
    {
        let mut v: Vec<Payload> = Vec::new();
        v.push(Payload::B512);
        v.push(Payload::K5);
        v.push(Payload::K50);
        v.push(Payload::K500);
        assert(v@ =~= seq![Payload::B512, Payload::K5, Payload::K50, Payload::K500]);
        v
    }

    /// The payload's bytes: `block` repeated to the payload's size.
    pub fn gen(self, block: &PayloadBlock) -> (r: Vec<u8>)
        ensures
            r@ == payload_bytes(block@, self),
    {
        proof {
            use_type_invariant(block);
        }
        let size = self.size() as usize;
        let mut out: Vec<u8> = Vec::new();
        let mut i: usize = 0;
        while i < size
            invariant
                i <= size,
                size == payload_size(self),
                block@.len() == BLOCK_LEN,
                out@.len() == i,
                forall|j: int| 0 <= j < i ==> #[trigger] out@[j] == block@[j % BLOCK_LEN as int],
            decreases size - i,
        {
            out.push(block.bytes[i % BLOCK_LEN]);
            i = i + 1;
        }
        assert(out@ =~= payload_bytes(block@, self));
        out
    }
}

proof fn lemma_nest(block: Seq<u8>, small: Payload, big: Payload, k: int)
    requires
        k > 0,
        payload_size(small) == 512 * k,
        payload_size(big) == payload_size(small) * 10,
    ensures
        payload_bytes(block, big) == repeated(payload_bytes(block, small), 10),
{
    let a = payload_bytes(block, big);
    let b = repeated(payload_bytes(block, small), 10);
    assert forall|i: int| 0 <= i < a.len() implies #[trigger] a[i] == b[i] by {
        vstd::arithmetic::div_mod::lemma_mod_mod(i, 512, k);
    }
    assert(a =~= b);
}

/// Every payload is the smallest one repeated: the 5K payload is the 512-byte one
/// ten times over, the 50K the 5K ten times over, the 500K the 50K ten times over.
pub proof fn lemma_payloads_nest(block: Seq<u8>)
    ensures
        payload_bytes(block, Payload::K5) == repeated(payload_bytes(block, Payload::B512), 10),
        payload_bytes(block, Payload::K50) == repeated(payload_bytes(block, Payload::K5), 10),
        payload_bytes(block, Payload::K500) == repeated(payload_bytes(block, Payload::K50), 10),
{
    lemma_nest(block, Payload::B512, Payload::K5, 1);
    lemma_nest(block, Payload::K5, Payload::K50, 10);
    lemma_nest(block, Payload::K50, Payload::K500, 100);
}

/// Each payload is recovered from its size, and the sizes are exactly the four sizes.
pub proof fn lemma_size_round_trip(p: Payload, size: u64)
    ensures
        payload_of_size(payload_size(p)) == p,
        is_payload_size(payload_size(p)),
        is_payload_size(size) ==> payload_size(payload_of_size(size)) == size,
{
}

} // verus!
