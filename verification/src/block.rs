//! The block that the byzantine client serves when a peer pulls a block from it.
use vstd::prelude::*;
use crate::digest::{keccak256, keccak256_of};

verus! {

/// A consensus proof of a block.
#[derive(Debug, Clone, PartialEq, Eq)]
pub struct Proof {
    pub height: u64,
    pub round: u64,
    pub block_hash: Vec<u8>,
    pub signature: Vec<u8>,
    pub bitmap: Vec<u8>,
}

/// A validator of the chain.
#[derive(Debug, Clone, PartialEq, Eq)]
pub struct Validator {
    pub pub_key: Vec<u8>,
    pub propose_weight: u32,
    pub vote_weight: u32,
}

/// A block header; hashes are 32-byte Keccak-256 digests, the proposer a 20-byte address.
#[derive(Debug, Clone, PartialEq, Eq)]
pub struct BlockHeader {
    pub chain_id: Vec<u8>,
    pub height: u64,
    pub exec_height: u64,
    pub pre_hash: Vec<u8>,
    pub timestamp: u64,
    /// A 2048-bit bloom filter.
    pub logs_bloom: Vec<u8>,
    pub order_root: Vec<u8>,
    pub confirm_root: Vec<Vec<u8>>,
    pub state_root: Vec<u8>,
    pub receipt_root: Vec<Vec<u8>>,
    pub cycles_used: Vec<u64>,
    pub proposer: Vec<u8>,
    pub proof: Proof,
    pub validator_version: u64,
    pub validators: Vec<Validator>,
}

#[derive(Debug, Clone, PartialEq, Eq)]
pub struct Block {
    pub header: BlockHeader,
    pub ordered_tx_hashes: Vec<Vec<u8>>,
}

/// The address of the mock block's proposer.
pub open spec fn mock_proposer() -> Seq<u8> {
    seq![
        0xCAu8, 0xB8, 0xEE, 0xA4, 0x79, 0x9C, 0x21, 0x37, 0x9C, 0x20,
        0xEF, 0x5B, 0xAA, 0x2C, 0xC8, 0xAF, 0x1B, 0xEC, 0x47, 0x5B,
    ]
}

/// A made-up block at `height` (at least 1): its hashes are digests of the text
/// `"22"` (the block hash in its proof) and `"33"` (chain id, previous hash and
/// roots), its timestamp 1000, with no transactions, receipts or validators.
pub fn mock_block(height: u64) -> (r: Block)
    requires
        height >= 1,
    ensures
        r.header.height == height,
        r.header.exec_height == height - 1,
        r.header.chain_id@ == keccak256_of(seq![0x33u8, 0x33]),
        r.header.pre_hash@ == keccak256_of(seq![0x33u8, 0x33]),
        r.header.order_root@ == keccak256_of(seq![0x33u8, 0x33]),
        r.header.state_root@ == keccak256_of(seq![0x33u8, 0x33]),
        r.header.timestamp == 1000,
        r.header.logs_bloom@ == Seq::new(256, |i: int| 0u8),
        r.header.confirm_root@.len() == 0,
        r.header.receipt_root@.len() == 0,
        r.header.cycles_used@ == seq![999_999u64],
        r.header.proposer@ == mock_proposer(),
        r.header.proof.height == 0,
        r.header.proof.round == 0,
        r.header.proof.block_hash@ == keccak256_of(seq![0x32u8, 0x32]),
        r.header.proof.signature@.len() == 0,
        r.header.proof.bitmap@.len() == 0,
        r.header.validator_version == 1,
        r.header.validators@.len() == 0,
        r.ordered_tx_hashes@.len() == 0,
{
    let twos: Vec<u8> = vec![0x32u8, 0x32];
    let threes: Vec<u8> = vec![0x33u8, 0x33];
    assert(twos@ =~= seq![0x32u8, 0x32]);
    assert(threes@ =~= seq![0x33u8, 0x33]);
    let block_hash = keccak256(twos.as_slice());
    let nonce = keccak256(threes.as_slice());

    let mut logs_bloom: Vec<u8> = Vec::new();
    let mut i: usize = 0;
    while i < 256
        invariant
            i <= 256,
            logs_bloom@ == Seq::new(i as nat, |k: int| 0u8),
        decreases 256 - i,
    {
        logs_bloom.push(0u8);
        i = i + 1;
        assert(logs_bloom@ =~= Seq::new(i as nat, |k: int| 0u8));
    }

    let proposer: Vec<u8> = vec![
        0xCAu8, 0xB8, 0xEE, 0xA4, 0x79, 0x9C, 0x21, 0x37, 0x9C, 0x20,
        0xEF, 0x5B, 0xAA, 0x2C, 0xC8, 0xAF, 0x1B, 0xEC, 0x47, 0x5B,
    ];
    assert(proposer@ =~= mock_proposer());
    let cycles_used: Vec<u64> = vec![999_999u64];
    assert(cycles_used@ =~= seq![999_999u64]);

    let proof = Proof { height: 0, round: 0, block_hash, signature: Vec::new(), bitmap: Vec::new() };
    let header = BlockHeader {
        chain_id: vstd::slice::slice_to_vec(nonce.as_slice()),
        height,
        exec_height: height - 1,
        pre_hash: vstd::slice::slice_to_vec(nonce.as_slice()),
        timestamp: 1000,
        logs_bloom,
        order_root: vstd::slice::slice_to_vec(nonce.as_slice()),
        confirm_root: Vec::new(),
        state_root: nonce,
        receipt_root: Vec::new(),
        cycles_used,
        proposer,
        proof,
        validator_version: 1,
        validators: Vec::new(),
    };
    Block { header, ordered_tx_hashes: Vec::new() }
}

} // verus!
