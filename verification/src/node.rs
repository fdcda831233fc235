//! Configuration and transaction building of the byzantine test client.
use vstd::prelude::*;
use vstd::string::*;
use vstd::utf8::*;
use crate::digest::{keccak256, keccak256_of, hex_decode, hex_decoded, is_hex_text};
use crate::peer_store::{chain_address, chain_address_of};
use crate::random::os_random_bytes;
use crate::text::{str_contains, str_eq, occurs_in};

verus! {

#[derive(Debug, Clone, PartialEq, Eq)]
pub enum ClientNodeError {
    NotConnected,
    Unexpected(String),
}

/// The text of an unexpected failure: `{action} to {endpoint} {error}`.
fn failure_text(action: &str, endpoint: &str, error: &str) -> (r: String)
    ensures
        r@ == action@ + seq![' ', 't', 'o', ' '] + endpoint@ + seq![' '] + error@,
{
    let mut text = <String as StringExecFns>::from_str(action);
    text.append(" to ");
    text.append(endpoint);
    text.append(" ");
    text.append(error);
    proof {
        reveal_strlit(" to ");
        reveal_strlit(" ");
        assert(" to "@ =~= seq![' ', 't', 'o', ' ']);
        assert(" "@ =~= seq![' ']);
    }
    text
}

/// Whether the error text of a failed call reports an rpc timeout.
pub open spec fn is_timeout_text(error: Seq<u8>) -> bool {
    occurs_in(error, "RpcTimeout".spec_bytes()) || occurs_in(error, "rpc timeout".spec_bytes())
}

/// Whether the error text of a failed call reports an rpc timeout (after which the
/// client waits and checks whether the full node is still connected).
pub fn is_rpc_timeout(error: &str) -> (r: bool)
    ensures
        r == is_timeout_text(error.spec_bytes()),
{
    str_contains(error, "RpcTimeout") || str_contains(error, "rpc timeout")
}

/// The client's answer to a failed rpc call to `endpoint` with error text `error`:
/// a timeout after which the full node is no longer `connected` means the client
/// is not connected; any other failure is unexpected, described as
/// `rpc to {endpoint} {error}`.
pub fn rpc_failure(endpoint: &str, error: &str, connected: bool) -> (r: ClientNodeError)
    ensures
        is_timeout_text(error.spec_bytes()) && !connected ==> r == ClientNodeError::NotConnected,
        !(is_timeout_text(error.spec_bytes()) && !connected) ==> (r matches ClientNodeError::Unexpected(m)
            && m@ == "rpc"@ + seq![' ', 't', 'o', ' '] + endpoint@ + seq![' '] + error@),
{
    if is_rpc_timeout(error) && !connected {
        ClientNodeError::NotConnected
    } else {
        ClientNodeError::Unexpected(failure_text("rpc", endpoint, error))
    }
}

/// The client's answer to a failed broadcast to `endpoint` with error text `error`,
/// given whether the full node is still `connected`: not connected, or an
/// unexpected failure described as `broadcast to {endpoint} {error}`.
pub fn broadcast_failure(endpoint: &str, error: &str, connected: bool) -> (r: ClientNodeError)
    ensures
        !connected ==> r == ClientNodeError::NotConnected,
        connected ==> (r matches ClientNodeError::Unexpected(m)
            && m@ == "broadcast"@ + seq![' ', 't', 'o', ' '] + endpoint@ + seq![' '] + error@),
{
    if !connected {
        ClientNodeError::NotConnected
    } else {
        ClientNodeError::Unexpected(failure_text("broadcast", endpoint, error))
    }
}

/// A bootstrap node: its public key (hex) and its address.
#[derive(Debug, Clone, PartialEq, Eq)]
pub struct ConfigNetworkBootstrap {
    pub pubkey: String,
    pub address: String,
}

/// A service of the genesis block and its initial payload.
#[derive(Debug, Clone, PartialEq, Eq)]
pub struct ServiceParam {
    pub name: String,
    pub payload: String,
}

#[derive(Debug, Clone, PartialEq, Eq)]
pub struct Genesis {
    pub timestamp: u64,
    pub prevhash: String,
    pub services: Vec<ServiceParam>,
}

/// Chain metadata of the genesis block.
#[derive(Debug, Clone, PartialEq, Eq)]
pub struct Metadata {
    /// Chain id (a 32-byte hash).
    pub chain_id: Vec<u8>,
    pub common_ref: String,
    pub timeout_gap: u64,
    pub cycles_limit: u64,
    pub cycles_price: u64,
    pub interval: u64,
    pub propose_ratio: u64,
    pub prevote_ratio: u64,
    pub precommit_ratio: u64,
    pub brake_ratio: u64,
    pub tx_num_limit: u64,
    pub max_tx_size: u64,
}

/// Whether some service in `services` is named `name`.
pub open spec fn has_service(services: Seq<ServiceParam>, name: Seq<u8>) -> bool {
    exists|i: int| 0 <= i < services.len() && encode_utf8(services[i].name@) == name
}

impl Genesis {
    /// The payload of the first service named `name`; such a service must exist.
    pub fn get_payload(&self, name: &str) -> (r: &str)
        requires
            has_service(self.services@, name.spec_bytes()),
        ensures
            exists|i: int|
                0 <= i < self.services@.len() && encode_utf8(self.services@[i].name@) == name.spec_bytes()
                    && r@ == self.services@[i].payload@ && forall|j: int|
                    0 <= j < i ==> #[trigger] encode_utf8(self.services@[j].name@) != name.spec_bytes(),
    {
        let mut i: usize = 0;
        while i < self.services.len()
            invariant
                i <= self.services@.len(),
                has_service(self.services@, name.spec_bytes()),
                forall|j: int| 0 <= j < i ==> #[trigger] encode_utf8(self.services@[j].name@) != name.spec_bytes(),
            decreases self.services@.len() - i,
        {
            if str_eq(self.services[i].name.as_str(), name) {
                return self.services[i].payload.as_str();
            }
            i = i + 1;
        }
        proof {
            let k = choose|k: int| 0 <= k < self.services@.len() && encode_utf8(self.services@[k].name@) == name.spec_bytes();
            assert(encode_utf8(self.services@[k].name@) != name.spec_bytes());
        }
        self.services[0].payload.as_str()
    }
}

/// Whether `key` (the bytes of a configured public key) is `0x` followed by hex text.
pub open spec fn is_prefixed_hex(key: Seq<u8>) -> bool {
    &&& key.len() >= 2
    &&& key[0] == 48
    &&& (key[1] == 120 || key[1] == 88)
    &&& is_hex_text(key.subrange(2, key.len() as int))
}

/// The bytes written as `text`, when it is `0x` followed by hex text; none otherwise.
pub fn decode_prefixed_hex(text: &str) -> (r: Option<Vec<u8>>)
    ensures
        r is Some <==> is_prefixed_hex(text.spec_bytes()),
        r matches Some(v) ==> v@ == hex_decoded(text.spec_bytes().subrange(2, text.spec_bytes().len() as int)),
{
    let b = text.as_bytes();
    if b.len() < 2 || b[0] != 48 || (b[1] != 120 && b[1] != 88) {
        return None;
    }
    hex_decode(vstd::slice::slice_subrange(b, 2, b.len()))
}

/// Two leading ASCII bytes end on a character boundary.
proof fn lemma_ascii_pair_boundary(bytes: Seq<u8>)
    requires
        valid_utf8(bytes),
        bytes.len() >= 2,
        bytes[0] < 128,
        bytes[1] < 128,
    ensures
        is_char_boundary(bytes, 2),
{
    let rest = pop_first_scalar(bytes);
    assert(length_of_first_scalar(bytes) == 1);
    assert(valid_utf8(rest));
    assert(rest[0] == bytes[1]);
    assert(length_of_first_scalar(rest) == 1);
    assert(is_char_boundary(pop_first_scalar(rest), 0));
    assert(is_char_boundary(rest, 1));
}

/// The full node the client talks to.
#[derive(Debug, Clone, PartialEq, Eq)]
pub struct FullNodeInfo {
    /// Its public key, as hex text without the `0x` prefix.
    pub pubkey: String,
    /// Its chain address.
    pub chain_addr: Vec<u8>,
    pub multiaddr: String,
}

impl FullNodeInfo {
    /// The full node is the last configured bootstrap; there must be one, and its
    /// key must be `0x` followed by hex text.
    pub fn from_conf(bootstraps: Option<Vec<ConfigNetworkBootstrap>>) -> (r: FullNodeInfo)
        requires
            bootstraps matches Some(b) && b@.len() > 0 && is_prefixed_hex(encode_utf8(b@.last().pubkey@)),
        ensures
            ({
                let last = bootstraps->0@.last();
                let key = encode_utf8(last.pubkey@);
                &&& encode_utf8(r.pubkey@) == key.subrange(2, key.len() as int)
                &&& r.chain_addr@ == chain_address_of(hex_decoded(key.subrange(2, key.len() as int)))
                &&& r.multiaddr == last.address
            }),
    {
        let mut bootstraps = match bootstraps {
            Some(b) => b,
            None => Vec::new(),
        };
        let full_node = bootstraps.pop().unwrap();
        proof {
            encode_utf8_valid_utf8(full_node.pubkey@);
            lemma_ascii_pair_boundary(encode_utf8(full_node.pubkey@));
        }
        let (_, hex_pubkey) = full_node.pubkey.as_str().split_at(2);
        let pubkey = hex_decode(hex_pubkey.as_bytes()).unwrap();
        let chain_addr = chain_address(pubkey.as_slice());
        FullNodeInfo { pubkey: hex_pubkey.to_owned(), chain_addr, multiaddr: full_node.address }
    }
}

pub const DEFAULT_TX_TIMEOUT: u64 = 19;
pub const DEFAULT_TX_CYCLES_LIMIT: u64 = 314_159;
pub const DEFAULT_TX_PAYLOAD: &'static str = "test";

/// Builds the fields of a signed transaction for the metadata service.
#[derive(Debug, Clone)]
pub struct SignedTransactionBuilder {
    /// Chain id (a 32-byte hash).
    pub chain_id: Vec<u8>,
    pub timeout: u64,
    pub cycles_limit: u64,
    pub payload: String,
}

impl SignedTransactionBuilder {
    /// A builder for chain `chain_id` with the default timeout, cycles limit and payload.
    pub fn new(chain_id: Vec<u8>) -> (r: Self)
        ensures
            r.chain_id == chain_id,
            r.timeout == DEFAULT_TX_TIMEOUT,
            r.cycles_limit == DEFAULT_TX_CYCLES_LIMIT,
            r.payload@ == DEFAULT_TX_PAYLOAD@,
    {
        SignedTransactionBuilder {
            chain_id,
            timeout: DEFAULT_TX_TIMEOUT,
            cycles_limit: DEFAULT_TX_CYCLES_LIMIT,
            payload: DEFAULT_TX_PAYLOAD.to_owned(),
        }
    }

    /// Sets the chain id to the Keccak-256 digest of `chain_id_bytes`.
    pub fn chain_id(self, chain_id_bytes: Vec<u8>) -> (r: Self)
        ensures
            r.chain_id@ == keccak256_of(chain_id_bytes@),
            r.timeout == self.timeout,
            r.cycles_limit == self.cycles_limit,
            r.payload == self.payload,
    {
        let digest = keccak256(chain_id_bytes.as_slice());
        SignedTransactionBuilder { chain_id: digest, ..self }
    }

    pub fn timeout(self, timeout: u64) -> (r: Self)
        ensures
            r.timeout == timeout,
            r.chain_id == self.chain_id,
            r.cycles_limit == self.cycles_limit,
            r.payload == self.payload,
    {
        SignedTransactionBuilder { timeout, ..self }
    }

    pub fn cycles_limit(self, cycles_limit: u64) -> (r: Self)
        ensures
            r.cycles_limit == cycles_limit,
            r.chain_id == self.chain_id,
            r.timeout == self.timeout,
            r.payload == self.payload,
    {
        SignedTransactionBuilder { cycles_limit, ..self }
    }

    pub fn payload(self, payload: String) -> (r: Self)
        ensures
            r.payload == payload,
            r.chain_id == self.chain_id,
            r.timeout == self.timeout,
            r.cycles_limit == self.cycles_limit,
    {
        SignedTransactionBuilder { payload, ..self }
    }
}

/// Rounds the client waits for its full node after starting up.
pub const CONNECT_ROUNDS: u8 = 30;

/// What the client does in a round of waiting for its full node.
#[derive(Debug, Clone, Copy, PartialEq, Eq, Structural)]
pub enum ConnectWait {
    /// The full node is connected: go on.
    Connected,
    /// Sleep a second, then wait another round with `remaining` rounds left.
    Retry { remaining: u8 },
    /// Give up: the full node could not be reached.
    Failed,
}

/// One round of waiting with `remaining` rounds left and the full node `connected`
/// or not.  A round uses up one of the remaining rounds; the client goes on only
/// if the full node is connected and rounds are still left after this one.
pub fn connect_wait(remaining: u8, connected: bool) -> (r: ConnectWait)
    ensures
        remaining == 0 ==> r == ConnectWait::Failed,
        remaining == 1 ==> r == (if connected { ConnectWait::Failed } else { ConnectWait::Retry { remaining: 0 } }),
        remaining > 1 ==> r == (if connected {
            ConnectWait::Connected
        } else {
            ConnectWait::Retry { remaining: (remaining - 1) as u8 }
        }),
{
    if remaining == 0 {
        return ConnectWait::Failed;
    }
    let left = remaining - 1;
    if connected {
        if left == 0 {
            ConnectWait::Failed
        } else {
            ConnectWait::Connected
        }
    } else {
        ConnectWait::Retry { remaining: left }
    }
}

/// A call of a service method.
#[derive(Debug, Clone, PartialEq, Eq)]
pub struct TransactionRequest {
    pub service_name: String,
    pub method: String,
    pub payload: String,
}

/// A transaction before it is hashed and signed.
#[derive(Debug, Clone, PartialEq, Eq)]
pub struct RawTransaction {
    pub chain_id: Vec<u8>,
    pub nonce: Vec<u8>,
    pub timeout: u64,
    pub cycles_limit: u64,
    pub cycles_price: u64,
    pub request: TransactionRequest,
}

impl SignedTransactionBuilder {
    /// The unsigned transaction: a `get_metadata` call of the `metadata` service
    /// with the builder's payload, at cycle price 1, its nonce the digest of `seed`.
    pub fn raw_transaction(self, seed: &[u8]) -> (r: RawTransaction)
        ensures
            r.chain_id == self.chain_id,
            r.nonce@ == keccak256_of(seed@),
            r.timeout == self.timeout,
            r.cycles_limit == self.cycles_limit,
            r.cycles_price == 1,
            r.request.service_name@ == "metadata"@,
            r.request.method@ == "get_metadata"@,
            r.request.payload == self.payload,
    {
        let request = TransactionRequest {
            service_name: "metadata".to_owned(),
            method: "get_metadata".to_owned(),
            payload: self.payload,
        };
        RawTransaction {
            chain_id: self.chain_id,
            nonce: keccak256(seed),
            timeout: self.timeout,
            cycles_limit: self.cycles_limit,
            cycles_price: 1,
            request,
        }
    }

    /// The unsigned transaction with a nonce drawn at random (the digest of 32
    /// random bytes); nothing when the random source fails.
    pub fn build_raw(self) -> (r: Option<RawTransaction>)
        ensures
            r matches Some(t) ==> {
                &&& t.chain_id == self.chain_id
                &&& t.timeout == self.timeout
                &&& t.cycles_limit == self.cycles_limit
                &&& t.cycles_price == 1
                &&& t.request.service_name@ == "metadata"@
                &&& t.request.method@ == "get_metadata"@
                &&& t.request.payload == self.payload
                &&& exists|seed: Seq<u8>| seed.len() == 32 && t.nonce@ == keccak256_of(seed)
            },
    {
        match os_random_bytes(32) {
            Some(seed) => {
                let t = self.raw_transaction(seed.as_slice());
                assert(seed@.len() == 32 && t.nonce@ == keccak256_of(seed@));
                Some(t)
            },
            None => None,
        }
    }
}

/// A builder for chain `chain_id` with the default settings.
pub fn stx_builder(chain_id: Vec<u8>) -> (r: SignedTransactionBuilder)
    ensures
        r.chain_id == chain_id,
        r.timeout == DEFAULT_TX_TIMEOUT,
        r.cycles_limit == DEFAULT_TX_CYCLES_LIMIT,
        r.payload@ == DEFAULT_TX_PAYLOAD@,
{
    SignedTransactionBuilder::new(chain_id)
}

} // verus!
