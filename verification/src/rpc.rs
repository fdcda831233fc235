//! Request/response framing of the rpc and broadcast services, and the book that
//! maps each registered endpoint to the protocol id serving it.
use vstd::prelude::*;
use vstd::string::*;
use crate::text::str_eq;
use crate::protocol_id::{next_protocol_id, successor, ProtocolIds};

verus! {

pub const RPC_SUCCESS: u8 = 0;
pub const RPC_ERROR: u8 = 1;

pub const RPC_ERR_MSG_BUSY: &'static str = "service busy";
pub const RPC_ERR_MSG_SHUTDOWN: &'static str = "service shutdown";

#[derive(Debug, Clone, PartialEq, Eq)]
pub enum RpcError {
    UnregisteredEndpoint(String),
    StreamClosed,
    BadResponse,
    Response(String),
}

#[derive(Debug, Clone, PartialEq, Eq)]
pub enum BroadcastError {
    UnregisteredEndpoint(&'static str),
    StreamClosed,
    /// Chain addresses with no known peer.
    UserAddrsNotFound(Vec<Vec<u8>>),
}

/// What a request context lacks.
#[derive(Debug, Clone, Copy, PartialEq, Eq, Structural)]
pub enum ContextError {
    NoStreamFound,
    NoRemotePeerFound,
}

/// The body of a failed rpc response.
#[derive(Debug, Clone, PartialEq, Eq)]
pub struct ErrorMessage {
    pub msg: String,
}

impl ErrorMessage {
    pub fn new(msg: String) -> (r: Self)
        ensures
            r.msg == msg,
    {
        ErrorMessage { msg }
    }

    pub fn busy() -> (r: Self)
        ensures
            r.msg@ == RPC_ERR_MSG_BUSY@,
    {
        ErrorMessage { msg: RPC_ERR_MSG_BUSY.to_owned() }
    }

    pub fn shutdown() -> (r: Self)
        ensures
            r.msg@ == RPC_ERR_MSG_SHUTDOWN@,
    {
        ErrorMessage { msg: RPC_ERR_MSG_SHUTDOWN.to_owned() }
    }
}

/// Why an inbound stream could not be queued for its handler.
#[derive(Debug, Clone, Copy, PartialEq, Eq, Structural)]
pub enum QueueError {
    Full,
    Disconnected,
}

/// The error answered to a caller whose request could not be queued: busy when the
/// handler's queue is full, shutdown when the handler is gone.
pub fn rejection_message(err: QueueError) -> (r: ErrorMessage)
    ensures
        err == QueueError::Full ==> r.msg@ == RPC_ERR_MSG_BUSY@,
        err == QueueError::Disconnected ==> r.msg@ == RPC_ERR_MSG_SHUTDOWN@,
{
    match err {
        QueueError::Full => ErrorMessage::busy(),
        QueueError::Disconnected => ErrorMessage::shutdown(),
    }
}

/// A response on the wire: one result byte, then the encoded body.
pub fn frame_response(result: u8, body: &[u8]) -> (r: Vec<u8>)
    ensures
        r@ == seq![result] + body@,
{
    let mut resp: Vec<u8> = Vec::new();
    resp.push(result);
    let mut i: usize = 0;
    while i < body.len()
        invariant
            i <= body@.len(),
            resp@ == seq![result] + body@.subrange(0, i as int),
        decreases body@.len() - i,
    {
        resp.push(body[i]);
        i = i + 1;
        assert(resp@ =~= seq![result] + body@.subrange(0, i as int));
    }
    assert(body@.subrange(0, body@.len() as int) =~= body@);
    resp
}

/// A response read back from the wire.
#[derive(Debug, Clone, PartialEq, Eq)]
pub enum RpcReply {
    /// The result byte was [`RPC_SUCCESS`]; the encoded response.
    Success(Vec<u8>),
    /// Any other result byte; the encoded [`ErrorMessage`].
    Failure(Vec<u8>),
}

pub enum RpcReplyView {
    Success(Seq<u8>),
    Failure(Seq<u8>),
}

impl RpcReply {
    pub open spec fn view(&self) -> RpcReplyView {
        match self {
            RpcReply::Success(b) => RpcReplyView::Success(b@),
            RpcReply::Failure(b) => RpcReplyView::Failure(b@),
        }
    }
}

/// What a response on the wire says: empty is a bad response, otherwise the result
/// byte decides between success and failure and the rest is the body.
pub open spec fn read_reply(resp: Seq<u8>) -> Option<RpcReplyView> {
    if resp.len() < 1 {
        None
    } else if resp[0] == RPC_SUCCESS {
        Some(RpcReplyView::Success(resp.subrange(1, resp.len() as int)))
    } else {
        Some(RpcReplyView::Failure(resp.subrange(1, resp.len() as int)))
    }
}

/// Splits a response into its result and body.
pub fn split_response(resp: Vec<u8>) -> (r: Result<RpcReply, RpcError>)
    ensures
        read_reply(resp@) is None ==> r == Err::<RpcReply, RpcError>(RpcError::BadResponse),
        read_reply(resp@) matches Some(v) ==> (r matches Ok(reply) && reply@ == v),
{
    if resp.len() < 1 {
        return Err(RpcError::BadResponse);
    }
    let mut body: Vec<u8> = Vec::new();
    let mut i: usize = 1;
    while i < resp.len()
        invariant
            1 <= i <= resp@.len(),
            body@ == resp@.subrange(1, i as int),
        decreases resp@.len() - i,
    {
        body.push(resp[i]);
        i = i + 1;
        assert(body@ =~= resp@.subrange(1, i as int));
    }
    if resp[0] == RPC_SUCCESS {
        Ok(RpcReply::Success(body))
    } else {
        Ok(RpcReply::Failure(body))
    }
}

/// Framing: a framed response reads back as the same body, as a success exactly
/// when the result byte is [`RPC_SUCCESS`].
pub proof fn lemma_frame_then_read(result: u8, body: Seq<u8>)
    ensures
        read_reply(seq![result] + body) == if result == RPC_SUCCESS {
            Some(RpcReplyView::Success(body))
        } else {
            Some(RpcReplyView::Failure(body))
        },
{
    let framed = seq![result] + body;
    assert(framed.subrange(1, framed.len() as int) =~= body);
}

/// Endpoints registered on a service, each with the protocol id that serves it.
pub struct EndpointBook {
    entries: Vec<(&'static str, u64)>,
}

/// The protocol id registered for `endpoint` in `entries`, if any.
pub open spec fn book_get(entries: Seq<(Seq<u8>, u64)>, endpoint: Seq<u8>) -> Option<u64> {
    if exists|i: int| 0 <= i < entries.len() && entries[i].0 == endpoint {
        let i = choose|i: int| 0 <= i < entries.len() && entries[i].0 == endpoint;
        Some(entries[i].1)
    } else {
        None
    }
}

impl EndpointBook {
    pub closed spec fn view(&self) -> Seq<(Seq<u8>, u64)> {
        self.entries@.map_values(|e: (&'static str, u64)| (e.0.spec_bytes(), e.1))
    }

    /// No endpoint is registered twice.
    pub open spec fn wf(&self) -> bool {
        forall|i: int, j: int|
            0 <= i < j < self@.len() ==> #[trigger] self@[i].0 != #[trigger] self@[j].0
    }

    pub fn new() -> (r: Self)
        ensures
            r@ == Seq::<(Seq<u8>, u64)>::empty(),
            r.wf(),
    {
        let r = EndpointBook { entries: Vec::new() };
        assert(r@ =~= Seq::<(Seq<u8>, u64)>::empty());
        r
    }

    /// The protocol id serving `endpoint`.
    pub fn get(&self, endpoint: &str) -> (r: Option<u64>)
        requires
            self.wf(),
        ensures
            r == book_get(self@, endpoint.spec_bytes()),
    {
        let mut i: usize = 0;
        while i < self.entries.len()
            invariant
                i <= self.entries@.len(),
                self.wf(),
                self@.len() == self.entries@.len(),
                forall|j: int| 0 <= j < i ==> self@[j].0 != endpoint.spec_bytes(),
            decreases self.entries@.len() - i,
        {
            let (e, id) = self.entries[i];
            assert(self@[i as int] == (e.spec_bytes(), id));
            if str_eq(e, endpoint) {
                proof {
                    let k = choose|k: int| 0 <= k < self@.len() && self@[k].0 == endpoint.spec_bytes();
                    if k != i {
                        if k < i {
                            assert(self@[k].0 != self@[i as int].0);
                        } else {
                            assert(self@[i as int].0 != self@[k].0);
                        }
                    }
                }
                return Some(id);
            }
            i = i + 1;
        }
        None
    }

    /// Registers `endpoint` with protocol `id`; an endpoint already present keeps
    /// its id.  Answers whether the endpoint was added.
    pub fn insert(&mut self, endpoint: &'static str, id: u64) -> (added: bool)
        requires
            old(self).wf(),
        ensures
            final(self).wf(),
            added == (book_get(old(self)@, endpoint.spec_bytes()) is None),
            added ==> final(self)@ == old(self)@.push((endpoint.spec_bytes(), id)),
            !added ==> final(self)@ == old(self)@,
    {
        if self.get(endpoint).is_some() {
            return false;
        }
        let ghost before = self@;
        self.entries.push((endpoint, id));
        assert(self@ =~= before.push((endpoint.spec_bytes(), id)));
        proof {
            assert forall|j: int| 0 <= j < before.len() implies before[j].0 != endpoint.spec_bytes() by {
                if before[j].0 == endpoint.spec_bytes() {
                    assert(book_get(before, endpoint.spec_bytes()) is Some);
                }
            }
        }
        true
    }
}

/// Registers `endpoint` on a service under the next protocol id, and answers that
/// id.  The id is taken even when the endpoint was registered before, which then
/// keeps its first id.
pub fn register_endpoint(book: &mut EndpointBook, ids: &mut ProtocolIds, endpoint: &'static str) -> (r: u64)
    requires
        old(book).wf(),
    ensures
        r == old(ids).upcoming(),
        final(ids).upcoming() == successor(r),
        final(book).wf(),
        book_get(old(book)@, endpoint.spec_bytes()) is None
            ==> final(book)@ == old(book)@.push((endpoint.spec_bytes(), r)),
        book_get(old(book)@, endpoint.spec_bytes()) is Some ==> final(book)@ == old(book)@,
{
    let id = next_protocol_id(ids);
    book.insert(endpoint, id);
    id
}

/// The protocol that carries a call to `endpoint`: the id registered for it; an
/// endpoint never registered is an error naming it.
pub fn rpc_protocol(book: &EndpointBook, endpoint: &str) -> (r: Result<u64, RpcError>)
    requires
        book.wf(),
    ensures
        book_get(book@, endpoint.spec_bytes()) matches Some(id) ==> r == Ok::<u64, RpcError>(id),
        book_get(book@, endpoint.spec_bytes()) is None
            ==> (r matches Err(RpcError::UnregisteredEndpoint(name)) && name@ == endpoint@),
{
    match book.get(endpoint) {
        Some(id) => Ok(id),
        None => Err(RpcError::UnregisteredEndpoint(endpoint.to_owned())),
    }
}

/// The protocol that carries a multicast on `endpoint`: the id registered for it;
/// an endpoint never registered is an error naming it.
pub fn multicast_protocol(book: &EndpointBook, endpoint: &'static str) -> (r: Result<u64, BroadcastError>)
    requires
        book.wf(),
    ensures
        r == (match book_get(book@, endpoint.spec_bytes()) {
            Some(id) => Ok::<u64, BroadcastError>(id),
            None => Err(BroadcastError::UnregisteredEndpoint(endpoint)),
        }),
{
    match book.get(endpoint) {
        Some(id) => Ok(id),
        None => Err(BroadcastError::UnregisteredEndpoint(endpoint)),
    }
}

/// The outcome of a message sent to users by chain address, once it went to the
/// peers that were found: the addresses with no peer, if any, are reported.
pub fn usercast_outcome(not_found: Vec<Vec<u8>>) -> (r: Result<(), BroadcastError>)
    ensures
        not_found@.len() == 0 ==> r == Ok::<(), BroadcastError>(()),
        not_found@.len() > 0 ==> r == Err::<(), BroadcastError>(BroadcastError::UserAddrsNotFound(not_found)),
{
    if not_found.len() == 0 {
        Ok(())
    } else {
        Err(BroadcastError::UserAddrsNotFound(not_found))
    }
}

/// Registering a new endpoint makes it resolve to its id; registering one that is
/// already present changes nothing.
pub proof fn lemma_book_insert_get(entries: Seq<(Seq<u8>, u64)>, endpoint: Seq<u8>, id: u64)
    requires
        forall|i: int, j: int| 0 <= i < j < entries.len() ==> #[trigger] entries[i].0 != #[trigger] entries[j].0,
    ensures
        book_get(entries, endpoint) is None ==> book_get(entries.push((endpoint, id)), endpoint) == Some(id),
{
    if book_get(entries, endpoint) is None {
        let pushed = entries.push((endpoint, id));
        assert(pushed[entries.len() as int].0 == endpoint);
        let k = choose|k: int| 0 <= k < pushed.len() && pushed[k].0 == endpoint;
        if k < entries.len() {
            assert(entries[k].0 == endpoint);
        }
    }
}

} // verus!
