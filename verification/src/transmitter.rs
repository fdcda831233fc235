//! Reassembly of chunked messages on the transmitter protocol.
//!
//! A sender splits a message into chunks, each framed as an 8-byte big-endian
//! sequence number, one end-of-message byte and the chunk's data.  The receiver
//! keeps the data of the sequence number it is collecting and hands the whole
//! message on when the chunk marked as its end arrives.
use vstd::prelude::*;

verus! {

/// The big-endian `u64` held by the eight bytes of `s` starting at `start`.
pub open spec fn be_u64_at(s: Seq<u8>, start: int) -> int {
    s[start] * 0x100000000000000 + s[start + 1] * 0x1000000000000 + s[start + 2] * 0x10000000000
        + s[start + 3] * 0x100000000 + s[start + 4] * 0x1000000 + s[start + 5] * 0x10000
        + s[start + 6] * 0x100 + s[start + 7]
}

/// A decoded chunk.
pub struct SeqChunkMessage {
    pub seq: u64,
    pub eof: bool,
    pub data: Vec<u8>,
}

/// The smallest chunk the receiver accepts.
pub const MIN_CHUNK_LEN: usize = 10;

/// Sequence number of an encoded chunk.
pub open spec fn chunk_seq(bytes: Seq<u8>) -> int {
    be_u64_at(bytes, 0)
}

/// End-of-message flag of an encoded chunk.
pub open spec fn chunk_eof(bytes: Seq<u8>) -> bool {
    bytes[8] != 0
}

/// Data of an encoded chunk.
pub open spec fn chunk_data(bytes: Seq<u8>) -> Seq<u8> {
    bytes.subrange(9, bytes.len() as int)
}

impl SeqChunkMessage {
    /// Splits an encoded chunk (at least 9 bytes) into its fields.
    pub fn decode(bytes: &[u8]) -> (m: SeqChunkMessage)
        requires
            bytes@.len() >= 9,
        ensures
            m.seq as int == chunk_seq(bytes@),
            m.eof == chunk_eof(bytes@),
            m.data@ == chunk_data(bytes@),
    {
        let mut seq: u64 = 0;
        let mut i: usize = 0;
        while i < 8
            invariant
                i <= 8,
                bytes@.len() >= 9,
                seq as int == partial_be(bytes@, i as int),
                seq < pow256(i as int),
            decreases 8 - i,
        {
            proof {
                lemma_pow256_step(i as int);
            }
            assert(seq * 256 + bytes@[i as int] < pow256(i + 1)) by (nonlinear_arith)
                requires
                    seq < pow256(i as int),
                    pow256(i + 1) == pow256(i as int) * 256,
                    bytes@[i as int] < 256,
            ;
            seq = seq * 256 + bytes[i] as u64;
            i = i + 1;
        }
        proof {
            reveal_with_fuel(partial_be, 9);
        }
        let eof = bytes[8] != 0;
        let mut data: Vec<u8> = Vec::new();
        let mut j: usize = 9;
        while j < bytes.len()
            invariant
                9 <= j <= bytes@.len(),
                data@ == bytes@.subrange(9, j as int),
            decreases bytes@.len() - j,
        {
            data.push(bytes[j]);
            j = j + 1;
            assert(data@ =~= bytes@.subrange(9, j as int));
        }
        SeqChunkMessage { seq, eof, data }
    }
}

/// The big-endian value of the first `n` bytes of `s`.
pub open spec fn partial_be(s: Seq<u8>, n: int) -> int
    decreases n,
{
    if n <= 0 {
        0
    } else {
        partial_be(s, n - 1) * 256 + s[n - 1]
    }
}

pub open spec fn pow256(n: int) -> int
    decreases n,
{
    if n <= 0 {
        1
    } else {
        pow256(n - 1) * 256
    }
}

proof fn lemma_pow256_step(n: int)
    requires
        0 <= n < 8,
    ensures
        pow256(n + 1) == pow256(n) * 256,
        pow256(n + 1) <= 0x10000000000000000,
{
    reveal_with_fuel(pow256, 9);
}

/// What the receiver did with one inbound chunk.
pub enum Received {
    /// The session has no public key: disconnect it.
    Disconnect,
    /// The chunk was discarded (too short, too large, or its message timed out).
    Dropped,
    /// The chunk was kept; `restart_timer` when it began a new message.
    Buffered { restart_timer: bool },
    /// The chunk ended a message, whose whole data is `data`, received on session
    /// `session_id` from peer `peer_id`.
    Complete { session_id: u64, peer_id: Vec<u8>, data: Vec<u8>, restart_timer: bool },
}

/// The mathematical content of [`Received`].
pub enum ReceivedView {
    Disconnect,
    Dropped,
    Buffered(bool),
    Complete(Seq<u8>, bool),
}

impl Received {
    pub open spec fn view(&self) -> ReceivedView {
        match self {
            Received::Disconnect => ReceivedView::Disconnect,
            Received::Dropped => ReceivedView::Dropped,
            Received::Buffered { restart_timer } => ReceivedView::Buffered(*restart_timer),
            Received::Complete { data, restart_timer, .. } => ReceivedView::Complete(data@, *restart_timer),
        }
    }
}

/// Receiver state: the sequence number being collected and the data collected so far.
pub struct TransmitterProtocol {
    max_chunk_size: usize,
    current_data_seq: u64,
    data_buf: Vec<u8>,
}

/// One step of the receiver: from state (`seq`, `buf`) and a chunk `bytes`, the new
/// state and what happened.  `has_key` tells whether the session has a public key,
/// `timed_out` whether the message being collected has waited too long.
pub open spec fn receive_step(
    seq: u64,
    buf: Seq<u8>,
    max: nat,
    has_key: bool,
    bytes: Seq<u8>,
    timed_out: bool,
) -> (u64, Seq<u8>, ReceivedView) {
    if !has_key {
        (seq, buf, ReceivedView::Disconnect)
    } else if bytes.len() < MIN_CHUNK_LEN {
        (seq, buf, ReceivedView::Dropped)
    } else if chunk_data(bytes).len() > max {
        (seq, buf, ReceivedView::Dropped)
    } else if chunk_seq(bytes) == seq {
        if timed_out {
            (seq, Seq::empty(), ReceivedView::Dropped)
        } else if !chunk_eof(bytes) {
            (seq, buf + chunk_data(bytes), ReceivedView::Buffered(false))
        } else {
            (seq, Seq::empty(), ReceivedView::Complete(buf + chunk_data(bytes), false))
        }
    } else if !chunk_eof(bytes) {
        (chunk_seq(bytes) as u64, chunk_data(bytes), ReceivedView::Buffered(true))
    } else {
        (chunk_seq(bytes) as u64, Seq::empty(), ReceivedView::Complete(chunk_data(bytes), true))
    }
}

impl TransmitterProtocol {
    pub closed spec fn max(&self) -> usize {
        self.max_chunk_size
    }

    pub closed spec fn seq(&self) -> u64 {
        self.current_data_seq
    }

    pub closed spec fn buffered(&self) -> Seq<u8> {
        self.data_buf@
    }

    pub fn new(max_chunk_size: usize) -> (r: Self)
        ensures
            r.max() == max_chunk_size,
            r.seq() == 0,
            r.buffered() == Seq::<u8>::empty(),
    {
        TransmitterProtocol { max_chunk_size, current_data_seq: 0, data_buf: Vec::new() }
    }

    /// Handles one inbound chunk, received on session `session_id` from the peer
    /// with id `peer_id` (none when the session has no public key).  A completed
    /// message is handed on with the session and the peer it came from.
    pub fn received(&mut self, session_id: u64, peer_id: Option<Vec<u8>>, bytes: &[u8], timed_out: bool) -> (r: Received)
        ensures
            final(self).max() == old(self).max(),
            (final(self).seq(), final(self).buffered(), r@) == receive_step(
                old(self).seq(),
                old(self).buffered(),
                old(self).max() as nat,
                peer_id is Some,
                bytes@,
                timed_out,
            ),
            r matches Received::Complete { session_id: sid, peer_id: pid, .. } ==> sid == session_id && peer_id == Some(pid),
    {
        let peer_id = match peer_id {
            Some(p) => p,
            None => {
                return Received::Disconnect;
            },
        };
        if bytes.len() < MIN_CHUNK_LEN {
            return Received::Dropped;
        }
        let SeqChunkMessage { seq, eof, data } = SeqChunkMessage::decode(bytes);
        if data.len() > self.max_chunk_size {
            return Received::Dropped;
        }
        let mut restart_timer = false;
        if seq == self.current_data_seq {
            if timed_out {
                self.data_buf = Vec::new();
                return Received::Dropped;
            }
            let mut k: usize = 0;
            let ghost before = self.data_buf@;
            while k < data.len()
                invariant
                    k <= data@.len(),
                    self.data_buf@ == before + data@.subrange(0, k as int),
                    self.max_chunk_size == old(self).max_chunk_size,
                    self.current_data_seq == old(self).current_data_seq,
                decreases data@.len() - k,
            {
                self.data_buf.push(data[k]);
                k = k + 1;
                assert(self.data_buf@ =~= before + data@.subrange(0, k as int));
            }
            assert(data@.subrange(0, data@.len() as int) =~= data@);
        } else {
            self.current_data_seq = seq;
            self.data_buf = data;
            restart_timer = true;
        }
        if !eof {
            return Received::Buffered { restart_timer };
        }
        let mut data: Vec<u8> = Vec::new();
        std::mem::swap(&mut data, &mut self.data_buf);
        Received::Complete { session_id, peer_id, data, restart_timer }
    }
}

/// Feeds `chunks` in order to a receiver in state (`seq`, `buf`), from a session with
/// a public key and with no timeout; the final state and the last outcome.
pub open spec fn feed(seq: u64, buf: Seq<u8>, max: nat, chunks: Seq<Seq<u8>>) -> (u64, Seq<u8>, Option<ReceivedView>)
    decreases chunks.len(),
{
    if chunks.len() == 0 {
        (seq, buf, None)
    } else {
        let (s, b, _) = feed(seq, buf, max, chunks.drop_last());
        let (s2, b2, out) = receive_step(s, b, max, true, chunks.last(), false);
        (s2, b2, Some(out))
    }
}

/// The data of `chunks`, concatenated in order.
pub open spec fn joined(chunks: Seq<Seq<u8>>) -> Seq<u8>
    decreases chunks.len(),
{
    if chunks.len() == 0 {
        Seq::empty()
    } else {
        joined(chunks.drop_last()) + chunk_data(chunks.last())
    }
}

/// The chunks of one message with sequence number `s`: each well formed and within
/// `max`, only the last one marked as the end.
pub open spec fn message_chunks(chunks: Seq<Seq<u8>>, s: u64, max: nat) -> bool {
    &&& chunks.len() > 0
    &&& forall|i: int|
        0 <= i < chunks.len() ==> {
            &&& (#[trigger] chunks[i]).len() >= MIN_CHUNK_LEN
            &&& chunk_seq(chunks[i]) == s as int
            &&& chunk_data(chunks[i]).len() <= max
            &&& (chunk_eof(chunks[i]) <==> i == chunks.len() - 1)
        }
}

proof fn lemma_prefix_buffered(seq0: u64, buf0: Seq<u8>, max: nat, s: u64, chunks: Seq<Seq<u8>>, k: int)
    requires
        message_chunks(chunks, s, max),
        s != seq0,
        1 <= k < chunks.len(),
    ensures
        feed(seq0, buf0, max, chunks.take(k)) == (s, joined(chunks.take(k)), Some(ReceivedView::Buffered(k == 1))),
    decreases k,
{
    let pre = chunks.take(k);
    let c = chunks[k - 1];
    assert(pre.drop_last() =~= chunks.take(k - 1));
    assert(pre.last() == c);
    assert(c.len() >= MIN_CHUNK_LEN && chunk_seq(c) == s as int && chunk_data(c).len() <= max && !chunk_eof(c));
    if k == 1 {
        let empty = chunks.take(0);
        assert(empty =~= Seq::<Seq<u8>>::empty());
        assert(feed(seq0, buf0, max, empty) == (seq0, buf0, None::<ReceivedView>));
        assert(joined(empty) =~= Seq::<u8>::empty());
        assert(joined(pre) == joined(empty) + chunk_data(c));
        assert(Seq::<u8>::empty() + chunk_data(c) =~= chunk_data(c));
        assert(receive_step(seq0, buf0, max, true, c, false) == (s, chunk_data(c), ReceivedView::Buffered(true)));
    } else {
        lemma_prefix_buffered(seq0, buf0, max, s, chunks, k - 1);
        let prev = chunks.take(k - 1);
        assert(feed(seq0, buf0, max, prev) == (s, joined(prev), Some(ReceivedView::Buffered(k - 1 == 1))));
        assert(joined(pre) == joined(prev) + chunk_data(c));
        assert(receive_step(s, joined(prev), max, true, c, false) == (s, joined(prev) + chunk_data(c), ReceivedView::Buffered(false)));
    }
}

/// Reassembly: the chunks of one message, fed in order to a receiver that is not
/// collecting that sequence number, are buffered until the last one, which hands
/// on the whole message (their data concatenated) and leaves the buffer empty.
pub proof fn lemma_chunks_reassemble(seq0: u64, buf0: Seq<u8>, max: nat, s: u64, chunks: Seq<Seq<u8>>)
    requires
        message_chunks(chunks, s, max),
        s != seq0,
    ensures
        feed(seq0, buf0, max, chunks) == (
            s,
            Seq::<u8>::empty(),
            Some(ReceivedView::Complete(joined(chunks), chunks.len() == 1)),
        ),
{
    let n = chunks.len() as int;
    let c = chunks[n - 1];
    let prev = chunks.take(n - 1);
    assert(chunks.drop_last() =~= prev);
    assert(chunks.last() == c);
    assert(c.len() >= MIN_CHUNK_LEN && chunk_seq(c) == s as int && chunk_data(c).len() <= max && chunk_eof(c));
    assert(joined(chunks) == joined(prev) + chunk_data(c));
    if n == 1 {
        assert(prev =~= Seq::<Seq<u8>>::empty());
        assert(feed(seq0, buf0, max, prev) == (seq0, buf0, None::<ReceivedView>));
        assert(joined(prev) =~= Seq::<u8>::empty());
        assert(Seq::<u8>::empty() + chunk_data(c) =~= chunk_data(c));
        assert(receive_step(seq0, buf0, max, true, c, false) == (s, Seq::<u8>::empty(), ReceivedView::Complete(chunk_data(c), true)));
    } else {
        lemma_prefix_buffered(seq0, buf0, max, s, chunks, n - 1);
        assert(feed(seq0, buf0, max, prev) == (s, joined(prev), Some(ReceivedView::Buffered(n - 1 == 1))));
        assert(receive_step(s, joined(prev), max, true, c, false) == (s, Seq::<u8>::empty(), ReceivedView::Complete(joined(prev) + chunk_data(c), false)));
    }
}

/// The timeout only concerns the message being collected: a well-formed chunk with
/// another sequence number starts a new message whether or not the timer has run
/// out.  It becomes the whole buffer (and restarts the timer), or, when marked as
/// the end, is handed on at once as the whole message.
pub proof fn lemma_new_sequence_ignores_timeout(
    seq: u64,
    buf: Seq<u8>,
    max: nat,
    bytes: Seq<u8>,
    timed_out: bool,
)
    requires
        bytes.len() >= MIN_CHUNK_LEN,
        bytes.subrange(9, bytes.len() as int).len() <= max,
        be_u64_at(bytes, 0) != seq,
    ensures
        receive_step(seq, buf, max, true, bytes, timed_out) == (if bytes[8] != 0 {
            (be_u64_at(bytes, 0) as u64, Seq::<u8>::empty(), ReceivedView::Complete(bytes.subrange(9, bytes.len() as int), true))
        } else {
            (be_u64_at(bytes, 0) as u64, bytes.subrange(9, bytes.len() as int), ReceivedView::Buffered(true))
        }),
        receive_step(seq, buf, max, true, bytes, timed_out) == receive_step(seq, buf, max, true, bytes, !timed_out),
{
}

/// A timed-out message is given up: a chunk of the sequence number being collected,
/// arriving after the timeout, is dropped, the data collected so far is discarded,
/// and the sequence number stays.
pub proof fn lemma_timed_out_message_dropped(seq: u64, buf: Seq<u8>, max: nat, bytes: Seq<u8>)
    requires
        bytes.len() >= MIN_CHUNK_LEN,
        bytes.subrange(9, bytes.len() as int).len() <= max,
        be_u64_at(bytes, 0) == seq,
    ensures
        receive_step(seq, buf, max, true, bytes, true) == (seq, Seq::<u8>::empty(), ReceivedView::Dropped),
{
}

} // verus!
