//! Latency measurement: when the sender pauses between batches, what the receiver
//! records for each message, and which inbound connections it accepts.
use vstd::prelude::*;
use crate::message::Candy;
use crate::payload::{Payload, is_payload_size, payload_of_size};
use crate::statistics::{Statistics, record};
use crate::text::str_eq;
use vstd::string::*;
use vstd::utf8::encode_utf8_decode_utf8;

verus! {

pub const END_GOSSIP_TEST_PAYLOAD: &'static str = "/gossip/benchmark/measure_latency";

/// The network stack under measurement.
#[derive(Debug, Clone, Copy, PartialEq, Eq, Structural)]
pub enum Target {
    Tentacle,
    CoreNetwork,
    Tokio,
}

/// The target named `s`, if any.
pub open spec fn target_named(s: Seq<char>) -> Option<Target> {
    if s == "tentacle"@ {
        Some(Target::Tentacle)
    } else if s == "core_network"@ {
        Some(Target::CoreNetwork)
    } else if s == "tokio"@ {
        Some(Target::Tokio)
    } else {
        None
    }
}

impl Target {
    /// Parses a target name: `tentacle`, `core_network` or `tokio`.
    pub fn from_str(s: &str) -> (r: Result<Target, ()>)
        ensures
            r == (match target_named(s@) {
                Some(t) => Ok::<Target, ()>(t),
                None => Err(()),
            }),
    {
        proof {
            encode_utf8_decode_utf8(s@);
            encode_utf8_decode_utf8("tentacle"@);
            encode_utf8_decode_utf8("core_network"@);
            encode_utf8_decode_utf8("tokio"@);
        }
        if str_eq(s, "tentacle") {
            Ok(Target::Tentacle)
        } else if str_eq(s, "core_network") {
            Ok(Target::CoreNetwork)
        } else if str_eq(s, "tokio") {
            Ok(Target::Tokio)
        } else {
            Err(())
        }
    }
}

/// Whether the sender pauses before its `k`-th message (counting from zero) when
/// sending `total` messages in batches of `batch`: it pauses whenever the number of
/// messages still to send is a multiple of the batch size.
pub open spec fn pauses_before(total: int, batch: int, k: int) -> bool {
    (total - k) % (if batch < 0 { -batch } else { batch }) == 0
}

/// The pause decisions for each of the `total` messages of one payload.
pub fn gossip_pauses(total_packets: isize, packet_batch: isize) -> (r: Vec<bool>)
    requires
        total_packets > 0 ==> packet_batch != 0,
    ensures
        r@.len() == (if total_packets > 0 { total_packets as int } else { 0 }),
        forall|k: int| 0 <= k < r@.len() ==> #[trigger] r@[k] == pauses_before(total_packets as int, packet_batch as int, k),
{
    let mut out: Vec<bool> = Vec::new();
    if total_packets <= 0 {
        return out;
    }
    let step: u64 = if packet_batch < 0 { (0i128 - packet_batch as i128) as u64 } else { packet_batch as u64 };
    let mut countdown: isize = total_packets;
    while countdown > 0
        invariant
            0 <= countdown <= total_packets,
            step as int == (if packet_batch < 0 { -(packet_batch as int) } else { packet_batch as int }),
            step > 0,
            out@.len() == total_packets - countdown,
            forall|k: int| 0 <= k < out@.len() ==> #[trigger] out@[k] == pauses_before(total_packets as int, packet_batch as int, k),
        decreases countdown,
    {
        let c = countdown as u64;
        let pause = c % step == 0;
        proof {
            let k = out@.len() as int;
            assert(total_packets - k == countdown);
        }
        out.push(pause);
        countdown = countdown - 1;
    }
    out
}

/// Records a received measurement message, sent at `candy.timestamp` and received
/// at `now`: its latency goes to its sender and payload.  The message's size must
/// be a payload size and it must not be received before it was sent.
pub fn record_candy(statistics: &mut Statistics, candy: &Candy, now: u128)
    requires
        old(statistics).wf(),
        is_payload_size(candy.size),
        candy.timestamp <= now,
    ensures
        final(statistics).wf(),
        final(statistics)@ == record(old(statistics)@, candy.identity@, payload_of_size(candy.size), (now - candy.timestamp) as u128),
{
    let payload = Payload::from_size(candy.size);
    let latency = now - candy.timestamp;
    let identity = crate::message::Identity { name: candy.identity.name.clone(), hash: candy.identity.hash.clone() };
    statistics.insert(identity, payload, latency);
}

/// An IP address of a remote peer.
#[derive(Debug, Clone, Copy, PartialEq, Eq, Structural)]
pub enum IpAddr {
    V4(u32),
    V6(u128),
}

/// Whether a connection from `peer` is accepted when the addresses in `seen` were
/// accepted before: always when the remote address is unknown, otherwise when it
/// is new.
pub open spec fn accepts(seen: Set<IpAddr>, peer: Option<IpAddr>) -> bool {
    match peer {
        None => true,
        Some(ip) => !seen.contains(ip),
    }
}

/// The accepted addresses after a connection from `peer` arrives.
pub open spec fn seen_after(seen: Set<IpAddr>, peer: Option<IpAddr>) -> Set<IpAddr> {
    match peer {
        None => seen,
        Some(ip) => seen.insert(ip),
    }
}

/// Accepts at most one inbound connection per remote IP address.
pub struct IncomingFilter {
    in_addrs: Vec<IpAddr>,
}

impl IncomingFilter {
    /// The addresses already accepted.
    pub closed spec fn seen(&self) -> Set<IpAddr> {
        self.in_addrs@.to_set()
    }

    pub fn new() -> (r: Self)
        ensures
            r.seen() == Set::<IpAddr>::empty(),
    {
        let r = IncomingFilter { in_addrs: Vec::new() };
        assert(r.seen() =~= Set::<IpAddr>::empty());
        r
    }

    /// Whether to accept a connection from `peer` (`None` when the remote address
    /// is unknown, which is accepted without being remembered).
    pub fn accept(&mut self, peer: Option<IpAddr>) -> (accept: bool)
        ensures
            accept == accepts(old(self).seen(), peer),
            final(self).seen() == seen_after(old(self).seen(), peer),
    {
        match peer {
            None => true,
            Some(ip) => {
                if self.contains(ip) {
                    proof {
                        assert(self.seen().insert(ip) =~= self.seen());
                    }
                    return false;
                }
                let ghost before = self.in_addrs@;
                self.in_addrs.push(ip);
                proof {
                    assert(self.in_addrs@ == before.push(ip));
                    assert forall|x: IpAddr| #[trigger] self.seen().contains(x) <==> before.to_set().insert(ip).contains(x) by {
                        if x == ip {
                            assert(self.in_addrs@[before.len() as int] == ip);
                        } else if before.contains(x) {
                            let j = choose|j: int| 0 <= j < before.len() && before[j] == x;
                            assert(self.in_addrs@[j] == x);
                        } else if self.in_addrs@.contains(x) {
                            let j = choose|j: int| 0 <= j < self.in_addrs@.len() && self.in_addrs@[j] == x;
                            assert(before[j] == x);
                        }
                    }
                    assert(self.seen() =~= before.to_set().insert(ip));
                }
                true
            },
        }
    }

    fn contains(&self, ip: IpAddr) -> (r: bool)
        ensures
            r == self.seen().contains(ip),
    {
        let mut i: usize = 0;
        while i < self.in_addrs.len()
            invariant
                i <= self.in_addrs@.len(),
                forall|j: int| 0 <= j < i ==> self.in_addrs@[j] != ip,
            decreases self.in_addrs@.len() - i,
        {
            if self.in_addrs[i] == ip {
                assert(self.in_addrs@[i as int] == ip);
                assert(self.seen().contains(ip));
                return true;
            }
            i = i + 1;
        }
        assert(!self.in_addrs@.contains(ip));
        false
    }
}

/// No address is accepted twice: once a connection from an address has arrived,
/// every later connection from it is refused, whatever arrived in between.
pub proof fn lemma_accepted_once(seen: Set<IpAddr>, ip: IpAddr, between: Seq<Option<IpAddr>>)
    ensures
        !accepts(seen_after_all(seen_after(seen, Some(ip)), between), Some(ip)),
    decreases between.len(),
{
    if between.len() > 0 {
        lemma_accepted_once(seen, ip, between.drop_last());
    }
}

/// The accepted addresses after connections from each of `peers`, in order.
pub open spec fn seen_after_all(seen: Set<IpAddr>, peers: Seq<Option<IpAddr>>) -> Set<IpAddr>
    decreases peers.len(),
{
    if peers.len() == 0 {
        seen
    } else {
        seen_after(seen_after_all(seen, peers.drop_last()), peers.last())
    }
}

} // verus!
