//! The p2p service's errors, outbound messages and protocol table.
use vstd::prelude::*;
use vstd::string::*;
use crate::text::str_eq;

verus! {

#[derive(Debug, Clone, Copy, PartialEq, Eq, Structural)]
pub enum Error {
    NoListen,
    Shutdown,
    Busy,
}

/// Why the transport refused to queue a message.
#[derive(Debug, Clone, Copy, PartialEq, Eq, Structural)]
pub enum SendErrorKind {
    BrokenPipe,
    WouldBlock,
}

impl From<SendErrorKind> for Error {
    /// A broken pipe means the service shut down; a full queue means it is busy.
    fn from(err: SendErrorKind) -> (r: Error) {
        match err {
            SendErrorKind::BrokenPipe => Error::Shutdown,
            SendErrorKind::WouldBlock => Error::Busy,
        }
    }
}

impl vstd::std_specs::convert::FromSpecImpl<SendErrorKind> for Error {
    open spec fn obeys_from_spec() -> bool {
        true
    }

    open spec fn from_spec(err: SendErrorKind) -> Error {
        match err {
            SendErrorKind::BrokenPipe => Error::Shutdown,
            SendErrorKind::WouldBlock => Error::Busy,
        }
    }
}

/// A protocol was registered under a name already in use.
#[derive(Debug, Clone, Copy, PartialEq, Eq)]
pub struct ProtocolReplaced(pub &'static str);

/// Which sessions a message goes to.
#[derive(Debug, Clone, PartialEq, Eq)]
pub enum TargetSession {
    All,
    Single(u64),
    Multi(Vec<u64>),
}

/// How urgently a message is sent.
#[derive(Debug, Clone, Copy, PartialEq, Eq, Structural)]
pub enum Priority {
    High,
    Normal,
}

/// How the transport is asked to send a message.
#[derive(Debug, Clone, Copy, PartialEq, Eq, Structural)]
pub enum SendMode {
    /// Ahead of queued messages.
    Quick,
    /// Behind queued messages.
    Queued,
}

/// High-priority messages jump the queue.
pub fn send_mode(priority: Priority) -> (r: SendMode)
    ensures
        r == (if priority == Priority::High { SendMode::Quick } else { SendMode::Queued }),
{
    match priority {
        Priority::High => SendMode::Quick,
        Priority::Normal => SendMode::Queued,
    }
}

/// A message to send on a protocol.
#[derive(Debug, Clone)]
pub struct Message {
    pub recipients: TargetSession,
    pub protocol_id: u64,
    pub content: Vec<u8>,
}

impl Message {
    pub fn new(recipients: TargetSession, protocol_id: u64, content: Vec<u8>) -> (r: Self)
        ensures
            r.recipients == recipients,
            r.protocol_id == protocol_id,
            r.content == content,
    {
        Message { recipients, protocol_id, content }
    }
}

/// Sending needs a running service: without one the answer is [`Error::NoListen`].
pub fn require_listening(listening: bool) -> (r: Result<(), Error>)
    ensures
        r == (if listening { Ok::<(), Error>(()) } else { Err(Error::NoListen) }),
{
    if listening {
        Ok(())
    } else {
        Err(Error::NoListen)
    }
}

/// Registered protocols by name, each with its protocol id.
pub struct ProtocolBook {
    entries: Vec<(&'static str, u64)>,
}

/// The id registered under `name`, if any.
pub open spec fn protocol_get(entries: Seq<(Seq<u8>, u64)>, name: Seq<u8>) -> Option<u64> {
    if exists|i: int| 0 <= i < entries.len() && entries[i].0 == name {
        let i = choose|i: int| 0 <= i < entries.len() && entries[i].0 == name;
        Some(entries[i].1)
    } else {
        None
    }
}

impl ProtocolBook {
    pub closed spec fn view(&self) -> Seq<(Seq<u8>, u64)> {
        self.entries@.map_values(|e: (&'static str, u64)| (e.0.spec_bytes(), e.1))
    }

    /// No name is registered twice.
    pub open spec fn wf(&self) -> bool {
        forall|i: int, j: int|
            0 <= i < j < self@.len() ==> #[trigger] self@[i].0 != #[trigger] self@[j].0
    }

    pub fn new() -> (r: Self)
        ensures
            r@ == Seq::<(Seq<u8>, u64)>::empty(),
            r.wf(),
    {
        let r = ProtocolBook { entries: Vec::new() };
        assert(r@ =~= Seq::<(Seq<u8>, u64)>::empty());
        r
    }

    fn position(&self, name: &str) -> (r: Option<usize>)
        requires
            self.wf(),
        ensures
            r is None <==> protocol_get(self@, name.spec_bytes()) is None,
            r matches Some(i) ==> i < self@.len() && self@[i as int].0 == name.spec_bytes()
                && protocol_get(self@, name.spec_bytes()) == Some(self@[i as int].1),
    {
        let mut i: usize = 0;
        while i < self.entries.len()
            invariant
                i <= self.entries@.len(),
                self.wf(),
                self@.len() == self.entries@.len(),
                forall|j: int| 0 <= j < i ==> self@[j].0 != name.spec_bytes(),
            decreases self.entries@.len() - i,
        {
            let (e, id) = self.entries[i];
            assert(self@[i as int] == (e.spec_bytes(), id));
            if str_eq(e, name) {
                proof {
                    let k = choose|k: int| 0 <= k < self@.len() && self@[k].0 == name.spec_bytes();
                    if k < i {
                        assert(self@[k].0 != self@[i as int].0);
                    } else if k > i {
                        assert(self@[i as int].0 != self@[k].0);
                    }
                }
                return Some(i);
            }
            i = i + 1;
        }
        None
    }

    /// The protocol id registered under `name`.
    pub fn get(&self, name: &str) -> (r: Option<u64>)
        requires
            self.wf(),
        ensures
            r == protocol_get(self@, name.spec_bytes()),
    {
        match self.position(name) {
            Some(i) => Some(self.entries[i].1),
            None => None,
        }
    }

    /// Registers protocol `id` under `name`, replacing any protocol registered under
    /// that name; a replacement is reported.
    pub fn register(&mut self, name: &'static str, id: u64) -> (r: Option<ProtocolReplaced>)
        requires
            old(self).wf(),
        ensures
            final(self).wf(),
            protocol_get(final(self)@, name.spec_bytes()) == Some(id),
            forall|other: Seq<u8>| other != name.spec_bytes() ==>
                protocol_get(#[trigger] final(self)@, other) == protocol_get(old(self)@, other),
            r == (if protocol_get(old(self)@, name.spec_bytes()) is Some {
                Some(ProtocolReplaced(name))
            } else {
                None
            }),
    {
        let ghost before = self@;
        match self.position(name) {
            Some(i) => {
                self.entries.set(i, (name, id));
                proof {
                    assert(self@ =~= before.update(i as int, (name.spec_bytes(), id)));
                    assert forall|a: int, b: int| 0 <= a < b < self@.len() implies #[trigger] self@[a].0 != #[trigger] self@[b].0 by {
                        assert(before[a].0 != before[b].0);
                    }
                    assert(self@[i as int].0 == name.spec_bytes());
                    let k = choose|k: int| 0 <= k < self@.len() && self@[k].0 == name.spec_bytes();
                    if k < i {
                        assert(self@[k].0 != self@[i as int].0);
                    } else if k > i {
                        assert(self@[i as int].0 != self@[k].0);
                    }
                    assert forall|other: Seq<u8>| other != name.spec_bytes() implies
                        protocol_get(#[trigger] self@, other) == protocol_get(before, other) by {
                        if exists|j: int| 0 <= j < before.len() && before[j].0 == other {
                            let j = choose|j: int| 0 <= j < before.len() && before[j].0 == other;
                            assert(self@[j].0 == other);
                            let k2 = choose|k: int| 0 <= k < self@.len() && self@[k].0 == other;
                            assert(before[k2].0 == other);
                            if k2 < j {
                                assert(before[k2].0 != before[j].0);
                            } else if k2 > j {
                                assert(before[j].0 != before[k2].0);
                            }
                        } else {
                            assert forall|j: int| 0 <= j < self@.len() implies self@[j].0 != other by {
                                if j != i {
                                    assert(before[j].0 != other);
                                }
                            }
                        }
                    }
                }
                Some(ProtocolReplaced(name))
            },
            None => {
                self.entries.push((name, id));
                proof {
                    assert(self@ =~= before.push((name.spec_bytes(), id)));
                    assert forall|j: int| 0 <= j < before.len() implies before[j].0 != name.spec_bytes() by {
                        if before[j].0 == name.spec_bytes() {
                            assert(protocol_get(before, name.spec_bytes()) is Some);
                        }
                    }
                    assert(self@[before.len() as int].0 == name.spec_bytes());
                    let k = choose|k: int| 0 <= k < self@.len() && self@[k].0 == name.spec_bytes();
                    if k < before.len() {
                        assert(before[k].0 == name.spec_bytes());
                    }
                    assert forall|other: Seq<u8>| other != name.spec_bytes() implies
                        protocol_get(#[trigger] self@, other) == protocol_get(before, other) by {
                        if exists|j: int| 0 <= j < before.len() && before[j].0 == other {
                            let j = choose|j: int| 0 <= j < before.len() && before[j].0 == other;
                            assert(self@[j].0 == other);
                            let k2 = choose|k: int| 0 <= k < self@.len() && self@[k].0 == other;
                            assert(k2 < before.len());
                            assert(before[k2].0 == other);
                            if k2 < j {
                                assert(before[k2].0 != before[j].0);
                            } else if k2 > j {
                                assert(before[j].0 != before[k2].0);
                            }
                        } else {
                            assert forall|j: int| 0 <= j < self@.len() implies self@[j].0 != other by {
                                if j < before.len() {
                                    assert(before[j].0 != other);
                                }
                            }
                        }
                    }
                }
                None
            },
        }
    }
}

} // verus!
