//! Protocol ids of the network's services: each registered service takes the next one.
use vstd::prelude::*;

verus! {

/// The source of protocol ids: 1 first, then counting up (wrapping after `u64::MAX`).
pub struct ProtocolIds {
    next: u64,
}

/// The id handed out after `id`.
pub open spec fn successor(id: u64) -> u64 {
    if id == u64::MAX {
        0
    } else {
        (id + 1) as u64
    }
}

impl ProtocolIds {
    /// The id that the next request gets.
    pub closed spec fn upcoming(&self) -> u64 {
        self.next
    }

    pub fn new() -> (r: Self)
        ensures
            r.upcoming() == 1,
    {
        ProtocolIds { next: 1 }
    }
}

/// Takes the next protocol id.
pub fn next_protocol_id(ids: &mut ProtocolIds) -> (r: u64)
    ensures
        r == old(ids).upcoming(),
        final(ids).upcoming() == successor(r),
{
    let r = ids.next;
    ids.next = ids.next.wrapping_add(1);
    r
}

/// Ids taken one after another differ, as long as fewer than 2^64 are taken.
pub proof fn lemma_successive_ids_differ(id: u64)
    ensures
        successor(id) != id,
        id < u64::MAX ==> successor(id) > id,
{
}

} // verus!
