//! Random bytes from the operating system.
use vstd::prelude::*;
use rand::RngCore;

verus! {

/// `rand::rngs::OsRng::try_fill_bytes` on `len` bytes: bytes from the operating
/// system's random source, or nothing when the source fails.  Nothing is stated of
/// the bytes but their number: they are random.
#[verifier::external_body]
pub(crate) fn os_random_bytes(len: usize) -> (r: Option<Vec<u8>>)
    ensures
        r matches Some(b) ==> b@.len() == len,
{
    let mut bytes = vec![0u8; len];
    match rand::rngs::OsRng.try_fill_bytes(&mut bytes) {
        Ok(()) => Some(bytes),
        Err(_) => None,
    }
}

} // verus!
