//! Length and checksum header of a framed gossip packet.
use vstd::prelude::*;

verus! {

/// What part of a packet header is missing.
#[derive(Debug, Clone, Copy, PartialEq, Eq, Structural)]
pub enum Kind {
    HeaderNoLength,
    HeaderNoCrc,
}

/// Errors of the tokio gossip transport.
#[derive(Debug, Clone, Copy, PartialEq, Eq, Structural)]
pub enum TokioError {
    CorruptedHeader(Kind),
}

/// A packet: a big-endian `u32` length, a big-endian `u32` checksum, then the body.
pub struct Packet {
    pub length: u32,
    pub crc: u32,
    pub bytes: Vec<u8>,
}

/// The big-endian `u32` held by the four bytes of `s` starting at `start`.
pub open spec fn be_u32_at(s: Seq<u8>, start: int) -> int {
    s[start] * 0x1000000 + s[start + 1] * 0x10000 + s[start + 2] * 0x100 + s[start + 3]
}

fn read_be_u32(bytes: &[u8], start: usize) -> (r: u32)
    requires
        start + 4 <= bytes@.len(),
    ensures
        r as int == be_u32_at(bytes@, start as int),
{
    let b0 = bytes[start] as u32;
    let b1 = bytes[start + 1] as u32;
    let b2 = bytes[start + 2] as u32;
    let b3 = bytes[start + 3] as u32;
    b0 * 0x1000000 + b1 * 0x10000 + b2 * 0x100 + b3
}

impl Packet {
    /// The length field: the first four bytes, big-endian.
    pub fn length(bytes: &[u8]) -> (r: Result<u32, TokioError>)
        ensures
            bytes@.len() < 4 ==> r == Err::<u32, TokioError>(TokioError::CorruptedHeader(Kind::HeaderNoLength)),
            bytes@.len() >= 4 ==> (r matches Ok(v) && v as int == be_u32_at(bytes@, 0)),
    {
        if bytes.len() < 4 {
            return Err(TokioError::CorruptedHeader(Kind::HeaderNoLength));
        }
        Ok(read_be_u32(bytes, 0))
    }

    /// The checksum field: bytes four to eight, big-endian.
    pub fn crc32(bytes: &[u8]) -> (r: Result<u32, TokioError>)
        ensures
            bytes@.len() < 8 ==> r == Err::<u32, TokioError>(TokioError::CorruptedHeader(Kind::HeaderNoCrc)),
            bytes@.len() >= 8 ==> (r matches Ok(v) && v as int == be_u32_at(bytes@, 4)),
    {
        if bytes.len() < 8 {
            return Err(TokioError::CorruptedHeader(Kind::HeaderNoCrc));
        }
        Ok(read_be_u32(bytes, 4))
    }

    /// Checks that the packet's bytes hold a whole header: the length field, then
    /// the checksum field.
    pub fn verify(&self) -> (r: Result<(), TokioError>)
        ensures
            self.bytes@.len() < 4 ==> r == Err::<(), TokioError>(TokioError::CorruptedHeader(Kind::HeaderNoLength)),
            4 <= self.bytes@.len() < 8 ==> r == Err::<(), TokioError>(TokioError::CorruptedHeader(Kind::HeaderNoCrc)),
            self.bytes@.len() >= 8 ==> r == Ok::<(), TokioError>(()),
    {
        let _length = Packet::length(self.bytes.as_slice())?;
        let _crc32 = Packet::crc32(self.bytes.as_slice())?;
        Ok(())
    }
}

} // verus!
