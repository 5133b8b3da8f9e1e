//! Captured frames and the outcome that every layer parser returns.
use vstd::prelude::*;

verus! {

/// The capture time of a frame, as the capture source reports it.
#[derive(Clone, Copy, Debug, PartialEq, Eq, Hash, PartialOrd, Ord, Default)]
pub struct Timestamp {
    /// Whole seconds since the Unix epoch.
    pub seconds: i64,
    /// Microseconds within the second.
    pub microseconds: u32,
}

/// A captured link-layer frame, owned, together with its capture time.
#[derive(Debug)]
pub struct OwnedPacket {
    pub timestamp: Timestamp,
    pub data: Vec<u8>,
}

/// What a layer parser made of a byte window: the header and the bytes after it, or why
/// no header was taken.
#[derive(Debug)]
pub enum PacketDissection<'a, H> {
    /// The header was read; `rest` holds the bytes that follow it.
    Success { header: H, rest: &'a [u8] },
    /// The window is shorter than the header says it must be.
    TooShort,
    /// The window holds some other kind of header.
    WrongType,
    /// The header's checksum does not verify.
    IncorrectChecksum,
}

} // verus!
