//! Identifiers and numbers that travel with the packets of a session.

use vstd::prelude::*;

verus! {

/// Synchronization source: the number of one stream of RTP packets.
#[derive(Debug, Clone, Copy, PartialEq, Eq, Hash, Structural)]
pub struct Ssrc(pub u32);

/// Payload type: the number under which a codec was negotiated.
#[derive(Debug, Clone, Copy, PartialEq, Eq, Hash, Structural)]
pub struct Pt(pub u8);

/// Identifier of an m-line, its ASCII bytes packed into one number.
#[derive(Debug, Clone, Copy, PartialEq, Eq, Hash, Structural)]
pub struct Mid(pub u128);

/// Identifier of one encoding (simulcast layer), its ASCII bytes packed into one number.
#[derive(Debug, Clone, Copy, PartialEq, Eq, Hash, Structural)]
pub struct Rid(pub u64);

/// Sequence number of an RTP packet, lengthened from the 16 bits on the wire.
#[derive(Debug, Clone, Copy, PartialEq, Eq, Hash, Structural)]
pub struct SeqNo(pub u64);

/// Media time as a fraction of a second: `numer / denom`.
#[derive(Debug, Clone, Copy, PartialEq, Eq, Hash, Structural)]
pub struct MediaTime {
    pub numer: i64,
    pub denom: i64,
}

impl SeqNo {
    /// The number after `self`. The numbers go round at the end of their range, which is a
    /// multiple of the range on the wire.
    pub open spec fn next_spec(self) -> SeqNo {
        if self.0 == u64::MAX {
            SeqNo(0)
        } else {
            SeqNo((self.0 + 1) as u64)
        }
    }

    /// The number after `self`.
    pub fn next(self) -> (n: SeqNo)
        ensures
            n == self.next_spec(),
    {
        if self.0 == u64::MAX {
            SeqNo(0)
        } else {
            SeqNo(self.0 + 1)
        }
    }
}

} // verus!
