//! Errors of the media operations.

use crate::ids::{Mid, Pt};
use vstd::prelude::*;

verus! {

/// Why a sample could not be split into payloads, or payloads not be put together.
#[derive(Debug, PartialEq, Eq)]
pub struct PacketError {
    pub reason: String,
}

/// Errors of the media operations.
#[derive(Debug, PartialEq, Eq)]
pub enum RtcError {
    /// No receiver matches the request.
    NoReceiverSource,
    /// No sender matches the write.
    NoSenderSource,
    /// The payload type is not one of the m-line's codecs.
    UnknownPt(Pt),
    /// A sample of the m-line could not be packetized or depacketized.
    Packet(Mid, Pt, PacketError),
}

} // verus!
