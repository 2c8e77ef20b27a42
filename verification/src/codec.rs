//! Codecs and the parameters under which they were negotiated.

use crate::ids::Pt;
use vstd::prelude::*;

verus! {

/// Known codecs.
#[derive(Debug, Clone, Copy, PartialEq, Eq, Hash, Structural)]
pub enum Codec {
    Opus,
    H264,
    H265,
    Vp8,
    Vp9,
    Av1,
    /// Resends of another codec's packets.
    Rtx,
    Unknown,
}

impl Codec {
    /// Whether the codec carries audio.
    pub open spec fn audio(self) -> bool {
        self is Opus
    }

    pub fn is_audio(self) -> (r: bool)
        ensures
            r == self.audio(),
    {
        match self {
            Codec::Opus => true,
            _ => false,
        }
    }
}

/// Codec specific format parameters.
#[derive(Debug, Clone, Copy, PartialEq, Eq, Hash)]
pub struct FormatParams {
    pub min_p_time: Option<u8>,
    pub use_inband_fec: Option<bool>,
    pub level_asymmetry_allowed: Option<bool>,
    pub packetization_mode: Option<u8>,
    pub profile_level_id: Option<u32>,
    pub profile_id: Option<u32>,
}

/// A codec with the payload type it is sent under.
#[derive(Debug, Clone, Copy, PartialEq, Eq, Hash)]
pub struct CodecParams {
    pub pt: Pt,
    pub codec: Codec,
    pub clock_rate: u32,
    pub channels: Option<u8>,
    pub fmtp: FormatParams,
    /// Payload type of the resends of this codec's packets.
    pub resend: Option<Pt>,
}

} // verus!
