//! What a session description says of an m-line.

use crate::codec::CodecParams;
use crate::direction::Direction;
use crate::ext::ExtMap;
use crate::ids::{Mid, Rid, Ssrc};
use crate::media::MediaKind;
use vstd::prelude::*;

verus! {

/// Types of m-lines.
#[derive(Debug, Clone, Copy, PartialEq, Eq, Hash, Structural)]
pub enum MediaType {
    Audio,
    Video,
    Application,
    Unknown,
}

/// "Stream and track" identifiers.
#[derive(Debug)]
pub struct Msid {
    pub stream_id: String,
    pub track_id: String,
}

/// Model of [`Msid`].
#[verifier::ext_equal]
pub ghost struct MsidModel {
    pub stream_id: Seq<char>,
    pub track_id: Seq<char>,
}

impl View for Msid {
    type V = MsidModel;

    open spec fn view(&self) -> MsidModel {
        MsidModel { stream_id: self.stream_id@, track_id: self.track_id@ }
    }
}

/// Encodings that are sent and received side by side.
#[derive(Debug)]
pub struct Simulcast {
    pub send: Vec<Rid>,
    pub recv: Vec<Rid>,
}

/// Model of [`Simulcast`].
#[verifier::ext_equal]
pub ghost struct SimulcastModel {
    pub send: Seq<Rid>,
    pub recv: Seq<Rid>,
}

impl View for Simulcast {
    type V = SimulcastModel;

    open spec fn view(&self) -> SimulcastModel {
        SimulcastModel { send: self.send@, recv: self.recv@ }
    }
}

/// An SSRC that the other side announces, and the SSRC whose packets it resends.
#[derive(Debug, Clone, Copy, PartialEq, Eq, Hash)]
pub struct SsrcInfo {
    pub ssrc: Ssrc,
    pub repair: Option<Ssrc>,
}

/// An m-line of the other side's description.
#[derive(Debug)]
pub struct MediaLine {
    pub mid: Mid,
    pub typ: MediaType,
    /// Direction as the other side sees it.
    pub dir: Direction,
    pub rtp_params: Vec<CodecParams>,
    pub extmaps: Vec<ExtMap>,
    pub ssrc_info: Vec<SsrcInfo>,
}

/// An m-line that is yet to be offered to the other side.
#[derive(Debug)]
pub struct AddMedia {
    pub mid: Mid,
    pub cname: String,
    pub msid: Msid,
    pub kind: MediaKind,
    pub dir: Direction,
    pub params: Vec<CodecParams>,
    pub index: usize,
    /// The SSRCs to send under, each with the SSRC whose packets it resends.
    pub ssrcs: Vec<(Ssrc, Option<Ssrc>)>,
}

} // verus!
