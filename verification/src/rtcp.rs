//! RTCP messages: the feedback that goes out and the feedback that comes in.

use crate::ids::{SeqNo, Ssrc};
use vstd::prelude::*;

verus! {

/// What a sender says of itself in a sender report.
#[derive(Debug, Clone, Copy, PartialEq, Eq, Hash)]
pub struct SenderInfo {
    pub ssrc: Ssrc,
    pub ntp_time: u64,
    pub rtp_time: u32,
    pub sender_packet_count: u32,
    pub sender_octet_count: u32,
}

/// How one stream arrives.
#[derive(Debug, Clone, Copy, PartialEq, Eq, Hash)]
pub struct ReceptionReport {
    pub ssrc: Ssrc,
    pub fraction_lost: u8,
    pub packets_lost: u32,
    pub max_seq: u32,
    pub jitter: u32,
    pub last_sr_time: u32,
    pub last_sr_delay: u32,
}

/// A sender report.
#[derive(Debug, Clone, Copy, PartialEq, Eq, Hash)]
pub struct SenderReport {
    pub sender_info: SenderInfo,
}

/// A receiver report, sent in the name of `sender_ssrc`.
#[derive(Debug, Clone, Copy, PartialEq, Eq, Hash)]
pub struct ReceiverReport {
    pub sender_ssrc: Ssrc,
    pub report: ReceptionReport,
}

/// Kinds of source description values.
#[derive(Debug, Clone, Copy, PartialEq, Eq, Hash, Structural)]
pub enum SdesType {
    CNAME,
    NAME,
    EMAIL,
    PHONE,
    LOC,
    TOOL,
    NOTE,
    Unknown,
}

/// Description of a source.
#[derive(Debug, PartialEq, Eq)]
pub struct Sdes {
    pub ssrc: Ssrc,
    pub values: Vec<(SdesType, String)>,
}

/// Model of [`Sdes`].
pub ghost struct SdesModel {
    pub ssrc: Ssrc,
    pub values: Seq<(SdesType, Seq<char>)>,
}

impl View for Sdes {
    type V = SdesModel;

    open spec fn view(&self) -> SdesModel {
        SdesModel {
            ssrc: self.ssrc,
            values: Seq::new(self.values@.len(), |i: int| (self.values@[i].0, self.values@[i].1@)),
        }
    }
}

/// One lost packet and which of the sixteen after it are lost too.
#[derive(Debug, Clone, Copy, PartialEq, Eq, Hash)]
pub struct NackEntry {
    pub pid: u16,
    pub blp: u16,
}

/// A request to send lost packets again.
#[derive(Debug, PartialEq, Eq)]
pub struct Nack {
    pub ssrc: Ssrc,
    pub reports: Vec<NackEntry>,
}

/// A request for a keyframe: picture loss indication.
#[derive(Debug, Clone, Copy, PartialEq, Eq, Hash)]
pub struct Pli {
    pub ssrc: Ssrc,
}

/// A numbered request for a keyframe: full intra request.
#[derive(Debug, Clone, Copy, PartialEq, Eq, Hash)]
pub struct FirEntry {
    pub ssrc: Ssrc,
    pub seq_no: u8,
}

/// Numbered requests for keyframes.
#[derive(Debug, PartialEq, Eq)]
pub struct Fir {
    pub reports: Vec<FirEntry>,
}

/// Ways to ask for a keyframe.
#[derive(Debug, Clone, Copy, PartialEq, Eq, Hash, Structural)]
pub enum KeyframeRequestKind {
    Pli,
    Fir,
}

/// Feedback on its way out.
#[derive(Debug, PartialEq, Eq)]
pub enum Rtcp {
    SenderReport(SenderReport),
    ReceiverReport(ReceiverReport),
    SourceDescription(Sdes),
    Goodbye(Ssrc),
    Nack(Nack),
    Pli(Pli),
    Fir(Fir),
    /// Transport wide congestion control, in its wire form.
    Twcc(Vec<u8>),
}

/// Model of [`Rtcp`].
pub ghost enum RtcpModel {
    SenderReport(SenderReport),
    ReceiverReport(ReceiverReport),
    SourceDescription(SdesModel),
    Goodbye(Ssrc),
    Nack(Ssrc, Seq<NackEntry>),
    Pli(Pli),
    Fir(Seq<FirEntry>),
    Twcc(Seq<u8>),
}

impl View for Rtcp {
    type V = RtcpModel;

    open spec fn view(&self) -> RtcpModel {
        match *self {
            Rtcp::SenderReport(v) => RtcpModel::SenderReport(v),
            Rtcp::ReceiverReport(v) => RtcpModel::ReceiverReport(v),
            Rtcp::SourceDescription(v) => RtcpModel::SourceDescription(v@),
            Rtcp::Nack(v) => RtcpModel::Nack(v.ssrc, v.reports@),
            Rtcp::Goodbye(v) => RtcpModel::Goodbye(v),
            Rtcp::Pli(v) => RtcpModel::Pli(v),
            Rtcp::Fir(v) => RtcpModel::Fir(v.reports@),
            Rtcp::Twcc(v) => RtcpModel::Twcc(v@),
        }
    }
}

impl RtcpModel {
    /// Whether this is one of the reports that are made anew at regular intervals.
    pub open spec fn is_report(self) -> bool {
        self is SenderReport || self is ReceiverReport
    }
}

/// The models of a queue of feedback.
pub open spec fn feedback_model(feedback: Seq<Rtcp>) -> Seq<RtcpModel> {
    Seq::new(feedback.len(), |i: int| feedback[i]@)
}

/// One more message at the end of a queue is one more at the end of its model.
pub proof fn lemma_feedback_push(feedback: Seq<Rtcp>, r: Rtcp)
    ensures
        feedback_model(feedback.push(r)) == feedback_model(feedback).push(r@),
{
    assert(feedback_model(feedback.push(r)) =~= feedback_model(feedback).push(r@));
}

/// Feedback that came in for one source.
#[derive(Debug, PartialEq, Eq)]
pub enum RtcpFb {
    SenderInfo(SenderInfo),
    ReceptionReport(ReceptionReport),
    SourceDescription(Sdes),
    Goodbye(Ssrc),
    /// The packets of the SSRC that are to be sent again, by their lengthened numbers.
    Nack(Ssrc, Vec<SeqNo>),
    Pli(Ssrc),
    Fir(FirEntry),
    /// Transport wide congestion control, which concerns the whole session.
    Twcc(Ssrc),
}

impl RtcpFb {
    /// Whether the feedback is about something that this side receives.
    pub open spec fn for_rx(self) -> bool {
        self is SenderInfo || self is SourceDescription || self is Goodbye
    }

    /// The source that the feedback is about.
    pub open spec fn about(self) -> Ssrc {
        match self {
            RtcpFb::SenderInfo(v) => v.ssrc,
            RtcpFb::ReceptionReport(v) => v.ssrc,
            RtcpFb::SourceDescription(v) => v.ssrc,
            RtcpFb::Goodbye(v) => v,
            RtcpFb::Nack(v, _) => v,
            RtcpFb::Pli(v) => v,
            RtcpFb::Fir(v) => v.ssrc,
            RtcpFb::Twcc(v) => v,
        }
    }

    pub fn is_for_rx(&self) -> (r: bool)
        ensures
            r == self.for_rx(),
    {
        match self {
            RtcpFb::SenderInfo(_) | RtcpFb::SourceDescription(_) | RtcpFb::Goodbye(_) => true,
            _ => false,
        }
    }

    pub fn ssrc(&self) -> (r: Ssrc)
        ensures
            r == self.about(),
    {
        match self {
            RtcpFb::SenderInfo(v) => v.ssrc,
            RtcpFb::ReceptionReport(v) => v.ssrc,
            RtcpFb::SourceDescription(v) => v.ssrc,
            RtcpFb::Goodbye(v) => *v,
            RtcpFb::Nack(v, _) => *v,
            RtcpFb::Pli(v) => *v,
            RtcpFb::Fir(v) => v.ssrc,
            RtcpFb::Twcc(v) => *v,
        }
    }
}

} // verus!
