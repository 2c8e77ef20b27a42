//! Audio or video media: one m-line of a session.

use crate::buffer_rx::{buffers_rx_model, DepacketizingBuffer, RxBufferModel};
use crate::buffer_tx::{buffers_tx_model, PacketizingBuffer, TxBufferModel};
use crate::codec::CodecParams;
use crate::direction::Direction;
use crate::ext::{Extension, Extensions};
use crate::ids::{Mid, Pt, Rid, SeqNo, Ssrc};
use crate::receiver::{receivers_model, ReceiverModel, ReceiverSource};
use crate::rtcp::KeyframeRequestKind;
use crate::sdp::{MediaType, Msid, MsidModel, Simulcast, SimulcastModel};
use crate::sender::SenderSource;
use crate::time::{rr_interval, rr_interval_nanos, Duration, Instant, CLEANUP_INTERVAL_MILLIS};
use std::collections::VecDeque;
use vstd::prelude::*;

pub mod create;
pub mod feedback;
pub mod negotiate;
pub mod receive;
pub mod send;
pub mod sources;
pub mod wire;
pub mod write;

verus! {

/// Types of media.
#[derive(Debug, Clone, Copy, PartialEq, Eq, Hash, Structural)]
pub enum MediaKind {
    /// Audio media.
    Audio,
    /// Video media.
    Video,
}

impl MediaKind {
    /// The kind of an m-line of type audio or video. No other type has a kind.
    pub fn from(v: MediaType) -> (k: MediaKind)
        requires
            v is Audio || v is Video,
        ensures
            k is Audio <==> v is Audio,
    {
        match v {
            MediaType::Audio => MediaKind::Audio,
            _ => MediaKind::Video,
        }
    }
}

/// A packet that is to be sent again.
#[derive(Debug, Clone, Copy, PartialEq, Eq)]
pub struct Resend {
    pub ssrc: Ssrc,
    pub pt: Pt,
    pub seq_no: SeqNo,
}

/// Audio or video media.
///
/// An m-line in SDP.
#[derive(Debug)]
pub struct Media {
    /// Identifier of this m-line.
    mid: Mid,
    /// The index of this m-line in the session.
    index: usize,
    /// Unique CNAME for use in source descriptions that go out.
    cname: String,
    /// "Stream and track" identifiers for descriptions that go out.
    msid: Msid,
    /// Audio or video.
    kind: MediaKind,
    /// The extensions of this m-line.
    exts: Extensions,
    /// Current media direction, as seen from this side.
    dir: Direction,
    /// Negotiated codec parameters.
    params: Vec<CodecParams>,
    /// Receivers, created the first time that their SSRC is observed or announced.
    sources_rx: Vec<ReceiverSource>,
    /// Senders.
    sources_tx: Vec<SenderSource>,
    /// Last time that cleanup ran.
    last_cleanup: Instant,
    /// Last time that regular feedback was produced.
    last_regular_feedback: Instant,
    /// Samples that came in, by payload type and encoding. No key occurs twice.
    buffers_rx: Vec<((Pt, Option<Rid>), DepacketizingBuffer)>,
    /// Packets that go out, by payload type. No payload type occurs twice.
    buffers_tx: Vec<(Pt, PacketizingBuffer)>,
    /// Resends that were requested.
    resends: VecDeque<Resend>,
    /// Whether the m-line is yet to be announced in an event.
    need_open_event: bool,
    /// The keyframe that the other side asked for.
    keyframe_request_rx: Option<(Option<Rid>, KeyframeRequestKind)>,
    /// The keyframe that the other side is to be asked for.
    keyframe_request_tx: Option<(Ssrc, KeyframeRequestKind)>,
    /// Simulcast configuration, if set.
    simulcast: Option<Simulcast>,
}

/// Model of [`Media`].
#[verifier::ext_equal]
pub ghost struct MediaModel {
    pub mid: Mid,
    pub index: usize,
    pub cname: Seq<char>,
    pub msid: MsidModel,
    pub kind: MediaKind,
    pub exts: Map<u8, Extension>,
    pub dir: Direction,
    pub params: Seq<CodecParams>,
    pub sources_rx: Seq<ReceiverModel>,
    pub sources_tx: Seq<SenderSource>,
    pub last_cleanup: Instant,
    pub last_regular_feedback: Instant,
    pub buffers_rx: Seq<((Pt, Option<Rid>), RxBufferModel)>,
    pub buffers_tx: Seq<(Pt, TxBufferModel)>,
    pub resends: Seq<Resend>,
    pub need_open_event: bool,
    pub keyframe_request_rx: Option<(Option<Rid>, KeyframeRequestKind)>,
    pub keyframe_request_tx: Option<(Ssrc, KeyframeRequestKind)>,
    pub simulcast: Option<SimulcastModel>,
}

impl View for Media {
    type V = MediaModel;

    closed spec fn view(&self) -> MediaModel {
        MediaModel {
            mid: self.mid,
            index: self.index,
            cname: self.cname@,
            msid: self.msid@,
            kind: self.kind,
            exts: self.exts@,
            dir: self.dir,
            params: self.params@,
            sources_rx: receivers_model(self.sources_rx@),
            sources_tx: self.sources_tx@,
            last_cleanup: self.last_cleanup,
            last_regular_feedback: self.last_regular_feedback,
            buffers_rx: buffers_rx_model(self.buffers_rx@),
            buffers_tx: buffers_tx_model(self.buffers_tx@),
            resends: self.resends@,
            need_open_event: self.need_open_event,
            keyframe_request_rx: self.keyframe_request_rx,
            keyframe_request_tx: self.keyframe_request_tx,
            simulcast: match self.simulcast {
                Some(s) => Some(s@),
                None => None,
            },
        }
    }
}

/// Whether no SSRC occurs twice among receivers.
pub open spec fn distinct_rx(rx: Seq<ReceiverModel>) -> bool {
    forall|i: int, j: int|
        #![trigger rx[i], rx[j]]
        0 <= i < j < rx.len() ==> rx[i].ssrc != rx[j].ssrc
}

/// Whether no SSRC occurs twice among senders.
pub open spec fn distinct_tx(tx: Seq<SenderSource>) -> bool {
    forall|i: int, j: int|
        #![trigger tx[i], tx[j]]
        0 <= i < j < tx.len() ==> tx[i].ssrc != tx[j].ssrc
}

/// Whether no key occurs twice among the entries of a table.
pub open spec fn distinct_keys<K, V>(table: Seq<(K, V)>) -> bool {
    forall|i: int, j: int|
        #![trigger table[i], table[j]]
        0 <= i < j < table.len() ==> table[i].0 != table[j].0
}

/// Whether one of the receivers has that SSRC.
pub open spec fn has_rx(rx: Seq<ReceiverModel>, ssrc: Ssrc) -> bool {
    exists|i: int| 0 <= i < rx.len() && #[trigger] rx[i].ssrc == ssrc
}

/// Whether one of the senders has that SSRC.
pub open spec fn has_tx(tx: Seq<SenderSource>, ssrc: Ssrc) -> bool {
    exists|i: int| 0 <= i < tx.len() && #[trigger] tx[i].ssrc == ssrc
}

/// Whether every packet in a buffer has a sender.
pub open spec fn packets_have_senders(b: TxBufferModel, tx: Seq<SenderSource>) -> bool {
    forall|i: int|
        #![trigger b.packets[i]]
        0 <= i < b.packets.len() ==> has_tx(tx, b.packets[i].ssrc)
}

impl MediaModel {
    /// What holds of every m-line, whatever happens to it:
    ///
    /// - no SSRC has two receivers or two senders, no key has two buffers;
    /// - the packets of a buffer are sent in order, and each has a sender;
    /// - a full intra request, which the receiver numbers, is only pending for one that exists.
    pub open spec fn wf(self) -> bool {
        &&& distinct_rx(self.sources_rx)
        &&& distinct_tx(self.sources_tx)
        &&& distinct_keys(self.buffers_rx)
        &&& distinct_keys(self.buffers_tx)
        &&& forall|i: int|
            #![trigger self.buffers_tx[i]]
            0 <= i < self.buffers_tx.len() ==> self.buffers_tx[i].1.wf() && packets_have_senders(
                self.buffers_tx[i].1,
                self.sources_tx,
            )
        &&& self.fir_has_receiver()
    }

    /// Whether the receiver that a pending full intra request is for exists.
    pub open spec fn fir_has_receiver(self) -> bool {
        self.keyframe_request_tx matches Some((ssrc, KeyframeRequestKind::Fir)) ==> has_rx(
            self.sources_rx,
            ssrc,
        )
    }

    /// When the next cleanup is due, in nanoseconds.
    pub open spec fn cleanup_nanos(self) -> int {
        self.last_cleanup.nanos + 10_000_000_000
    }

    /// When the next regular feedback is due, in nanoseconds.
    pub open spec fn regular_feedback_nanos(self) -> int {
        self.last_regular_feedback.nanos + rr_interval_nanos(self.kind is Audio)
    }
}

impl Media {
    pub fn mid(&self) -> (r: Mid)
        ensures
            r == self@.mid,
    {
        self.mid
    }

    pub fn index(&self) -> (r: usize)
        ensures
            r == self@.index,
    {
        self.index
    }

    pub fn cname(&self) -> (r: &str)
        ensures
            r@ == self@.cname,
    {
        self.cname.as_str()
    }

    pub fn set_cname(&mut self, cname: String)
        ensures
            final(self)@ == (MediaModel { cname: cname@, ..old(self)@ }),
            old(self)@.wf() ==> final(self)@.wf(),
    {
        self.cname = cname;
    }

    pub fn msid(&self) -> (r: &Msid)
        ensures
            r@ == self@.msid,
    {
        &self.msid
    }

    pub fn kind(&self) -> (r: MediaKind)
        ensures
            r == self@.kind,
    {
        self.kind
    }

    pub fn set_exts(&mut self, exts: Extensions)
        ensures
            final(self)@ == (MediaModel { exts: exts@, ..old(self)@ }),
            old(self)@.wf() ==> final(self)@.wf(),
    {
        self.exts = exts;
    }

    pub fn exts(&self) -> (r: &Extensions)
        ensures
            r@ == self@.exts,
    {
        &self.exts
    }

    pub fn direction(&self) -> (r: Direction)
        ensures
            r == self@.dir,
    {
        self.dir
    }

    pub fn codecs(&self) -> (r: &[CodecParams])
        ensures
            r@ == self@.params,
    {
        self.params.as_slice()
    }

    /// Whether the m-line is yet to be announced in an event.
    pub fn need_open_event(&self) -> (r: bool)
        ensures
            r == self@.need_open_event,
    {
        self.need_open_event
    }

    /// Takes note of whether the m-line is yet to be announced in an event.
    pub fn set_need_open_event(&mut self, need: bool)
        ensures
            final(self)@ == (MediaModel { need_open_event: need, ..old(self)@ }),
            old(self)@.wf() ==> final(self)@.wf(),
    {
        self.need_open_event = need;
    }

    /// Runs what is due at `now`.
    pub fn handle_timeout(&mut self, now: Instant)
        ensures
            final(self)@ == (MediaModel { last_cleanup: now, ..old(self)@ }),
            old(self)@.wf() ==> final(self)@.wf(),
    {
        self.last_cleanup = now;
    }

    /// When [`Media::handle_timeout`] is to be called next.
    pub fn poll_timeout(&self) -> (r: Option<Instant>)
        requires
            self@.cleanup_nanos() <= u64::MAX,
        ensures
            r matches Some(t) && t.nanos == self@.cleanup_nanos(),
    {
        Some(self.cleanup_at())
    }

    /// When the next cleanup is due: ten seconds after the last.
    pub fn cleanup_at(&self) -> (t: Instant)
        requires
            self@.cleanup_nanos() <= u64::MAX,
        ensures
            t.nanos == self@.cleanup_nanos(),
    {
        self.last_cleanup.after(Duration::from_millis(CLEANUP_INTERVAL_MILLIS))
    }

    /// When the next regular feedback is due. While the m-line has no sender, none is made, so
    /// that this may lie in the past until it has one.
    pub fn regular_feedback_at(&self) -> (t: Instant)
        requires
            self@.regular_feedback_nanos() <= u64::MAX,
        ensures
            t.nanos == self@.regular_feedback_nanos(),
    {
        self.last_regular_feedback.after(rr_interval(self.kind == MediaKind::Audio))
    }

    pub fn simulcast(&self) -> (r: Option<&Simulcast>)
        ensures
            match r {
                Some(s) => self@.simulcast == Some(s@),
                None => self@.simulcast is None,
            },
    {
        self.simulcast.as_ref()
    }

    pub fn set_simulcast(&mut self, s: Simulcast)
        ensures
            final(self)@ == (MediaModel { simulcast: Some(s@), ..old(self)@ }),
            old(self)@.wf() ==> final(self)@.wf(),
    {
        self.simulcast = Some(s);
    }

    /// The keyframe that the other side asked for, if it did since the last call.
    pub fn poll_keyframe_request(&mut self) -> (r: Option<(Option<Rid>, KeyframeRequestKind)>)
        ensures
            r == old(self)@.keyframe_request_rx,
            final(self)@ == (MediaModel { keyframe_request_rx: None, ..old(self)@ }),
            old(self)@.wf() ==> final(self)@.wf(),
    {
        self.keyframe_request_rx.take()
    }

    /// Forgets the packets that go out.
    pub fn clear_send_buffers(&mut self)
        ensures
            final(self)@ == (MediaModel { buffers_tx: Seq::empty(), ..old(self)@ }),
            old(self)@.wf() ==> final(self)@.wf(),
    {
        self.buffers_tx.clear();
        assert(self@.buffers_tx =~= Seq::empty());
    }

    /// Forgets the samples that came in.
    pub fn clear_receive_buffers(&mut self)
        ensures
            final(self)@ == (MediaModel { buffers_rx: Seq::empty(), ..old(self)@ }),
            old(self)@.wf() ==> final(self)@.wf(),
    {
        self.buffers_rx.clear();
        assert(self@.buffers_rx =~= Seq::empty());
    }
}

} // verus!
