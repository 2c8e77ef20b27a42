//! What the values are that the operations work with.

use super::description::{receives, sends};
use crate::buffer_rx::{buffers_rx_model, DepacketizingBuffer};
use crate::buffer_tx::{
    buffers_tx_model, packets_model, Packetized, PacketizingBuffer,
};
use crate::codec::Codec;
use crate::direction::Direction;
use crate::header::{original_number_bytes, RtpHeader};
use crate::ids::{MediaTime, Mid, Pt, Rid, SeqNo, Ssrc};
use crate::media::wire::{PolledModel, PolledPacket};
use crate::media::{MediaKind, MediaModel};
use crate::receiver::{receivers_model, ReceiverSource};
use crate::rtcp::{feedback_model, Rtcp, RtcpModel, Sdes};
use crate::sdp::{Msid, MsidModel, Simulcast};
use crate::time::rr_interval_nanos;
use vstd::prelude::*;

verus! {

/// In each direction it is settled who sends and who receives, and seen from the other side the two
/// change places.
pub proof fn law_directions(d: Direction)
    ensures
        d.sending() <==> sends(d),
        d.receiving() <==> receives(d),
        sends(d.inverted()) <==> receives(d),
        receives(d.inverted()) <==> sends(d),
{
}

/// Opus is audio, and none of the other codecs is.
pub proof fn law_audio(c: Codec)
    ensures
        c.audio() <==> c == Codec::Opus,
{
}

/// The number after another is one more, and after the last comes zero.
pub proof fn law_next_number(n: SeqNo)
    ensures
        n.next_spec().0 == (n.0 + 1) % 0x1_0000_0000_0000_0000,
{
}

/// The original number of a resend is two bytes, the higher first, of its lowest sixteen bits.
pub proof fn law_bytes_of_a_number(n: SeqNo)
    ensures
        original_number_bytes(n).len() == 2,
        original_number_bytes(n)[0] * 256 + original_number_bytes(n)[1] == n.0 % 0x1_0000,
{
}

/// What stands before the payload, how long the packet is, and what is where in the buffer that it
/// is written to: the header as it was, then for a resend the two bytes of its original number, then
/// the payload, then what was there.
pub proof fn law_layout_of_a_packet(
    p: PolledModel,
    buf: Seq<u8>,
    header_len: int,
    pad_len: int,
    i: int,
)
    requires
        0 <= header_len,
        header_len + p.body_len() <= buf.len(),
    ensures
        ({
            let extra: int = if p.orig_seq_no is Some {
                2
            } else {
                0
            };
            let written = p.with_body(buf, header_len);
            let at = header_len + extra;
            &&& p.body_len() == extra + p.data.len()
            &&& p.packet_len(header_len, pad_len) == header_len + extra + p.data.len() + pad_len
            &&& written.len() == buf.len()
            &&& 0 <= i < header_len ==> written[i] == buf[i]
            &&& p.orig_seq_no matches Some(n) ==> written[header_len] * 256 + written[header_len
                + 1] == n.0 % 0x1_0000
            &&& 0 <= i < p.data.len() ==> written[at + i] == p.data[i]
            &&& at + p.data.len() <= i < buf.len() ==> written[i] == buf[i]
        }),
{
    if let Some(n) = p.orig_seq_no {
        law_bytes_of_a_number(n);
        let written = p.with_body(buf, header_len);
        assert(written[header_len] == original_number_bytes(n)[0]);
        assert(written[header_len + 1] == original_number_bytes(n)[1]);
    }
}

/// A new header carries what it is made with, and neither a marker nor values of extensions, and it
/// was not written yet.
pub proof fn law_new_header(pt: Pt, seq_no: SeqNo, ts: MediaTime, ssrc: Ssrc)
    ensures
        ({
            let h = RtpHeader::blank(pt, seq_no, ts, ssrc);
            &&& h.payload_type == pt
            &&& h.sequence_number == seq_no
            &&& h.timestamp == ts
            &&& h.ssrc == ssrc
            &&& !h.marker
            &&& h.ext_vals.abs_send_time is None
            &&& h.ext_vals.mid is None
            &&& h.ext_vals.transport_cc is None
            &&& h.ext_vals.rid is None
            &&& h.ext_vals.rid_repair is None
            &&& h.header_len == 0
        }),
{
}

/// Cleanup is due ten seconds after the last. Regular feedback is due five seconds after the last
/// for audio, and one second after it for video.
pub proof fn law_when_things_are_due(m: MediaModel)
    ensures
        m.cleanup_nanos() - m.last_cleanup.nanos == 10_000_000_000,
        m.regular_feedback_nanos() - m.last_regular_feedback.nanos == if m.kind
            == MediaKind::Audio {
            5_000_000_000
        } else {
            1_000_000_000int
        },
        rr_interval_nanos(true) == 5_000_000_000,
        rr_interval_nanos(false) == 1_000_000_000,
{
}

/// A new m-line is who it is said to be, is of video that is sent and received, is yet to be
/// announced, and has nothing in it: no codecs, extensions, senders, receivers, packets or samples,
/// and nothing that was asked for. All that is due at intervals counts from the origin of the clock.
pub proof fn law_new_line(mid: Mid, cname: Seq<char>, msid: MsidModel)
    ensures
        ({
            let m = MediaModel::blank(mid, cname, msid);
            &&& m.mid == mid
            &&& m.index == 0
            &&& m.cname == cname
            &&& m.msid == msid
            &&& m.kind == MediaKind::Video
            &&& m.dir == Direction::SendRecv
            &&& m.need_open_event
            &&& m.params.len() == 0
            &&& forall|id: u8| !m.exts.contains_key(id)
            &&& m.sources_tx.len() == 0
            &&& m.sources_rx.len() == 0
            &&& m.buffers_tx.len() == 0
            &&& m.buffers_rx.len() == 0
            &&& m.resends.len() == 0
            &&& m.keyframe_request_rx is None
            &&& m.keyframe_request_tx is None
            &&& m.simulcast is None
            &&& m.last_cleanup.nanos == 0
            &&& m.last_regular_feedback.nanos == 0
        }),
{
}

/// The model of a packet has all that the packet has.
pub proof fn law_models_of_packets(a: Packetized, b: PolledPacket, all: Seq<Packetized>, i: int)
    ensures
        a@.ts == a.ts,
        a@.data == a.data@,
        a@.ssrc == a.ssrc,
        a@.rid == a.rid,
        a@.last == a.last,
        a@.seq_no == a.seq_no,
        b@.header == b.header,
        b@.seq_no == b.seq_no,
        b@.orig_seq_no == b.orig_seq_no,
        b@.data == b.data@,
        packets_model(all).len() == all.len(),
        0 <= i < all.len() ==> packets_model(all)[i] == all[i]@,
{
}

/// The model of a table has the models of its entries, under their keys and in their order.
pub proof fn law_models_of_tables(
    tx: Seq<(Pt, PacketizingBuffer)>,
    rx: Seq<((Pt, Option<Rid>), DepacketizingBuffer)>,
    receivers: Seq<ReceiverSource>,
    i: int,
)
    ensures
        buffers_tx_model(tx).len() == tx.len(),
        0 <= i < tx.len() ==> buffers_tx_model(tx)[i] == (tx[i].0, tx[i].1@),
        buffers_rx_model(rx).len() == rx.len(),
        0 <= i < rx.len() ==> buffers_rx_model(rx)[i] == (rx[i].0, rx[i].1@),
        receivers_model(receivers).len() == receivers.len(),
        0 <= i < receivers.len() ==> receivers_model(receivers)[i] == receivers[i]@,
{
}

/// The model of feedback has all that the feedback has, and that of a queue has the models of its
/// messages in their order.
pub proof fn law_models_of_feedback(r: Rtcp, d: Sdes, queue: Seq<Rtcp>, i: int)
    ensures
        match r {
            Rtcp::SenderReport(v) => r@ == RtcpModel::SenderReport(v),
            Rtcp::ReceiverReport(v) => r@ == RtcpModel::ReceiverReport(v),
            Rtcp::SourceDescription(v) => r@ == RtcpModel::SourceDescription(v@),
            Rtcp::Goodbye(v) => r@ == RtcpModel::Goodbye(v),
            Rtcp::Nack(v) => r@ == RtcpModel::Nack(v.ssrc, v.reports@),
            Rtcp::Pli(v) => r@ == RtcpModel::Pli(v),
            Rtcp::Fir(v) => r@ == RtcpModel::Fir(v.reports@),
            Rtcp::Twcc(v) => r@ == RtcpModel::Twcc(v@),
        },
        d@.ssrc == d.ssrc,
        d@.values.len() == d.values@.len(),
        0 <= i < d.values@.len() ==> d@.values[i].0 == d.values@[i].0 && d@.values[i].1
            == d.values@[i].1@,
        feedback_model(queue).len() == queue.len(),
        0 <= i < queue.len() ==> feedback_model(queue)[i] == queue[i]@,
{
}

/// The model of what a description names has all that is named.
pub proof fn law_models_of_names(a: Msid, b: Simulcast)
    ensures
        a@.stream_id == a.stream_id@,
        a@.track_id == a.track_id@,
        b@.send == b.send@,
        b@.recv == b.recv@,
{
}

} // verus!
