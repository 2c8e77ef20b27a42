//! What writing samples and asking for feedback make of an m-line, part by part.

use super::description::sends;
use super::places::{
    codec_at, law_packets_are_found, law_receivers_are_found, law_samples_and_codecs_are_found,
    law_senders_are_found, main_receiver_at, main_sender_at, receiver_at, send_buffer_at,
};
use crate::buffer_tx::sample_packets;
use crate::codec::Codec;
use crate::ids::{MediaTime, Pt, Rid, SeqNo, Ssrc};
use crate::media::feedback::{lasting, lost_feedback, main_rx};
use crate::media::sources::tx_for;
use crate::media::write::{buffer_for, buffer_tx_slot, with_buffer_tx};
use crate::media::{MediaKind, MediaModel};
use crate::receiver::ReceiverModel;
use crate::rtcp::{
    KeyframeRequestKind, ReceiverReport, Rtcp, RtcpModel, SdesType, SenderReport,
};
use crate::search::{first, lemma_first};
use crate::time::Instant;
use vstd::prelude::*;

verus! {

/// The codec of a writer is that of the first codec of the m-line under its payload type.
pub proof fn law_codec_of_a_writer(m: MediaModel, pt: Pt, i: int)
    ensures
        codec_at(m.params, pt, i) ==> m.codec_of(pt) == Some(m.params[i].codec),
        (forall|j: int| 0 <= j < m.params.len() ==> (#[trigger] m.params[j]).pt != pt)
            ==> m.codec_of(pt) is None,
{
    law_samples_and_codecs_are_found(Seq::empty(), m.params, pt, None, i);
}

/// A sample is taken in if and only if the m-line sends and has a sender for the encoding that does
/// not resend the packets of another.
pub proof fn law_samples_taken_in(m: MediaModel, rid: Option<Rid>)
    ensures
        m.takes_sample(rid) <==> sends(m.dir) && exists|j: int|
            main_sender_at(m.sources_tx, rid, j),
{
    law_senders_are_found(m.sources_tx, Ssrc(0), rid, 0);
    if let Some(j) = first(m.sources_tx, tx_for(rid, false)) {
        law_senders_are_found(m.sources_tx, Ssrc(0), rid, j);
        assert(main_sender_at(m.sources_tx, rid, j));
    }
    if exists|j: int| main_sender_at(m.sources_tx, rid, j) {
        let j = choose|j: int| main_sender_at(m.sources_tx, rid, j);
        law_senders_are_found(m.sources_tx, Ssrc(0), rid, j);
    }
}

/// The packets of a sample: one for each payload, in order, with its bytes, the time of the sample,
/// the SSRC and the encoding. Only the last is marked as such, and none has a number yet.
pub proof fn law_packets_of_a_sample(
    ts: MediaTime,
    chunks: Seq<Vec<u8>>,
    ssrc: Ssrc,
    rid: Option<Rid>,
    i: int,
)
    ensures
        sample_packets(ts, chunks, ssrc, rid).len() == chunks.len(),
        0 <= i < chunks.len() ==> {
            let p = sample_packets(ts, chunks, ssrc, rid)[i];
            &&& p.data == chunks[i]@
            &&& p.ts == ts
            &&& p.ssrc == ssrc
            &&& p.rid == rid
            &&& p.last <==> i == chunks.len() - 1
            &&& p.seq_no is None
        },
{
}

/// There is one buffer for a payload type after a write: the one that there was, in its place, or a
/// new one behind the others, without packets and for the codec of the writer, which retains 4096
/// packets of audio or 2048 of anything else. The others are as before, and so is the m-line.
pub proof fn law_send_buffer_comes_up(m: MediaModel, pt: Pt, codec: Codec, i: int)
    ensures
        ({
            let after = m.buffering(pt, codec);
            let k = buffer_tx_slot(m.buffers_tx, pt);
            let new = after.buffers_tx[k];
            &&& after == (MediaModel { buffers_tx: after.buffers_tx, ..m })
            &&& send_buffer_at(m.buffers_tx, pt, i) ==> after == m && k == i
            &&& (forall|j: int|
                0 <= j < m.buffers_tx.len() ==> (#[trigger] m.buffers_tx[j]).0 != pt) ==> {
                &&& k == m.buffers_tx.len()
                &&& after.buffers_tx.len() == m.buffers_tx.len() + 1
                &&& forall|j: int|
                    0 <= j < m.buffers_tx.len() ==> #[trigger] after.buffers_tx[j]
                        == m.buffers_tx[j]
                &&& new.0 == pt
                &&& new.1.codec == codec
                &&& new.1.packets.len() == 0
                &&& new.1.next == 0
                &&& new.1.max_retain == if codec == Codec::Opus {
                    4096
                } else {
                    2048int
                }
            }
        }),
{
    law_packets_are_found(m.buffers_tx, Seq::empty(), Ssrc(0), SeqNo(0), pt, i);
}

/// A sample that is written is added behind the packets of its buffer, as packets of the SSRC of the
/// first sender of the encoding that does not resend. Of all these the latest stay, as many as the
/// buffer retains. Those that were sent count as sent, and those that were not wait. Nothing else
/// changes.
pub proof fn law_written_sample_is_buffered(
    m: MediaModel,
    pt: Pt,
    rid: Option<Rid>,
    codec: Codec,
    ts: MediaTime,
    chunks: Seq<Vec<u8>>,
    j: int,
)
    requires
        m.wf(),
        main_sender_at(m.sources_tx, rid, j),
    ensures
        ({
            let k = buffer_tx_slot(m.buffers_tx, pt);
            let before = m.buffering(pt, codec).buffers_tx;
            let after = m.written(pt, rid, codec, ts, chunks);
            let old_b = before[k].1;
            let new_b = after.buffers_tx[k].1;
            let all = old_b.packets + sample_packets(ts, chunks, m.sources_tx[j].ssrc, rid);
            let gone = all.len() - new_b.packets.len();
            &&& after == (MediaModel { buffers_tx: after.buffers_tx, ..m })
            &&& after.buffers_tx.len() == before.len()
            &&& forall|i: int|
                0 <= i < before.len() && i != k ==> #[trigger] after.buffers_tx[i] == before[i]
            &&& after.buffers_tx[k].0 == pt
            &&& new_b.codec == old_b.codec
            &&& new_b.max_retain == old_b.max_retain
            &&& new_b.packets.len() == if all.len() <= old_b.max_retain {
                all.len() as int
            } else {
                old_b.max_retain
            }
            &&& forall|i: int|
                0 <= i < new_b.packets.len() ==> #[trigger] new_b.packets[i] == all[i + gone]
            &&& new_b.next == if old_b.next > gone {
                old_b.next - gone
            } else {
                0
            }
        }),
{
    let k = buffer_tx_slot(m.buffers_tx, pt);
    law_senders_are_found(m.sources_tx, Ssrc(0), rid, j);
    lemma_first(m.buffers_tx, buffer_for(pt));
    if k < m.buffers_tx.len() {
        assert(m.buffers_tx[k].1.wf());
    }
    let before = with_buffer_tx(m.buffers_tx, pt, codec);
    assert(0 <= before[k].1.max_retain);
}

/// The receiver whose keyframe is asked for is the first of the encoding that does not itself get
/// resends; without one there is none.
pub proof fn law_receiver_asked_for_a_keyframe(rx: Seq<ReceiverModel>, rid: Option<Rid>, i: int)
    ensures
        first(rx, main_rx(rid)) == Some(i) <==> main_receiver_at(rx, rid, i),
        first(rx, main_rx(rid)) is None <==> forall|j: int|
            0 <= j < rx.len() ==> (#[trigger] rx[j]).rid != rid || rx[j].repairs is Some,
{
    law_receivers_are_found(rx, Ssrc(0), Rid(0), rid, i);
}

/// A keyframe that is wanted goes out as one message that names the SSRC, of the kind that is
/// wanted, and is wanted no more. A full intra request carries the number of the receiver, which
/// counts on, round at 256. Nothing else changes. Where none is wanted, nothing goes out.
pub proof fn law_keyframe_goes_out(m: MediaModel, ssrc: Ssrc, i: int)
    ensures
        ({
            let out = m.keyframe_feedback();
            let after = m.keyframe_requested();
            &&& after == (MediaModel {
                keyframe_request_tx: None,
                sources_rx: after.sources_rx,
                ..m
            })
            &&& m.keyframe_request_tx is None ==> out.len() == 0 && after == m
            &&& m.keyframe_request_tx == Some((ssrc, KeyframeRequestKind::Pli)) ==> {
                &&& out.len() == 1
                &&& out[0] matches RtcpModel::Pli(p) && p.ssrc == ssrc
                &&& after.sources_rx == m.sources_rx
            }
            &&& m.keyframe_request_tx == Some((ssrc, KeyframeRequestKind::Fir)) && receiver_at(
                m.sources_rx,
                ssrc,
                i,
            ) ==> {
                &&& out.len() == 1
                &&& out[0] matches RtcpModel::Fir(reports) && reports.len() == 1 && reports[0].ssrc
                    == ssrc && reports[0].seq_no == m.sources_rx[i].fir_seq_no
                &&& after.sources_rx.len() == m.sources_rx.len()
                &&& forall|j: int|
                    0 <= j < m.sources_rx.len() && j != i ==> #[trigger] after.sources_rx[j]
                        == m.sources_rx[j]
                &&& after.sources_rx[i] == (ReceiverModel {
                    fir_seq_no: after.sources_rx[i].fir_seq_no,
                    ..m.sources_rx[i]
                })
                &&& after.sources_rx[i].fir_seq_no == (m.sources_rx[i].fir_seq_no + 1) % 256
            }
        }),
{
    law_receivers_are_found(m.sources_rx, ssrc, Rid(0), None, i);
}

/// Regular feedback is made if and only if the m-line has a sender, and five seconds have passed
/// since the last for audio, or one second for video.
pub proof fn law_when_regular_feedback_is_made(m: MediaModel, now: Instant)
    ensures
        m.makes_feedback(now) <==> m.sources_tx.len() > 0 && now.nanos
            - m.last_regular_feedback.nanos >= if m.kind == MediaKind::Audio {
            5_000_000_000
        } else {
            1_000_000_000int
        },
{
}

/// Regular feedback is, of each sender in turn, its report and a description with its SSRC and the
/// CNAME of the m-line as only value, and then, of each receiver in turn, its report in the name of
/// the first sender.
pub proof fn law_regular_feedback_holds(
    m: MediaModel,
    sender_reports: Seq<SenderReport>,
    receiver_reports: Seq<ReceiverReport>,
    i: int,
)
    requires
        m.sources_tx.len() > 0,
    ensures
        ({
            let out = m.regular_feedback(sender_reports, receiver_reports);
            let n = 2 * m.sources_tx.len();
            &&& out.len() == n + receiver_reports.len()
            &&& 0 <= i < m.sources_tx.len() ==> {
                &&& out[2 * i] == RtcpModel::SenderReport(sender_reports[i])
                &&& out[2 * i + 1] matches RtcpModel::SourceDescription(d) && d.ssrc
                    == m.sources_tx[i].ssrc && d.values.len() == 1 && d.values[0].0
                    == SdesType::CNAME && d.values[0].1 == m.cname
            }
            &&& 0 <= i < receiver_reports.len() ==> (out[n + i] matches RtcpModel::ReceiverReport(r)
                && r.sender_ssrc == m.sources_tx[0].ssrc && r.report == receiver_reports[i].report)
        }),
{
}

/// Of what waits to go out, reports go when new ones are made, and all else stays.
pub proof fn law_what_new_reports_replace(r: RtcpModel)
    ensures
        lasting()(r) <==> match r {
            RtcpModel::SenderReport(_) | RtcpModel::ReceiverReport(_) => false,
            _ => true,
        },
{
}

/// What receivers report lost, over their first.
proof fn lemma_lost_of_the_first(
    a: Seq<ReceiverModel>,
    b: Seq<ReceiverModel>,
    nacks: Seq<Option<Rtcp>>,
)
    requires
        nacks.len() <= a.len(),
        nacks.len() <= b.len(),
        forall|i: int| 0 <= i < nacks.len() ==> #[trigger] a[i] == b[i],
    ensures
        lost_feedback(a, nacks) == lost_feedback(b, nacks),
    decreases nacks.len(),
{
    if nacks.len() > 0 {
        lemma_lost_of_the_first(a, b, nacks.drop_last());
        assert(a[nacks.len() - 1] == b[nacks.len() - 1]);
    }
}

/// What receivers report lost is what each has to report, in their order: one more receiver adds
/// what it has to report behind the others, and nothing if it has nothing or gets resends itself.
pub proof fn law_one_more_receiver_reports(
    rx: Seq<ReceiverModel>,
    nacks: Seq<Option<Rtcp>>,
    s: ReceiverModel,
    nack: Option<Rtcp>,
)
    requires
        rx.len() == nacks.len(),
    ensures
        lost_feedback(Seq::empty(), Seq::empty()).len() == 0,
        lost_feedback(rx.push(s), nacks.push(nack)) == match nack {
            Some(n) if s.repairs is None => lost_feedback(rx, nacks).push(n@),
            _ => lost_feedback(rx, nacks),
        },
{
    assert(nacks.push(nack).drop_last() =~= nacks);
    lemma_lost_of_the_first(rx.push(s), rx, nacks);
}

} // verus!
