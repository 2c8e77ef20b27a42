//! What feedback, packets and samples that come in make of an m-line, part by part.

use super::places::{
    carrier_at, codec_at, encoding_at, filled_buffer_at, law_receivers_are_found,
    law_samples_and_codecs_are_found, law_senders_are_found, receive_buffer_at, receiver_at,
    sender_at,
};
use super::polling::law_nack_schedules_each_number;
use super::receiving::law_sample_is_read_back;
use crate::buffer_rx::{Depacketized, RxBufferModel};
use crate::codec::{Codec, CodecParams};
use crate::error::{PacketError, RtcError};
use crate::header::RtpHeader;
use crate::ids::{Pt, Rid, Ssrc};
use crate::media::receive::{
    buffer_rx_slot, filled, is_last_max, params_carrying, rx_buffer_for, with_buffer_rx, MediaData,
};
use crate::media::send::holding;
use crate::media::sources::{informed_rx, repairs_of, rx_of};
use crate::media::write::params_for;
use crate::media::MediaModel;
use crate::receiver::ReceiverModel;
use crate::rtcp::{KeyframeRequestKind, RtcpFb, SdesType};
use crate::search::{first, lemma_first};
use crate::time::Instant;
use vstd::prelude::*;

verus! {

/// The SSRC that feedback names.
pub open spec fn names(fb: RtcpFb, ssrc: Ssrc) -> bool {
    match fb {
        RtcpFb::SenderInfo(v) => v.ssrc == ssrc,
        RtcpFb::ReceptionReport(v) => v.ssrc == ssrc,
        RtcpFb::SourceDescription(v) => v.ssrc == ssrc,
        RtcpFb::Goodbye(v) => v == ssrc,
        RtcpFb::Nack(v, _) => v == ssrc,
        RtcpFb::Pli(v) => v == ssrc,
        RtcpFb::Fir(v) => v.ssrc == ssrc,
        RtcpFb::Twcc(v) => v == ssrc,
    }
}

/// What a sender says of itself, how it describes itself and that it leaves is for the side that
/// receives from it; all other feedback is for the side that sends.
pub proof fn law_sides_of_feedback(fb: RtcpFb, ssrc: Ssrc)
    ensures
        fb.for_rx() <==> match fb {
            RtcpFb::SenderInfo(_) | RtcpFb::SourceDescription(_) | RtcpFb::Goodbye(_) => true,
            _ => false,
        },
        fb.about() == ssrc <==> names(fb, ssrc),
{
}

/// Feedback for the receiving side is taken up by the receiver of the SSRC that it names, where
/// there is one and the feedback is no description with a CNAME. What a sender says of itself is
/// noted at this receiver, with the time. Nothing else changes, and nothing at all for other
/// feedback or where there is no such receiver.
pub proof fn law_receiver_is_told(m: MediaModel, now: Instant, fb: RtcpFb, ssrc: Ssrc, i: int)
    requires
        names(fb, ssrc),
    ensures
        ({
            let after = m.told_rx(now, fb);
            &&& after == (MediaModel { sources_rx: after.sources_rx, ..m })
            &&& receiver_at(m.sources_rx, ssrc, i) ==> {
                &&& m.takes_rx(fb) <==> match fb {
                    RtcpFb::SourceDescription(d) => forall|k: int|
                        0 <= k < d.values@.len() ==> (#[trigger] d.values@[k]).0 != SdesType::CNAME,
                    _ => true,
                }
                &&& after.sources_rx.len() == m.sources_rx.len()
                &&& forall|k: int|
                    0 <= k < m.sources_rx.len() && k != i ==> #[trigger] after.sources_rx[k]
                        == m.sources_rx[k]
                &&& match fb {
                    RtcpFb::SenderInfo(v) => after.sources_rx[i] == (ReceiverModel {
                        sender_info: Some(v),
                        sender_info_at: Some(now),
                        ..m.sources_rx[i]
                    }),
                    _ => after == m,
                }
            }
            &&& (forall|k: int|
                0 <= k < m.sources_rx.len() ==> (#[trigger] m.sources_rx[k]).ssrc != ssrc)
                ==> !m.takes_rx(fb) && after == m
        }),
{
    law_sides_of_feedback(fb, ssrc);
    law_receivers_are_found(m.sources_rx, ssrc, Rid(0), None, i);
    if receiver_at(m.sources_rx, ssrc, i) {
        assert(m.sources_rx[i].ssrc == ssrc);
    }
}

/// Feedback for the sending side is taken up by the sender of the SSRC that it names, where there is
/// one and, for a report of lost packets, where those can be looked for. A request for a keyframe is
/// noted with its kind and the sender's encoding. A report of lost packets schedules one resend for
/// each number reported, in their order, behind those that were asked for before. Nothing else
/// changes, and nothing at all for other feedback or where there is no such sender.
pub proof fn law_sender_is_told(m: MediaModel, fb: RtcpFb, ssrc: Ssrc, i: int)
    requires
        names(fb, ssrc),
    ensures
        ({
            let after = m.told_tx(fb);
            &&& after == (MediaModel {
                resends: after.resends,
                keyframe_request_rx: after.keyframe_request_rx,
                ..m
            })
            &&& sender_at(m.sources_tx, ssrc, i) ==> match fb {
                RtcpFb::Pli(_) => {
                    &&& m.takes_tx(fb)
                    &&& after.resends == m.resends
                    &&& after.keyframe_request_rx == Some(
                        (m.sources_tx[i].rid, KeyframeRequestKind::Pli),
                    )
                },
                RtcpFb::Fir(_) => {
                    &&& m.takes_tx(fb)
                    &&& after.resends == m.resends
                    &&& after.keyframe_request_rx == Some(
                        (m.sources_tx[i].rid, KeyframeRequestKind::Fir),
                    )
                },
                RtcpFb::Nack(_, lost) => {
                    let n = m.resends.len();
                    &&& after.keyframe_request_rx == m.keyframe_request_rx
                    &&& m.takes_tx(fb) <==> m.nack_reference(ssrc) is Some
                    &&& m.takes_tx(fb) ==> {
                        &&& after.resends.len() == n + lost@.len()
                        &&& forall|k: int|
                            0 <= k < n ==> #[trigger] after.resends[k] == m.resends[k]
                        &&& forall|k: int|
                            0 <= k < lost@.len() ==> {
                                let r = after.resends[n + k];
                                &&& r.ssrc == ssrc
                                &&& r.pt == (m.nack_reference(ssrc)->0).0
                                &&& r.seq_no == #[trigger] lost@[k]
                            }
                    }
                    &&& !m.takes_tx(fb) ==> after == m
                },
                _ => m.takes_tx(fb) && after == m,
            }
            &&& (forall|k: int|
                0 <= k < m.sources_tx.len() ==> (#[trigger] m.sources_tx[k]).ssrc != ssrc)
                ==> !m.takes_tx(fb) && after == m
        }),
{
    law_sides_of_feedback(fb, ssrc);
    law_senders_are_found(m.sources_tx, ssrc, None, i);
    if sender_at(m.sources_tx, ssrc, i) {
        assert(m.sources_tx[i].ssrc == ssrc);
    }
    if let RtcpFb::Nack(_, lost) = fb {
        let b = first(m.buffers_tx, holding(ssrc))->0;
        law_nack_schedules_each_number(m, ssrc, lost@, b);
    }
}

/// A receiver learns from the header of a packet what it did not know, and forgets nothing: the
/// encoding that the header names, and as the SSRC that it repairs that of the first receiver of the
/// encoding whose repair the header names. It learns nothing else.
pub proof fn law_header_informs(
    s: ReceiverModel,
    rx: Seq<ReceiverModel>,
    header: RtpHeader,
    i: int,
)
    ensures
        ({
            let after = informed_rx(s, rx, header);
            &&& after == (ReceiverModel { rid: after.rid, repairs: after.repairs, ..s })
            &&& s.rid is Some ==> after.rid == s.rid
            &&& s.rid is None ==> after.rid == header.ext_vals.rid
            &&& s.repairs is Some ==> after.repairs == s.repairs
            &&& s.repairs is None ==> match header.ext_vals.rid_repair {
                Some(id) => {
                    &&& encoding_at(rx, id, i) ==> after.repairs == Some(rx[i].ssrc)
                    &&& after.repairs matches Some(ssrc) ==> exists|k: int|
                        #[trigger] encoding_at(rx, id, k) && rx[k].ssrc == ssrc
                    &&& (forall|k: int|
                        0 <= k < rx.len() ==> (#[trigger] rx[k]).rid != Some(id))
                        ==> after.repairs is None
                },
                None => after.repairs is None,
            }
        }),
{
    if let Some(id) = header.ext_vals.rid_repair {
        law_receivers_are_found(rx, s.ssrc, id, None, i);
        if let Some(k) = first(rx, rx_of(id)) {
            law_receivers_are_found(rx, s.ssrc, id, None, k);
            assert(encoding_at(rx, id, k));
        }
    }
}

/// The SSRC that a receiver repairs is what the first receiver of its SSRC knows; without such a
/// receiver there is none.
pub proof fn law_repaired_ssrc(rx: Seq<ReceiverModel>, ssrc: Ssrc, i: int)
    ensures
        receiver_at(rx, ssrc, i) ==> repairs_of(rx, ssrc) == rx[i].repairs,
        (forall|k: int| 0 <= k < rx.len() ==> (#[trigger] rx[k]).ssrc != ssrc) ==> repairs_of(
            rx,
            ssrc,
        ) is None,
{
    law_receivers_are_found(rx, ssrc, Rid(0), None, i);
}

/// What a read gives out of a sample is the sample: its data, its time and how its packets arrived,
/// with the m-line, the payload type and the encoding it came under and the codec. An error comes
/// out as an error, with the m-line and the payload type.
pub proof fn law_read_gives_the_sample(
    m: MediaModel,
    r: Result<MediaData, RtcError>,
    sample: Result<Depacketized, PacketError>,
    key: (Pt, Option<Rid>),
    codec: CodecParams,
)
    requires
        m.hands_out(r, sample, key, codec),
    ensures
        match sample {
            Ok(dep) => {
                &&& r matches Ok(d)
                &&& d.data@ == dep.data@
                &&& d.time == dep.time
                &&& d.meta@ == dep.meta@
                &&& d.mid == m.mid
                &&& d.pt == key.0
                &&& d.rid == key.1
                &&& d.codec == codec
            },
            Err(e) => r matches Err(RtcError::Packet(mid, pt, reason)) && mid == m.mid && pt
                == key.0 && reason.reason@ == e.reason@,
        },
{
}

/// A sample that was put into its buffer with nothing else waiting is what the next read gives out,
/// with the data, the time and the arrivals that were put in, where its payload type is negotiated.
pub proof fn law_pushed_sample_is_read(
    m: MediaModel,
    key: (Pt, Option<Rid>),
    codec: Codec,
    dep: Depacketized,
    c: int,
    r: Result<MediaData, RtcError>,
)
    requires
        m.wf(),
        forall|i: int|
            0 <= i < m.buffers_rx.len() ==> (#[trigger] m.buffers_rx[i]).1.ready.len() == 0,
        codec_at(m.params, key.0, c),
        ({
            let got = m.received(key, codec, Ok(dep));
            let b = first(got.buffers_rx, filled())->0;
            let from = got.buffers_rx[b].0;
            let params = got.params[first(got.params, params_for(from.0))->0];
            got.hands_out(r, got.buffers_rx[b].1.ready[0], from, params)
        }),
    ensures
        r matches Ok(d) && d.data@ == dep.data@ && d.time == dep.time && d.meta@ == dep.meta@
            && d.mid == m.mid && d.pt == key.0 && d.rid == key.1 && d.codec == m.params[c],
{
    let got = m.received(key, codec, Ok(dep));
    law_samples_and_codecs_are_found(m.buffers_rx, m.params, key.0, key.1, 0);
    law_samples_and_codecs_are_found(got.buffers_rx, got.params, key.0, key.1, c);
    law_sample_is_read_back(m, key.0, key.1, codec, Ok(dep));
    let b = first(got.buffers_rx, filled())->0;
    law_read_gives_the_sample(got, r, got.buffers_rx[b].1.ready[0], key, got.params[c]);
}

/// A read takes the oldest sample out of the first buffer with one, and changes nothing else.
/// Without one it changes nothing.
pub proof fn law_read_takes_one_sample(m: MediaModel, b: int)
    ensures
        ({
            let after = m.sample_taken();
            let ready = m.buffers_rx[b].1.ready;
            &&& after == (MediaModel { buffers_rx: after.buffers_rx, ..m })
            &&& filled_buffer_at(m.buffers_rx, b) ==> {
                let left = after.buffers_rx[b].1;
                &&& after.buffers_rx.len() == m.buffers_rx.len()
                &&& forall|i: int|
                    0 <= i < m.buffers_rx.len() && i != b ==> #[trigger] after.buffers_rx[i]
                        == m.buffers_rx[i]
                &&& after.buffers_rx[b].0 == m.buffers_rx[b].0
                &&& left.codec == m.buffers_rx[b].1.codec
                &&& left.hold_back == m.buffers_rx[b].1.hold_back
                &&& left.ready.len() == ready.len() - 1
                &&& forall|i: int|
                    0 <= i < ready.len() - 1 ==> #[trigger] left.ready[i] == ready[i + 1]
            }
            &&& (forall|i: int|
                0 <= i < m.buffers_rx.len() ==> (#[trigger] m.buffers_rx[i]).1.ready.len() == 0)
                ==> after == m
        }),
{
    law_samples_and_codecs_are_found(m.buffers_rx, m.params, Pt(0), None, b);
}

/// There is one buffer for a payload type and encoding after it was asked for: the one that there
/// was, in its place, or a new one behind the others, without samples and for the codec that was
/// named. The others are as before.
pub proof fn law_receive_buffer_comes_up(
    buffers: Seq<((Pt, Option<Rid>), RxBufferModel)>,
    pt: Pt,
    rid: Option<Rid>,
    codec: Codec,
    i: int,
)
    ensures
        ({
            let after = with_buffer_rx(buffers, (pt, rid), codec);
            let k = buffer_rx_slot(buffers, (pt, rid));
            &&& receive_buffer_at(buffers, pt, rid, i) ==> after == buffers && k == i
            &&& (forall|j: int|
                0 <= j < buffers.len() ==> (#[trigger] buffers[j]).0 != (pt, rid)) ==> {
                &&& k == buffers.len()
                &&& after.len() == buffers.len() + 1
                &&& forall|j: int| 0 <= j < buffers.len() ==> #[trigger] after[j] == buffers[j]
                &&& after[k].0 == (pt, rid)
                &&& after[k].1.codec == codec
                &&& after[k].1.hold_back == 30
                &&& after[k].1.ready.len() == 0
            }
        }),
{
    law_samples_and_codecs_are_found(buffers, Seq::empty(), pt, rid, i);
}

/// A sample that is put in changes the buffer of its payload type and encoding by one sample at the
/// end, and nothing else but that the buffer may be new.
pub proof fn law_received_sample_changes_one_buffer(
    m: MediaModel,
    pt: Pt,
    rid: Option<Rid>,
    codec: Codec,
    sample: Result<Depacketized, PacketError>,
)
    ensures
        ({
            let before = with_buffer_rx(m.buffers_rx, (pt, rid), codec);
            let k = buffer_rx_slot(m.buffers_rx, (pt, rid));
            let after = m.received((pt, rid), codec, sample);
            &&& after == (MediaModel { buffers_rx: after.buffers_rx, ..m })
            &&& after.buffers_rx.len() == before.len()
            &&& forall|j: int|
                0 <= j < before.len() && j != k ==> #[trigger] after.buffers_rx[j] == before[j]
            &&& after.buffers_rx[k].0 == (pt, rid)
            &&& after.buffers_rx[k].1.ready == before[k].1.ready.push(sample)
            &&& after.buffers_rx[k].1.codec == before[k].1.codec
            &&& after.buffers_rx[k].1.hold_back == before[k].1.hold_back
        }),
{
    lemma_first(m.buffers_rx, rx_buffer_for((pt, rid)));
}

/// The codec of a packet is the first whose payload type, or whose payload type for resends, the
/// packet comes under.
pub proof fn law_codec_of_a_packet(params: Seq<CodecParams>, pt: Pt, i: int)
    ensures
        first(params, params_carrying(pt)) == Some(i) <==> carrier_at(params, pt, i),
        first(params, params_carrying(pt)) is None ==> forall|j: int|
            0 <= j < params.len() ==> (#[trigger] params[j]).pt != pt && params[j].resend != Some(
                pt,
            ),
{
    law_samples_and_codecs_are_found(Seq::empty(), params, pt, None, i);
}

/// The codec that matches best has a score that none exceeds, and none behind it reaches.
pub proof fn law_best_match(scores: Seq<u64>, last: int, i: int)
    requires
        is_last_max(scores, last),
        0 <= i < scores.len(),
    ensures
        0 <= last < scores.len(),
        scores[i] <= scores[last],
        i > last ==> scores[i] < scores[last],
{
}

} // verus!
