//! What the operations on an m-line do, stated of every call: `r` is what a call returned, and an
//! m-line `media` is `old(media)` before it and `final(media)` after it.

use super::description::{
    last_line_at, law_codecs_outlive_a_description, law_description_leaves_the_rest,
    law_description_turns_the_direction, law_extensions_are_agreed, law_one_more_sender,
    law_packets_outlive_a_description, law_receiver_comes_up, law_samples_outlive_a_description,
    new_receiver, offered_again, receives, sends,
};
use super::incoming::{
    law_best_match, law_header_informs, law_read_gives_the_sample, law_read_takes_one_sample,
    law_receive_buffer_comes_up, law_receiver_is_told, law_repaired_ssrc, law_sender_is_told,
    law_sides_of_feedback, names,
};
use super::negotiation::{law_announced_receivers, law_offered_ssrcs_have_senders, mentioned};
use super::outgoing::{
    law_codec_of_a_writer, law_keyframe_goes_out, law_packets_of_a_sample,
    law_regular_feedback_holds, law_samples_taken_in, law_send_buffer_comes_up,
    law_what_new_reports_replace, law_when_regular_feedback_is_made, law_written_sample_is_buffered,
};
use super::places::{
    buffer_of_ssrc_at, carrier_at, codec_at, encoding_at, filled_buffer_at, law_known_ssrcs,
    law_receivers_are_found, law_samples_and_codecs_are_found, law_senders_are_found,
    main_receiver_at, main_sender_at, receive_buffer_at, receiver_at, send_buffer_at, sender_at,
    waiting_buffer_at,
};
use super::polling::{
    can_resend, carries, extended, law_nack_schedules_each_number, law_nothing_is_polled,
    law_resend_is_polled, law_waiting_packet_is_polled, resend_fits, sent_by,
};
use super::values::{law_layout_of_a_packet, law_new_line, law_when_things_are_due};
use crate::buffer_rx::{Depacketized, DepacketizingBuffer};
use crate::buffer_tx::sample_packets;
use crate::codec::{Codec, CodecParams};
use crate::error::{PacketError, RtcError};
use crate::ext::{Extension, Extensions};
use crate::header::RtpHeader;
use crate::ids::{MediaTime, Pt, Rid, SeqNo, Ssrc};
use crate::media::create::{added_all_tx, Identity};
use crate::media::feedback::{lasting, lost_feedback};
use crate::media::negotiate::announced;
use crate::media::receive::{is_last_max, MediaData};
use crate::media::sources::{lemma_rx_index, rx_index, rx_slot, with_rx};
use crate::media::wire::PolledPacket;
use crate::media::write::{MediaWriter, Splitting};
use crate::media::{has_rx, Media, MediaKind, MediaModel};
use crate::receiver::{ReceiverModel, ReceiverSource};
use crate::rtcp::{
    feedback_model, KeyframeRequestKind, ReceiverReport, Rtcp, RtcpFb, RtcpModel, SdesType,
    SenderReport,
};
use crate::sdp::{AddMedia, MediaLine, Simulcast};
use crate::sender::SenderSource;
use crate::time::Instant;
use std::collections::VecDeque;
use vstd::prelude::*;

verus! {

/// A poll hands out the first resend that can be answered: the packet that was sent under the number
/// asked for, by the sender of resends and under a number of this sender's own, which the header
/// carries. The number asked for is kept beside it. The count of the transport goes up by one.
pub proof fn law_call_poll_packet_resends(
    media: &mut Media,
    now: Instant,
    start: SeqNo,
    twcc: &mut u64,
    r: Option<PolledPacket>,
    k: int,
    b: int,
    q: int,
    j: int,
)
    requires
        call_ensures(Media::poll_packet, (media, now, start, twcc), r),
        0 <= k < old(media)@.resends.len(),
        resend_fits(old(media)@, old(media)@.resends[k], b, q, j),
        forall|i: int| 0 <= i < k ==> !can_resend(old(media)@, #[trigger] old(media)@.resends[i]),
    ensures
        r matches Some(p) && {
            let m = old(media)@;
            let after = final(media)@;
            &&& carries(p@, m.buffers_tx[b].1.packets[q], m.resends[k].pt, m.sources_tx[j], start)
            &&& extended(p@, m.mid, now, *old(twcc))
            &&& p.orig_seq_no == Some(m.resends[k].seq_no)
            &&& *final(twcc) == *old(twcc) + 1
            &&& sent_by(m.sources_tx, after.sources_tx, j, p.seq_no, now)
            &&& after == (MediaModel {
                resends: m.resends.skip(k + 1),
                sources_tx: after.sources_tx,
                ..m
            })
        },
{
    law_resend_is_polled(old(media)@, now, start, *old(twcc), k, b, q, j);
}

/// Where no resend can be answered, a poll hands out the packet that waits in front of the first
/// buffer in which one waits, under the number that the sender of its SSRC gives out next. The
/// packet is then known under this number. The count of the transport goes up by one.
pub proof fn law_call_poll_packet_sends(
    media: &mut Media,
    now: Instant,
    start: SeqNo,
    twcc: &mut u64,
    r: Option<PolledPacket>,
    b: int,
    j: int,
)
    requires
        call_ensures(Media::poll_packet, (media, now, start, twcc), r),
        forall|i: int|
            0 <= i < old(media)@.resends.len() ==> !can_resend(
                old(media)@,
                #[trigger] old(media)@.resends[i],
            ),
        waiting_buffer_at(old(media)@.buffers_tx, b),
        0 <= old(media)@.buffers_tx[b].1.next,
        sender_at(
            old(media)@.sources_tx,
            old(media)@.buffers_tx[b].1.packets[old(media)@.buffers_tx[b].1.next].ssrc,
            j,
        ),
    ensures
        r matches Some(p) && {
            let m = old(media)@;
            let after = final(media)@;
            let buffer = m.buffers_tx[b].1;
            let packet = buffer.packets[buffer.next];
            let later = after.buffers_tx[b].1;
            &&& carries(p@, packet, m.buffers_tx[b].0, m.sources_tx[j], start)
            &&& extended(p@, m.mid, now, *old(twcc))
            &&& p.orig_seq_no is None
            &&& *final(twcc) == *old(twcc) + 1
            &&& sent_by(m.sources_tx, after.sources_tx, j, p.seq_no, now)
            &&& after.resends.len() == 0
            &&& later.next == buffer.next + 1
            &&& later.packets[buffer.next].seq_no == Some(p.seq_no)
            &&& later.packets[buffer.next].data == packet.data
            &&& forall|i: int|
                0 <= i < buffer.packets.len() && i != buffer.next ==> #[trigger] later.packets[i]
                    == buffer.packets[i]
            &&& forall|i: int|
                0 <= i < m.buffers_tx.len() && i != b ==> #[trigger] after.buffers_tx[i]
                    == m.buffers_tx[i]
            &&& after == (MediaModel {
                resends: after.resends,
                sources_tx: after.sources_tx,
                buffers_tx: after.buffers_tx,
                ..m
            })
        },
{
    law_waiting_packet_is_polled(old(media)@, now, start, *old(twcc), b, j);
}

/// Where no resend can be answered and no packet waits, a poll hands out nothing, counts nothing and
/// only drops the requests for resends.
pub proof fn law_call_poll_packet_finds_nothing(
    media: &mut Media,
    now: Instant,
    start: SeqNo,
    twcc: &mut u64,
    r: Option<PolledPacket>,
)
    requires
        call_ensures(Media::poll_packet, (media, now, start, twcc), r),
        forall|i: int|
            0 <= i < old(media)@.resends.len() ==> !can_resend(
                old(media)@,
                #[trigger] old(media)@.resends[i],
            ),
        forall|i: int|
            0 <= i < old(media)@.buffers_tx.len() ==> (#[trigger] old(media)@.buffers_tx[i]).1.next
                >= old(media)@.buffers_tx[i].1.packets.len(),
    ensures
        r is None,
        *final(twcc) == *old(twcc),
        final(media)@ == (MediaModel { resends: Seq::empty(), ..old(media)@ }),
{
    law_nothing_is_polled(old(media)@, now, start);
}

/// The bytes that are written for a packet stand behind its header: for a resend the two bytes of
/// its original number, then the whole payload. The rest of the buffer is as before.
pub proof fn law_call_write_body(
    p: &PolledPacket,
    buf: &mut Vec<u8>,
    header_len: usize,
    body_len: usize,
    i: int,
)
    requires
        call_ensures(PolledPacket::write_body, (p, buf, header_len), body_len),
        header_len + p@.body_len() <= old(buf)@.len(),
    ensures
        ({
            let extra: int = if p.orig_seq_no is Some {
                2
            } else {
                0
            };
            let at = header_len + extra;
            &&& body_len == extra + p.data@.len()
            &&& final(buf)@.len() == old(buf)@.len()
            &&& 0 <= i < header_len ==> final(buf)@[i] == old(buf)@[i]
            &&& p.orig_seq_no matches Some(n) ==> {
                let (high, low) = (final(buf)@[header_len as int], final(buf)@[header_len + 1]);
                high * 256 + low == n.0 % 0x1_0000
            }
            &&& 0 <= i < p.data@.len() ==> final(buf)@[at + i] == p.data@[i]
            &&& at + p.data@.len() <= i < old(buf)@.len() ==> final(buf)@[i] == old(buf)@[i]
        }),
{
    law_layout_of_a_packet(p@, old(buf)@, header_len as int, 0, i);
}

/// A write is an error where the payload type has no codec, is ignored while the m-line does not
/// send, and is an error where the encoding has no sender of its own. In none of these cases
/// anything changes.
pub proof fn law_call_write_refused(
    w: &mut MediaWriter<'_>,
    ts: MediaTime,
    sample: Result<Vec<Vec<u8>>, PacketError>,
    r: Result<usize, RtcError>,
)
    requires
        call_ensures(MediaWriter::write, (w, ts, sample), r),
    ensures
        ({
            let m = old(w).media@;
            let unsent = forall|j: int|
                0 <= j < m.sources_tx.len() ==> (#[trigger] m.sources_tx[j]).rid != old(w).rid
                    || m.sources_tx[j].repairs is Some;
            &&& old(w).codec is None ==> r == Err::<usize, RtcError>(
                RtcError::UnknownPt(old(w).pt),
            ) && final(w).media@ == m
            &&& old(w).codec is Some && !sends(m.dir) ==> r == Ok::<usize, RtcError>(10_000)
                && final(w).media@ == m
            &&& old(w).codec is Some && sends(m.dir) && unsent ==> r == Err::<usize, RtcError>(
                RtcError::NoSenderSource,
            ) && final(w).media@ == m
        }),
{
    law_senders_are_found(old(w).media@.sources_tx, Ssrc(0), old(w).rid, 0);
}

/// A write of a sample that could not be split is that error, with the m-line and the payload type.
/// Nothing changes but that there is a buffer for the payload type.
pub proof fn law_call_write_failed(
    w: &mut MediaWriter<'_>,
    ts: MediaTime,
    e: PacketError,
    r: Result<usize, RtcError>,
    j: int,
    i: int,
)
    requires
        call_ensures(MediaWriter::write, (w, ts, Err::<Vec<Vec<u8>>, PacketError>(e)), r),
        old(w).codec is Some,
        sends(old(w).media@.dir),
        main_sender_at(old(w).media@.sources_tx, old(w).rid, j),
    ensures
        ({
            let m = old(w).media@;
            let after = final(w).media@;
            &&& r == Err::<usize, RtcError>(RtcError::Packet(m.mid, old(w).pt, e))
            &&& after == (MediaModel { buffers_tx: after.buffers_tx, ..m })
            &&& send_buffer_at(m.buffers_tx, old(w).pt, i) ==> after == m
            &&& (forall|k: int|
                0 <= k < m.buffers_tx.len() ==> (#[trigger] m.buffers_tx[k]).0 != old(w).pt) ==> {
                let new = after.buffers_tx.last();
                &&& after.buffers_tx.len() == m.buffers_tx.len() + 1
                &&& new.0 == old(w).pt
                &&& new.1.packets.len() == 0
            }
        }),
{
    let m = old(w).media@;
    law_senders_are_found(m.sources_tx, Ssrc(0), old(w).rid, j);
    law_send_buffer_comes_up(m, old(w).pt, old(w).codec->0, i);
}

/// A write of a sample puts its payloads, one packet each and in order, behind the packets of its
/// payload type, under the SSRC of the first sender of the encoding that does not resend. Only the
/// last is marked. The latest packets stay, as many as are retained, which is 4096 of audio and 2048
/// of anything else in a new buffer. What is returned is how many more fit.
pub proof fn law_call_write(
    w: &mut MediaWriter<'_>,
    ts: MediaTime,
    chunks: Vec<Vec<u8>>,
    r: Result<usize, RtcError>,
    j: int,
    k: int,
    i: int,
)
    requires
        call_ensures(MediaWriter::write, (w, ts, Ok::<Vec<Vec<u8>>, PacketError>(chunks)), r),
        old(w).media@.wf(),
        old(w).codec is Some,
        sends(old(w).media@.dir),
        main_sender_at(old(w).media@.sources_tx, old(w).rid, j),
        send_buffer_at(old(w).media@.buffers_tx, old(w).pt, k) || k
            == old(w).media@.buffers_tx.len() && forall|b: int|
            0 <= b < k ==> (#[trigger] old(w).media@.buffers_tx[b]).0 != old(w).pt,
    ensures
        ({
            let m = old(w).media@;
            let after = final(w).media@;
            let known = k < m.buffers_tx.len();
            let had = if known {
                m.buffers_tx[k].1.packets
            } else {
                Seq::empty()
            };
            let retain: int = if known {
                m.buffers_tx[k].1.max_retain
            } else if old(w).codec == Some(Codec::Opus) {
                4096
            } else {
                2048
            };
            let total = had.len() + chunks@.len();
            let left = after.buffers_tx[k].1.packets;
            let gone = total - left.len();
            &&& after == (MediaModel { buffers_tx: after.buffers_tx, ..m })
            &&& after.buffers_tx.len() == if known {
                m.buffers_tx.len()
            } else {
                m.buffers_tx.len() + 1
            }
            &&& forall|b: int|
                0 <= b < m.buffers_tx.len() && b != k ==> #[trigger] after.buffers_tx[b]
                    == m.buffers_tx[b]
            &&& after.buffers_tx[k].0 == old(w).pt
            &&& left.len() == if total <= retain {
                total as int
            } else {
                retain
            }
            &&& r matches Ok(n) && n == retain - left.len()
            &&& gone <= i < had.len() ==> left[i - gone] == had[i]
            &&& 0 <= i < chunks@.len() && gone <= had.len() + i ==> {
                let p = left[had.len() + i - gone];
                &&& p.data == chunks@[i]@
                &&& p.ts == ts
                &&& p.ssrc == m.sources_tx[j].ssrc
                &&& p.rid == old(w).rid
                &&& p.last <==> i == chunks@.len() - 1
                &&& p.seq_no is None
            }
        }),
{
    let m = old(w).media@;
    let codec = old(w).codec->0;
    let rid = old(w).rid;
    law_senders_are_found(m.sources_tx, Ssrc(0), rid, j);
    law_send_buffer_comes_up(m, old(w).pt, codec, k);
    law_written_sample_is_buffered(m, old(w).pt, rid, codec, ts, chunks@, j);
    law_packets_of_a_sample(ts, chunks@, m.sources_tx[j].ssrc, rid, i);
    let after = final(w).media@;
    let old_b = m.buffering(old(w).pt, codec).buffers_tx[k].1;
    let new = sample_packets(ts, chunks@, m.sources_tx[j].ssrc, rid);
    let left = after.buffers_tx[k].1.packets;
    let all = old_b.packets + new;
    let gone = all.len() - left.len();
    if gone <= i < old_b.packets.len() {
        assert(left[i - gone] == all[i - gone + gone]);
    }
    if 0 <= i < chunks@.len() && gone <= old_b.packets.len() + i {
        let at = old_b.packets.len() + i;
        assert(left[at - gone] == all[at - gone + gone]);
        assert(all[at] == new[i]);
    }
}

/// A sample is to be split if and only if a write would take it in: for the payload type and the
/// codec of the writer, and to as many bytes as a datagram leaves beside what encryption adds.
pub proof fn law_call_splitting(
    w: &MediaWriter<'_>,
    mtu: usize,
    overhead: usize,
    r: Option<Splitting>,
)
    requires
        call_ensures(MediaWriter::splitting, (w, mtu, overhead), r),
        overhead <= mtu,
    ensures
        r is Some <==> w.codec is Some && sends(old(w.media)@.dir) && exists|j: int|
            main_sender_at(old(w.media)@.sources_tx, w.rid, j),
        r matches Some(s) ==> s.pt == w.pt && w.codec == Some(s.codec) && s.limit + overhead == mtu,
{
    law_samples_taken_in(old(w.media)@, w.rid);
}

/// A finished packet is the first bytes of its buffer: as many as header, original number of a
/// resend, payload and padding have. Its header knows how long it is, and its number is handed out
/// beside it.
pub proof fn law_call_finish(
    p: PolledPacket,
    buf: Vec<u8>,
    header_len: usize,
    pad_len: usize,
    r: (RtpHeader, Vec<u8>, SeqNo),
    i: int,
)
    requires
        call_ensures(PolledPacket::finish, (p, buf, header_len, pad_len), r),
        ({
            let extra: int = if p.orig_seq_no is Some {
                2
            } else {
                0
            };
            header_len + extra + p.data@.len() + pad_len <= buf@.len()
        }),
    ensures
        ({
            let extra: int = if p.orig_seq_no is Some {
                2
            } else {
                0
            };
            &&& r.1@.len() == header_len + extra + p.data@.len() + pad_len
            &&& 0 <= i < r.1@.len() ==> r.1@[i] == buf@[i]
            &&& r.0 == (RtpHeader { header_len, ..p.header })
            &&& r.2 == p.seq_no
        }),
{
    law_layout_of_a_packet(p@, buf@, header_len as int, pad_len as int, 0);
}

/// A request for lost packets is taken up where the first buffer with packets of the SSRC begins
/// with one that was sent. It schedules one resend for each number, in order, behind the others,
/// under the payload type of this buffer. Nothing else changes.
pub proof fn law_call_handle_nack(
    media: &mut Media,
    ssrc: Ssrc,
    lost: Vec<SeqNo>,
    r: Option<()>,
    b: int,
    i: int,
)
    requires
        call_ensures(Media::handle_nack, (media, ssrc, lost), r),
    ensures
        ({
            let m = old(media)@;
            let after = final(media)@;
            let n = m.resends.len();
            let oldest = m.buffers_tx[b].1.packets[0].seq_no;
            &&& after == (MediaModel { resends: after.resends, ..m })
            &&& buffer_of_ssrc_at(m.buffers_tx, ssrc, b) && oldest is Some ==> {
                &&& r is Some
                &&& after.resends.len() == n + lost@.len()
                &&& 0 <= i < n ==> after.resends[i] == m.resends[i]
                &&& 0 <= i < lost@.len() ==> {
                    &&& after.resends[n + i].ssrc == ssrc
                    &&& after.resends[n + i].pt == m.buffers_tx[b].0
                    &&& after.resends[n + i].seq_no == lost@[i]
                }
            }
            &&& buffer_of_ssrc_at(m.buffers_tx, ssrc, b) && oldest is None ==> r is None && after
                == m
            &&& (forall|k: int| !buffer_of_ssrc_at(m.buffers_tx, ssrc, k)) ==> r is None && after
                == m
        }),
{
    law_nack_schedules_each_number(old(media)@, ssrc, lost@, b);
}

/// Feedback about something that this side receives does what
/// [`Media::handle_rtcp_fb_rx`] does, and changes nothing but receivers.
pub proof fn law_call_handle_rtcp_fb_about_what_is_received(
    media: &mut Media,
    now: Instant,
    fb: RtcpFb,
    r: Option<()>,
    ssrc: Ssrc,
    i: int,
)
    requires
        call_ensures(Media::handle_rtcp_fb, (media, now, fb), r) && (fb is SenderInfo || fb
            is SourceDescription || fb is Goodbye) || call_ensures(
            Media::handle_rtcp_fb_rx,
            (media, now, fb),
            r,
        ),
        names(fb, ssrc),
    ensures
        ({
            let m = old(media)@;
            let after = final(media)@;
            &&& after == (MediaModel { sources_rx: after.sources_rx, ..m })
            &&& receiver_at(m.sources_rx, ssrc, i) ==> {
                &&& r is Some <==> match fb {
                    RtcpFb::SourceDescription(d) => forall|k: int|
                        0 <= k < d.values@.len() ==> (#[trigger] d.values@[k]).0 != SdesType::CNAME,
                    _ => true,
                }
                &&& after.sources_rx.len() == m.sources_rx.len()
                &&& forall|k: int|
                    0 <= k < m.sources_rx.len() && k != i ==> #[trigger] after.sources_rx[k]
                        == m.sources_rx[k]
                &&& match fb {
                    RtcpFb::SenderInfo(v) => after.sources_rx[i] == (ReceiverModel {
                        sender_info: Some(v),
                        sender_info_at: Some(now),
                        ..m.sources_rx[i]
                    }),
                    _ => after == m,
                }
            }
            &&& (forall|k: int|
                0 <= k < m.sources_rx.len() ==> (#[trigger] m.sources_rx[k]).ssrc != ssrc)
                ==> r is None && after == m
        }),
{
    law_sides_of_feedback(fb, ssrc);
    law_receiver_is_told(old(media)@, now, fb, ssrc, i);
}

/// Feedback about something that this side sends does what [`Media::handle_rtcp_fb_tx`] does: it
/// notes a request for a keyframe with its kind and the encoding of the sender that it names, or
/// schedules one resend for each number that is reported lost, in order. Nothing else changes, and
/// nothing at all where there is no such sender.
pub proof fn law_call_handle_rtcp_fb_about_what_is_sent(
    media: &mut Media,
    now: Instant,
    fb: RtcpFb,
    r: Option<()>,
    ssrc: Ssrc,
    i: int,
    b: int,
)
    requires
        call_ensures(Media::handle_rtcp_fb, (media, now, fb), r) && (fb is ReceptionReport || fb
            is Nack || fb is Pli || fb is Fir || fb is Twcc) || call_ensures(
            Media::handle_rtcp_fb_tx,
            (media, now, fb),
            r,
        ),
        names(fb, ssrc),
    ensures
        ({
            let m = old(media)@;
            let after = final(media)@;
            let n = m.resends.len();
            &&& after == (MediaModel {
                resends: after.resends,
                keyframe_request_rx: after.keyframe_request_rx,
                ..m
            })
            &&& sender_at(m.sources_tx, ssrc, i) ==> match fb {
                RtcpFb::Pli(_) => {
                    &&& r is Some
                    &&& after.resends == m.resends
                    &&& after.keyframe_request_rx == Some(
                        (m.sources_tx[i].rid, KeyframeRequestKind::Pli),
                    )
                },
                RtcpFb::Fir(_) => {
                    &&& r is Some
                    &&& after.resends == m.resends
                    &&& after.keyframe_request_rx == Some(
                        (m.sources_tx[i].rid, KeyframeRequestKind::Fir),
                    )
                },
                RtcpFb::Nack(_, lost) => {
                    let oldest = m.buffers_tx[b].1.packets[0].seq_no;
                    &&& after.keyframe_request_rx == m.keyframe_request_rx
                    &&& buffer_of_ssrc_at(m.buffers_tx, ssrc, b) && oldest is Some ==> {
                        &&& r is Some
                        &&& after.resends.len() == n + lost@.len()
                        &&& forall|k: int|
                            0 <= k < n ==> #[trigger] after.resends[k] == m.resends[k]
                        &&& forall|k: int|
                            0 <= k < lost@.len() ==> {
                                let s = after.resends[n + k];
                                &&& s.ssrc == ssrc
                                &&& s.pt == m.buffers_tx[b].0
                                &&& s.seq_no == #[trigger] lost@[k]
                            }
                    }
                    &&& buffer_of_ssrc_at(m.buffers_tx, ssrc, b) && oldest is None ==> r is None
                        && after == m
                    &&& (forall|k: int| !buffer_of_ssrc_at(m.buffers_tx, ssrc, k)) ==> r is None
                        && after == m
                },
                _ => r is Some && after == m,
            }
            &&& (forall|k: int|
                0 <= k < m.sources_tx.len() ==> (#[trigger] m.sources_tx[k]).ssrc != ssrc)
                ==> r is None && after == m
        }),
{
    law_sides_of_feedback(fb, ssrc);
    law_sender_is_told(old(media)@, fb, ssrc, i);
    if let RtcpFb::Nack(_, lost) = fb {
        law_nack_schedules_each_number(old(media)@, ssrc, lost@, b);
    }
}

/// A new description turns the direction round, drops samples only when receiving ends and packets
/// only when sending begins, keeps the codecs that are offered again, agrees on extensions with the
/// session and lets receivers come up for what it announces. Nothing else changes.
pub proof fn law_call_apply_changes(
    media: &mut Media,
    line: &MediaLine,
    accepted: &Vec<bool>,
    session_exts: &Extensions,
    r: (),
    id: u8,
    ext: Extension,
    ssrc: Ssrc,
)
    requires
        call_ensures(Media::apply_changes, (media, line, accepted, session_exts), r),
    ensures
        ({
            let m = old(media)@;
            let after = final(media)@;
            &&& sends(after.dir) <==> receives(line.dir)
            &&& receives(after.dir) <==> sends(line.dir)
            &&& if receives(m.dir) && !receives(after.dir) {
                after.buffers_rx.len() == 0
            } else {
                after.buffers_rx == m.buffers_rx
            }
            &&& if !sends(m.dir) && sends(after.dir) {
                after.buffers_tx.len() == 0
            } else {
                after.buffers_tx == m.buffers_tx
            }
            &&& after.params == m.params.filter(offered_again(*line, accepted@))
            &&& after.exts.contains_key(id) && after.exts[id] == ext <==> {
                &&& session_exts@.contains_key(id)
                &&& session_exts@[id] == ext
                &&& exists|i: int|
                    #[trigger] last_line_at(line.extmaps@, id, i) && line.extmaps@[i].ext == ext
            }
            &&& (exists|i: int| receiver_at(after.sources_rx, ssrc, i)) <==> (exists|i: int|
                receiver_at(m.sources_rx, ssrc, i)) || mentioned(line.ssrc_info@, ssrc)
            &&& after.sources_rx == announced(m.sources_rx, line.ssrc_info@)
            &&& after == (MediaModel {
                dir: after.dir,
                params: after.params,
                exts: after.exts,
                sources_rx: after.sources_rx,
                buffers_rx: after.buffers_rx,
                buffers_tx: after.buffers_tx,
                ..m
            })
        }),
{
    let m = old(media)@;
    let after = final(media)@;
    law_description_leaves_the_rest(m, *line, accepted@, session_exts@);
    law_description_turns_the_direction(m, *line, accepted@, session_exts@);
    law_samples_outlive_a_description(m, *line, accepted@, session_exts@);
    law_packets_outlive_a_description(m, *line, accepted@, session_exts@);
    law_codecs_outlive_a_description(m, *line, accepted@, session_exts@);
    law_extensions_are_agreed(m, *line, accepted@, session_exts@, id, ext);
    law_announced_receivers(m.sources_rx, line.ssrc_info@, ssrc);
    lemma_has_receiver(m.sources_rx, ssrc);
    lemma_has_receiver(after.sources_rx, ssrc);
}

/// A receiver exists if and only if there is a first.
proof fn lemma_has_receiver(rx: Seq<ReceiverModel>, ssrc: Ssrc)
    ensures
        has_rx(rx, ssrc) <==> exists|i: int| receiver_at(rx, ssrc, i),
{
    law_known_ssrcs(Seq::empty(), rx, ssrc);
    lemma_rx_index(rx, ssrc);
    if let Some(i) = rx_index(rx, ssrc) {
        law_receivers_are_found(rx, ssrc, Rid(0), None, i);
        assert(receiver_at(rx, ssrc, i));
    }
    if exists|i: int| receiver_at(rx, ssrc, i) {
        let i = choose|i: int| receiver_at(rx, ssrc, i);
        assert(rx[i].ssrc == ssrc);
    }
}

/// The receiver that is handed out for an SSRC is the first that has it, or a new one behind the
/// others. What is done to it is done to this receiver of the m-line, and to nothing else.
pub proof fn law_call_get_or_create_source_rx(
    media: &mut Media,
    ssrc: Ssrc,
    now: Instant,
    r: &mut ReceiverSource,
    k: int,
)
    requires
        call_ensures(Media::get_or_create_source_rx, (media, ssrc, now), r),
    ensures
        ({
            let m = old(media)@;
            let after = final(media)@;
            &&& after == (MediaModel { sources_rx: after.sources_rx, ..m })
            &&& receiver_at(m.sources_rx, ssrc, k) ==> {
                &&& old(r)@ == m.sources_rx[k]
                &&& after.sources_rx == m.sources_rx.update(k, final(r)@)
            }
            &&& (forall|i: int| !receiver_at(m.sources_rx, ssrc, i)) ==> {
                &&& new_receiver(old(r)@, ssrc, now)
                &&& after.sources_rx == m.sources_rx.push(final(r)@)
            }
        }),
{
    let rx = old(media)@.sources_rx;
    law_receiver_comes_up(rx, ssrc, now);
    law_receivers_are_found(rx, ssrc, Rid(0), None, k);
    if forall|i: int| !receiver_at(rx, ssrc, i) {
        assert(final(media)@.sources_rx =~= rx.push(final(r)@));
    }
}

/// The receiver of a packet is the first that has its SSRC, or a new one behind the others. If it is
/// to learn from the header, it learns the encoding that the header names, where it knew none, and
/// that it repairs the first receiver of the encoding whose repair the header names, where it knew
/// of none. It learns nothing else.
pub proof fn law_call_get_source_rx(
    media: &mut Media,
    header: &RtpHeader,
    now: Instant,
    learn: bool,
    r: &mut ReceiverSource,
    k: int,
    e: int,
)
    requires
        call_ensures(Media::get_source_rx, (media, header, now, learn), r),
    ensures
        ({
            let m = old(media)@;
            let after = final(media)@;
            let rid = header.ext_vals.rid;
            let s = old(r)@;
            &&& after == (MediaModel { sources_rx: after.sources_rx, ..m })
            &&& receiver_at(m.sources_rx, header.ssrc, k) ==> {
                let was = m.sources_rx[k];
                &&& after.sources_rx == m.sources_rx.update(k, final(r)@)
                &&& s == (ReceiverModel { rid: s.rid, repairs: s.repairs, ..was })
                &&& !learn ==> s == was
                &&& learn ==> s.rid == if was.rid is Some {
                    was.rid
                } else {
                    rid
                }
                &&& was.repairs is Some ==> s.repairs == was.repairs
                &&& learn && was.repairs is None ==> match header.ext_vals.rid_repair {
                    Some(id) => {
                        &&& encoding_at(m.sources_rx, id, e) ==> s.repairs == Some(
                            m.sources_rx[e].ssrc,
                        )
                        &&& (forall|i: int|
                            0 <= i < m.sources_rx.len() ==> (#[trigger] m.sources_rx[i]).rid
                                != Some(id)) ==> s.repairs is None
                    },
                    None => s.repairs is None,
                }
            }
            &&& (forall|i: int| !receiver_at(m.sources_rx, header.ssrc, i)) ==> {
                &&& after.sources_rx == m.sources_rx.push(final(r)@)
                &&& new_receiver(
                    ReceiverModel { rid: None, repairs: None, ..s },
                    header.ssrc,
                    now,
                )
                &&& s.rid == if learn {
                    rid
                } else {
                    None
                }
                &&& !learn ==> s.repairs is None
                &&& learn ==> match header.ext_vals.rid_repair {
                    Some(id) => {
                        &&& encoding_at(m.sources_rx, id, e) ==> s.repairs == Some(
                            m.sources_rx[e].ssrc,
                        )
                        &&& (forall|i: int|
                            0 <= i < m.sources_rx.len() ==> (#[trigger] m.sources_rx[i]).rid
                                != Some(id)) ==> s.repairs is None
                    },
                    None => s.repairs is None,
                }
            }
        }),
{
    let rx = old(media)@.sources_rx;
    law_receiver_comes_up(rx, header.ssrc, now);
    law_receivers_are_found(rx, header.ssrc, Rid(0), None, k);
    let all = with_rx(rx, header.ssrc, now);
    let slot = rx_slot(rx, header.ssrc);
    law_header_informs(all[slot], rx, *header, e);
    if forall|i: int| !receiver_at(rx, header.ssrc, i) {
        assert(final(media)@.sources_rx =~= rx.push(final(r)@));
    }
}

/// A read gives out the oldest sample of the first buffer with one, as it was put in, with the
/// m-line, the payload type and encoding it came under and the first codec of the payload type, or
/// the error in its place. Where the payload type has no codec it gives out nothing, and the sample
/// is gone all the same. Where no sample waits it gives out nothing and changes nothing.
pub proof fn law_call_poll_sample(
    media: &mut Media,
    r: Option<Result<MediaData, RtcError>>,
    b: int,
    c: int,
)
    requires
        call_ensures(Media::poll_sample, (media,), r),
    ensures
        ({
            let m = old(media)@;
            let after = final(media)@;
            let key = m.buffers_rx[b].0;
            let ready = m.buffers_rx[b].1.ready;
            &&& filled_buffer_at(m.buffers_rx, b) ==> {
                &&& after.buffers_rx.len() == m.buffers_rx.len()
                &&& after.buffers_rx[b].1.ready == ready.drop_first()
                &&& forall|i: int|
                    0 <= i < m.buffers_rx.len() && i != b ==> #[trigger] after.buffers_rx[i]
                        == m.buffers_rx[i]
            }
            &&& filled_buffer_at(m.buffers_rx, b) && codec_at(m.params, key.0, c) ==> match ready[0] {
                Ok(dep) => {
                    &&& r matches Some(Ok(d))
                    &&& d.data@ == dep.data@
                    &&& d.time == dep.time
                    &&& d.meta@ == dep.meta@
                    &&& d.mid == m.mid
                    &&& d.pt == key.0
                    &&& d.rid == key.1
                    &&& d.codec == m.params[c]
                },
                Err(e) => r matches Some(Err(RtcError::Packet(mid, pt, reason))) && mid == m.mid
                    && pt == key.0 && reason.reason@ == e.reason@,
            }
            &&& filled_buffer_at(m.buffers_rx, b) && (forall|i: int|
                0 <= i < m.params.len() ==> (#[trigger] m.params[i]).pt != key.0) ==> r is None
            &&& (forall|i: int|
                0 <= i < m.buffers_rx.len() ==> (#[trigger] m.buffers_rx[i]).1.ready.len() == 0)
                ==> r is None && after == m
            &&& after == (MediaModel { buffers_rx: after.buffers_rx, ..m })
        }),
{
    let m = old(media)@;
    let key = m.buffers_rx[b].0;
    law_read_takes_one_sample(m, b);
    law_samples_and_codecs_are_found(m.buffers_rx, m.params, key.0, key.1, b);
    law_samples_and_codecs_are_found(m.buffers_rx, m.params, key.0, key.1, c);
    if filled_buffer_at(m.buffers_rx, b) {
        assert(final(media)@.buffers_rx[b].1.ready =~= m.buffers_rx[b].1.ready.drop_first());
        if codec_at(m.params, key.0, c) {
            law_read_gives_the_sample(
                m,
                r->0,
                m.buffers_rx[b].1.ready[0],
                key,
                m.params[c],
            );
        }
    }
}

/// A keyframe that is asked for is pending, of the kind asked for, for the first receiver of the
/// encoding that does not itself get resends. Without one the call fails. Nothing else changes.
pub proof fn law_call_request_keyframe(
    media: &mut Media,
    rid: Option<Rid>,
    kind: KeyframeRequestKind,
    r: Result<(), RtcError>,
    i: int,
)
    requires
        call_ensures(Media::request_keyframe, (media, rid, kind), r),
    ensures
        main_receiver_at(old(media)@.sources_rx, rid, i) ==> r is Ok && final(media)@ == (
        MediaModel {
            keyframe_request_tx: Some((old(media)@.sources_rx[i].ssrc, kind)),
            ..old(media)@
        }),
        (forall|j: int|
            0 <= j < old(media)@.sources_rx.len() ==> (#[trigger] old(media)@.sources_rx[j]).rid
                != rid || old(media)@.sources_rx[j].repairs is Some) ==> r == Err::<(), RtcError>(
            RtcError::NoReceiverSource,
        ) && final(media)@ == old(media)@,
{
    law_receivers_are_found(old(media)@.sources_rx, Ssrc(0), Rid(0), rid, i);
}

/// A pending keyframe goes out as one message behind those that wait, of its kind and for its SSRC,
/// and is pending no more. A full intra request takes the number of its receiver, which counts on.
/// Nothing else changes.
pub proof fn law_call_maybe_create_keyframe_request(
    media: &mut Media,
    feedback: &mut VecDeque<Rtcp>,
    r: (),
    ssrc: Ssrc,
    i: int,
    k: int,
)
    requires
        call_ensures(Media::maybe_create_keyframe_request, (media, feedback), r),
    ensures
        ({
            let m = old(media)@;
            let after = final(media)@;
            let n = old(feedback)@.len();
            let out = feedback_model(final(feedback)@);
            &&& 0 <= k < n ==> out[k] == old(feedback)@[k]@
            &&& after == (MediaModel {
                keyframe_request_tx: None,
                sources_rx: after.sources_rx,
                ..m
            })
            &&& m.keyframe_request_tx is None ==> out.len() == n && after == m
            &&& m.keyframe_request_tx == Some((ssrc, KeyframeRequestKind::Pli)) ==> {
                &&& out.len() == n + 1
                &&& out[n as int] matches RtcpModel::Pli(p) && p.ssrc == ssrc
                &&& after.sources_rx == m.sources_rx
            }
            &&& m.keyframe_request_tx == Some((ssrc, KeyframeRequestKind::Fir)) && receiver_at(
                m.sources_rx,
                ssrc,
                i,
            ) ==> {
                &&& out.len() == n + 1
                &&& out[n as int] matches RtcpModel::Fir(reports) && reports.len() == 1
                    && reports[0].ssrc == ssrc && reports[0].seq_no == m.sources_rx[i].fir_seq_no
                &&& after.sources_rx.len() == m.sources_rx.len()
                &&& forall|j: int|
                    0 <= j < m.sources_rx.len() && j != i ==> #[trigger] after.sources_rx[j]
                        == m.sources_rx[j]
                &&& after.sources_rx[i] == (ReceiverModel {
                    fir_seq_no: after.sources_rx[i].fir_seq_no,
                    ..m.sources_rx[i]
                })
                &&& after.sources_rx[i].fir_seq_no == (m.sources_rx[i].fir_seq_no + 1) % 256
            }
        }),
{
    law_keyframe_goes_out(old(media)@, ssrc, i);
    let n = old(feedback)@.len() as int;
    if 0 <= k < n {
        assert(feedback_model(final(feedback)@)[k] == feedback_model(old(feedback)@)[k]);
    }
}

/// Messages other than the reports that are made anew at regular intervals.
pub open spec fn no_report() -> spec_fn(RtcpModel) -> bool {
    |r: RtcpModel| !(r is SenderReport) && !(r is ReceiverReport)
}

/// Regular feedback is made when there is a sender and its interval has passed: reports from before
/// go, all else that waits stays in its order, and behind it come, of each sender, its report and
/// its description, and, of each receiver, its report in the name of the first sender. The interval
/// then starts anew. Else nothing changes.
pub proof fn law_call_maybe_create_regular_feedback(
    media: &mut Media,
    now: Instant,
    feedback: &mut VecDeque<Rtcp>,
    sender_reports: Vec<SenderReport>,
    receiver_reports: Vec<ReceiverReport>,
    r: Option<()>,
    i: int,
)
    requires
        call_ensures(
            Media::maybe_create_regular_feedback,
            (media, now, feedback, sender_reports, receiver_reports),
            r,
        ),
    ensures
        ({
            let m = old(media)@;
            let kept = feedback_model(old(feedback)@).filter(no_report());
            let out = feedback_model(final(feedback)@);
            let tx = m.sources_tx;
            let n = kept.len() + 2 * tx.len();
            &&& r is Some <==> tx.len() > 0 && now.nanos - m.last_regular_feedback.nanos
                >= if m.kind == MediaKind::Audio {
                5_000_000_000
            } else {
                1_000_000_000int
            }
            &&& r is None ==> final(media)@ == m && final(feedback)@ == old(feedback)@
            &&& r is Some ==> {
                &&& final(media)@ == (MediaModel { last_regular_feedback: now, ..m })
                &&& out.len() == n + receiver_reports@.len()
                &&& 0 <= i < kept.len() ==> out[i] == kept[i]
                &&& 0 <= i < tx.len() ==> {
                    &&& out[kept.len() + 2 * i] == RtcpModel::SenderReport(sender_reports@[i])
                    &&& out[kept.len() + 2 * i + 1] matches RtcpModel::SourceDescription(d)
                        && d.ssrc == tx[i].ssrc && d.values.len() == 1 && d.values[0].0
                        == SdesType::CNAME && d.values[0].1 == m.cname
                }
                &&& 0 <= i < receiver_reports@.len() ==> (
                out[n + i] matches RtcpModel::ReceiverReport(v) && v.sender_ssrc == tx[0].ssrc
                    && v.report == receiver_reports@[i].report)
            }
        }),
{
    let m = old(media)@;
    law_when_regular_feedback_is_made(m, now);
    assert(lasting() =~= no_report()) by {
        assert forall|v: RtcpModel| #[trigger]
            lasting()(v) == no_report()(v) by {
            law_what_new_reports_replace(v);
        }
    }
    if r is Some {
        let kept = feedback_model(old(feedback)@).filter(no_report());
        let fresh = m.regular_feedback(sender_reports@, receiver_reports@);
        law_regular_feedback_holds(m, sender_reports@, receiver_reports@, i);
        assert(feedback_model(final(feedback)@) == kept + fresh);
        if 0 <= i < m.sources_tx.len() {
            assert((kept + fresh)[kept.len() + 2 * i] == fresh[2 * i]);
            assert((kept + fresh)[kept.len() + 2 * i + 1] == fresh[2 * i + 1]);
        }
        if 0 <= i < receiver_reports@.len() {
            let at = 2 * m.sources_tx.len() + i;
            assert((kept + fresh)[kept.len() + at] == fresh[at]);
        }
    }
}

/// A receiver has lost packets to report if and only if one has that does not itself get resends.
pub proof fn law_call_has_nack(media: &Media, lost: &Vec<bool>, r: bool)
    requires
        call_ensures(Media::has_nack, (media, lost), r),
    ensures
        r <==> exists|i: int|
            0 <= i < lost@.len() && (#[trigger] media@.sources_rx[i]).repairs is None && lost@[i],
{
    if r {
        let i = choose|i: int|
            0 <= i < lost@.len() && !(#[trigger] media@.sources_rx[i]).rtx() && lost@[i];
        assert(media@.sources_rx[i].repairs is None);
    }
    if exists|i: int|
        0 <= i < lost@.len() && (#[trigger] media@.sources_rx[i]).repairs is None && lost@[i] {
        let i = choose|i: int|
            0 <= i < lost@.len() && (#[trigger] media@.sources_rx[i]).repairs is None && lost@[i];
        assert(!media@.sources_rx[i].rtx());
    }
}

/// The codec that matches best is one whose score none exceeds, and that none behind it reaches.
/// There is one unless the m-line has no codec.
pub proof fn law_call_match_codec(media: &Media, scores: &Vec<u64>, r: Option<Pt>, i: int)
    requires
        call_ensures(Media::match_codec, (media, scores), r),
        0 <= i < scores@.len(),
        forall|j: int| 0 <= j <= i ==> #[trigger] scores@[j] <= scores@[i],
        forall|j: int| i < j < scores@.len() ==> #[trigger] scores@[j] < scores@[i],
        scores@.len() == media@.params.len(),
    ensures
        r == Some(media@.params[i].pt),
{
    let last = choose|last: int| #[trigger]
        is_last_max(scores@, last) && r->0 == media@.params[last].pt;
    law_best_match(scores@, last, i);
    assert(scores@[last] <= scores@[i]);
    if last != i {
        assert(scores@[i] <= scores@[last]);
    }
}

/// The codec of a packet is the first whose payload type, or whose payload type for resends, its
/// header carries.
pub proof fn law_call_get_params(
    media: &Media,
    header: &RtpHeader,
    r: Option<&CodecParams>,
    i: int,
)
    requires
        call_ensures(Media::get_params, (media, header), r),
    ensures
        carrier_at(media@.params, header.payload_type, i) ==> r == Some(&media@.params[i]),
        (forall|j: int|
            0 <= j < media@.params.len() ==> (#[trigger] media@.params[j]).pt
                != header.payload_type && media@.params[j].resend != Some(header.payload_type))
            ==> r is None,
{
    law_samples_and_codecs_are_found(Seq::empty(), media@.params, header.payload_type, None, i);
}

/// The codec of a payload type is the first that has it.
pub proof fn law_call_codec_by_pt(media: &Media, pt: Pt, r: Option<&CodecParams>, i: int)
    requires
        call_ensures(Media::codec_by_pt, (media, pt), r),
    ensures
        codec_at(media@.params, pt, i) ==> r == Some(&media@.params[i]),
        (forall|j: int| 0 <= j < media@.params.len() ==> (#[trigger] media@.params[j]).pt != pt)
            ==> r is None,
{
    law_samples_and_codecs_are_found(Seq::empty(), media@.params, pt, None, i);
}

/// Whether there is a sender or a receiver for an SSRC, and which SSRC a receiver repairs, is what
/// the first of them with the SSRC says.
pub proof fn law_call_look_up_an_ssrc(
    media: &Media,
    ssrc: Ssrc,
    tx: bool,
    rx: bool,
    repaired: Option<Ssrc>,
    i: int,
)
    requires
        call_ensures(Media::has_ssrc_tx, (media, ssrc), tx),
        call_ensures(Media::has_ssrc_rx, (media, ssrc), rx),
        call_ensures(Media::get_repaired_rx_ssrc, (media, ssrc), repaired),
    ensures
        tx <==> !(forall|j: int|
            0 <= j < media@.sources_tx.len() ==> (#[trigger] media@.sources_tx[j]).ssrc != ssrc),
        rx <==> !(forall|j: int|
            0 <= j < media@.sources_rx.len() ==> (#[trigger] media@.sources_rx[j]).ssrc != ssrc),
        receiver_at(media@.sources_rx, ssrc, i) ==> repaired == media@.sources_rx[i].repairs,
        !rx ==> repaired is None,
{
    law_known_ssrcs(media@.sources_tx, media@.sources_rx, ssrc);
    law_repaired_ssrc(media@.sources_rx, ssrc, i);
}

/// Cleanup is due ten seconds after the last, and regular feedback five seconds after the last for
/// audio and one second after it for video.
pub proof fn law_call_timers(media: &Media, at: Option<Instant>, cleanup: Instant, feedback: Instant)
    requires
        call_ensures(Media::poll_timeout, (media,), at),
        call_ensures(Media::cleanup_at, (media,), cleanup),
        call_ensures(Media::regular_feedback_at, (media,), feedback),
    ensures
        at == Some(cleanup),
        cleanup.nanos - media@.last_cleanup.nanos == 10_000_000_000,
        feedback.nanos - media@.last_regular_feedback.nanos == if media@.kind
            == MediaKind::Audio {
            5_000_000_000
        } else {
            1_000_000_000int
        },
{
    law_when_things_are_due(media@);
}

/// A writer is for the payload type and encoding it was asked for, with the first codec of the
/// payload type, and writes to this m-line.
pub proof fn law_call_get_writer<'a>(
    media: &'a mut Media,
    pt: Pt,
    rid: Option<Rid>,
    w: MediaWriter<'a>,
    i: int,
)
    requires
        call_ensures(Media::get_writer, (media, pt, rid), w),
    ensures
        *old(w.media) == *old(media),
        *final(w.media) == *final(media),
        w.pt == pt,
        w.rid == rid,
        codec_at(old(media)@.params, pt, i) ==> w.codec == Some(old(media)@.params[i].codec),
        (forall|j: int|
            0 <= j < old(media)@.params.len() ==> (#[trigger] old(media)@.params[j]).pt != pt)
            ==> w.codec is None,
{
    law_codec_of_a_writer(old(media)@, pt, i);
}

/// What is reported lost is what each receiver has to report that does not itself get resends,
/// behind the messages that wait: as many messages come to them as there are such receivers with
/// something to report.
pub proof fn law_call_create_nack(
    media: &Media,
    feedback: &mut VecDeque<Rtcp>,
    nacks: Vec<Option<Rtcp>>,
    r: (),
    i: int,
)
    requires
        call_ensures(Media::create_nack, (media, feedback, nacks), r),
        nacks@.len() == media@.sources_rx.len(),
    ensures
        ({
            let before = feedback_model(old(feedback)@);
            let after = feedback_model(final(feedback)@);
            let rx = media@.sources_rx;
            &&& after == before + lost_feedback(rx, nacks@)
            &&& before.len() <= after.len()
            &&& 0 <= i < before.len() ==> after[i] == before[i]
            &&& 0 <= i < nacks@.len() && nacks@[i] is Some && rx[i].repairs is None ==> after.skip(
                before.len() as int,
            ).contains(nacks@[i]->0@)
            &&& (forall|k: int|
                0 <= k < nacks@.len() ==> nacks@[k] is None || (#[trigger] rx[k]).repairs is Some)
                ==> after == before
            &&& after.len() <= before.len() + nacks@.len()
        }),
{
    let before = feedback_model(old(feedback)@);
    let after = feedback_model(final(feedback)@);
    let lost = lost_feedback(media@.sources_rx, nacks@);
    lemma_reported(media@.sources_rx, nacks@, i);
    assert(after.skip(before.len() as int) =~= lost);
    if lost.len() == 0 {
        assert(after =~= before);
    }
}

/// What each of the first receivers has to report is among what they report.
proof fn lemma_reported(rx: Seq<ReceiverModel>, nacks: Seq<Option<Rtcp>>, i: int)
    requires
        nacks.len() <= rx.len(),
    ensures
        lost_feedback(rx, nacks).len() <= nacks.len(),
        0 <= i < nacks.len() && nacks[i] is Some && rx[i].repairs is None ==> lost_feedback(
            rx,
            nacks,
        ).contains(nacks[i]->0@),
        (forall|k: int|
            0 <= k < nacks.len() ==> nacks[k] is None || (#[trigger] rx[k]).repairs is Some)
            ==> lost_feedback(rx, nacks).len() == 0,
    decreases nacks.len(),
{
    if nacks.len() > 0 {
        let rest = nacks.drop_last();
        let n = rest.len() as int;
        lemma_reported(rx, rest, i);
        let some = lost_feedback(rx, rest);
        let all = lost_feedback(rx, nacks);
        if 0 <= i < n && nacks[i] is Some && rx[i].repairs is None {
            assert(rest[i] == nacks[i]);
            let k = choose|k: int| 0 <= k < some.len() && some[k] == nacks[i]->0@;
            assert(all[k] == some[k]);
        }
        if i == n && nacks[n] is Some && rx[n].repairs is None {
            assert(all[some.len() as int] == nacks[n]->0@);
        }
        if forall|k: int|
            0 <= k < nacks.len() ==> nacks[k] is None || (#[trigger] rx[k]).repairs is Some {
            assert forall|k: int| 0 <= k < n implies rest[k] is None || (
            #[trigger] rx[k]).repairs is Some by {
                assert(rest[k] == nacks[k]);
            }
            assert(nacks[n] is None || rx[n].repairs is Some);
        }
    }
}

/// A sender that is added is the first with its SSRC, or a new one behind the others that has sent
/// nothing. It repairs what it did, or else what is said. Nothing else changes.
pub proof fn law_call_maybe_add_source_tx(
    media: &mut Media,
    ssrc: Ssrc,
    repairs: Option<Ssrc>,
    r: (),
    i: int,
)
    requires
        call_ensures(Media::maybe_add_source_tx, (media, ssrc, repairs), r),
    ensures
        ({
            let tx = old(media)@.sources_tx;
            let after = final(media)@.sources_tx;
            let known = exists|j: int| 0 <= j < tx.len() && (#[trigger] tx[j]).ssrc == ssrc;
            &&& final(media)@ == (MediaModel { sources_tx: after, ..old(media)@ })
            &&& known ==> after.len() == tx.len()
            &&& 0 <= i < tx.len() && tx[i].ssrc != ssrc ==> after[i] == tx[i]
            &&& sender_at(tx, ssrc, i) ==> {
                &&& after[i] == (SenderSource { repairs: after[i].repairs, ..tx[i] })
                &&& after[i].repairs == if tx[i].repairs is Some {
                    tx[i].repairs
                } else {
                    repairs
                }
            }
            &&& !known ==> {
                let new = after[tx.len() as int];
                &&& after.len() == tx.len() + 1
                &&& new.ssrc == ssrc
                &&& new.rid is None
                &&& new.repairs == repairs
                &&& new.last_seq_no is None
                &&& new.last_used is None
            }
        }),
{
    law_one_more_sender(old(media)@.sources_tx, ssrc, repairs, i);
}

/// The buffer that is handed out for a payload type and encoding is the first that has them, or a
/// new one behind the others, without samples and for the codec that was named. What is done to it
/// is done to this buffer of the m-line, and to nothing else.
pub proof fn law_call_get_buffer_rx(
    media: &mut Media,
    pt: Pt,
    rid: Option<Rid>,
    codec: Codec,
    r: &mut DepacketizingBuffer,
    k: int,
)
    requires
        call_ensures(Media::get_buffer_rx, (media, pt, rid, codec), r),
    ensures
        ({
            let m = old(media)@;
            let after = final(media)@;
            &&& after == (MediaModel { buffers_rx: after.buffers_rx, ..m })
            &&& receive_buffer_at(m.buffers_rx, pt, rid, k) ==> {
                &&& old(r)@ == m.buffers_rx[k].1
                &&& after.buffers_rx == m.buffers_rx.update(k, ((pt, rid), final(r)@))
            }
            &&& (forall|j: int|
                0 <= j < m.buffers_rx.len() ==> (#[trigger] m.buffers_rx[j]).0 != (pt, rid)) ==> {
                &&& old(r)@.codec == codec
                &&& old(r)@.hold_back == 30
                &&& old(r)@.ready.len() == 0
                &&& after.buffers_rx == m.buffers_rx.push(((pt, rid), final(r)@))
            }
        }),
{
    let m = old(media)@;
    law_receive_buffer_comes_up(m.buffers_rx, pt, rid, codec, k);
    if forall|j: int|
        0 <= j < m.buffers_rx.len() ==> (#[trigger] m.buffers_rx[j]).0 != (pt, rid) {
        assert(final(media)@.buffers_rx =~= m.buffers_rx.push(((pt, rid), final(r)@)));
    }
}

/// Samples come out of a buffer as they were put in, the oldest first.
pub proof fn law_call_push_and_pop(
    b: &mut DepacketizingBuffer,
    sample: Result<Depacketized, PacketError>,
    pushed: (),
    later: &mut DepacketizingBuffer,
    r: Option<Result<Depacketized, PacketError>>,
)
    requires
        call_ensures(DepacketizingBuffer::push, (b, sample), pushed),
        call_ensures(DepacketizingBuffer::pop, (later,), r),
        *old(later) == *final(b),
    ensures
        r == Some((old(b)@.ready.push(sample))[0]),
        final(later)@.ready == old(b)@.ready.push(sample).drop_first(),
        old(b)@.ready.len() == 0 ==> r == Some(sample),
{
}

/// The keyframe that the other side asked for is given out once.
pub proof fn law_call_poll_keyframe_request(
    media: &mut Media,
    r: Option<(Option<Rid>, KeyframeRequestKind)>,
    again: &mut Media,
    s: Option<(Option<Rid>, KeyframeRequestKind)>,
)
    requires
        call_ensures(Media::poll_keyframe_request, (media,), r),
        call_ensures(Media::poll_keyframe_request, (again,), s),
        *old(again) == *final(media),
    ensures
        r == old(media)@.keyframe_request_rx,
        s is None,
        final(media)@ == (MediaModel { keyframe_request_rx: None, ..old(media)@ }),
{
}

/// What is set is what is read then, and nothing else changes by setting it.
pub proof fn law_call_set_and_get(
    a: &mut Media,
    cname: String,
    exts: Extensions,
    simulcast: Simulcast,
    need: bool,
    set: (),
    a_cname: &str,
    a_exts: &Extensions,
    a_simulcast: Option<&Simulcast>,
    a_need: bool,
)
    ensures
        call_ensures(Media::set_cname, (a, cname), set) && call_ensures(
            Media::cname,
            (final(a),),
            a_cname,
        ) ==> a_cname@ == cname@ && final(a)@ == (MediaModel { cname: cname@, ..old(a)@ }),
        call_ensures(Media::set_exts, (a, exts), set) && call_ensures(
            Media::exts,
            (final(a),),
            a_exts,
        ) ==> a_exts@ == exts@ && final(a)@ == (MediaModel { exts: exts@, ..old(a)@ }),
        call_ensures(Media::set_simulcast, (a, simulcast), set) && call_ensures(
            Media::simulcast,
            (final(a),),
            a_simulcast,
        ) ==> (a_simulcast matches Some(s) && s.send@ == simulcast.send@ && s.recv@
            == simulcast.recv@) && final(a)@ == (MediaModel {
            simulcast: Some(simulcast@),
            ..old(a)@
        }),
        call_ensures(Media::set_need_open_event, (a, need), set) && call_ensures(
            Media::need_open_event,
            (final(a),),
            a_need,
        ) ==> a_need == need && final(a)@ == (MediaModel { need_open_event: need, ..old(a)@ }),
{
}

/// A timeout only notes that cleanup ran, and clearing buffers of one side only empties those.
pub proof fn law_call_timeout_and_clearing(media: &mut Media, now: Instant, r: ())
    ensures
        call_ensures(Media::handle_timeout, (media, now), r) ==> final(media)@ == (MediaModel {
            last_cleanup: now,
            ..old(media)@
        }),
        call_ensures(Media::clear_send_buffers, (media,), r) ==> final(media)@ == (MediaModel {
            buffers_tx: Seq::empty(),
            ..old(media)@
        }),
        call_ensures(Media::clear_receive_buffers, (media,), r) ==> final(media)@ == (MediaModel {
            buffers_rx: Seq::empty(),
            ..old(media)@
        }),
{
}

/// The SSRCs of the senders are given out in the order of the senders, and the first sender is the
/// first of them.
pub proof fn law_call_senders(
    media: &Media,
    ssrcs: Vec<Ssrc>,
    first: Option<&SenderSource>,
    i: int,
)
    requires
        call_ensures(Media::source_tx_ssrcs, (media,), ssrcs),
        call_ensures(Media::first_source_tx, (media,), first),
    ensures
        ssrcs@.len() == media@.sources_tx.len(),
        0 <= i < ssrcs@.len() ==> ssrcs@[i] == media@.sources_tx[i].ssrc,
        first is None <==> ssrcs@.len() == 0,
        first matches Some(s) ==> s.ssrc == ssrcs@[0],
{
}

/// A new m-line is who it is said to be, and has nothing in it.
pub proof fn law_call_new(id: Identity, r: Media)
    requires
        call_ensures(Media::new, (id,), r),
    ensures
        r@.mid == id.mid,
        r@.cname == id.cname@,
        r@.msid.stream_id == id.msid.stream_id@,
        r@.msid.track_id == id.msid.track_id@,
        r@.kind == MediaKind::Video,
        sends(r@.dir),
        receives(r@.dir),
        r@.params.len() == 0,
        r@.sources_tx.len() == 0,
        r@.sources_rx.len() == 0,
        r@.buffers_tx.len() == 0,
        r@.buffers_rx.len() == 0,
        r@.resends.len() == 0,
        r@.need_open_event,
{
    law_new_line(id.mid, id.cname@, id.msid@);
}

/// The m-line that the other side described has the description's name, kind and codecs, and sends
/// what the other side receives. It has no senders or receivers yet.
pub proof fn law_call_from_remote_media_line(
    line: &MediaLine,
    index: usize,
    exts: Extensions,
    id: Identity,
    r: Media,
)
    requires
        call_ensures(Media::from_remote_media_line, (line, index, exts, id), r),
    ensures
        r@.mid == line.mid,
        r@.index == index,
        r@.cname == id.cname@,
        r@.msid.stream_id == id.msid.stream_id@,
        r@.msid.track_id == id.msid.track_id@,
        r@.kind == MediaKind::Audio <==> line.typ is Audio,
        r@.exts == exts@,
        sends(r@.dir) <==> receives(line.dir),
        receives(r@.dir) <==> sends(line.dir),
        r@.params == line.rtp_params@,
        r@.sources_tx.len() == 0,
        r@.sources_rx.len() == 0,
        r@.need_open_event,
{
    law_new_line(line.mid, id.cname@, id.msid@);
}

/// The m-line that is offered is as it was asked for: with the same name, kind, direction, codecs
/// and extensions, and with a sender for each SSRC. It has no receivers yet.
pub proof fn law_call_from_add_media(a: AddMedia, exts: Extensions, r: Media, i: int)
    requires
        call_ensures(Media::from_add_media, (a, exts), r),
    ensures
        r@.mid == a.mid,
        r@.index == a.index,
        r@.cname == a.cname@,
        r@.msid.stream_id == a.msid.stream_id@,
        r@.msid.track_id == a.msid.track_id@,
        r@.kind == a.kind,
        r@.exts == exts@,
        r@.dir == a.dir,
        r@.params == a.params@,
        r@.sources_rx.len() == 0,
        r@.need_open_event,
        r@.sources_tx == added_all_tx(Seq::empty(), a.ssrcs@),
        0 <= i < a.ssrcs@.len() ==> exists|j: int|
            0 <= j < r@.sources_tx.len() && (#[trigger] r@.sources_tx[j]).ssrc == a.ssrcs@[i].0,
{
    law_new_line(a.mid, a.cname@, a.msid@);
    if 0 <= i < a.ssrcs@.len() {
        law_offered_ssrcs_have_senders(Seq::empty(), a.ssrcs@, i);
        law_known_ssrcs(r@.sources_tx, Seq::empty(), a.ssrcs@[i].0);
    }
}

} // verus!
