//! What the parts of an m-line do, stated of every call, as in [`super::operations`].

use super::description::{receives, sends};
use super::incoming::{law_sides_of_feedback, names};
use super::outgoing::{law_packets_of_a_sample, law_when_regular_feedback_is_made};
use super::places::{buffer_of_ssrc_at, law_packets_are_found, packet_at, some_packet_of};
use super::polling::{
    can_resend, comes_next, law_nack_schedules_each_number, law_resend_that_is_up_fits_together,
    lemma_no_resend, lemma_resend_is_up, resend_fits,
};
use super::values::{law_audio, law_directions, law_next_number};
use crate::buffer_tx::{sample_packets, Packetized, PacketizingBuffer};
use crate::codec::Codec;
use crate::direction::Direction;
use crate::ext::{ExtMap, Extension, Extensions};
use crate::ids::{MediaTime, Pt, Rid, SeqNo, Ssrc};
use crate::media::write::payload_limit;
use crate::media::{Media, MediaKind};
use crate::receiver::{ReceiverModel, ReceiverSource};
use crate::rtcp::{RtcpFb, Sdes, SdesType, SenderInfo};
use crate::sender::SenderSource;
use crate::time::{rr_interval, Duration, Instant};
use vstd::prelude::*;

verus! {

/// In each direction it is settled who sends and who receives, and inverting it lets the two change
/// places.
pub proof fn law_call_directions(d: Direction, s: bool, r: bool, other: Direction)
    requires
        call_ensures(Direction::is_sending, (d,), s),
        call_ensures(Direction::is_receiving, (d,), r),
        call_ensures(Direction::invert, (d,), other),
    ensures
        s <==> sends(d),
        r <==> receives(d),
        sends(other) <==> receives(d),
        receives(other) <==> sends(d),
{
    law_directions(d);
}

/// Opus is audio and nothing else is, reports of audio are due every five seconds and those of video
/// every second, and a payload has what a datagram leaves beside what encryption adds.
pub proof fn law_call_rules(
    c: Codec,
    is_audio: bool,
    audio: bool,
    d: Duration,
    mtu: usize,
    overhead: usize,
    limit: usize,
)
    requires
        call_ensures(Codec::is_audio, (c,), is_audio),
        call_ensures(rr_interval, (audio,), d),
        call_ensures(payload_limit, (mtu, overhead), limit),
    ensures
        is_audio <==> c == Codec::Opus,
        audio ==> d.nanos == 5_000_000_000,
        !audio ==> d.nanos == 1_000_000_000,
        limit + overhead == mtu,
{
    law_audio(c);
}

/// The SSRC of feedback is the one that it names, and it is about something that this side receives
/// if a sender says something of itself, describes itself or leaves.
pub proof fn law_call_feedback(fb: &RtcpFb, rx: bool, ssrc: Ssrc)
    requires
        call_ensures(RtcpFb::is_for_rx, (fb,), rx),
        call_ensures(RtcpFb::ssrc, (fb,), ssrc),
    ensures
        rx <==> (*fb is SenderInfo || *fb is SourceDescription || *fb is Goodbye),
        names(*fb, ssrc),
{
    law_sides_of_feedback(*fb, ssrc);
}

/// A sender gives out its numbers one after the other, from the given start on, and notes when.
pub proof fn law_call_next_seq_no(
    s: &mut SenderSource,
    now: Instant,
    start: SeqNo,
    n: SeqNo,
    next: SeqNo,
)
    requires
        call_ensures(SenderSource::next_seq_no, (s, now, start), n),
        call_ensures(SeqNo::next, (n,), next),
    ensures
        comes_next(old(s).last_seq_no, start, n),
        next.0 == (n.0 + 1) % 0x1_0000_0000_0000_0000,
        *final(s) == (SenderSource {
            last_seq_no: Some(n),
            last_used: Some(now),
            ..*old(s)
        }),
{
    law_next_number(n);
    if let Some(last) = old(s).last_seq_no {
        law_next_number(last);
    }
}

/// The description of a sender names its SSRC, and has the CNAME as its only value.
pub proof fn law_call_create_sdes(s: &SenderSource, cname: &String, d: Sdes)
    requires
        call_ensures(SenderSource::create_sdes, (s, cname), d),
    ensures
        d.ssrc == s.ssrc,
        d.values@.len() == 1,
        d.values@[0].0 == SdesType::CNAME,
        d.values@[0].1@ == cname@,
{
    assert(d@.values[0] == (SdesType::CNAME, cname@));
    assert(d@.values.len() == d.values@.len());
}

/// What a receiver is told it knows, its full intra requests are numbered one after the other, and
/// nothing else about it changes by that.
pub proof fn law_call_receiver(
    s: &mut ReceiverSource,
    rid: Rid,
    ssrc: Ssrc,
    now: Instant,
    info: SenderInfo,
    r: (),
    n: u8,
)
    ensures
        call_ensures(ReceiverSource::set_rid, (s, rid), r) ==> final(s)@ == (ReceiverModel {
            rid: Some(rid),
            ..old(s)@
        }),
        call_ensures(ReceiverSource::set_repairs, (s, ssrc), r) ==> final(s)@ == (ReceiverModel {
            repairs: Some(ssrc),
            ..old(s)@
        }),
        call_ensures(ReceiverSource::set_sender_info, (s, now, info), r) ==> final(s)@ == (
        ReceiverModel { sender_info: Some(info), sender_info_at: Some(now), ..old(s)@ }),
        call_ensures(ReceiverSource::next_fir_seq_no, (s,), n) ==> {
            &&& n == old(s)@.fir_seq_no
            &&& final(s)@.fir_seq_no == (n + 1) % 256
            &&& final(s)@ == (ReceiverModel { fir_seq_no: final(s)@.fir_seq_no, ..old(s)@ })
        },
{
}

/// What is known of a receiver is what is read of it, and it gets resends if it repairs an SSRC.
pub proof fn law_call_read_receiver(
    s: &ReceiverSource,
    ssrc: Ssrc,
    rid: Option<Rid>,
    repairs: Option<Ssrc>,
    rtx: bool,
)
    requires
        call_ensures(ReceiverSource::ssrc, (s,), ssrc),
        call_ensures(ReceiverSource::rid, (s,), rid),
        call_ensures(ReceiverSource::repairs, (s,), repairs),
        call_ensures(ReceiverSource::is_rtx, (s,), rtx),
    ensures
        ssrc == s@.ssrc,
        rid == s@.rid,
        repairs == s@.repairs,
        rtx <==> repairs is Some,
{
}

/// What is found in a buffer of packets: whether one has an SSRC, the first that was sent under a
/// number, the number of the oldest, whether one waits, and how many more fit.
pub proof fn law_call_search_packets(
    b: &PacketizingBuffer,
    ssrc: Ssrc,
    has: bool,
    number: SeqNo,
    found: Option<&Packetized>,
    oldest: Option<SeqNo>,
    waits: bool,
    free: usize,
    q: int,
)
    requires
        call_ensures(PacketizingBuffer::has_ssrc, (b, ssrc), has),
        call_ensures(PacketizingBuffer::get, (b, number), found),
        call_ensures(PacketizingBuffer::first_seq_no, (b,), oldest),
        call_ensures(PacketizingBuffer::has_next, (b,), waits),
        call_ensures(PacketizingBuffer::free, (b,), free),
    ensures
        has <==> some_packet_of(b@.packets, ssrc),
        packet_at(b@.packets, number, q) ==> (found matches Some(p) && p@ == b@.packets[q]),
        (forall|j: int|
            0 <= j < b@.packets.len() ==> (#[trigger] b@.packets[j]).seq_no != Some(number))
            ==> found is None,
        b@.packets.len() > 0 ==> oldest == b@.packets[0].seq_no,
        b@.packets.len() == 0 ==> oldest is None,
        waits <==> b@.next < b@.packets.len(),
        free + b@.packets.len() == b@.max_retain,
{
    law_packets_are_found(Seq::empty(), b@.packets, ssrc, number, Pt(0), q);
    if has {
        let i = choose|i: int|
            0 <= i < b@.packets.len() && #[trigger] b@.packets[i].ssrc == ssrc;
        assert(b@.packets[i].ssrc == ssrc);
    }
    if some_packet_of(b@.packets, ssrc) {
        let i = choose|i: int|
            0 <= i < b@.packets.len() && (#[trigger] b@.packets[i]).ssrc == ssrc;
        assert(b@.packets[i].ssrc == ssrc);
    }
}

/// A sample that is taken in comes behind the packets of a buffer, one packet for each payload, and
/// the latest of all stay.
pub proof fn law_call_push_sample(
    b: &mut PacketizingBuffer,
    ts: MediaTime,
    chunks: Vec<Vec<u8>>,
    ssrc: Ssrc,
    rid: Option<Rid>,
    r: (),
    i: int,
)
    requires
        call_ensures(PacketizingBuffer::push_sample, (b, ts, chunks, ssrc, rid), r),
        old(b)@.wf(),
    ensures
        ({
            let had = old(b)@.packets;
            let left = final(b)@.packets;
            let total = had.len() + chunks@.len();
            let gone = total - left.len();
            &&& left.len() == if total <= old(b)@.max_retain {
                total as int
            } else {
                old(b)@.max_retain
            }
            &&& final(b)@.max_retain == old(b)@.max_retain
            &&& final(b)@.codec == old(b)@.codec
            &&& final(b)@.next == if old(b)@.next > gone {
                old(b)@.next - gone
            } else {
                0
            }
            &&& gone <= i < had.len() ==> left[i - gone] == had[i]
            &&& 0 <= i < chunks@.len() && gone <= had.len() + i ==> {
                let p = left[had.len() + i - gone];
                &&& p.data == chunks@[i]@
                &&& p.ts == ts
                &&& p.ssrc == ssrc
                &&& p.rid == rid
                &&& p.last <==> i == chunks@.len() - 1
                &&& p.seq_no is None
            }
        }),
{
    let had = old(b)@.packets;
    let new = sample_packets(ts, chunks@, ssrc, rid);
    let left = final(b)@.packets;
    let gone = had.len() + new.len() - left.len();
    law_packets_of_a_sample(ts, chunks@, ssrc, rid, i);
    if gone <= i < had.len() {
        assert((had + new)[i] == had[i]);
    }
    if 0 <= i < chunks@.len() && gone <= had.len() + i {
        assert((had + new)[had.len() + i] == new[i]);
    }
}

/// The packet that waits in front is handed out, counts as sent from then on, and is the only one
/// that can change by that.
pub proof fn law_call_poll_next(b: &mut PacketizingBuffer, p: &mut Packetized)
    requires
        call_ensures(PacketizingBuffer::poll_next, (b,), Some(p)),
    ensures
        old(b)@.next < old(b)@.packets.len(),
        old(p)@ == old(b)@.packets[old(b)@.next],
        final(b)@.next == old(b)@.next + 1,
        final(b)@.packets == old(b)@.packets.update(old(b)@.next, final(p)@),
{
}

/// A mapping that is set is what is read under its id then, and the other ids stand for what they
/// did. Of the mappings of two sides those are kept that are the same.
pub proof fn law_call_extensions(
    a: &mut Extensions,
    line: &ExtMap,
    other: &Extensions,
    r: (),
    id: u8,
    got: Option<Extension>,
    had: Option<Extension>,
    theirs: Option<Extension>,
)
    requires
        call_ensures(Extensions::get, (final(a), id), got),
        call_ensures(Extensions::get, (old(a), id), had),
        call_ensures(Extensions::get, (other, id), theirs),
    ensures
        call_ensures(Extensions::set_mapping, (a, line), r) ==> got == if id == line.id {
            Some(line.ext)
        } else {
            had
        },
        call_ensures(Extensions::keep_same, (a, other), r) ==> got == if had == theirs {
            had
        } else {
            None
        },
{
}

/// There is a packet to send if and only if a resend can be answered or a packet waits.
pub proof fn law_call_has_packet(media: &Media, r: bool)
    requires
        call_ensures(Media::has_packet, (media,), r),
    ensures
        r <==> (exists|k: int|
            0 <= k < media@.resends.len() && can_resend(media@, #[trigger] media@.resends[k]))
            || !(forall|b: int|
            0 <= b < media@.buffers_tx.len() ==> (#[trigger] media@.buffers_tx[b]).1.next
                >= media@.buffers_tx[b].1.packets.len()),
{
    let m = media@;
    law_packets_are_found(m.buffers_tx, Seq::empty(), Ssrc(0), SeqNo(0), Pt(0), 0);
    if exists|k: int| 0 <= k < m.resends.len() && can_resend(m, #[trigger] m.resends[k]) {
        let k = choose|k: int| 0 <= k < m.resends.len() && can_resend(m, #[trigger] m.resends[k]);
        lemma_resend_is_up(m, k);
    } else {
        assert forall|i: int| 0 <= i < m.resends.len() implies !can_resend(
            m,
            #[trigger] m.resends[i],
        ) by {}
        lemma_no_resend(m);
    }
}

/// The resend that is up next fits together if its packet is of the SSRC asked for and its sender
/// repairs this SSRC.
pub proof fn law_call_is_resend_consistent(
    media: &Media,
    r: bool,
    k: int,
    b: int,
    q: int,
    j: int,
)
    requires
        call_ensures(Media::is_resend_consistent, (media,), r),
        0 <= k < media@.resends.len(),
        resend_fits(media@, media@.resends[k], b, q, j),
        forall|i: int| 0 <= i < k ==> !can_resend(media@, #[trigger] media@.resends[i]),
    ensures
        r <==> media@.buffers_tx[b].1.packets[q].ssrc == media@.resends[k].ssrc
            && media@.sources_tx[j].repairs == Some(media@.resends[k].ssrc),
{
    law_resend_that_is_up_fits_together(media@, k, b, q, j);
}

/// Where resends for an SSRC come from is the first buffer with packets of it, where its oldest was
/// sent: its payload type, and the number of this packet.
pub proof fn law_call_nack_reference(
    media: &Media,
    ssrc: Ssrc,
    r: Option<(Pt, SeqNo)>,
    b: int,
)
    requires
        call_ensures(Media::nack_reference, (media, ssrc), r),
    ensures
        ({
            let buffers = media@.buffers_tx;
            let oldest = buffers[b].1.packets[0].seq_no;
            &&& buffer_of_ssrc_at(buffers, ssrc, b) && oldest is Some ==> r == Some(
                (buffers[b].0, oldest->0),
            )
            &&& buffer_of_ssrc_at(buffers, ssrc, b) && oldest is None ==> r is None
            &&& (forall|k: int| !buffer_of_ssrc_at(buffers, ssrc, k)) ==> r is None
        }),
{
    law_nack_schedules_each_number(media@, ssrc, Seq::empty(), b);
}

/// Regular feedback is made at a time if there is a sender and the interval of the kind has passed.
pub proof fn law_call_makes_regular_feedback(media: &Media, now: Instant, r: bool)
    requires
        call_ensures(Media::makes_regular_feedback, (media, now), r),
    ensures
        r <==> media@.sources_tx.len() > 0 && now.nanos - media@.last_regular_feedback.nanos
            >= if media@.kind == MediaKind::Audio {
            5_000_000_000
        } else {
            1_000_000_000int
        },
{
    law_when_regular_feedback_is_made(media@, now);
}

} // verus!
