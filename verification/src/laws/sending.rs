//! What is written is sent, and what was sent can be sent again.

use crate::buffer_tx::{numbered, sample_packets, PacketModel, TxBufferModel};
use crate::codec::Codec;
use crate::ext::Extension;
use crate::header::original_number_bytes;
use crate::ids::{MediaTime, Pt, Rid, SeqNo, Ssrc};
use crate::media::{has_tx, MediaModel, Resend};
use crate::media::send::{answer, answerable, holding, lemma_polled_wf, waiting, Sending};
use crate::media::sources::{added_tx, lemma_tx_index, tx_for, tx_index, tx_under};
use crate::media::wire::PolledModel;
use crate::media::write::{buffer_for, buffer_tx_slot, lemma_written_wf, with_buffer_tx};
use crate::rtcp::RtcpFb;
use crate::sdp::MediaLine;
use crate::search::{first, lemma_first, lemma_first_is};
use crate::sender::SenderSource;
use crate::time::Instant;
use vstd::prelude::*;

verus! {

/// The numbers of a sender are contiguous: the number after the one that a packet was sent under
/// is the next that its sender gives out, and no other sender is touched.
pub proof fn law_numbers_are_contiguous(
    m: MediaModel,
    now: Instant,
    start: SeqNo,
    other_start: SeqNo,
)
    requires
        m.wf(),
        m.next_sending() is Some,
    ensures
        ({
            let s = m.next_sending()->0;
            let tx = m.polled(now, start).sources_tx;
            &&& tx.len() == m.sources_tx.len()
            &&& tx[s.source].upcoming(other_start) == m.sending_number(start).next_spec()
            &&& forall|i: int| 0 <= i < tx.len() && i != s.source ==> tx[i] == m.sources_tx[i]
        }),
{
    lemma_polled_wf(m, now, start);
}

/// Whether the senders of `a` are still there in `b`, in the same places, and no number was given
/// out.
pub open spec fn keeps_numbers(a: Seq<SenderSource>, b: Seq<SenderSource>) -> bool {
    &&& a.len() <= b.len()
    &&& forall|i: int|
        #![trigger b[i]]
        0 <= i < a.len() ==> b[i].ssrc == a[i].ssrc && b[i].last_seq_no == a[i].last_seq_no
}

/// Nothing but sending gives out numbers: not writing samples, requests for resends, other
/// feedback, negotiation, new senders, requests for keyframes or reading samples.
pub proof fn law_only_sending_gives_out_numbers(
    m: MediaModel,
    pt: Pt,
    rid: Option<Rid>,
    codec: Codec,
    ts: MediaTime,
    chunks: Seq<Vec<u8>>,
    ssrc: Ssrc,
    lost: Seq<SeqNo>,
    line: MediaLine,
    accepted: Seq<bool>,
    session_exts: Map<u8, Extension>,
    repairs: Option<Ssrc>,
    now: Instant,
    fb: RtcpFb,
)
    ensures
        keeps_numbers(m.sources_tx, m.written(pt, rid, codec, ts, chunks).sources_tx),
        keeps_numbers(m.sources_tx, m.buffering(pt, codec).sources_tx),
        keeps_numbers(m.sources_tx, m.nacked(ssrc, lost).sources_tx),
        keeps_numbers(m.sources_tx, m.changed(line, accepted, session_exts).sources_tx),
        keeps_numbers(m.sources_tx, added_tx(m.sources_tx, ssrc, repairs)),
        keeps_numbers(m.sources_tx, m.told(now, fb).sources_tx),
        keeps_numbers(m.sources_tx, m.keyframe_requested().sources_tx),
        keeps_numbers(m.sources_tx, m.sample_taken().sources_tx),
{
    lemma_tx_index(m.sources_tx, ssrc);
}

/// Whether an m-line `a` becomes `b` in one step: by a poll at some time, where a sender that has
/// sent nothing starts at some number, or by anything that gives out no number.
pub open spec fn becomes(a: MediaModel, poll: Option<(Instant, SeqNo)>, b: MediaModel) -> bool {
    match poll {
        Some((now, start)) => b == a.polled(now, start),
        None => keeps_numbers(a.sources_tx, b.sources_tx),
    }
}

/// The sender that sent a packet keeps its place, and has given out no number since, as long as no
/// other packet is sent under its SSRC.
proof fn lemma_last_number_stays(
    history: Seq<MediaModel>,
    polls: Seq<Option<(Instant, SeqNo)>>,
    ssrc: Ssrc,
    n: int,
)
    requires
        0 < n < history.len(),
        polls.len() + 1 == history.len(),
        forall|i: int| 0 <= i < history.len() ==> (#[trigger] history[i]).wf(),
        forall|i: int|
            0 <= i < polls.len() ==> becomes(history[i], #[trigger] polls[i], history[i + 1]),
        polls[0] is Some,
        history[0].sending_ssrc() == Some(ssrc),
        forall|i: int|
            0 < i < n && (#[trigger] polls[i]) is Some ==> history[i].sending_ssrc() != Some(ssrc),
    ensures
        ({
            let k = history[0].next_sending()->0.source;
            let tx = history[n].sources_tx;
            &&& 0 <= k < tx.len()
            &&& tx[k].ssrc == ssrc
            &&& tx[k].last_seq_no == Some(history[0].sending_number((polls[0]->0).1))
        }),
    decreases n,
{
    let a = history[n - 1];
    let k = history[0].next_sending()->0.source;
    assert(becomes(a, polls[n - 1], history[n - 1 + 1]));
    assert(a.wf());
    if n > 1 {
        lemma_last_number_stays(history, polls, ssrc, n - 1);
    }
    if let Some((now, start)) = polls[n - 1] {
        lemma_polled_wf(a, now, start);
    }
}

/// The numbers sent under one SSRC are contiguous, whether it is that of a stream or that of its
/// resends: of two packets under the SSRC with none under it between them, the second has the
/// number after the first's. Between them other packets may be sent, and anything may happen to the
/// m-line that gives out no number.
pub proof fn law_numbers_of_an_ssrc_are_contiguous(
    history: Seq<MediaModel>,
    polls: Seq<Option<(Instant, SeqNo)>>,
    ssrc: Ssrc,
    start: SeqNo,
)
    requires
        polls.len() > 0,
        polls.len() + 1 == history.len(),
        forall|i: int| 0 <= i < history.len() ==> (#[trigger] history[i]).wf(),
        forall|i: int|
            0 <= i < polls.len() ==> becomes(history[i], #[trigger] polls[i], history[i + 1]),
        polls[0] is Some,
        history[0].sending_ssrc() == Some(ssrc),
        forall|i: int|
            0 < i < polls.len() && (#[trigger] polls[i]) is Some ==> history[i].sending_ssrc()
                != Some(ssrc),
        history.last().sending_ssrc() == Some(ssrc),
    ensures
        ({
            let one = history[0].sending_number((polls[0]->0).1);
            let two = history.last().sending_number(start);
            &&& two == one.next_spec()
            &&& one.0 < u64::MAX ==> two.0 == one.0 + 1
        }),
{
    let n = polls.len() as int;
    let k = history[0].next_sending()->0.source;
    let last = history[n];
    lemma_last_number_stays(history, polls, ssrc, n);
    assert(last.wf());
    lemma_polled_wf(last, Instant { nanos: 0 }, start);
    let s = last.next_sending()->0.source;
    assert(last.sources_tx[s].ssrc == last.sources_tx[k].ssrc);
    assert(s == k);
}

/// A resend takes its number from a sender of resends, and uses up none of any other sender.
pub proof fn law_resends_use_numbers_of_their_own(m: MediaModel, now: Instant, start: SeqNo, i: int)
    requires
        m.wf(),
        m.next_resend() is Some,
        0 <= i < m.sources_tx.len(),
        m.sources_tx[i].repairs is None,
    ensures
        m.sources_tx[m.next_sending()->0.source].repairs is Some,
        m.polled(now, start).sources_tx[i] == m.sources_tx[i],
{
    lemma_first(m.resends, answerable(m.buffers_tx, m.sources_tx));
    let r = m.resends[m.next_resend()->0];
    let b = first(m.buffers_tx, holding(r.ssrc))->0;
    let p = m.buffers_tx[b].1.retained(r.seq_no)->0;
    lemma_first(m.sources_tx, tx_for(m.buffers_tx[b].1.packets[p].rid, true));
}

/// A packet that is retained can be asked for again, however long ago it was sent: after a request
/// for its number, the next packet out is the same payload, marked with the number it was sent
/// under first, sent by the sender of resends.
///
/// `b` is the first buffer with packets of the SSRC, `p` the place of the packet under that number
/// in it, and `j` the first sender of resends for the packet's encoding, which repairs the SSRC. No
/// resend that was asked for before can be answered.
pub proof fn law_retained_packet_is_resent(
    m: MediaModel,
    ssrc: Ssrc,
    number: SeqNo,
    b: int,
    p: int,
    j: int,
)
    requires
        m.wf(),
        m.next_resend() is None,
        first(m.buffers_tx, holding(ssrc)) == Some(b),
        m.buffers_tx[b].1.retained(number) == Some(p),
        m.buffers_tx[b].1.packets[p].ssrc == ssrc,
        first(m.sources_tx, tx_for(m.buffers_tx[b].1.packets[p].rid, true)) == Some(j),
        m.sources_tx[j].repairs == Some(ssrc),
    ensures
        ({
            let asked = m.nacked(ssrc, seq![number]);
            &&& m.nack_reference(ssrc) is Some
            &&& asked.wf()
            &&& asked.resend_consistent()
            &&& asked.next_sending() == Some(
                Sending {
                    pt: m.buffers_tx[b].0,
                    packet: m.buffers_tx[b].1.packets[p],
                    source: j,
                    orig_seq_no: Some(number),
                },
            )
        }),
{
    let asked = m.nacked(ssrc, seq![number]);
    let buffer = m.buffers_tx[b].1;
    lemma_first(m.buffers_tx, holding(ssrc));
    lemma_first(buffer.packets, numbered(number));
    assert(buffer.wf());
    assert(buffer.packets[p].seq_no is Some);
    assert(buffer.packets[0].seq_no is Some);
    let n = m.resends.len() as int;
    let can = answerable(m.buffers_tx, m.sources_tx);
    lemma_first(m.resends, can);
    assert(asked.resends[n] == Resend { ssrc, pt: m.buffers_tx[b].0, seq_no: number });
    assert forall|i: int| 0 <= i < n implies !can(#[trigger] asked.resends[i]) by {
        assert(!can(m.resends[i]));
    }
    lemma_first_is(asked.resends, can, n);
}

/// A packet that was just sent can be asked for again: after a request for its number, the next
/// packet out is the same payload, marked with the number it was sent under first, sent by the
/// sender of resends.
///
/// This takes a sender of resends for the packet's SSRC, and a number that tells the packet from
/// the others in its buffer, which is the first with packets of the SSRC.
pub proof fn law_sent_packet_is_resent(m: MediaModel, now: Instant, start: SeqNo, b: int, j: int)
    requires
        m.wf(),
        m.next_resend() is None,
        first(m.buffers_tx, waiting()) == Some(b),
        ({
            let packet = m.next_sending()->0.packet;
            &&& first(m.buffers_tx, holding(packet.ssrc)) == Some(b)
            &&& m.buffers_tx[b].1.retained(m.sending_number(start)) is None
            &&& first(m.sources_tx, tx_for(packet.rid, true)) == Some(j)
            &&& m.sources_tx[j].repairs == Some(packet.ssrc)
        }),
    ensures
        ({
            let packet = m.next_sending()->0.packet;
            let number = m.sending_number(start);
            let asked = m.polled(now, start).nacked(packet.ssrc, seq![number]);
            &&& m.polled(now, start).nack_reference(packet.ssrc) is Some
            &&& asked.wf()
            &&& asked.resend_consistent()
            &&& asked.next_sending() == Some(
                Sending {
                    pt: m.buffers_tx[b].0,
                    packet: PacketModel { seq_no: Some(number), ..packet },
                    source: j,
                    orig_seq_no: Some(number),
                },
            )
        }),
{
    let packet = m.next_sending()->0.packet;
    let number = m.sending_number(start);
    let sent = m.polled(now, start);
    lemma_polled_wf(m, now, start);
    lemma_first(m.buffers_tx, waiting());
    lemma_first(m.buffers_tx, holding(packet.ssrc));
    lemma_first(m.sources_tx, tx_for(packet.rid, true));
    let before = m.buffers_tx[b].1;
    let after = sent.buffers_tx[b].1;
    assert(before.wf());
    // The buffer is still the first with packets of the SSRC.
    assert(sent.buffers_tx[b].1.holds(packet.ssrc)) by {
        assert(after.packets[before.next].ssrc == packet.ssrc);
    }
    assert forall|i: int| 0 <= i < b implies !holding(packet.ssrc)(
        #[trigger] sent.buffers_tx[i],
    ) by {
        assert(!holding(packet.ssrc)(m.buffers_tx[i]));
    }
    lemma_first_is(sent.buffers_tx, holding(packet.ssrc), b);
    // The packet is the one under that number.
    lemma_first(before.packets, numbered(number));
    assert forall|i: int| 0 <= i < before.next implies !numbered(number)(
        #[trigger] after.packets[i],
    ) by {
        assert(!numbered(number)(before.packets[i]));
    }
    lemma_first_is(after.packets, numbered(number), before.next);
    // The sender of resends is still the first of its kind.
    assert(sent.sources_tx[j].rid == m.sources_tx[j].rid);
    assert forall|i: int| 0 <= i < j implies !tx_for(packet.rid, true)(
        #[trigger] sent.sources_tx[i],
    ) by {
        assert(!tx_for(packet.rid, true)(m.sources_tx[i]));
    }
    lemma_first_is(sent.sources_tx, tx_for(packet.rid, true), j);
    law_retained_packet_is_resent(sent, packet.ssrc, number, b, before.next, j);
}

/// Without a sender of resends nothing is sent again, whatever is asked for: the requests are
/// dropped, and polling gives what it would give without them.
pub proof fn law_no_resend_without_its_sender(
    m: MediaModel,
    now: Instant,
    start: SeqNo,
    twcc: u64,
)
    requires
        forall|i: int| 0 <= i < m.sources_tx.len() ==> (#[trigger] m.sources_tx[i]).repairs is None,
    ensures
        m.next_resend() is None,
        m.polled(now, start).resends == Seq::<Resend>::empty(),
        ({
            let unasked = MediaModel { resends: Seq::empty(), ..m };
            &&& m.next_sending() == unasked.next_sending()
            &&& m.polled(now, start) == unasked.polled(now, start)
            &&& m.polled_packet(now, start, twcc) == unasked.polled_packet(now, start, twcc)
        }),
{
    lemma_first(m.resends, answerable(m.buffers_tx, m.sources_tx));
    if let Some(k) = m.next_resend() {
        let r = m.resends[k];
        let b = first(m.buffers_tx, holding(r.ssrc))->0;
        let p = m.buffers_tx[b].1.retained(r.seq_no)->0;
        lemma_first(m.sources_tx, tx_for(m.buffers_tx[b].1.packets[p].rid, true));
    }
}

/// A packet that is too old to be in the buffer is not sent again: the request for it is dropped.
pub proof fn law_packets_gone_are_not_resent(m: MediaModel, r: Resend, b: int)
    requires
        first(m.buffers_tx, holding(r.ssrc)) == Some(b),
        forall|p: int|
            0 <= p < m.buffers_tx[b].1.packets.len() ==> (
            #[trigger] m.buffers_tx[b].1.packets[p]).seq_no != Some(r.seq_no),
    ensures
        answer(m.buffers_tx, m.sources_tx, r) is None,
{
    lemma_first(m.buffers_tx[b].1.packets, numbered(r.seq_no));
}

/// The packets of the whole transport are numbered one after the other: of two packets sent one
/// after the other, the second carries the number after the first's, round at sixteen bits.
pub proof fn law_transport_numbers_are_contiguous(
    m: MediaModel,
    other: MediaModel,
    now: Instant,
    later: Instant,
    start: SeqNo,
    twcc: u64,
)
    requires
        twcc < u64::MAX,
    ensures
        ({
            let one = m.polled_packet(now, start, twcc).header.ext_vals;
            let two = other.polled_packet(later, start, (twcc + 1) as u64).header.ext_vals;
            &&& one.transport_cc is Some
            &&& two.transport_cc is Some
            &&& two.transport_cc->0 == (one.transport_cc->0 + 1) % 0x1_0000
        }),
{
}

/// A packet stays in its buffer while more are taken in, until as many newer ones have come as are
/// retained.
pub proof fn law_recent_packets_are_retained(b: TxBufferModel, new: Seq<PacketModel>, i: int)
    requires
        b.wf(),
        0 <= i < b.packets.len(),
        b.packets.len() - i + new.len() <= b.max_retain,
    ensures
        ({
            let later = b.extended(new);
            let k = i - b.surplus(new.len() as int);
            0 <= k < later.packets.len() && later.packets[k] == b.packets[i]
        }),
{
}

/// A packet that was sent stays as it is in its buffer, under its number, whatever is sent after
/// it.
pub proof fn law_sending_keeps_sent_packets(
    m: MediaModel,
    now: Instant,
    start: SeqNo,
    b: int,
    i: int,
)
    requires
        m.wf(),
        0 <= b < m.buffers_tx.len(),
        0 <= i < m.buffers_tx[b].1.next,
    ensures
        m.polled(now, start).buffers_tx.len() == m.buffers_tx.len(),
        m.polled(now, start).buffers_tx[b].0 == m.buffers_tx[b].0,
        i < m.polled(now, start).buffers_tx[b].1.next,
        m.polled(now, start).buffers_tx[b].1.packets[i] == m.buffers_tx[b].1.packets[i],
{
    lemma_first(m.buffers_tx, waiting());
    assert(m.buffers_tx[b].1.wf());
}

/// On an m-line that sends one stream, every resend fits: the packet found for it is of the SSRC
/// asked for, and the sender found for it repairs this SSRC.
pub proof fn law_resends_of_one_stream_fit(m: MediaModel, stream: Ssrc)
    requires
        forall|b: int, p: int|
            #![trigger m.buffers_tx[b].1.packets[p]]
            0 <= b < m.buffers_tx.len() && 0 <= p < m.buffers_tx[b].1.packets.len()
                ==> m.buffers_tx[b].1.packets[p].ssrc == stream,
        forall|i: int|
            #![trigger m.sources_tx[i]]
            0 <= i < m.sources_tx.len() && m.sources_tx[i].repairs is Some
                ==> m.sources_tx[i].repairs == Some(stream),
    ensures
        m.resend_consistent(),
{
    lemma_first(m.resends, answerable(m.buffers_tx, m.sources_tx));
    if let Some(k) = m.next_resend() {
        let r = m.resends[k];
        lemma_first(m.buffers_tx, holding(r.ssrc));
        let b = first(m.buffers_tx, holding(r.ssrc))->0;
        lemma_first(m.buffers_tx[b].1.packets, numbered(r.seq_no));
        let p = m.buffers_tx[b].1.retained(r.seq_no)->0;
        lemma_first(m.sources_tx, tx_for(m.buffers_tx[b].1.packets[p].rid, true));
        assert(m.buffers_tx[b].1.packets[p].ssrc == stream);
    }
}

/// Polling an m-line with nothing to send leaves it as it is, but for requests that cannot be
/// answered, which are dropped.
pub proof fn law_idle_poll_changes_nothing(m: MediaModel, now: Instant, start: SeqNo)
    requires
        m.next_sending() is None,
    ensures
        m.polled(now, start) == (MediaModel { resends: Seq::empty(), ..m }),
{
}

/// The m-line after packets were sent at several times, one at each.
pub open spec fn polled_at(m: MediaModel, times: Seq<Instant>, start: SeqNo) -> MediaModel
    decreases times.len(),
{
    if times.len() == 0 {
        m
    } else {
        polled_at(m, times.drop_last(), start).polled(times.last(), start)
    }
}

/// Whether `rest` are the packets that wait to be sent, all of them in the buffer `k`, and no
/// resend was asked for.
pub open spec fn only_waiting(m: MediaModel, k: int, rest: Seq<PacketModel>) -> bool {
    &&& m.resends.len() == 0
    &&& 0 <= k < m.buffers_tx.len()
    &&& m.buffers_tx[k].1.packets.skip(m.buffers_tx[k].1.next) == rest
    &&& forall|i: int|
        0 <= i < m.buffers_tx.len() && i != k ==> !(#[trigger] m.buffers_tx[i]).1.pending()
}

/// Sending the packet that waits in front leaves those behind it.
proof fn lemma_poll_waiting(
    m: MediaModel,
    k: int,
    rest: Seq<PacketModel>,
    now: Instant,
    start: SeqNo,
)
    requires
        m.wf(),
        only_waiting(m, k, rest),
        rest.len() > 0,
    ensures
        m.next_sending() == Some(
            Sending {
                pt: m.buffers_tx[k].0,
                packet: rest[0],
                source: tx_index(m.sources_tx, rest[0].ssrc)->0,
                orig_seq_no: None,
            },
        ),
        m.polled(now, start).wf(),
        only_waiting(m.polled(now, start), k, rest.drop_first()),
        m.polled(now, start).buffers_tx[k].0 == m.buffers_tx[k].0,
        same_senders(m.polled(now, start).sources_tx, m.sources_tx),
{
    lemma_polled_wf(m, now, start);
    assert(m.buffers_tx[k].1.wf());
    assert(m.next_resend() is None);
    lemma_first_is(m.buffers_tx, waiting(), k);
    let b = m.buffers_tx[k].1;
    assert(rest[0] == b.packets[b.next]);
    let after = m.polled(now, start);
    assert(after.buffers_tx[k].1.packets.skip(b.next + 1) =~= rest.drop_first()) by {
        assert forall|i: int| 0 <= i < rest.len() - 1 implies
            after.buffers_tx[k].1.packets.skip(b.next + 1)[i] == rest.drop_first()[i] by {
            assert(rest[i + 1] == b.packets[b.next + i + 1]);
        }
    }
}

/// Whether the senders of `a` and `b` have the same SSRCs, in the same order.
pub open spec fn same_senders(a: Seq<SenderSource>, b: Seq<SenderSource>) -> bool {
    a.len() == b.len() && forall|i: int| 0 <= i < a.len() ==> (#[trigger] a[i]).ssrc == b[i].ssrc
}

/// Senders with the same SSRCs are found at the same place.
proof fn lemma_same_senders(a: Seq<SenderSource>, b: Seq<SenderSource>, ssrc: Ssrc)
    requires
        same_senders(a, b),
    ensures
        tx_index(a, ssrc) == tx_index(b, ssrc),
{
    lemma_first(b, tx_under(ssrc));
    lemma_first(a, tx_under(ssrc));
    if let Some(i) = tx_index(b, ssrc) {
        assert forall|j: int| 0 <= j < i implies !tx_under(ssrc)(#[trigger] a[j]) by {
            assert(!tx_under(ssrc)(b[j]));
        }
        lemma_first_is(a, tx_under(ssrc), i);
    } else if let Some(i) = tx_index(a, ssrc) {
        assert(!tx_under(ssrc)(b[i]));
    }
}

/// After some of the packets that wait were sent, the rest is left.
proof fn lemma_polled_at(
    m: MediaModel,
    k: int,
    rest: Seq<PacketModel>,
    times: Seq<Instant>,
    start: SeqNo,
)
    requires
        m.wf(),
        only_waiting(m, k, rest),
        times.len() <= rest.len(),
    ensures
        polled_at(m, times, start).wf(),
        only_waiting(polled_at(m, times, start), k, rest.skip(times.len() as int)),
        polled_at(m, times, start).buffers_tx[k].0 == m.buffers_tx[k].0,
        same_senders(polled_at(m, times, start).sources_tx, m.sources_tx),
    decreases times.len(),
{
    if times.len() == 0 {
        assert(rest.skip(0) =~= rest);
    } else {
        let n = times.len() - 1;
        lemma_polled_at(m, k, rest, times.drop_last(), start);
        lemma_poll_waiting(
            polled_at(m, times.drop_last(), start),
            k,
            rest.skip(n),
            times.last(),
            start,
        );
        assert(rest.skip(n).drop_first() =~= rest.skip(n + 1));
    }
}

/// After a sample was written to an m-line with nothing else to send, its packets are what waits.
#[verifier::spinoff_prover]
#[verifier::rlimit(40)]
proof fn lemma_only_the_sample_waits(
    m: MediaModel,
    pt: Pt,
    rid: Option<Rid>,
    codec: Codec,
    ts: MediaTime,
    chunks: Seq<Vec<u8>>,
    j: int,
)
    requires
        m.wf(),
        m.resends.len() == 0,
        m.next_sending() is None,
        first(m.sources_tx, tx_for(rid, false)) == Some(j),
        chunks.len() <= with_buffer_tx(m.buffers_tx, pt, codec)[buffer_tx_slot(
            m.buffers_tx,
            pt,
        )].1.max_retain,
    ensures
        ({
            let w = m.written(pt, rid, codec, ts, chunks);
            let k = buffer_tx_slot(m.buffers_tx, pt);
            &&& w.wf()
            &&& only_waiting(w, k, sample_packets(ts, chunks, m.sources_tx[j].ssrc, rid))
            &&& w.buffers_tx[k].0 == pt
            &&& 0 <= j < m.sources_tx.len()
        }),
{
    let ssrc = m.sources_tx[j].ssrc;
    let new = sample_packets(ts, chunks, ssrc, rid);
    let buffers = with_buffer_tx(m.buffers_tx, pt, codec);
    let k = buffer_tx_slot(m.buffers_tx, pt);
    let w = m.written(pt, rid, codec, ts, chunks);
    lemma_written_wf(m, pt, rid, codec, ts, chunks);
    lemma_first(m.sources_tx, tx_for(rid, false));
    lemma_first(m.buffers_tx, buffer_for(pt));
    lemma_first(m.buffers_tx, waiting());
    assert(m.next_resend() is None);
    let b = buffers[k].1;
    let gone = b.surplus(new.len() as int);
    assert(b.wf());
    assert(!b.pending()) by {
        if k < m.buffers_tx.len() {
            assert(!waiting()(m.buffers_tx[k]));
        }
    }
    assert(b.next == b.packets.len());
    assert(gone <= b.packets.len());
    let e = b.extended(new);
    assert(e.wf()) by {
        assert forall|i: int| 0 <= i < e.packets.len() implies (
        #[trigger] e.packets[i].seq_no is Some <==> i < e.next) by {
            assert(e.packets[i] == (b.packets + new)[i + gone]);
            if i + gone < b.packets.len() {
                assert(e.packets[i] == b.packets[i + gone]);
            }
        }
    }
    assert(w.wf());
    assert(e.packets.skip(e.next) =~= new);
    assert forall|i: int| 0 <= i < w.buffers_tx.len() && i != k implies !(
    #[trigger] w.buffers_tx[i]).1.pending() by {
        assert(!waiting()(m.buffers_tx[i]));
    }
}

/// A sample that is written to an m-line with nothing else to send is sent at once, payload by
/// payload and in order, by the sender of its encoding. Only the last of its packets is marked as
/// such. This takes a sample that fits its buffer.
#[verifier::spinoff_prover]
#[verifier::rlimit(40)]
pub proof fn law_sample_of_an_idle_line_is_sent_at_once(
    m: MediaModel,
    pt: Pt,
    rid: Option<Rid>,
    codec: Codec,
    ts: MediaTime,
    chunks: Seq<Vec<u8>>,
    j: int,
    times: Seq<Instant>,
    start: SeqNo,
)
    requires
        m.wf(),
        m.resends.len() == 0,
        m.next_sending() is None,
        first(m.sources_tx, tx_for(rid, false)) == Some(j),
        chunks.len() <= with_buffer_tx(m.buffers_tx, pt, codec)[buffer_tx_slot(
            m.buffers_tx,
            pt,
        )].1.max_retain,
        times.len() < chunks.len(),
    ensures
        ({
            let i = times.len() as int;
            let later = polled_at(m.written(pt, rid, codec, ts, chunks), times, start);
            later.next_sending() == Some(
                Sending {
                    pt,
                    packet: PacketModel {
                        ts,
                        data: chunks[i]@,
                        ssrc: m.sources_tx[j].ssrc,
                        rid,
                        last: i == chunks.len() - 1,
                        seq_no: None,
                    },
                    source: j,
                    orig_seq_no: None,
                },
            )
        }),
{
    let ssrc = m.sources_tx[j].ssrc;
    let new = sample_packets(ts, chunks, ssrc, rid);
    let k = buffer_tx_slot(m.buffers_tx, pt);
    let w = m.written(pt, rid, codec, ts, chunks);
    lemma_only_the_sample_waits(m, pt, rid, codec, ts, chunks, j);
    lemma_polled_at(w, k, new, times, start);
    let later = polled_at(w, times, start);
    lemma_poll_waiting(later, k, new.skip(times.len() as int), times[0], start);
    lemma_same_senders(later.sources_tx, m.sources_tx, ssrc);
    assert(has_tx(m.sources_tx, ssrc));
    lemma_tx_index(m.sources_tx, ssrc);
}

/// Requests for resends are answered before packets that were not sent yet, and in the order in
/// which they came: what is sent is the first request that can be answered, and the requests
/// behind it stay.
pub proof fn law_resends_go_first(m: MediaModel, now: Instant, start: SeqNo, k: int)
    requires
        0 <= k < m.resends.len(),
        answer(m.buffers_tx, m.sources_tx, m.resends[k]) is Some,
        forall|i: int|
            0 <= i < k ==> answer(m.buffers_tx, m.sources_tx, #[trigger] m.resends[i]) is None,
    ensures
        m.next_sending() matches Some(s) && s.orig_seq_no == Some(m.resends[k].seq_no) && s.pt
            == m.resends[k].pt,
        m.polled(now, start).resends == m.resends.skip(k + 1),
        m.polled(now, start).buffers_tx == m.buffers_tx,
{
    lemma_first_is(m.resends, answerable(m.buffers_tx, m.sources_tx), k);
}

/// The bytes of a packet without padding: the header and the payload.
pub proof fn law_packet_bytes(p: PolledModel, buf: Seq<u8>, header_len: int)
    requires
        0 <= header_len,
        header_len + p.data.len() <= buf.len(),
        p.orig_seq_no is None,
    ensures
        p.with_body(buf, header_len).take(p.packet_len(header_len, 0)) == buf.take(header_len)
            + p.data,
{
    assert(p.with_body(buf, header_len).take(p.packet_len(header_len, 0)) =~= buf.take(header_len)
        + p.data);
}

/// The bytes of a resend without padding: the header, the original number and the whole payload.
pub proof fn law_resend_bytes(p: PolledModel, buf: Seq<u8>, header_len: int, orig: SeqNo)
    requires
        0 <= header_len,
        p.orig_seq_no == Some(orig),
        header_len + 2 + p.data.len() <= buf.len(),
    ensures
        p.with_body(buf, header_len).take(p.packet_len(header_len, 0)) == buf.take(header_len)
            + original_number_bytes(orig) + p.data,
{
    assert(p.with_body(buf, header_len).take(p.packet_len(header_len, 0)) =~= buf.take(header_len)
        + original_number_bytes(orig) + p.data);
}

/// The padding comes behind the body and takes nothing from it: where padding leaves header and
/// body in the buffer as they were written, the packet is header, body and `pad_len` bytes more.
pub proof fn law_padding_follows_the_body(
    p: PolledModel,
    buf: Seq<u8>,
    header_len: int,
    padded: Seq<u8>,
    pad_len: int,
)
    requires
        0 <= header_len,
        0 <= pad_len,
        header_len + p.body_len() <= buf.len(),
        p.packet_len(header_len, pad_len) <= padded.len(),
        padded.take(header_len + p.body_len()) == p.with_body(buf, header_len).take(
            header_len + p.body_len(),
        ),
    ensures
        padded.take(p.packet_len(header_len, pad_len)) == buf.take(header_len) + p.prefix()
            + p.data + padded.subrange(
            header_len + p.body_len(),
            header_len + p.body_len() + pad_len,
        ),
{
    let n = header_len + p.body_len();
    let whole = p.with_body(buf, header_len).take(n);
    assert(whole =~= buf.take(header_len) + p.prefix() + p.data);
    assert(padded.take(n + pad_len) =~= whole + padded.subrange(n, n + pad_len)) by {
        assert forall|i: int| 0 <= i < n implies padded[i] == whole[i] by {
            assert(padded.take(n)[i] == padded[i]);
        }
    }
}

} // verus!
