//! What a poll hands out, and what it leaves.

use super::places::{
    buffer_of_ssrc_at, law_packets_are_found, law_senders_are_found, packet_at, resender_at,
    sender_at, waiting_buffer_at,
};
use super::sending::{becomes, law_numbers_of_an_ssrc_are_contiguous, polled_at};
use crate::buffer_tx::{numbered, PacketModel};
use crate::ids::{Mid, Pt, SeqNo, Ssrc};
use crate::media::send::{answer, answerable, holding, lemma_polled_wf};
use crate::media::sources::tx_for;
use crate::media::wire::PolledModel;
use crate::media::{MediaModel, Resend};
use crate::search::{first, lemma_first, lemma_first_is};
use crate::sender::SenderSource;
use crate::time::Instant;
use vstd::prelude::*;

verus! {

/// The resend `r` can be answered: by the packet at `q` in the buffer `b`, which is the first with
/// packets of the SSRC asked for, through the sender `j`, which is the first that resends packets of
/// this encoding.
pub open spec fn resend_fits(m: MediaModel, r: Resend, b: int, q: int, j: int) -> bool {
    &&& buffer_of_ssrc_at(m.buffers_tx, r.ssrc, b)
    &&& packet_at(m.buffers_tx[b].1.packets, r.seq_no, q)
    &&& resender_at(m.sources_tx, m.buffers_tx[b].1.packets[q].rid, j)
}

/// The resend `r` can be answered somehow.
pub open spec fn can_resend(m: MediaModel, r: Resend) -> bool {
    exists|b: int, q: int, j: int| resend_fits(m, r, b, q, j)
}

/// The number `n` comes next where `last` was the last: the one after it, round at 64 bits, or the
/// given start.
pub open spec fn comes_next(last: Option<SeqNo>, start: SeqNo, n: SeqNo) -> bool {
    match last {
        Some(l) => n.0 == (l.0 + 1) % 0x1_0000_0000_0000_0000,
        None => n == start,
    }
}

/// What is handed out for `packet` where it goes out under `pt` and by the sender `by`: its payload,
/// its time and its marker, the SSRC of the sender, and one and the same number in the header and
/// beside it, which is the sender's next.
pub open spec fn carries(
    p: PolledModel,
    packet: PacketModel,
    pt: Pt,
    by: SenderSource,
    start: SeqNo,
) -> bool {
    &&& p.data == packet.data
    &&& p.header.timestamp == packet.ts
    &&& p.header.marker == packet.last
    &&& p.header.payload_type == pt
    &&& p.header.ssrc == by.ssrc
    &&& p.header.sequence_number == p.seq_no
    &&& comes_next(by.last_seq_no, start, p.seq_no)
}

/// The header carries the m-line, the time of sending and the lowest sixteen bits of the count of
/// the whole transport. It names no encoding, and was not written yet.
pub open spec fn extended(p: PolledModel, mid: Mid, now: Instant, twcc: u64) -> bool {
    &&& p.header.ext_vals.mid == Some(mid)
    &&& p.header.ext_vals.abs_send_time == Some(now)
    &&& p.header.ext_vals.transport_cc is Some
    &&& p.header.ext_vals.transport_cc->0 == twcc % 0x1_0000
    &&& p.header.ext_vals.rid is None
    &&& p.header.ext_vals.rid_repair is None
    &&& p.header.header_len == 0
}

/// Of the senders only the one at `j` is another: it has sent the number `n` at `now`.
pub open spec fn sent_by(
    before: Seq<SenderSource>,
    after: Seq<SenderSource>,
    j: int,
    n: SeqNo,
    now: Instant,
) -> bool {
    &&& after.len() == before.len()
    &&& forall|i: int| 0 <= i < after.len() && i != j ==> #[trigger] after[i] == before[i]
    &&& after[j].ssrc == before[j].ssrc
    &&& after[j].rid == before[j].rid
    &&& after[j].repairs == before[j].repairs
    &&& after[j].last_seq_no == Some(n)
    &&& after[j].last_used == Some(now)
}

/// Whether a resend is answered is whether it can be, and then it is answered with what fits.
proof fn lemma_answer_fits(m: MediaModel, r: Resend)
    ensures
        answer(m.buffers_tx, m.sources_tx, r) is Some <==> can_resend(m, r),
        forall|b: int, q: int, j: int| #[trigger]
            resend_fits(m, r, b, q, j) ==> {
                &&& answer(m.buffers_tx, m.sources_tx, r) matches Some(a)
                &&& a.packet == m.buffers_tx[b].1.packets[q]
                &&& a.source == j
            },
{
    assert forall|b: int, q: int, j: int| #[trigger] resend_fits(m, r, b, q, j) implies {
        &&& answer(m.buffers_tx, m.sources_tx, r) matches Some(a)
        &&& a.packet == m.buffers_tx[b].1.packets[q]
        &&& a.source == j
    } by {
        let packets = m.buffers_tx[b].1.packets;
        law_packets_are_found(m.buffers_tx, packets, r.ssrc, r.seq_no, r.pt, b);
        law_packets_are_found(m.buffers_tx, packets, r.ssrc, r.seq_no, r.pt, q);
        law_senders_are_found(m.sources_tx, r.ssrc, packets[q].rid, j);
    }
    if answer(m.buffers_tx, m.sources_tx, r) is Some {
        let b = first(m.buffers_tx, holding(r.ssrc))->0;
        let packets = m.buffers_tx[b].1.packets;
        let q = first(packets, numbered(r.seq_no))->0;
        let j = first(m.sources_tx, tx_for(packets[q].rid, true))->0;
        law_packets_are_found(m.buffers_tx, packets, r.ssrc, r.seq_no, r.pt, b);
        law_packets_are_found(m.buffers_tx, packets, r.ssrc, r.seq_no, r.pt, q);
        law_senders_are_found(m.sources_tx, r.ssrc, packets[q].rid, j);
        assert(resend_fits(m, r, b, q, j));
    }
}

/// The first resend that can be answered is the next.
proof fn lemma_next_resend(m: MediaModel, k: int)
    requires
        0 <= k < m.resends.len(),
        can_resend(m, m.resends[k]),
        forall|i: int| 0 <= i < k ==> !can_resend(m, #[trigger] m.resends[i]),
    ensures
        m.next_resend() == Some(k),
{
    let p = answerable(m.buffers_tx, m.sources_tx);
    lemma_answer_fits(m, m.resends[k]);
    assert forall|i: int| 0 <= i < k implies !p(#[trigger] m.resends[i]) by {
        lemma_answer_fits(m, m.resends[i]);
    }
    lemma_first_is(m.resends, p, k);
}

/// Where a resend can be answered, one is up.
pub proof fn lemma_resend_is_up(m: MediaModel, k: int)
    requires
        0 <= k < m.resends.len(),
        can_resend(m, m.resends[k]),
    ensures
        m.next_resend() is Some,
{
    lemma_answer_fits(m, m.resends[k]);
    lemma_first(m.resends, answerable(m.buffers_tx, m.sources_tx));
    if m.next_resend() is None {
        assert(!answerable(m.buffers_tx, m.sources_tx)(m.resends[k]));
    }
}

/// Where no resend can be answered, there is no next.
pub proof fn lemma_no_resend(m: MediaModel)
    requires
        forall|i: int| 0 <= i < m.resends.len() ==> !can_resend(m, #[trigger] m.resends[i]),
    ensures
        m.next_resend() is None,
{
    lemma_first(m.resends, answerable(m.buffers_tx, m.sources_tx));
    if let Some(k) = m.next_resend() {
        lemma_answer_fits(m, m.resends[k]);
    }
}

/// Where a resend can be answered, the first that can be is what a poll hands out: the packet that
/// was sent under the number asked for, once more, by the sender of resends and under a number of
/// this sender's own. The number asked for is only kept beside it, for the wire. The requests up to
/// this one are gone, the sender has moved on, and all else is as before.
pub proof fn law_resend_is_polled(
    m: MediaModel,
    now: Instant,
    start: SeqNo,
    twcc: u64,
    k: int,
    b: int,
    q: int,
    j: int,
)
    requires
        0 <= k < m.resends.len(),
        resend_fits(m, m.resends[k], b, q, j),
        forall|i: int| 0 <= i < k ==> !can_resend(m, #[trigger] m.resends[i]),
    ensures
        ({
            let p = m.polled_packet(now, start, twcc);
            let after = m.polled(now, start);
            &&& m.next_sending() is Some
            &&& carries(p, m.buffers_tx[b].1.packets[q], m.resends[k].pt, m.sources_tx[j], start)
            &&& extended(p, m.mid, now, twcc)
            &&& p.orig_seq_no == Some(m.resends[k].seq_no)
            &&& sent_by(m.sources_tx, after.sources_tx, j, p.seq_no, now)
            &&& after == (MediaModel {
                resends: m.resends.skip(k + 1),
                sources_tx: after.sources_tx,
                ..m
            })
        }),
{
    lemma_answer_fits(m, m.resends[k]);
    lemma_next_resend(m, k);
}

/// Where no resend can be answered and a packet waits, the one that waits in front of the first
/// buffer is what a poll hands out: under the payload type of the buffer, by the sender of its SSRC,
/// and under the sender's next number. From then on it is known in its buffer under this number. The
/// requests for resends are gone, the sender has moved on, and all else is as before.
pub proof fn law_waiting_packet_is_polled(
    m: MediaModel,
    now: Instant,
    start: SeqNo,
    twcc: u64,
    b: int,
    j: int,
)
    requires
        forall|i: int| 0 <= i < m.resends.len() ==> !can_resend(m, #[trigger] m.resends[i]),
        waiting_buffer_at(m.buffers_tx, b),
        0 <= m.buffers_tx[b].1.next,
        sender_at(m.sources_tx, m.buffers_tx[b].1.packets[m.buffers_tx[b].1.next].ssrc, j),
    ensures
        ({
            let buffer = m.buffers_tx[b].1;
            let packet = buffer.packets[buffer.next];
            let p = m.polled_packet(now, start, twcc);
            let after = m.polled(now, start);
            let later = after.buffers_tx[b].1;
            &&& m.next_sending() is Some
            &&& carries(p, packet, m.buffers_tx[b].0, m.sources_tx[j], start)
            &&& p.header.ssrc == packet.ssrc
            &&& extended(p, m.mid, now, twcc)
            &&& p.orig_seq_no is None
            &&& sent_by(m.sources_tx, after.sources_tx, j, p.seq_no, now)
            &&& after == (MediaModel {
                resends: Seq::empty(),
                sources_tx: after.sources_tx,
                buffers_tx: after.buffers_tx,
                ..m
            })
            &&& after.buffers_tx.len() == m.buffers_tx.len()
            &&& forall|i: int|
                0 <= i < m.buffers_tx.len() && i != b ==> #[trigger] after.buffers_tx[i]
                    == m.buffers_tx[i]
            &&& after.buffers_tx[b].0 == m.buffers_tx[b].0
            &&& later.codec == buffer.codec
            &&& later.max_retain == buffer.max_retain
            &&& later.next == buffer.next + 1
            &&& later.packets.len() == buffer.packets.len()
            &&& forall|i: int|
                0 <= i < buffer.packets.len() && i != buffer.next ==> #[trigger] later.packets[i]
                    == buffer.packets[i]
            &&& later.packets[buffer.next] == (PacketModel { seq_no: Some(p.seq_no), ..packet })
        }),
{
    let packet = m.buffers_tx[b].1.packets[m.buffers_tx[b].1.next];
    lemma_no_resend(m);
    law_packets_are_found(m.buffers_tx, Seq::empty(), packet.ssrc, start, m.buffers_tx[b].0, b);
    law_senders_are_found(m.sources_tx, packet.ssrc, packet.rid, j);
}

/// Where no resend can be answered and no packet waits, a poll hands out nothing. The requests for
/// resends are gone, and all else is as before.
pub proof fn law_nothing_is_polled(m: MediaModel, now: Instant, start: SeqNo)
    requires
        forall|i: int| 0 <= i < m.resends.len() ==> !can_resend(m, #[trigger] m.resends[i]),
        forall|i: int|
            0 <= i < m.buffers_tx.len() ==> (#[trigger] m.buffers_tx[i]).1.next
                >= m.buffers_tx[i].1.packets.len(),
    ensures
        m.next_sending() is None,
        m.polled(now, start) == (MediaModel { resends: Seq::empty(), ..m }),
{
    lemma_no_resend(m);
    law_packets_are_found(m.buffers_tx, Seq::empty(), Ssrc(0), start, Pt(0), 0);
}

/// What a poll needs of the resend that is up next: that the packet is of the SSRC asked for, and
/// that the sender repairs this SSRC. It needs nothing where none is up.
pub proof fn law_resend_that_is_up_fits_together(m: MediaModel, k: int, b: int, q: int, j: int)
    ensures
        0 <= k < m.resends.len() && resend_fits(m, m.resends[k], b, q, j) && (forall|i: int|
            0 <= i < k ==> !can_resend(m, #[trigger] m.resends[i])) ==> (m.resend_consistent()
            <==> m.buffers_tx[b].1.packets[q].ssrc == m.resends[k].ssrc && m.sources_tx[j].repairs
            == Some(m.resends[k].ssrc)),
        (forall|i: int| 0 <= i < m.resends.len() ==> !can_resend(m, #[trigger] m.resends[i]))
            ==> m.resend_consistent(),
{
    if 0 <= k < m.resends.len() && resend_fits(m, m.resends[k], b, q, j) && (forall|i: int|
        0 <= i < k ==> !can_resend(m, #[trigger] m.resends[i])) {
        lemma_answer_fits(m, m.resends[k]);
        lemma_next_resend(m, k);
    }
    if forall|i: int| 0 <= i < m.resends.len() ==> !can_resend(m, #[trigger] m.resends[i]) {
        lemma_no_resend(m);
    }
}

/// The header of every packet that is handed out, new or resent, carries the number that is handed
/// out beside it, and the SSRC of a sender whose next number this is.
pub proof fn law_header_carries_the_senders_number(
    m: MediaModel,
    now: Instant,
    start: SeqNo,
    twcc: u64,
)
    requires
        m.wf(),
        m.next_sending() is Some,
    ensures
        ({
            let p = m.polled_packet(now, start, twcc);
            &&& p.header.sequence_number == p.seq_no
            &&& exists|j: int|
                0 <= j < m.sources_tx.len() && (#[trigger] m.sources_tx[j]).ssrc == p.header.ssrc
                    && comes_next(m.sources_tx[j].last_seq_no, start, p.seq_no)
        }),
{
    lemma_polled_wf(m, now, start);
    let s = m.next_sending()->0;
    assert(m.sources_tx[s.source].ssrc == m.polled_packet(now, start, twcc).header.ssrc);
}

/// The packets whose headers carry one SSRC, new or resent, carry numbers one after the other: of
/// two of them with none between them, the header of the second carries the number after the
/// first's. Between them packets of other SSRCs may be sent, and anything may happen to the m-line
/// that gives out no number.
pub proof fn law_numbers_in_headers_are_contiguous(
    history: Seq<MediaModel>,
    polls: Seq<Option<(Instant, SeqNo)>>,
    ssrc: Ssrc,
    now: Instant,
    start: SeqNo,
    twcc: Seq<u64>,
)
    requires
        polls.len() > 0,
        polls.len() + 1 == history.len(),
        forall|i: int| 0 <= i < history.len() ==> (#[trigger] history[i]).wf(),
        forall|i: int|
            0 <= i < polls.len() ==> becomes(history[i], #[trigger] polls[i], history[i + 1]),
        polls[0] is Some,
        history[0].next_sending() is Some,
        history[0].polled_packet((polls[0]->0).0, (polls[0]->0).1, twcc[0]).header.ssrc == ssrc,
        forall|i: int|
            0 < i < polls.len() && (#[trigger] polls[i]) is Some && history[i].next_sending()
                is Some ==> history[i].polled_packet(
                (polls[i]->0).0,
                (polls[i]->0).1,
                twcc[i],
            ).header.ssrc != ssrc,
        history.last().next_sending() is Some,
        history.last().polled_packet(now, start, twcc.last()).header.ssrc == ssrc,
    ensures
        ({
            let one = history[0].polled_packet((polls[0]->0).0, (polls[0]->0).1, twcc[0]).header;
            let two = history.last().polled_packet(now, start, twcc.last()).header;
            two.sequence_number.0 == (one.sequence_number.0 + 1) % 0x1_0000_0000_0000_0000
        }),
{
    assert forall|i: int| 0 < i < polls.len() && (#[trigger] polls[i]) is Some implies
        history[i].sending_ssrc() != Some(ssrc) by {
        assert(history[i].wf());
    }
    law_numbers_of_an_ssrc_are_contiguous(history, polls, ssrc, start);
}

/// Packets that are reported lost are sent again, each of them and in the order in which they were
/// reported: after a request for several numbers, the next polls hand out the packets that were sent
/// under them, one after the other.
///
/// `places[i]` is where the packet under the number `lost[i]` is retained, and `by[i]` the sender
/// that resends it. No resend that was asked for before can be answered.
pub proof fn law_reported_packets_are_resent(
    m: MediaModel,
    ssrc: Ssrc,
    lost: Seq<SeqNo>,
    b: int,
    places: Seq<int>,
    by: Seq<int>,
    times: Seq<Instant>,
    now: Instant,
    start: SeqNo,
    twcc: u64,
)
    requires
        m.wf(),
        forall|i: int| 0 <= i < m.resends.len() ==> !can_resend(m, #[trigger] m.resends[i]),
        times.len() < lost.len(),
        places.len() == lost.len(),
        by.len() == lost.len(),
        forall|i: int|
            0 <= i < lost.len() ==> resend_fits(
                m,
                Resend { ssrc, pt: m.buffers_tx[b].0, seq_no: #[trigger] lost[i] },
                b,
                places[i],
                by[i],
            ),
    ensures
        ({
            let later = polled_at(m.nacked(ssrc, lost), times, start);
            let p = later.polled_packet(now, start, twcc);
            let n = times.len() as int;
            let packet = m.buffers_tx[b].1.packets[places[n]];
            &&& later.next_sending() is Some
            &&& p.orig_seq_no == Some(lost[n])
            &&& p.data == packet.data
            &&& p.header.timestamp == packet.ts
            &&& p.header.marker == packet.last
            &&& p.header.payload_type == m.buffers_tx[b].0
            &&& p.header.ssrc == m.sources_tx[by[n]].ssrc
        }),
{
    let asked = m.nacked(ssrc, lost);
    let pt = m.buffers_tx[b].0;
    let n = times.len() as int;
    let base = m.resends.len() as int;
    assert(resend_fits(m, Resend { ssrc, pt, seq_no: lost[0] }, b, places[0], by[0]));
    law_nack_schedules_each_number(m, ssrc, lost, b);
    lemma_resends_one_by_one(m, asked, ssrc, pt, lost, b, places, by, times, start);
    let later = polled_at(asked, times, start);
    let k = if n == 0 {
        base
    } else {
        0
    };
    assert(later.resends[k] == (Resend { ssrc, pt, seq_no: lost[n] }));
    assert(resend_fits(m, Resend { ssrc, pt, seq_no: lost[n] }, b, places[n], by[n]));
    lemma_fits_still(m, later, later.resends[k]);
    assert forall|i: int| 0 <= i < k implies !can_resend(later, #[trigger] later.resends[i]) by {
        assert(later.resends[i] == m.resends[i]);
        lemma_fits_still(m, later, later.resends[i]);
    }
    law_resend_is_polled(later, now, start, twcc, k, b, places[n], by[n]);
}

/// The senders of `a` are those of `b`, but for what they have sent.
spec fn same_roles(a: MediaModel, b: MediaModel) -> bool {
    &&& a.buffers_tx == b.buffers_tx
    &&& a.sources_tx.len() == b.sources_tx.len()
    &&& forall|i: int|
        0 <= i < b.sources_tx.len() ==> (#[trigger] b.sources_tx[i]).ssrc == a.sources_tx[i].ssrc
            && b.sources_tx[i].rid == a.sources_tx[i].rid && b.sources_tx[i].repairs
            == a.sources_tx[i].repairs
}

/// What fits a resend fits it whatever the senders have sent.
proof fn lemma_fits_still(a: MediaModel, b: MediaModel, r: Resend)
    requires
        same_roles(a, b),
    ensures
        forall|k: int, q: int, j: int|
            #![trigger resend_fits(a, r, k, q, j)]
            #![trigger resend_fits(b, r, k, q, j)]
            resend_fits(a, r, k, q, j) <==> resend_fits(b, r, k, q, j),
        can_resend(a, r) <==> can_resend(b, r),
{
    assert forall|k: int, q: int, j: int|
        #![trigger resend_fits(a, r, k, q, j)]
        #![trigger resend_fits(b, r, k, q, j)]
        resend_fits(a, r, k, q, j) <==> resend_fits(b, r, k, q, j) by {
        let rid = a.buffers_tx[k].1.packets[q].rid;
        if resender_at(a.sources_tx, rid, j) {
            assert forall|i: int| 0 <= i < j implies (#[trigger] b.sources_tx[i]).rid != rid
                || b.sources_tx[i].repairs is None by {
                assert(a.sources_tx[i].rid != rid || a.sources_tx[i].repairs is None);
            }
            assert(b.sources_tx[j].rid == rid);
        }
        if resender_at(b.sources_tx, rid, j) {
            assert(b.sources_tx[j].rid == a.sources_tx[j].rid);
            assert forall|i: int| 0 <= i < j implies (#[trigger] a.sources_tx[i]).rid != rid
                || a.sources_tx[i].repairs is None by {
                assert(b.sources_tx[i].rid != rid || b.sources_tx[i].repairs is None);
            }
        }
    }
    if can_resend(a, r) {
        let (k, q, j) = choose|k: int, q: int, j: int| resend_fits(a, r, k, q, j);
        assert(resend_fits(b, r, k, q, j));
    }
    if can_resend(b, r) {
        let (k, q, j) = choose|k: int, q: int, j: int| resend_fits(b, r, k, q, j);
        assert(resend_fits(a, r, k, q, j));
    }
}

/// After some of the resends went out, the others are left.
proof fn lemma_resends_one_by_one(
    m: MediaModel,
    asked: MediaModel,
    ssrc: Ssrc,
    pt: Pt,
    lost: Seq<SeqNo>,
    b: int,
    places: Seq<int>,
    by: Seq<int>,
    times: Seq<Instant>,
    start: SeqNo,
)
    requires
        forall|i: int| 0 <= i < m.resends.len() ==> !can_resend(m, #[trigger] m.resends[i]),
        times.len() <= lost.len(),
        places.len() == lost.len(),
        by.len() == lost.len(),
        forall|i: int|
            0 <= i < lost.len() ==> resend_fits(
                m,
                Resend { ssrc, pt, seq_no: #[trigger] lost[i] },
                b,
                places[i],
                by[i],
            ),
        same_roles(m, asked),
        asked.resends.len() == m.resends.len() + lost.len(),
        forall|i: int| 0 <= i < m.resends.len() ==> #[trigger] asked.resends[i] == m.resends[i],
        forall|i: int|
            0 <= i < lost.len() ==> asked.resends[m.resends.len() + i] == (Resend {
                ssrc,
                pt,
                seq_no: #[trigger] lost[i],
            }),
    ensures
        ({
            let later = polled_at(asked, times, start);
            &&& same_roles(m, later)
            &&& times.len() == 0 ==> later == asked
            &&& times.len() > 0 ==> later.resends == asked.resends.skip(
                (m.resends.len() + times.len()) as int,
            )
        }),
    decreases times.len(),
{
    if times.len() > 0 {
        let n = times.len() - 1;
        let base = m.resends.len() as int;
        lemma_resends_one_by_one(m, asked, ssrc, pt, lost, b, places, by, times.drop_last(), start);
        let later = polled_at(asked, times.drop_last(), start);
        let k = if n == 0 {
            base
        } else {
            0
        };
        assert(later.resends[k] == (Resend { ssrc, pt, seq_no: lost[n] })) by {
            assert(asked.resends[base + n] == (Resend { ssrc, pt, seq_no: lost[n] }));
        }
        assert(resend_fits(m, Resend { ssrc, pt, seq_no: lost[n] }, b, places[n], by[n]));
        lemma_fits_still(m, later, later.resends[k]);
        assert forall|i: int| 0 <= i < k implies !can_resend(later, #[trigger] later.resends[i]) by {
            assert(later.resends[i] == m.resends[i]);
            lemma_fits_still(m, later, later.resends[i]);
        }
        law_resend_is_polled(later, times.last(), start, 0, k, b, places[n], by[n]);
        let after = later.polled(times.last(), start);
        assert(after.resends =~= asked.resends.skip(base + n + 1));
        assert forall|i: int| 0 <= i < m.sources_tx.len() implies (
        #[trigger] after.sources_tx[i]).ssrc == m.sources_tx[i].ssrc && after.sources_tx[i].rid
            == m.sources_tx[i].rid && after.sources_tx[i].repairs == m.sources_tx[i].repairs by {
            assert(later.sources_tx[i].ssrc == m.sources_tx[i].ssrc);
        }
    }
}

/// A request for lost packets of an SSRC schedules one resend for each number reported, in their
/// order and behind those that were asked for before, under the payload type of the first buffer
/// with packets of the SSRC. It does so where the oldest packet of this buffer was sent, from whose
/// number those of the request are lengthened; else it does nothing. Nothing but the schedule
/// changes.
pub proof fn law_nack_schedules_each_number(m: MediaModel, ssrc: Ssrc, lost: Seq<SeqNo>, b: int)
    ensures
        ({
            let after = m.nacked(ssrc, lost);
            let n = m.resends.len();
            let oldest = m.buffers_tx[b].1.packets[0].seq_no;
            &&& after == (MediaModel { resends: after.resends, ..m })
            &&& buffer_of_ssrc_at(m.buffers_tx, ssrc, b) && oldest is Some ==> {
                &&& m.nack_reference(ssrc) == Some((m.buffers_tx[b].0, oldest->0))
                &&& after.resends.len() == n + lost.len()
                &&& forall|i: int| 0 <= i < n ==> #[trigger] after.resends[i] == m.resends[i]
                &&& forall|i: int|
                    0 <= i < lost.len() ==> {
                        let r = after.resends[n + i];
                        &&& r.ssrc == ssrc
                        &&& r.pt == m.buffers_tx[b].0
                        &&& r.seq_no == #[trigger] lost[i]
                    }
            }
            &&& buffer_of_ssrc_at(m.buffers_tx, ssrc, b) && oldest is None ==> {
                &&& m.nack_reference(ssrc) is None
                &&& after == m
            }
            &&& (forall|i: int| !buffer_of_ssrc_at(m.buffers_tx, ssrc, i)) ==> {
                &&& m.nack_reference(ssrc) is None
                &&& after == m
            }
        }),
{
    law_packets_are_found(m.buffers_tx, Seq::empty(), ssrc, SeqNo(0), Pt(0), b);
    if let Some(i) = first(m.buffers_tx, holding(ssrc)) {
        law_packets_are_found(m.buffers_tx, Seq::empty(), ssrc, SeqNo(0), Pt(0), i);
        assert(buffer_of_ssrc_at(m.buffers_tx, ssrc, i));
    }
}

} // verus!
