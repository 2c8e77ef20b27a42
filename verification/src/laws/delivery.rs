//! What is written goes out, in order.

use crate::buffer_tx::{sample_packets, PacketModel, TxBufferModel};
use crate::codec::Codec;
use crate::ids::{MediaTime, Pt, Rid, SeqNo};
use crate::media::{distinct_keys, MediaModel};
use crate::media::send::{answerable, lemma_polled_wf, waiting};
use crate::media::sources::tx_for;
use crate::media::write::{buffer_for, buffer_tx_slot, lemma_written_wf, with_buffer_tx};
use crate::search::{first, lemma_first, lemma_first_is};
use crate::time::Instant;
use vstd::prelude::*;

verus! {

impl MediaModel {
    /// The packets of a payload type that wait to be sent, the one in front first.
    pub open spec fn unsent(self, pt: Pt) -> Seq<PacketModel> {
        match first(self.buffers_tx, buffer_for(pt)) {
            Some(b) => self.buffers_tx[b].1.unsent(),
            None => Seq::empty(),
        }
    }

    /// The packet of a payload type that a poll sends for the first time, if it sends one.
    pub open spec fn first_sent(self, pt: Pt) -> Seq<PacketModel> {
        match self.next_sending() {
            Some(s) if s.orig_seq_no is None && s.pt == pt => seq![s.packet],
            _ => Seq::empty(),
        }
    }

    /// The packets of a sample that is written now.
    pub open spec fn sample(self, rid: Option<Rid>, ts: MediaTime, chunks: Seq<Vec<u8>>) -> Seq<
        PacketModel,
    > {
        let ssrc = self.sources_tx[first(self.sources_tx, tx_for(rid, false))->0].ssrc;
        sample_packets(ts, chunks, ssrc, rid)
    }

    /// Whether a sample of so many packets pushes none out of the buffer of its payload type that
    /// was not sent yet.
    pub open spec fn has_room(self, pt: Pt, codec: Codec, packets: int) -> bool {
        let b = with_buffer_tx(self.buffers_tx, pt, codec)[buffer_tx_slot(self.buffers_tx, pt)].1;
        b.surplus(packets) <= b.next
    }

    /// How many polls can send something before more is written or asked for, at most.
    pub open spec fn outstanding(self) -> int {
        self.resends.len() + unsent_in_all(self.buffers_tx)
    }
}

/// How many packets wait to be sent in all buffers.
pub open spec fn unsent_in_all(buffers: Seq<(Pt, TxBufferModel)>) -> int
    decreases buffers.len(),
{
    if buffers.len() == 0 {
        0
    } else {
        unsent_in_all(buffers.drop_last()) + buffers.last().1.packets.len() - buffers.last().1.next
    }
}

/// A buffer of a table is found under its payload type.
proof fn lemma_buffer_for(buffers: Seq<(Pt, TxBufferModel)>, b: int)
    requires
        distinct_keys(buffers),
        0 <= b < buffers.len(),
    ensures
        first(buffers, buffer_for(buffers[b].0)) == Some(b),
{
    assert forall|j: int| 0 <= j < b implies !buffer_for(buffers[b].0)(#[trigger] buffers[j]) by {
        assert(buffers[j].0 != buffers[b].0);
    }
    lemma_first_is(buffers, buffer_for(buffers[b].0), b);
}

/// A change to what a table holds under one payload type leaves the others.
proof fn lemma_other_buffer(
    before: Seq<(Pt, TxBufferModel)>,
    after: Seq<(Pt, TxBufferModel)>,
    k: int,
    pt: Pt,
)
    requires
        before.len() <= after.len() <= before.len() + 1,
        0 <= k < after.len(),
        after.len() > before.len() ==> k == before.len(),
        after[k].0 != pt,
        k < before.len() ==> before[k].0 != pt,
        forall|i: int| 0 <= i < before.len() && i != k ==> #[trigger] after[i] == before[i],
    ensures
        first(after, buffer_for(pt)) == first(before, buffer_for(pt)),
        first(after, buffer_for(pt)) matches Some(i) ==> 0 <= i < before.len() && after[i]
            == before[i],
{
    lemma_first(before, buffer_for(pt));
    lemma_first(after, buffer_for(pt));
    if let Some(i) = first(before, buffer_for(pt)) {
        assert forall|j: int| 0 <= j < i implies !buffer_for(pt)(#[trigger] after[j]) by {
            assert(!buffer_for(pt)(before[j]));
        }
        assert(after[i] == before[i]);
        lemma_first_is(after, buffer_for(pt), i);
    } else if let Some(i) = first(after, buffer_for(pt)) {
        assert(after[i] == before[i]);
        assert(!buffer_for(pt)(before[i]));
    }
}

/// A poll that sends a packet for the first time takes the one that waits in front of the buffer
/// of its payload type, and leaves those behind it as they are. Nothing else is taken out of a
/// buffer: not by a resend, and not from the buffers of other payload types.
pub proof fn law_poll_takes_the_first_that_waits(
    m: MediaModel,
    now: Instant,
    start: SeqNo,
    pt: Pt,
)
    requires
        m.wf(),
    ensures
        m.first_sent(pt) + m.polled(now, start).unsent(pt) == m.unsent(pt),
{
    let after = m.polled(now, start);
    lemma_first(m.resends, answerable(m.buffers_tx, m.sources_tx));
    lemma_first(m.buffers_tx, waiting());
    lemma_first(m.buffers_tx, buffer_for(pt));
    if m.next_resend() is None && first(m.buffers_tx, waiting()) is Some {
        let b = first(m.buffers_tx, waiting())->0;
        let buffer = m.buffers_tx[b].1;
        assert(buffer.wf());
        lemma_polled_wf(m, now, start);
        if m.buffers_tx[b].0 == pt {
            lemma_buffer_for(m.buffers_tx, b);
            lemma_buffer_for(after.buffers_tx, b);
            assert(seq![buffer.packets[buffer.next]] + after.buffers_tx[b].1.unsent()
                =~= buffer.unsent());
        } else {
            lemma_other_buffer(m.buffers_tx, after.buffers_tx, b, pt);
        }
    }
    assert(m.first_sent(pt) + after.unsent(pt) =~= m.unsent(pt));
}

/// A sample that is written waits behind the packets of its payload type that wait already, its
/// payloads in order, where it pushes none of those out. Other payload types are not touched.
pub proof fn law_written_sample_waits_in_line(
    m: MediaModel,
    pt: Pt,
    rid: Option<Rid>,
    codec: Codec,
    ts: MediaTime,
    chunks: Seq<Vec<u8>>,
    other: Pt,
)
    requires
        m.wf(),
        m.takes_sample(rid),
        m.has_room(pt, codec, chunks.len() as int),
    ensures
        m.written(pt, rid, codec, ts, chunks).unsent(pt) == m.unsent(pt) + m.sample(
            rid,
            ts,
            chunks,
        ),
        other != pt ==> m.written(pt, rid, codec, ts, chunks).unsent(other) == m.unsent(other),
{
    let new = m.sample(rid, ts, chunks);
    let buffers = with_buffer_tx(m.buffers_tx, pt, codec);
    let k = buffer_tx_slot(m.buffers_tx, pt);
    let after = m.written(pt, rid, codec, ts, chunks).buffers_tx;
    lemma_written_wf(m, pt, rid, codec, ts, chunks);
    lemma_first(m.buffers_tx, buffer_for(pt));
    let b = buffers[k].1;
    let gone = b.surplus(new.len() as int);
    assert(b.wf());
    assert forall|i: int, j: int| 0 <= i < j < after.len() implies after[i].0 != after[j].0 by {
        assert(buffers[i].0 != buffers[j].0);
    }
    lemma_buffer_for(after, k);
    assert(after[k].1.unsent() =~= b.unsent() + new);
    if k == m.buffers_tx.len() {
        assert(b.unsent() =~= Seq::empty());
        assert(b.unsent() + new =~= m.unsent(pt) + new);
    }
    if other != pt {
        assert forall|i: int| 0 <= i < m.buffers_tx.len() && i != k implies #[trigger] after[i]
            == m.buffers_tx[i] by {}
        lemma_other_buffer(m.buffers_tx, after, k, other);
    }
}

/// What can happen to an m-line between a write and the packets of its sample going out.
pub ghost enum Step {
    /// A poll at a time, where a sender that has sent nothing starts at a number.
    Poll { now: Instant, start: SeqNo },
    /// A write of a sample that is taken in.
    Write { pt: Pt, rid: Option<Rid>, codec: Codec, ts: MediaTime, chunks: Seq<Vec<u8>> },
    /// Anything that leaves the packets that go out as they are.
    Other,
}

impl Step {
    /// Whether `a` becomes `b` by this. No write pushes out packets that were not sent yet.
    pub open spec fn leads(self, a: MediaModel, b: MediaModel) -> bool {
        match self {
            Step::Poll { now, start } => b == a.polled(now, start),
            Step::Write { pt, rid, codec, ts, chunks } => {
                &&& a.takes_sample(rid)
                &&& a.has_room(pt, codec, chunks.len() as int)
                &&& b == a.written(pt, rid, codec, ts, chunks)
            },
            Step::Other => b.buffers_tx == a.buffers_tx,
        }
    }

    /// The packets of a payload type that this sends for the first time.
    pub open spec fn sends(self, a: MediaModel, of: Pt) -> Seq<PacketModel> {
        match self {
            Step::Poll { .. } => a.first_sent(of),
            _ => Seq::empty(),
        }
    }

    /// The packets of a payload type that this writes.
    pub open spec fn writes(self, a: MediaModel, of: Pt) -> Seq<PacketModel> {
        match self {
            Step::Write { pt, rid, codec, ts, chunks } if pt == of => a.sample(rid, ts, chunks),
            _ => Seq::empty(),
        }
    }
}

/// The packets of a payload type that several steps sent for the first time, in order.
pub open spec fn all_sent(history: Seq<MediaModel>, steps: Seq<Step>, pt: Pt) -> Seq<PacketModel>
    decreases steps.len(),
{
    if steps.len() == 0 {
        Seq::empty()
    } else {
        let n = steps.len() - 1;
        all_sent(history, steps.drop_last(), pt) + steps[n].sends(history[n], pt)
    }
}

/// The packets of a payload type that several steps wrote, in order.
pub open spec fn all_written(history: Seq<MediaModel>, steps: Seq<Step>, pt: Pt) -> Seq<PacketModel>
    decreases steps.len(),
{
    if steps.len() == 0 {
        Seq::empty()
    } else {
        let n = steps.len() - 1;
        all_written(history, steps.drop_last(), pt) + steps[n].writes(history[n], pt)
    }
}

/// Samples that are written are sent, payload by payload and in order, whatever else is sent or
/// happens meanwhile: the packets of a payload type that were sent, followed by those that still
/// wait, are those that waited at first, followed by those that were written since. Once there is
/// nothing more to send, all of them were sent.
///
/// This takes writes that push out no packet that was not sent yet.
pub proof fn law_written_samples_are_sent(history: Seq<MediaModel>, steps: Seq<Step>, pt: Pt)
    requires
        history.len() == steps.len() + 1,
        forall|i: int| 0 <= i < history.len() ==> (#[trigger] history[i]).wf(),
        forall|i: int|
            0 <= i < steps.len() ==> (#[trigger] steps[i]).leads(history[i], history[i + 1]),
    ensures
        all_sent(history, steps, pt) + history.last().unsent(pt) == history[0].unsent(pt)
            + all_written(history, steps, pt),
        history.last().next_sending() is None ==> all_sent(history, steps, pt)
            == history[0].unsent(pt) + all_written(history, steps, pt),
{
    lemma_all_sent(history, steps, pt);
    let last = history.last();
    if last.next_sending() is None {
        lemma_first(last.resends, answerable(last.buffers_tx, last.sources_tx));
        lemma_first(last.buffers_tx, waiting());
        lemma_first(last.buffers_tx, buffer_for(pt));
        if let Some(b) = first(last.buffers_tx, buffer_for(pt)) {
            assert(!waiting()(last.buffers_tx[b]));
            assert(last.buffers_tx[b].1.wf());
        }
        assert(last.unsent(pt) =~= Seq::empty());
        assert(all_sent(history, steps, pt) + last.unsent(pt) =~= all_sent(history, steps, pt));
    }
}

/// The first part of it, over the first of the steps.
proof fn lemma_all_sent(history: Seq<MediaModel>, steps: Seq<Step>, pt: Pt)
    requires
        history.len() > steps.len(),
        forall|i: int| 0 <= i < history.len() ==> (#[trigger] history[i]).wf(),
        forall|i: int|
            0 <= i < steps.len() ==> (#[trigger] steps[i]).leads(history[i], history[i + 1]),
    ensures
        all_sent(history, steps, pt) + history[steps.len() as int].unsent(pt)
            == history[0].unsent(pt) + all_written(history, steps, pt),
    decreases steps.len(),
{
    if steps.len() > 0 {
        let n = steps.len() - 1;
        let front = steps.drop_last();
        assert forall|i: int| 0 <= i < front.len() implies (#[trigger] front[i]).leads(
            history[i],
            history[i + 1],
        ) by {
            assert(steps[i].leads(history[i], history[i + 1]));
        }
        lemma_all_sent(history, front, pt);
        let a = history[n];
        assert(steps[n].leads(a, history[n + 1]));
        assert(a.wf());
        match steps[n] {
            Step::Poll { now, start } => {
                law_poll_takes_the_first_that_waits(a, now, start, pt);
            },
            Step::Write { pt: of, rid, codec, ts, chunks } => {
                law_written_sample_waits_in_line(a, of, rid, codec, ts, chunks, pt);
            },
            Step::Other => {},
        }
        let sent = all_sent(history, front, pt);
        let wrote = all_written(history, front, pt);
        let out = steps[n].sends(a, pt);
        let new = steps[n].writes(a, pt);
        let later = history[n + 1].unsent(pt);
        assert(out + later =~= a.unsent(pt) + new);
        assert((sent + out) + later =~= sent + (out + later));
        assert(sent + (a.unsent(pt) + new) =~= (sent + a.unsent(pt)) + new);
        assert((history[0].unsent(pt) + wrote) + new =~= history[0].unsent(pt) + (wrote + new));
    } else {
        assert(all_sent(history, steps, pt) + history[0].unsent(pt) =~= history[0].unsent(pt)
            + all_written(history, steps, pt));
    }
}

/// A change to one of the buffers changes the number of packets that wait by as much.
proof fn lemma_unsent_in_all(before: Seq<(Pt, TxBufferModel)>, b: int, x: (Pt, TxBufferModel))
    requires
        0 <= b < before.len(),
    ensures
        unsent_in_all(before.update(b, x)) == unsent_in_all(before) + (x.1.packets.len()
            - x.1.next) - (before[b].1.packets.len() - before[b].1.next),
    decreases before.len(),
{
    let after = before.update(b, x);
    if b < before.len() - 1 {
        lemma_unsent_in_all(before.drop_last(), b, x);
        assert(after.drop_last() =~= before.drop_last().update(b, x));
    } else {
        assert(after.drop_last() =~= before.drop_last());
    }
}

/// Packets do not wait forever: a poll that sends something leaves less to send.
pub proof fn law_polls_get_done(m: MediaModel, now: Instant, start: SeqNo)
    requires
        m.wf(),
        m.next_sending() is Some,
    ensures
        0 <= m.polled(now, start).outstanding() < m.outstanding(),
{
    lemma_first(m.resends, answerable(m.buffers_tx, m.sources_tx));
    lemma_first(m.buffers_tx, waiting());
    lemma_polled_wf(m, now, start);
    lemma_unsent_not_negative(m.polled(now, start).buffers_tx);
    if m.next_resend() is None {
        let b = first(m.buffers_tx, waiting())->0;
        assert(m.buffers_tx[b].1.wf());
        lemma_unsent_in_all(m.buffers_tx, b, m.polled(now, start).buffers_tx[b]);
    }
}

/// Not fewer than no packets wait.
proof fn lemma_unsent_not_negative(buffers: Seq<(Pt, TxBufferModel)>)
    requires
        forall|i: int| 0 <= i < buffers.len() ==> (#[trigger] buffers[i]).1.wf(),
    ensures
        unsent_in_all(buffers) >= 0,
    decreases buffers.len(),
{
    if buffers.len() > 0 {
        let front = buffers.drop_last();
        assert forall|i: int| 0 <= i < front.len() implies (#[trigger] front[i]).1.wf() by {
            assert(buffers[i].1.wf());
        }
        lemma_unsent_not_negative(front);
        assert(buffers[buffers.len() - 1].1.wf());
    }
}

} // verus!
