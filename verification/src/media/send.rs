//! Sending packets, and sending packets again.

use super::sources::{
    as_index, get_source_tx, lemma_tx_index, position_source_tx, position_tx, tx_for, tx_index,
};
use super::wire::{packet_header, PolledModel, PolledPacket};
use super::{has_tx, packets_have_senders, Media, MediaModel, Resend};
use crate::buffer_tx::{
    buffers_tx_model, numbered, PacketModel, Packetized, PacketizingBuffer, TxBufferModel,
};
use crate::header::RtpHeader;
use crate::ids::{MediaTime, Pt, SeqNo, Ssrc};
use crate::search::{first, first_from, lemma_first};
use crate::sender::SenderSource;
use crate::time::Instant;
use vstd::prelude::*;

verus! {

/// Buffers with a packet of that SSRC.
pub open spec fn holding(ssrc: Ssrc) -> spec_fn((Pt, TxBufferModel)) -> bool {
    |b: (Pt, TxBufferModel)| b.1.holds(ssrc)
}

/// Buffers with a packet that waits to be sent.
pub open spec fn waiting() -> spec_fn((Pt, TxBufferModel)) -> bool {
    |b: (Pt, TxBufferModel)| b.1.pending()
}

/// How a resend can be answered.
pub ghost struct Answer {
    /// The packet that was sent under the number asked for.
    pub packet: PacketModel,
    /// The index of the sender for the resend.
    pub source: int,
}

/// How a resend can be answered: with the packet from the first buffer that has packets of the
/// SSRC, by the sender of resends for the packet's encoding. A packet that is no longer retained
/// is not sent again, nor one without such a sender.
pub open spec fn answer(
    buffers: Seq<(Pt, TxBufferModel)>,
    tx: Seq<SenderSource>,
    r: Resend,
) -> Option<Answer> {
    match first(buffers, holding(r.ssrc)) {
        None => None,
        Some(b) => match buffers[b].1.retained(r.seq_no) {
            None => None,
            Some(p) => {
                let packet = buffers[b].1.packets[p];
                match first(tx, tx_for(packet.rid, true)) {
                    None => None,
                    Some(source) => Some(Answer { packet, source }),
                }
            },
        },
    }
}

/// Resends that can be answered.
pub open spec fn answerable(
    buffers: Seq<(Pt, TxBufferModel)>,
    tx: Seq<SenderSource>,
) -> spec_fn(Resend) -> bool {
    |r: Resend| answer(buffers, tx, r) is Some
}

/// A packet that is about to be sent.
pub ghost struct Sending {
    pub pt: Pt,
    pub packet: PacketModel,
    /// The index of its sender.
    pub source: int,
    /// The number it was sent under before, if it is sent again.
    pub orig_seq_no: Option<SeqNo>,
}

impl MediaModel {
    /// The index of the first requested resend that can be answered.
    pub open spec fn next_resend(self) -> Option<int> {
        first(self.resends, answerable(self.buffers_tx, self.sources_tx))
    }

    /// Whether the resend that is up next is answered with a packet of the SSRC asked for, by a
    /// sender that repairs this SSRC.
    pub open spec fn resend_consistent(self) -> bool {
        self.next_resend() matches Some(k) ==> {
            let a = answer(self.buffers_tx, self.sources_tx, self.resends[k])->0;
            &&& a.packet.ssrc == self.resends[k].ssrc
            &&& self.sources_tx[a.source].repairs == Some(self.resends[k].ssrc)
        }
    }

    /// The packet to send next. Resends go first, in the order in which they were requested.
    pub open spec fn next_sending(self) -> Option<Sending> {
        match self.next_resend() {
            Some(k) => {
                let a = answer(self.buffers_tx, self.sources_tx, self.resends[k])->0;
                Some(
                    Sending {
                        pt: self.resends[k].pt,
                        packet: a.packet,
                        source: a.source,
                        orig_seq_no: Some(self.resends[k].seq_no),
                    },
                )
            },
            None => match first(self.buffers_tx, waiting()) {
                Some(b) => {
                    let packet = self.buffers_tx[b].1.packets[self.buffers_tx[b].1.next];
                    Some(
                        Sending {
                            pt: self.buffers_tx[b].0,
                            packet,
                            source: tx_index(self.sources_tx, packet.ssrc)->0,
                            orig_seq_no: None,
                        },
                    )
                },
                None => None,
            },
        }
    }

    /// The SSRC that the packet to send next is sent under.
    pub open spec fn sending_ssrc(self) -> Option<Ssrc> {
        match self.next_sending() {
            Some(s) => Some(self.sources_tx[s.source].ssrc),
            None => None,
        }
    }

    /// The number of the packet to send next, where a sender that has sent nothing starts at
    /// `start`.
    pub open spec fn sending_number(self, start: SeqNo) -> SeqNo {
        self.sources_tx[self.next_sending()->0.source].upcoming(start)
    }

    /// The m-line after the packet to send next was sent. Requests for resends that could not be
    /// answered before it are dropped.
    pub open spec fn polled(self, now: Instant, start: SeqNo) -> MediaModel {
        let after = match self.next_resend() {
            Some(k) => MediaModel { resends: self.resends.skip(k + 1), ..self },
            None => MediaModel {
                resends: Seq::empty(),
                buffers_tx: match first(self.buffers_tx, waiting()) {
                    Some(b) => self.buffers_tx.update(
                        b,
                        (
                            self.buffers_tx[b].0,
                            self.buffers_tx[b].1.sent(self.sending_number(start)),
                        ),
                    ),
                    None => self.buffers_tx,
                },
                ..self
            },
        };
        match self.next_sending() {
            Some(s) => MediaModel {
                sources_tx: self.sources_tx.update(
                    s.source,
                    self.sources_tx[s.source].sent(now, start),
                ),
                ..after
            },
            None => after,
        }
    }

    /// The packet to send next, as it is handed out.
    pub open spec fn polled_packet(self, now: Instant, start: SeqNo, twcc: u64) -> PolledModel {
        let s = self.next_sending()->0;
        let seq_no = self.sending_number(start);
        PolledModel {
            header: packet_header(
                s.pt,
                seq_no,
                s.packet,
                self.sources_tx[s.source].ssrc,
                self.mid,
                now,
                twcc,
            ),
            seq_no,
            orig_seq_no: s.orig_seq_no,
            data: s.packet.data,
        }
    }

    /// Where resends for an SSRC come from: the payload type of the first buffer with packets of
    /// the SSRC, and the number of the oldest packet in it.
    pub open spec fn nack_reference(self, ssrc: Ssrc) -> Option<(Pt, SeqNo)> {
        match first(self.buffers_tx, holding(ssrc)) {
            Some(b) => match self.buffers_tx[b].1.first_number() {
                Some(n) => Some((self.buffers_tx[b].0, n)),
                None => None,
            },
            None => None,
        }
    }

    /// The m-line after the other side reported packets of an SSRC lost.
    pub open spec fn nacked(self, ssrc: Ssrc, lost: Seq<SeqNo>) -> MediaModel {
        match self.nack_reference(ssrc) {
            Some((pt, _)) => MediaModel {
                resends: self.resends + Seq::new(
                    lost.len(),
                    |i: int| Resend { ssrc, pt, seq_no: lost[i] },
                ),
                ..self
            },
            None => self,
        }
    }
}

/// The first buffer that has packets of an SSRC.
fn position_buffer(buffers: &Vec<(Pt, PacketizingBuffer)>, ssrc: Ssrc) -> (r: Option<usize>)
    ensures
        as_index(r) == first(buffers_tx_model(buffers@), holding(ssrc)),
        r matches Some(b) ==> b < buffers@.len(),
{
    let ghost all = buffers_tx_model(buffers@);
    let mut b: usize = 0;
    while b < buffers.len()
        invariant
            b <= buffers@.len(),
            all == buffers_tx_model(buffers@),
            first(all, holding(ssrc)) == first_from(all, holding(ssrc), b as int),
        decreases buffers@.len() - b,
    {
        if buffers[b].1.has_ssrc(ssrc) {
            return Some(b);
        }
        b = b + 1;
    }
    None
}

/// The packet that waits in front of the first buffer in which one waits. It counts as sent: the
/// caller gives it its number.
fn next_send_buffer(buffers_tx: &mut Vec<(Pt, PacketizingBuffer)>) -> (r: Option<
    (Pt, &mut Packetized),
>)
    requires
        forall|i: int|
            #![trigger old(buffers_tx)@[i]]
            0 <= i < old(buffers_tx)@.len() ==> old(buffers_tx)@[i].1@.wf(),
    ensures
        ({
            let before = buffers_tx_model(old(buffers_tx)@);
            let after = buffers_tx_model(final(buffers_tx)@);
            match (r, first(before, waiting())) {
                (Some((pt, p)), Some(b)) => {
                    let (key, buffer) = before[b];
                    &&& 0 <= b < before.len()
                    &&& buffer.pending()
                    &&& pt == key
                    &&& p@ == buffer.packets[buffer.next]
                    &&& after == before.update(
                        b,
                        (
                            key,
                            TxBufferModel {
                                packets: buffer.packets.update(buffer.next, final(p)@),
                                next: buffer.next + 1,
                                ..buffer
                            },
                        ),
                    )
                },
                (None, None) => after == before,
                _ => false,
            }
        }),
{
    let ghost before = buffers_tx_model(buffers_tx@);
    let ghost start = buffers_tx@;
    let mut b: usize = 0;
    while b < buffers_tx.len()
        invariant
            b <= buffers_tx@.len(),
            start == old(buffers_tx)@,
            before == buffers_tx_model(start),
            buffers_tx@.len() == start.len(),
            buffers_tx_model(buffers_tx@) == before,
            first(before, waiting()) == first_from(before, waiting(), b as int),
            forall|i: int| #![trigger start[i]] 0 <= i < start.len() ==> start[i].1@.wf(),
        decreases buffers_tx@.len() - b,
    {
        assert(before[b as int].1 == start[b as int].1@);
        assert(buffers_tx_model(buffers_tx@)[b as int].1 == buffers_tx@[b as int].1@);
        if buffers_tx[b].1.has_next() {
            let pt = buffers_tx[b].0;
            return match buffers_tx[b].1.poll_next() {
                Some(pkt) => Some((pt, pkt)),
                None => None,
            };
        }
        b = b + 1;
    }
    None
}

/// A packet that was chosen to be sent, with the number it is sent under.
struct Chosen {
    pt: Pt,
    ts: MediaTime,
    last: bool,
    data: Vec<u8>,
    ssrc: Ssrc,
    seq_no: SeqNo,
    orig_seq_no: Option<SeqNo>,
}

impl Chosen {
    /// Whether this is the packet to send next, under its number.
    spec fn is_next(self, m: MediaModel, start: SeqNo) -> bool {
        &&& m.next_sending() matches Some(s)
        &&& self.pt == s.pt
        &&& self.ts == s.packet.ts
        &&& self.last == s.packet.last
        &&& self.data@ == s.packet.data
        &&& self.ssrc == m.sources_tx[s.source].ssrc
        &&& self.seq_no == m.sending_number(start)
        &&& self.orig_seq_no == s.orig_seq_no
    }
}

/// What a resend is answered with is there.
proof fn lemma_answer(buffers: Seq<(Pt, TxBufferModel)>, tx: Seq<SenderSource>, r: Resend)
    ensures
        answer(buffers, tx, r) matches Some(a) ==> {
            &&& 0 <= a.source < tx.len()
            &&& tx[a.source].repairs is Some
            &&& a.packet.seq_no == Some(r.seq_no)
        },
{
    lemma_first(buffers, holding(r.ssrc));
    if let Some(b) = first(buffers, holding(r.ssrc)) {
        lemma_first(buffers[b].1.packets, numbered(r.seq_no));
        if let Some(p) = buffers[b].1.retained(r.seq_no) {
            lemma_first(tx, tx_for(buffers[b].1.packets[p].rid, true));
        }
    }
}

/// Sending a packet keeps the invariant.
pub proof fn lemma_polled_wf(m: MediaModel, now: Instant, start: SeqNo)
    requires
        m.wf(),
    ensures
        m.polled(now, start).wf(),
        m.next_sending() matches Some(s) ==> 0 <= s.source < m.sources_tx.len(),
        m.next_resend() is None ==> (m.next_sending() matches Some(s)
            ==> m.sources_tx[s.source].ssrc == s.packet.ssrc),
{
    let after = m.polled(now, start);
    let tx = m.sources_tx;
    lemma_first(m.resends, answerable(m.buffers_tx, tx));
    lemma_first(m.buffers_tx, waiting());
    if let Some(k) = m.next_resend() {
        lemma_answer(m.buffers_tx, tx, m.resends[k]);
    } else if let Some(b) = first(m.buffers_tx, waiting()) {
        let buffer = m.buffers_tx[b].1;
        assert(has_tx(tx, buffer.packets[buffer.next].ssrc));
        lemma_tx_index(tx, buffer.packets[buffer.next].ssrc);
    }
    assert forall|s: Ssrc| has_tx(tx, s) implies has_tx(after.sources_tx, s) by {
        let i = choose|i: int| 0 <= i < tx.len() && #[trigger] tx[i].ssrc == s;
        assert(after.sources_tx[i].ssrc == s);
    }
    assert forall|i: int, j: int| 0 <= i < j < after.sources_tx.len() implies
        after.sources_tx[i].ssrc != after.sources_tx[j].ssrc by {
        assert(tx[i].ssrc != tx[j].ssrc);
    }
    assert forall|i: int, j: int| 0 <= i < j < after.buffers_tx.len() implies after.buffers_tx[i].0
        != after.buffers_tx[j].0 by {
        assert(m.buffers_tx[i].0 != m.buffers_tx[j].0);
    }
    assert forall|i: int| 0 <= i < after.buffers_tx.len() implies {
        &&& (#[trigger] after.buffers_tx[i]).1.wf()
        &&& packets_have_senders(after.buffers_tx[i].1, after.sources_tx)
    } by {
        let old_b = m.buffers_tx[i].1;
        let new_b = after.buffers_tx[i].1;
        assert(old_b.wf());
        assert forall|p: int| 0 <= p < new_b.packets.len() implies has_tx(
            after.sources_tx,
            (#[trigger] new_b.packets[p]).ssrc,
        ) by {
            assert(has_tx(tx, old_b.packets[p].ssrc));
        }
        assert forall|p: int| 0 <= p < new_b.packets.len() implies (
        #[trigger] new_b.packets[p].seq_no is Some <==> p < new_b.next) by {
            assert(old_b.packets[p].seq_no is Some <==> p < old_b.next);
        }
    }
}

impl Media {
    /// The first resend that can be answered, with the packet and the index of the sender.
    fn first_answerable(&self) -> (r: Option<(Resend, &Packetized, usize)>)
        ensures
            match (r, self@.next_resend()) {
                (Some((resend, pkt, j)), Some(k)) => {
                    &&& resend == self@.resends[k]
                    &&& answer(self@.buffers_tx, self@.sources_tx, resend) == Some(
                        Answer { packet: pkt@, source: j as int },
                    )
                    &&& j < self@.sources_tx.len()
                },
                (None, None) => true,
                _ => false,
            },
    {
        let ghost p = answerable(self@.buffers_tx, self@.sources_tx);
        let mut k: usize = 0;
        while k < self.resends.len()
            invariant
                k <= self.resends@.len(),
                p == answerable(self@.buffers_tx, self@.sources_tx),
                first(self@.resends, p) == first_from(self@.resends, p, k as int),
            decreases self.resends@.len() - k,
        {
            let resend = self.resends[k];
            proof {
                lemma_answer(self@.buffers_tx, self@.sources_tx, resend);
            }
            if let Some(b) = position_buffer(&self.buffers_tx, resend.ssrc) {
                if let Some(pkt) = self.buffers_tx[b].1.get(resend.seq_no) {
                    if let Some(j) = position_source_tx(&self.sources_tx, pkt.rid, true) {
                        return Some((resend, pkt, j));
                    }
                }
            }
            k = k + 1;
        }
        None
    }

    /// Whether the resend that is up next fits together: the packet found for it is of the SSRC
    /// asked for, and the sender found for it repairs this SSRC.
    pub fn is_resend_consistent(&self) -> (r: bool)
        ensures
            r == self@.resend_consistent(),
    {
        match self.first_answerable() {
            Some((resend, pkt, j)) => pkt.ssrc == resend.ssrc && self.sources_tx[j].repairs == Some(
                resend.ssrc,
            ),
            None => true,
        }
    }

    /// Whether there is a packet to send.
    pub fn has_packet(&self) -> (r: bool)
        ensures
            r == self@.next_sending() is Some,
    {
        if self.first_answerable().is_some() {
            return true;
        }
        let ghost all = self@.buffers_tx;
        let mut b: usize = 0;
        while b < self.buffers_tx.len()
            invariant
                b <= self.buffers_tx@.len(),
                all == self@.buffers_tx,
                self@.next_resend() is None,
                first(all, waiting()) == first_from(all, waiting(), b as int),
            decreases self.buffers_tx@.len() - b,
        {
            if self.buffers_tx[b].1.has_next() {
                return true;
            }
            b = b + 1;
        }
        false
    }

    /// Takes the first resend that can be answered, and drops those before it.
    fn take_resend(&mut self, now: Instant, start: SeqNo) -> (r: Option<Chosen>)
        requires
            old(self)@.wf(),
            old(self)@.resend_consistent(),
        ensures
            match r {
                Some(c) => {
                    &&& old(self)@.next_resend() is Some
                    &&& c.is_next(old(self)@, start)
                    &&& final(self)@ == old(self)@.polled(now, start)
                },
                None => {
                    &&& old(self)@.next_resend() is None
                    &&& final(self)@ == (MediaModel { resends: Seq::empty(), ..old(self)@ })
                },
            },
    {
        let ghost m = self@;
        let ghost p = answerable(m.buffers_tx, m.sources_tx);
        let ghost mut k: int = 0;
        while self.resends.len() > 0
            invariant
                0 <= k <= m.resends.len(),
                m == old(self)@,
                m.resend_consistent(),
                self@ == (MediaModel { resends: m.resends.skip(k), ..m }),
                p == answerable(m.buffers_tx, m.sources_tx),
                first(m.resends, p) == first_from(m.resends, p, k),
            decreases self.resends@.len(),
        {
            assert(m.resends.skip(k).len() > 0);
            assert(m.resends.skip(k)[0] == m.resends[k]);
            let resend = self.resends.pop_front().unwrap();
            assert(self@.resends =~= m.resends.skip(k + 1));
            proof {
                lemma_answer(m.buffers_tx, m.sources_tx, resend);
            }
            if let Some(b) = position_buffer(&self.buffers_tx, resend.ssrc) {
                if let Some(pkt) = self.buffers_tx[b].1.get(resend.seq_no) {
                    if let Some(source) = get_source_tx(&mut self.sources_tx, pkt.rid, true) {
                        let seq_no = source.next_seq_no(now, start);
                        let ssrc = source.ssrc;
                        assert(pkt.ssrc == resend.ssrc);
                        assert(source.repairs == Some(resend.ssrc));
                        return Some(
                            Chosen {
                                pt: resend.pt,
                                ts: pkt.ts,
                                last: pkt.last,
                                data: pkt.data.clone(),
                                ssrc,
                                seq_no,
                                orig_seq_no: Some(resend.seq_no),
                            },
                        );
                    }
                }
            }
            proof {
                k = k + 1;
            }
        }
        assert(m.resends.skip(k) =~= Seq::empty());
        None
    }

    /// Takes the packet that waits in front of the buffers.
    fn take_waiting(&mut self, now: Instant, start: SeqNo) -> (r: Option<Chosen>)
        requires
            old(self)@.wf(),
            old(self)@.resends.len() == 0,
        ensures
            match r {
                Some(c) => c.is_next(old(self)@, start),
                None => old(self)@.next_sending() is None,
            },
            final(self)@ == old(self)@.polled(now, start),
    {
        let ghost m = self@;
        proof {
            lemma_polled_wf(m, now, start);
            lemma_first(m.buffers_tx, waiting());
            assert(m.resends =~= Seq::empty());
            assert forall|i: int| 0 <= i < self.buffers_tx@.len() implies (
            #[trigger] self.buffers_tx@[i]).1@.wf() by {
                assert(m.buffers_tx[i].1.wf());
            }
        }
        match next_send_buffer(&mut self.buffers_tx) {
            Some((pt, pkt)) => {
                let ghost b = first(m.buffers_tx, waiting())->0;
                proof {
                    let buffer = m.buffers_tx[b].1;
                    assert(has_tx(m.sources_tx, buffer.packets[buffer.next].ssrc));
                    lemma_tx_index(m.sources_tx, pkt.ssrc);
                }
                let j: usize = position_tx(&self.sources_tx, pkt.ssrc).unwrap();
                let seq_no = self.sources_tx[j].next_seq_no(now, start);
                pkt.seq_no = Some(seq_no);
                Some(
                    Chosen {
                        pt,
                        ts: pkt.ts,
                        last: pkt.last,
                        data: pkt.data.clone(),
                        ssrc: pkt.ssrc,
                        seq_no,
                        orig_seq_no: None,
                    },
                )
            },
            None => None,
        }
    }

    /// The packet to send at `now`, if there is one, and the packet's place in the numbering of
    /// the whole transport, which `twcc` counts. A sender that has sent nothing starts at the
    /// number `start`.
    ///
    /// Resends that were requested go before packets that were not sent yet.
    pub fn poll_packet(&mut self, now: Instant, start: SeqNo, twcc: &mut u64) -> (r: Option<
        PolledPacket,
    >)
        requires
            old(self)@.wf(),
            old(self)@.resend_consistent(),
            old(self)@.next_sending() is Some ==> *old(twcc) < u64::MAX,
        ensures
            match r {
                Some(p) => {
                    &&& old(self)@.next_sending() is Some
                    &&& p@ == old(self)@.polled_packet(now, start, *old(twcc))
                    &&& *final(twcc) == *old(twcc) + 1
                },
                None => old(self)@.next_sending() is None && *final(twcc) == *old(twcc),
            },
            final(self)@ == old(self)@.polled(now, start),
            final(self)@.wf(),
    {
        let ghost m = self@;
        proof {
            lemma_polled_wf(m, now, start);
        }
        let chosen = match self.take_resend(now, start) {
            Some(c) => c,
            None => {
                proof {
                    lemma_drained(m);
                }
                match self.take_waiting(now, start) {
                    Some(c) => c,
                    None => {
                        return None;
                    },
                }
            },
        };
        let mut header = RtpHeader::new(chosen.pt, chosen.seq_no, chosen.ts, chosen.ssrc);
        header.marker = chosen.last;
        header.ext_vals.abs_send_time = Some(now);
        header.ext_vals.mid = Some(self.mid);
        header.ext_vals.transport_cc = Some((*twcc % 0x1_0000) as u16);
        *twcc = *twcc + 1;
        Some(
            PolledPacket {
                header,
                seq_no: chosen.seq_no,
                orig_seq_no: chosen.orig_seq_no,
                data: chosen.data,
            },
        )
    }
}

/// Dropping resends none of which can be answered changes nothing of what is sent next.
proof fn lemma_drained(m: MediaModel)
    requires
        m.wf(),
        m.next_resend() is None,
    ensures
        ({
            let drained = MediaModel { resends: Seq::empty(), ..m };
            &&& drained.wf()
            &&& drained.next_resend() is None
            &&& drained.next_sending() == m.next_sending()
            &&& forall|now: Instant, start: SeqNo| #[trigger]
                drained.polled(now, start) == m.polled(now, start)
        }),
{
}

impl Media {
    /// Where resends for an SSRC come from: a payload type, and a number close by those that can
    /// be asked for, from which to lengthen the sixteen bits of a request.
    pub fn nack_reference(&self, ssrc: Ssrc) -> (r: Option<(Pt, SeqNo)>)
        ensures
            r == self@.nack_reference(ssrc),
    {
        match position_buffer(&self.buffers_tx, ssrc) {
            Some(b) => match self.buffers_tx[b].1.first_seq_no() {
                Some(n) => Some((self.buffers_tx[b].0, n)),
                None => None,
            },
            None => None,
        }
    }

    /// Schedules the resends of packets that the other side reported lost. They are sent by the
    /// next calls of [`Media::poll_packet`].
    pub fn handle_nack(&mut self, ssrc: Ssrc, lost: Vec<SeqNo>) -> (r: Option<()>)
        ensures
            r is Some <==> old(self)@.nack_reference(ssrc) is Some,
            final(self)@ == old(self)@.nacked(ssrc, lost@),
            old(self)@.wf() ==> final(self)@.wf(),
    {
        let (pt, _) = match self.nack_reference(ssrc) {
            Some(v) => v,
            None => {
                return None;
            },
        };
        let ghost m = self@;
        let ghost more = Seq::new(lost@.len(), |i: int| Resend { ssrc, pt, seq_no: lost@[i] });
        let mut i: usize = 0;
        while i < lost.len()
            invariant
                i <= lost@.len(),
                more == Seq::new(lost@.len(), |i: int| Resend { ssrc, pt, seq_no: lost@[i] }),
                self@ == (MediaModel { resends: m.resends + more.take(i as int), ..m }),
            decreases lost@.len() - i,
        {
            self.resends.push_back(Resend { ssrc, pt, seq_no: lost[i] });
            assert(m.resends + more.take(i + 1) =~= (m.resends + more.take(i as int)).push(
                more[i as int],
            ));
            i = i + 1;
        }
        assert(more.take(lost@.len() as int) =~= more);
        Some(())
    }
}

} // verus!
