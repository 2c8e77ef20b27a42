//! What came in can be read, in order.

use crate::buffer_rx::{Depacketized, RxBufferModel};
use crate::codec::Codec;
use crate::error::PacketError;
use crate::ids::{Pt, Rid};
use crate::media::{distinct_keys, MediaModel};
use crate::media::receive::{buffer_rx_slot, filled, rx_buffer_for, with_buffer_rx};
use crate::search::{first, lemma_first, lemma_first_is};
use vstd::prelude::*;

verus! {

impl MediaModel {
    /// The samples of a payload type and encoding that wait to be read, the oldest first.
    pub open spec fn unread(self, key: (Pt, Option<Rid>)) -> Seq<Result<Depacketized, PacketError>> {
        match first(self.buffers_rx, rx_buffer_for(key)) {
            Some(b) => self.buffers_rx[b].1.ready,
            None => Seq::empty(),
        }
    }

    /// The sample of a payload type and encoding that a read takes out, if it takes one.
    pub open spec fn next_read(self, key: (Pt, Option<Rid>)) -> Seq<
        Result<Depacketized, PacketError>,
    > {
        match first(self.buffers_rx, filled()) {
            Some(b) if self.buffers_rx[b].0 == key => seq![self.buffers_rx[b].1.ready[0]],
            _ => Seq::empty(),
        }
    }

    /// The m-line after a sample was put into the buffer of its payload type and encoding, which
    /// is created where there is none.
    pub open spec fn received(
        self,
        key: (Pt, Option<Rid>),
        codec: Codec,
        sample: Result<Depacketized, PacketError>,
    ) -> MediaModel {
        let buffers = with_buffer_rx(self.buffers_rx, key, codec);
        let k = buffer_rx_slot(self.buffers_rx, key);
        let b = RxBufferModel { ready: buffers[k].1.ready.push(sample), ..buffers[k].1 };
        MediaModel { buffers_rx: buffers.update(k, (key, b)), ..self }
    }
}

/// How many samples wait to be read in all buffers.
pub open spec fn unread_in_all(buffers: Seq<((Pt, Option<Rid>), RxBufferModel)>) -> nat
    decreases buffers.len(),
{
    if buffers.len() == 0 {
        0
    } else {
        unread_in_all(buffers.drop_last()) + buffers.last().1.ready.len()
    }
}

/// A buffer of a table is found under its key.
proof fn lemma_rx_buffer_for(buffers: Seq<((Pt, Option<Rid>), RxBufferModel)>, b: int)
    requires
        distinct_keys(buffers),
        0 <= b < buffers.len(),
    ensures
        first(buffers, rx_buffer_for(buffers[b].0)) == Some(b),
{
    let p = rx_buffer_for(buffers[b].0);
    assert forall|j: int| 0 <= j < b implies !p(#[trigger] buffers[j]) by {
        assert(buffers[j].0 != buffers[b].0);
    }
    lemma_first_is(buffers, p, b);
}

/// A change to what a table holds under one key leaves the others.
proof fn lemma_other_rx_buffer(
    before: Seq<((Pt, Option<Rid>), RxBufferModel)>,
    after: Seq<((Pt, Option<Rid>), RxBufferModel)>,
    k: int,
    key: (Pt, Option<Rid>),
)
    requires
        before.len() <= after.len() <= before.len() + 1,
        0 <= k < after.len(),
        after.len() > before.len() ==> k == before.len(),
        after[k].0 != key,
        k < before.len() ==> before[k].0 != key,
        forall|i: int| 0 <= i < before.len() && i != k ==> #[trigger] after[i] == before[i],
    ensures
        first(after, rx_buffer_for(key)) == first(before, rx_buffer_for(key)),
        first(after, rx_buffer_for(key)) matches Some(i) ==> 0 <= i < before.len() && after[i]
            == before[i],
{
    let p = rx_buffer_for(key);
    lemma_first(before, p);
    lemma_first(after, p);
    if let Some(i) = first(before, p) {
        assert forall|j: int| 0 <= j < i implies !p(#[trigger] after[j]) by {
            assert(!p(before[j]));
        }
        assert(after[i] == before[i]);
        lemma_first_is(after, p, i);
    } else if let Some(i) = first(after, p) {
        assert(after[i] == before[i]);
        assert(!p(before[i]));
    }
}

/// A read takes the oldest sample of a buffer and leaves those behind it, and takes nothing from
/// the other buffers.
pub proof fn law_read_takes_the_oldest(m: MediaModel, key: (Pt, Option<Rid>))
    requires
        m.wf(),
    ensures
        m.next_read(key) + m.sample_taken().unread(key) == m.unread(key),
{
    let after = m.sample_taken();
    lemma_first(m.buffers_rx, filled());
    if let Some(b) = first(m.buffers_rx, filled()) {
        assert forall|i: int, j: int| 0 <= i < j < after.buffers_rx.len() implies
            after.buffers_rx[i].0 != after.buffers_rx[j].0 by {
            assert(m.buffers_rx[i].0 != m.buffers_rx[j].0);
        }
        if m.buffers_rx[b].0 == key {
            lemma_rx_buffer_for(m.buffers_rx, b);
            lemma_rx_buffer_for(after.buffers_rx, b);
        } else {
            lemma_other_rx_buffer(m.buffers_rx, after.buffers_rx, b, key);
        }
    }
    assert(m.next_read(key) + after.unread(key) =~= m.unread(key));
}

/// A sample that is put into its buffer waits behind those that are in it. Other buffers are not
/// touched.
pub proof fn law_received_sample_waits_in_line(
    m: MediaModel,
    key: (Pt, Option<Rid>),
    codec: Codec,
    sample: Result<Depacketized, PacketError>,
    other: (Pt, Option<Rid>),
)
    requires
        m.wf(),
    ensures
        m.received(key, codec, sample).unread(key) == m.unread(key).push(sample),
        other != key ==> m.received(key, codec, sample).unread(other) == m.unread(other),
{
    let buffers = with_buffer_rx(m.buffers_rx, key, codec);
    let k = buffer_rx_slot(m.buffers_rx, key);
    let after = m.received(key, codec, sample).buffers_rx;
    lemma_first(m.buffers_rx, rx_buffer_for(key));
    assert forall|j: int| 0 <= j < k implies !rx_buffer_for(key)(#[trigger] after[j]) by {
        assert(!rx_buffer_for(key)(m.buffers_rx[j]));
    }
    lemma_first_is(after, rx_buffer_for(key), k);
    if other != key {
        assert forall|i: int| 0 <= i < m.buffers_rx.len() && i != k implies #[trigger] after[i]
            == m.buffers_rx[i] by {}
        lemma_other_rx_buffer(m.buffers_rx, after, k, other);
    }
}

/// What can happen to an m-line between a sample coming in and its being read.
pub ghost enum Turn {
    /// A sample is put into the buffer of its payload type and encoding.
    Receive { key: (Pt, Option<Rid>), codec: Codec, sample: Result<Depacketized, PacketError> },
    /// A sample is read.
    Read,
    /// Anything that leaves the samples that came in as they are.
    Other,
}

impl Turn {
    /// Whether `a` becomes `b` by this.
    pub open spec fn leads(self, a: MediaModel, b: MediaModel) -> bool {
        match self {
            Turn::Receive { key, codec, sample } => b == a.received(key, codec, sample),
            Turn::Read => b == a.sample_taken(),
            Turn::Other => b.buffers_rx == a.buffers_rx,
        }
    }

    /// The samples of a payload type and encoding that this takes out.
    pub open spec fn reads(self, a: MediaModel, of: (Pt, Option<Rid>)) -> Seq<
        Result<Depacketized, PacketError>,
    > {
        match self {
            Turn::Read => a.next_read(of),
            _ => Seq::empty(),
        }
    }

    /// The samples of a payload type and encoding that this puts in.
    pub open spec fn receives(self, of: (Pt, Option<Rid>)) -> Seq<
        Result<Depacketized, PacketError>,
    > {
        match self {
            Turn::Receive { key, codec, sample } if key == of => seq![sample],
            _ => Seq::empty(),
        }
    }
}

/// The samples of a payload type and encoding that several turns took out, in order.
pub open spec fn all_read(history: Seq<MediaModel>, turns: Seq<Turn>, key: (Pt, Option<Rid>)) -> Seq<
    Result<Depacketized, PacketError>,
>
    decreases turns.len(),
{
    if turns.len() == 0 {
        Seq::empty()
    } else {
        let n = turns.len() - 1;
        all_read(history, turns.drop_last(), key) + turns[n].reads(history[n], key)
    }
}

/// The samples of a payload type and encoding that several turns put in, in order.
pub open spec fn all_received(turns: Seq<Turn>, key: (Pt, Option<Rid>)) -> Seq<
    Result<Depacketized, PacketError>,
>
    decreases turns.len(),
{
    if turns.len() == 0 {
        Seq::empty()
    } else {
        all_received(turns.drop_last(), key) + turns.last().receives(key)
    }
}

/// The samples of a payload type and encoding come out in the order in which they were put in,
/// whatever else comes in, is read or happens meanwhile: those that were taken out, followed by
/// those that still wait, are those that waited at first, followed by those that were put in since.
/// Once no sample waits, all of them were taken out.
pub proof fn law_samples_are_read_in_order(
    history: Seq<MediaModel>,
    turns: Seq<Turn>,
    key: (Pt, Option<Rid>),
)
    requires
        history.len() == turns.len() + 1,
        forall|i: int| 0 <= i < history.len() ==> (#[trigger] history[i]).wf(),
        forall|i: int|
            0 <= i < turns.len() ==> (#[trigger] turns[i]).leads(history[i], history[i + 1]),
    ensures
        all_read(history, turns, key) + history.last().unread(key) == history[0].unread(key)
            + all_received(turns, key),
        first(history.last().buffers_rx, filled()) is None ==> all_read(history, turns, key)
            == history[0].unread(key) + all_received(turns, key),
{
    lemma_all_read(history, turns, key);
    let last = history.last();
    if first(last.buffers_rx, filled()) is None {
        lemma_first(last.buffers_rx, filled());
        lemma_first(last.buffers_rx, rx_buffer_for(key));
        if let Some(b) = first(last.buffers_rx, rx_buffer_for(key)) {
            assert(!filled()(last.buffers_rx[b]));
        }
        assert(last.unread(key) =~= Seq::empty());
        assert(all_read(history, turns, key) + last.unread(key) =~= all_read(history, turns, key));
    }
}

/// The first part of it, over the first of the turns.
proof fn lemma_all_read(history: Seq<MediaModel>, turns: Seq<Turn>, key: (Pt, Option<Rid>))
    requires
        history.len() > turns.len(),
        forall|i: int| 0 <= i < history.len() ==> (#[trigger] history[i]).wf(),
        forall|i: int|
            0 <= i < turns.len() ==> (#[trigger] turns[i]).leads(history[i], history[i + 1]),
    ensures
        all_read(history, turns, key) + history[turns.len() as int].unread(key)
            == history[0].unread(key) + all_received(turns, key),
    decreases turns.len(),
{
    if turns.len() > 0 {
        let n = turns.len() - 1;
        let front = turns.drop_last();
        assert forall|i: int| 0 <= i < front.len() implies (#[trigger] front[i]).leads(
            history[i],
            history[i + 1],
        ) by {
            assert(turns[i].leads(history[i], history[i + 1]));
        }
        lemma_all_read(history, front, key);
        let a = history[n];
        assert(turns[n].leads(a, history[n + 1]));
        assert(a.wf());
        match turns[n] {
            Turn::Receive { key: of, codec, sample } => {
                law_received_sample_waits_in_line(a, of, codec, sample, key);
            },
            Turn::Read => {
                law_read_takes_the_oldest(a, key);
            },
            Turn::Other => {},
        }
        let read = all_read(history, front, key);
        let put = all_received(front, key);
        let out = turns[n].reads(a, key);
        let new = turns[n].receives(key);
        let later = history[n + 1].unread(key);
        assert(out + later =~= a.unread(key) + new);
        assert((read + out) + later =~= read + (out + later));
        assert(read + (a.unread(key) + new) =~= (read + a.unread(key)) + new);
        assert((history[0].unread(key) + put) + new =~= history[0].unread(key) + (put + new));
    } else {
        assert(all_read(history, turns, key) + history[0].unread(key) =~= history[0].unread(key)
            + all_received(turns, key));
    }
}

/// Samples do not wait forever: while samples wait, each read takes out one.
pub proof fn law_reads_get_done(m: MediaModel)
    ensures
        first(m.buffers_rx, filled()) is Some ==> unread_in_all(m.sample_taken().buffers_rx)
            == unread_in_all(m.buffers_rx) - 1,
        first(m.buffers_rx, filled()) is None ==> unread_in_all(m.buffers_rx) == 0,
{
    lemma_first(m.buffers_rx, filled());
    if let Some(b) = first(m.buffers_rx, filled()) {
        lemma_unread_in_all(m.buffers_rx, b, m.sample_taken().buffers_rx[b]);
    } else {
        lemma_none_unread(m.buffers_rx);
    }
}

/// A change to one of the buffers changes the number of samples that wait by as much.
proof fn lemma_unread_in_all(
    before: Seq<((Pt, Option<Rid>), RxBufferModel)>,
    b: int,
    x: ((Pt, Option<Rid>), RxBufferModel),
)
    requires
        0 <= b < before.len(),
    ensures
        unread_in_all(before.update(b, x)) == unread_in_all(before) + x.1.ready.len()
            - before[b].1.ready.len(),
    decreases before.len(),
{
    let after = before.update(b, x);
    if b < before.len() - 1 {
        lemma_unread_in_all(before.drop_last(), b, x);
        assert(after.drop_last() =~= before.drop_last().update(b, x));
    } else {
        assert(after.drop_last() =~= before.drop_last());
    }
}

/// Where every buffer is empty, no sample waits.
proof fn lemma_none_unread(buffers: Seq<((Pt, Option<Rid>), RxBufferModel)>)
    requires
        forall|i: int| 0 <= i < buffers.len() ==> !filled()(#[trigger] buffers[i]),
    ensures
        unread_in_all(buffers) == 0,
    decreases buffers.len(),
{
    if buffers.len() > 0 {
        assert forall|i: int| 0 <= i < buffers.len() - 1 implies !filled()(
            #[trigger] buffers.drop_last()[i],
        ) by {
            assert(!filled()(buffers[i]));
        }
        lemma_none_unread(buffers.drop_last());
        assert(!filled()(buffers[buffers.len() - 1]));
    }
}

/// A sample that is put into its buffer is what is read next, where no other sample waits.
pub proof fn law_sample_is_read_back(
    m: MediaModel,
    pt: Pt,
    rid: Option<Rid>,
    codec: Codec,
    sample: Result<Depacketized, PacketError>,
)
    requires
        m.wf(),
        first(m.buffers_rx, filled()) is None,
    ensures
        ({
            let buffers = with_buffer_rx(m.buffers_rx, (pt, rid), codec);
            let k = buffer_rx_slot(m.buffers_rx, (pt, rid));
            let got = m.received((pt, rid), codec, sample);
            &&& first(got.buffers_rx, filled()) == Some(k)
            &&& got.buffers_rx[k].0 == (pt, rid)
            &&& got.buffers_rx[k].1.ready[0] == sample
            &&& got.sample_taken() == (MediaModel { buffers_rx: buffers, ..m })
        }),
{
    let buffers = with_buffer_rx(m.buffers_rx, (pt, rid), codec);
    let k = buffer_rx_slot(m.buffers_rx, (pt, rid));
    lemma_first(m.buffers_rx, rx_buffer_for((pt, rid)));
    lemma_first(m.buffers_rx, filled());
    assert(buffers[k].1.ready.len() == 0) by {
        if k < m.buffers_rx.len() {
            assert(!filled()(m.buffers_rx[k]));
        }
    }
    let b = RxBufferModel { ready: buffers[k].1.ready.push(sample), ..buffers[k].1 };
    let got = MediaModel { buffers_rx: buffers.update(k, ((pt, rid), b)), ..m };
    assert forall|i: int| 0 <= i < k implies !filled()(#[trigger] got.buffers_rx[i]) by {
        assert(!filled()(m.buffers_rx[i]));
    }
    lemma_first_is(got.buffers_rx, filled(), k);
    assert(b.ready.drop_first() =~= buffers[k].1.ready);
    assert(got.sample_taken().buffers_rx =~= buffers);
}

} // verus!
