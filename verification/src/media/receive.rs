//! Samples that came in, and the codecs they are in.

use super::write::params_for;
use super::{distinct_keys, Media, MediaModel};
use crate::buffer_rx::{
    buffers_rx_model, Depacketized, DepacketizingBuffer, RtpMeta, RxBufferModel,
};
use crate::codec::{Codec, CodecParams};
use crate::error::{PacketError, RtcError};
use crate::header::RtpHeader;
use crate::ids::{MediaTime, Mid, Pt, Rid};
use crate::search::{first, first_from, lemma_first};
use vstd::prelude::*;

verus! {

/// A sample of an m-line.
#[derive(Debug)]
pub struct MediaData {
    pub mid: Mid,
    pub pt: Pt,
    pub rid: Option<Rid>,
    pub codec: CodecParams,
    pub time: MediaTime,
    pub data: Vec<u8>,
    pub meta: Vec<RtpMeta>,
}

/// For how many samples whoever puts them together may let an incomplete one hold back those after
/// it.
pub const HOLD_BACK: usize = 30;

/// Buffers of that payload type and encoding.
pub open spec fn rx_buffer_for(key: (Pt, Option<Rid>)) -> spec_fn(
    ((Pt, Option<Rid>), RxBufferModel),
) -> bool {
    |b: ((Pt, Option<Rid>), RxBufferModel)| b.0 == key
}

/// Buffers with a sample that is ready.
pub open spec fn filled() -> spec_fn(((Pt, Option<Rid>), RxBufferModel)) -> bool {
    |b: ((Pt, Option<Rid>), RxBufferModel)| b.1.ready.len() > 0
}

/// Codecs whose packets, or resends of them, come under that payload type.
pub open spec fn params_carrying(pt: Pt) -> spec_fn(CodecParams) -> bool {
    |c: CodecParams| c.pt == pt || c.resend == Some(pt)
}

/// The buffers with one for `key` among them: a new one comes last.
pub open spec fn with_buffer_rx(
    buffers: Seq<((Pt, Option<Rid>), RxBufferModel)>,
    key: (Pt, Option<Rid>),
    codec: Codec,
) -> Seq<((Pt, Option<Rid>), RxBufferModel)> {
    if first(buffers, rx_buffer_for(key)) is Some {
        buffers
    } else {
        buffers.push((key, RxBufferModel::empty(codec, HOLD_BACK as int)))
    }
}

/// The index of the buffer for `key`, or where a new one would come.
pub open spec fn buffer_rx_slot(
    buffers: Seq<((Pt, Option<Rid>), RxBufferModel)>,
    key: (Pt, Option<Rid>),
) -> int {
    match first(buffers, rx_buffer_for(key)) {
        Some(b) => b,
        None => buffers.len() as int,
    }
}

/// Whether `last` is the last index at which the highest score stands.
pub open spec fn is_last_max(scores: Seq<u64>, last: int) -> bool {
    &&& 0 <= last < scores.len()
    &&& forall|i: int| 0 <= i <= last ==> #[trigger] scores[i] <= scores[last]
    &&& forall|i: int| last < i < scores.len() ==> #[trigger] scores[i] < scores[last]
}

impl MediaModel {
    /// The m-line after the oldest sample of the first buffer with a sample was taken out.
    pub open spec fn sample_taken(self) -> MediaModel {
        match first(self.buffers_rx, filled()) {
            Some(b) => MediaModel {
                buffers_rx: self.buffers_rx.update(
                    b,
                    (
                        self.buffers_rx[b].0,
                        RxBufferModel {
                            ready: self.buffers_rx[b].1.ready.drop_first(),
                            ..self.buffers_rx[b].1
                        },
                    ),
                ),
                ..self
            },
            None => self,
        }
    }

    /// Whether `r` hands out `sample`, which came under `key` and is in the codec `codec`.
    pub open spec fn hands_out(
        self,
        r: Result<MediaData, RtcError>,
        sample: Result<Depacketized, PacketError>,
        key: (Pt, Option<Rid>),
        codec: CodecParams,
    ) -> bool {
        match sample {
            Ok(dep) => r == Ok::<MediaData, RtcError>(
                MediaData {
                    mid: self.mid,
                    pt: key.0,
                    rid: key.1,
                    codec,
                    time: dep.time,
                    data: dep.data,
                    meta: dep.meta,
                },
            ),
            Err(e) => r == Err::<MediaData, RtcError>(RtcError::Packet(self.mid, key.0, e)),
        }
    }
}

impl Media {
    /// The codec that a packet with that header is in, or resends.
    pub fn get_params(&self, header: &RtpHeader) -> (r: Option<&CodecParams>)
        ensures
            match (r, first(self@.params, params_carrying(header.payload_type))) {
                (Some(c), Some(i)) => 0 <= i < self@.params.len() && *c == self@.params[i],
                (None, None) => true,
                _ => false,
            },
    {
        let pt = header.payload_type;
        let mut i: usize = 0;
        while i < self.params.len()
            invariant
                i <= self.params@.len(),
                pt == header.payload_type,
                first(self@.params, params_carrying(pt)) == first_from(
                    self@.params,
                    params_carrying(pt),
                    i as int,
                ),
            decreases self.params@.len() - i,
        {
            if self.params[i].pt == pt || self.params[i].resend == Some(pt) {
                return Some(&self.params[i]);
            }
            i = i + 1;
        }
        None
    }

    /// The payload type of the codec that matches best, where `scores` says of each of
    /// [`Media::codecs`] how well it matches. Of several that match best the last is taken.
    pub fn match_codec(&self, scores: &Vec<u64>) -> (r: Option<Pt>)
        requires
            scores@.len() == self@.params.len(),
        ensures
            r is None <==> self@.params.len() == 0,
            r matches Some(pt) ==> exists|last: int|
                #[trigger] is_last_max(scores@, last) && pt == self@.params[last].pt,
    {
        if self.params.len() == 0 {
            return None;
        }
        let mut last: usize = 0;
        let mut i: usize = 1;
        while i < scores.len()
            invariant
                1 <= i <= scores@.len() == self@.params.len(),
                is_last_max(scores@.take(i as int), last as int),
            decreases scores@.len() - i,
        {
            assert forall|j: int| 0 <= j < i implies scores@[j] == scores@.take(i as int)[j] by {}
            if scores[i] >= scores[last] {
                last = i;
            }
            i = i + 1;
        }
        assert(scores@.take(i as int) =~= scores@);
        Some(self.params[last].pt)
    }

    /// The buffer for the samples of a payload type and encoding, which is created where there is
    /// none.
    pub fn get_buffer_rx(&mut self, pt: Pt, rid: Option<Rid>, codec: Codec) -> (r:
        &mut DepacketizingBuffer)
        ensures
            ({
                let buffers = with_buffer_rx(old(self)@.buffers_rx, (pt, rid), codec);
                let k = buffer_rx_slot(old(self)@.buffers_rx, (pt, rid));
                &&& 0 <= k < buffers.len()
                &&& buffers[k].0 == (pt, rid)
                &&& r@ == buffers[k].1
                &&& final(self)@ == (MediaModel {
                    buffers_rx: buffers.update(k, ((pt, rid), final(r)@)),
                    ..old(self)@
                })
            }),
            old(self)@.wf() ==> final(self)@.wf(),
    {
        let ghost m = self@;
        let ghost buffers = with_buffer_rx(m.buffers_rx, (pt, rid), codec);
        let ghost k = buffer_rx_slot(m.buffers_rx, (pt, rid));
        let b: usize = self.ensure_buffer_rx(pt, rid, codec);
        let ghost all = self.buffers_rx@;
        let r = &mut self.buffers_rx[b].1;
        proof {
            lemma_first(m.buffers_rx, rx_buffer_for((pt, rid)));
            if m.wf() {
                lemma_with_buffer_rx(m.buffers_rx, (pt, rid), codec);
            }
            assert(buffers_rx_model(all)[k] == buffers[k]);
            assert(buffers_rx_model(all.update(k, (all[k].0, *final(r)))) =~= buffers.update(
                k,
                ((pt, rid), final(r)@),
            ));
            assert(m.wf() ==> distinct_keys(buffers.update(k, ((pt, rid), final(r)@))));
        }
        r
    }

    /// The index of the buffer for a payload type and encoding, which is created where there is
    /// none.
    fn ensure_buffer_rx(&mut self, pt: Pt, rid: Option<Rid>, codec: Codec) -> (b: usize)
        ensures
            b == buffer_rx_slot(old(self)@.buffers_rx, (pt, rid)),
            b < final(self)@.buffers_rx.len(),
            final(self)@ == (MediaModel {
                buffers_rx: with_buffer_rx(old(self)@.buffers_rx, (pt, rid), codec),
                ..old(self)@
            }),
    {
        let ghost p = rx_buffer_for((pt, rid));
        let mut b: usize = 0;
        while b < self.buffers_rx.len()
            invariant
                b <= self.buffers_rx@.len(),
                self@ == old(self)@,
                p == rx_buffer_for((pt, rid)),
                first(self@.buffers_rx, p) == first_from(self@.buffers_rx, p, b as int),
            decreases self.buffers_rx@.len() - b,
        {
            if self.buffers_rx[b].0.0 == pt && self.buffers_rx[b].0.1 == rid {
                return b;
            }
            b = b + 1;
        }
        self.buffers_rx.push(((pt, rid), DepacketizingBuffer::new(codec, HOLD_BACK)));
        b
    }

    /// The next sample, or the error that stands in its place. A sample of a payload type that is
    /// no longer negotiated is dropped, and nothing is returned for it.
    pub fn poll_sample(&mut self) -> (r: Option<Result<MediaData, RtcError>>)
        ensures
            final(self)@ == old(self)@.sample_taken(),
            match first(old(self)@.buffers_rx, filled()) {
                Some(b) => {
                    let (key, buffer) = old(self)@.buffers_rx[b];
                    match first(old(self)@.params, params_for(key.0)) {
                        Some(c) => r matches Some(res) && old(self)@.hands_out(
                            res,
                            buffer.ready[0],
                            key,
                            old(self)@.params[c],
                        ),
                        None => r is None,
                    }
                },
                None => r is None,
            },
            old(self)@.wf() ==> final(self)@.wf(),
    {
        let ghost m = self@;
        let mut b: usize = 0;
        while b < self.buffers_rx.len()
            invariant
                b <= self.buffers_rx@.len(),
                self@ == m,
                m == old(self)@,
                first(m.buffers_rx, filled()) == first_from(m.buffers_rx, filled(), b as int),
            decreases self.buffers_rx@.len() - b,
        {
            let (pt, rid) = self.buffers_rx[b].0;
            assert(m.buffers_rx[b as int].1 == self.buffers_rx@[b as int].1@);
            if let Some(sample) = self.buffers_rx[b].1.pop() {
                assert(self@ =~= m.sample_taken());
                let codec = match self.codec_by_pt(pt) {
                    Some(c) => *c,
                    None => {
                        return None;
                    },
                };
                return Some(
                    match sample {
                        Ok(dep) => Ok(
                            MediaData {
                                mid: self.mid,
                                pt,
                                rid,
                                codec,
                                time: dep.time,
                                data: dep.data,
                                meta: dep.meta,
                            },
                        ),
                        Err(e) => Err(RtcError::Packet(self.mid, pt, e)),
                    },
                );
            }
            assert(self@ =~= m);
            b = b + 1;
        }
        None
    }
}

/// A new buffer, or any change to a buffer, leaves no key with two buffers.
proof fn lemma_with_buffer_rx(
    before: Seq<((Pt, Option<Rid>), RxBufferModel)>,
    key: (Pt, Option<Rid>),
    codec: Codec,
)
    requires
        distinct_keys(before),
    ensures
        ({
            let buffers = with_buffer_rx(before, key, codec);
            let k = buffer_rx_slot(before, key);
            forall|x: RxBufferModel| distinct_keys(#[trigger] buffers.update(k, (key, x)))
        }),
{
    let buffers = with_buffer_rx(before, key, codec);
    let k = buffer_rx_slot(before, key);
    lemma_first(before, rx_buffer_for(key));
    assert forall|i: int, j: int| 0 <= i < j < buffers.len() implies buffers[i].0
        != buffers[j].0 by {
        if j == before.len() {
            assert(!rx_buffer_for(key)(before[i]));
        }
    }
    assert forall|x: RxBufferModel| distinct_keys(#[trigger] buffers.update(k, (key, x))) by {
        let after = buffers.update(k, (key, x));
        assert forall|i: int, j: int| 0 <= i < j < after.len() implies after[i].0
            != after[j].0 by {
            assert(buffers[i].0 != buffers[j].0);
        }
    }
}

} // verus!
