//! Writing samples.

use super::sources::{get_source_tx, position_source_tx, tx_for};
use super::{distinct_keys, has_tx, packets_have_senders, Media, MediaModel};
use crate::buffer_tx::{sample_packets, PacketizingBuffer, TxBufferModel};
use crate::codec::{Codec, CodecParams};
use crate::error::{PacketError, RtcError};
use crate::ids::{MediaTime, Pt, Rid};
use crate::search::{first, first_from, lemma_first};
use vstd::prelude::*;

verus! {

/// Buffers of that payload type.
pub open spec fn buffer_for(pt: Pt) -> spec_fn((Pt, TxBufferModel)) -> bool {
    |b: (Pt, TxBufferModel)| b.0 == pt
}

/// Codecs of that payload type.
pub open spec fn params_for(pt: Pt) -> spec_fn(CodecParams) -> bool {
    |c: CodecParams| c.pt == pt
}

impl Media {
    /// The codec of a payload type.
    pub fn codec_by_pt(&self, pt: Pt) -> (r: Option<&CodecParams>)
        ensures
            match (r, first(self@.params, params_for(pt))) {
                (Some(c), Some(i)) => 0 <= i < self@.params.len() && *c == self@.params[i],
                (None, None) => true,
                _ => false,
            },
    {
        let mut i: usize = 0;
        while i < self.params.len()
            invariant
                i <= self.params@.len(),
                first(self@.params, params_for(pt)) == first_from(
                    self@.params,
                    params_for(pt),
                    i as int,
                ),
            decreases self.params@.len() - i,
        {
            if self.params[i].pt == pt {
                return Some(&self.params[i]);
            }
            i = i + 1;
        }
        None
    }

    /// A writer of samples of one payload type and encoding.
    pub fn get_writer(&mut self, pt: Pt, rid: Option<Rid>) -> (w: MediaWriter<'_>)
        ensures
            *w.media == *old(self),
            *final(w.media) == *final(self),
            w.pt == pt,
            w.rid == rid,
            w.codec == old(self)@.codec_of(pt),
    {
        let codec = match self.codec_by_pt(pt) {
            Some(p) => Some(p.codec),
            None => None,
        };
        MediaWriter { media: self, pt, rid, codec }
    }
}

/// Writes samples of one payload type and encoding to an m-line.
pub struct MediaWriter<'a> {
    pub media: &'a mut Media,
    pub pt: Pt,
    pub rid: Option<Rid>,
    /// The codec of the payload type, if the m-line has it.
    pub codec: Option<Codec>,
}

/// What a write returns while the m-line is not sending.
pub const FREE_WHILE_NOT_SENDING: usize = 10_000;

/// How a sample is to be split into payloads before it is written.
#[derive(Debug, Clone, Copy, PartialEq, Eq)]
pub struct Splitting {
    pub pt: Pt,
    pub codec: Codec,
    /// How many bytes a payload may have.
    pub limit: usize,
}

/// How many bytes a payload may have, where a datagram may have `mtu` and encryption adds
/// `overhead`.
pub fn payload_limit(mtu: usize, overhead: usize) -> (r: usize)
    requires
        overhead <= mtu,
    ensures
        r == mtu - overhead,
{
    mtu - overhead
}

/// How many packets are retained for resends.
pub open spec fn max_retain(codec: Codec) -> int {
    if codec.audio() {
        4096
    } else {
        2048
    }
}

/// The buffers with one for `pt` among them: a new one comes last.
pub open spec fn with_buffer_tx(buffers: Seq<(Pt, TxBufferModel)>, pt: Pt, codec: Codec) -> Seq<
    (Pt, TxBufferModel),
> {
    if first(buffers, buffer_for(pt)) is Some {
        buffers
    } else {
        buffers.push((pt, TxBufferModel::empty(codec, max_retain(codec))))
    }
}

/// The index of the buffer for `pt`, or where a new one would come.
pub open spec fn buffer_tx_slot(buffers: Seq<(Pt, TxBufferModel)>, pt: Pt) -> int {
    match first(buffers, buffer_for(pt)) {
        Some(b) => b,
        None => buffers.len() as int,
    }
}

impl MediaModel {
    /// The codec of a payload type.
    pub open spec fn codec_of(self, pt: Pt) -> Option<Codec> {
        match first(self.params, params_for(pt)) {
            Some(i) => Some(self.params[i].codec),
            None => None,
        }
    }

    /// Whether samples of an encoding are taken in: the m-line sends, and has a sender for it.
    pub open spec fn takes_sample(self, rid: Option<Rid>) -> bool {
        self.dir.sending() && first(self.sources_tx, tx_for(rid, false)) is Some
    }

    /// The m-line with a buffer for the samples of a payload type.
    pub open spec fn buffering(self, pt: Pt, codec: Codec) -> MediaModel {
        MediaModel { buffers_tx: with_buffer_tx(self.buffers_tx, pt, codec), ..self }
    }

    /// The m-line after a sample was written that was split into `chunks`.
    pub open spec fn written(
        self,
        pt: Pt,
        rid: Option<Rid>,
        codec: Codec,
        ts: MediaTime,
        chunks: Seq<Vec<u8>>,
    ) -> MediaModel {
        let buffers = with_buffer_tx(self.buffers_tx, pt, codec);
        let k = buffer_tx_slot(self.buffers_tx, pt);
        let ssrc = self.sources_tx[first(self.sources_tx, tx_for(rid, false))->0].ssrc;
        MediaModel {
            buffers_tx: buffers.update(
                k,
                (buffers[k].0, buffers[k].1.extended(sample_packets(ts, chunks, ssrc, rid))),
            ),
            ..self
        }
    }
}

/// A buffer for a payload type keeps the invariant, and so does a sample written to it.
pub proof fn lemma_written_wf(
    m: MediaModel,
    pt: Pt,
    rid: Option<Rid>,
    codec: Codec,
    ts: MediaTime,
    chunks: Seq<Vec<u8>>,
)
    requires
        m.wf(),
        first(m.sources_tx, tx_for(rid, false)) is Some,
    ensures
        m.buffering(pt, codec).wf(),
        ({
            let k = buffer_tx_slot(m.buffers_tx, pt);
            let new = m.written(pt, rid, codec, ts, chunks);
            &&& 0 <= k < m.buffering(pt, codec).buffers_tx.len()
            &&& m.buffering(pt, codec).buffers_tx[k].0 == pt
            &&& m.buffering(pt, codec).buffers_tx[k].1.wf()
            &&& new.buffers_tx[k].1.wf() ==> new.wf()
        }),
{
    let tx = m.sources_tx;
    let before = m.buffers_tx;
    let buffers = with_buffer_tx(before, pt, codec);
    let k = buffer_tx_slot(before, pt);
    lemma_first(before, buffer_for(pt));
    lemma_first(tx, tx_for(rid, false));
    let ssrc = tx[first(tx, tx_for(rid, false))->0].ssrc;
    assert(has_tx(tx, ssrc));
    assert forall|i: int| 0 <= i < buffers.len() implies {
        &&& (#[trigger] buffers[i]).1.wf()
        &&& packets_have_senders(buffers[i].1, tx)
    } by {
        if i < before.len() {
            assert(before[i].1.wf());
        }
    }
    assert(distinct_keys(buffers)) by {
        assert forall|i: int, j: int| 0 <= i < j < buffers.len() implies buffers[i].0
            != buffers[j].0 by {
            if j == before.len() {
                assert(!buffer_for(pt)(before[i]));
            }
        }
    }
    let packets = sample_packets(ts, chunks, ssrc, rid);
    let after = m.written(pt, rid, codec, ts, chunks).buffers_tx;
    assert(packets_have_senders(after[k].1, tx)) by {
        let gone = buffers[k].1.surplus(packets.len() as int);
        assert(buffers[k].1.wf());
        assert forall|p: int| 0 <= p < after[k].1.packets.len() implies has_tx(
            tx,
            (#[trigger] after[k].1.packets[p]).ssrc,
        ) by {
            if p + gone < buffers[k].1.packets.len() {
                assert(after[k].1.packets[p] == buffers[k].1.packets[p + gone]);
            } else {
                assert(after[k].1.packets[p] == packets[p + gone - buffers[k].1.packets.len()]);
            }
        }
    }
}

impl MediaWriter<'_> {
    /// How a sample that is written now is to be split, where a datagram may have `mtu` bytes and
    /// encryption adds `overhead`. A sample that would not be taken in is not split.
    pub fn splitting(&self, mtu: usize, overhead: usize) -> (r: Option<Splitting>)
        requires
            overhead <= mtu,
        ensures
            match (self.codec, r) {
                (Some(codec), Some(s)) => {
                    &&& old(self.media)@.takes_sample(self.rid)
                    &&& s == Splitting { pt: self.pt, codec, limit: (mtu - overhead) as usize }
                },
                (Some(_), None) => !old(self.media)@.takes_sample(self.rid),
                (None, _) => r is None,
            },
    {
        let codec = match self.codec {
            Some(v) => v,
            None => {
                return None;
            },
        };
        if !self.media.dir.is_sending() || position_source_tx(
            &self.media.sources_tx,
            self.rid,
            false,
        ).is_none() {
            return None;
        }
        Some(Splitting { pt: self.pt, codec, limit: payload_limit(mtu, overhead) })
    }

    /// Writes a sample, where `sample` is what came of splitting it as [`MediaWriter::splitting`]
    /// says. It is not looked at if the sample was not to be split. Returns how many more packets
    /// fit before the oldest have to go.
    ///
    /// Writes are ignored while the m-line is not sending.
    pub fn write(&mut self, ts: MediaTime, sample: Result<Vec<Vec<u8>>, PacketError>) -> (r: Result<
        usize,
        RtcError,
    >)
        requires
            old(self).media@.wf(),
        ensures
            final(self).pt == old(self).pt,
            final(self).rid == old(self).rid,
            final(self).codec == old(self).codec,
            *final(final(self).media) == *final(old(self).media),
            final(self).media@.wf(),
            ({
                let m = old(self).media@;
                let after = final(self).media@;
                match old(self).codec {
                    None => r == Err::<usize, RtcError>(RtcError::UnknownPt(old(self).pt)) && after
                        == m,
                    Some(codec) => if !m.dir.sending() {
                        r == Ok::<usize, RtcError>(FREE_WHILE_NOT_SENDING) && after == m
                    } else if first(m.sources_tx, tx_for(old(self).rid, false)) is None {
                        r == Err::<usize, RtcError>(RtcError::NoSenderSource) && after == m
                    } else {
                        match sample {
                            Err(e) => {
                                &&& r == Err::<usize, RtcError>(
                                    RtcError::Packet(m.mid, old(self).pt, e),
                                )
                                &&& after == m.buffering(old(self).pt, codec)
                            },
                            Ok(chunks) => {
                                let k = buffer_tx_slot(m.buffers_tx, old(self).pt);
                                &&& after == m.written(
                                    old(self).pt,
                                    old(self).rid,
                                    codec,
                                    ts,
                                    chunks@,
                                )
                                &&& r matches Ok(n) && n == after.buffers_tx[k].1.max_retain
                                    - after.buffers_tx[k].1.packets.len()
                            },
                        }
                    },
                }
            }),
    {
        let ghost m = self.media@;
        let codec = match self.codec {
            Some(v) => v,
            None => {
                return Err(RtcError::UnknownPt(self.pt));
            },
        };
        if !self.media.dir.is_sending() {
            return Ok(FREE_WHILE_NOT_SENDING);
        }
        // The SSRC is figured out given the simulcast level.
        let ssrc = match get_source_tx(&mut self.media.sources_tx, self.rid, false) {
            Some(tx) => tx.ssrc,
            None => {
                return Err(RtcError::NoSenderSource);
            },
        };
        assert(self.media@ == m);
        let pt = self.pt;
        let k: usize = self.media.ensure_buffer_tx(pt, codec);
        match sample {
            Err(e) => {
                proof {
                    lemma_written_wf(m, pt, self.rid, codec, ts, Seq::empty());
                }
                Err(RtcError::Packet(self.media.mid, pt, e))
            },
            Ok(chunks) => {
                proof {
                    lemma_written_wf(m, pt, self.rid, codec, ts, chunks@);
                }
                let ghost buffers = self.media.buffers_tx@;
                assert(self.media@.buffers_tx[k as int].1 == buffers[k as int].1@);
                self.media.buffers_tx[k].1.push_sample(ts, chunks, ssrc, self.rid);
                assert(self.media@ =~= m.written(pt, self.rid, codec, ts, chunks@));
                assert(self.media@.buffers_tx[k as int].1 == self.media.buffers_tx@[k as int].1@);
                Ok(self.media.buffers_tx[k].1.free())
            },
        }
    }
}

impl Media {
    /// The index of the buffer for a payload type, which is created where there is none.
    fn ensure_buffer_tx(&mut self, pt: Pt, codec: Codec) -> (k: usize)
        ensures
            final(self)@ == old(self)@.buffering(pt, codec),
            k == buffer_tx_slot(old(self)@.buffers_tx, pt),
            k < final(self)@.buffers_tx.len(),
    {
        let mut b: usize = 0;
        while b < self.buffers_tx.len()
            invariant
                b <= self.buffers_tx@.len(),
                self@ == old(self)@,
                first(self@.buffers_tx, buffer_for(pt)) == first_from(
                    self@.buffers_tx,
                    buffer_for(pt),
                    b as int,
                ),
            decreases self.buffers_tx@.len() - b,
        {
            if self.buffers_tx[b].0 == pt {
                return b;
            }
            b = b + 1;
        }
        let retain: usize = if codec.is_audio() {
            4096
        } else {
            2048
        };
        self.buffers_tx.push((pt, PacketizingBuffer::new(codec, retain)));
        assert(self@ =~= old(self)@.buffering(pt, codec));
        b
    }
}

} // verus!
