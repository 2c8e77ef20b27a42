//! Samples that were put together from incoming packets and wait to be read.

use crate::codec::Codec;
use crate::error::PacketError;
use crate::header::RtpHeader;
use crate::ids::{MediaTime, Pt, Rid, SeqNo};
use crate::time::Instant;
use std::collections::VecDeque;
use vstd::prelude::*;

verus! {

/// How one of the packets of a sample arrived.
#[derive(Debug, Clone, Copy, PartialEq, Eq, Hash)]
pub struct RtpMeta {
    pub received: Instant,
    pub seq_no: SeqNo,
    pub header: RtpHeader,
}

/// A sample put together from its packets.
#[derive(Debug)]
pub struct Depacketized {
    pub time: MediaTime,
    pub data: Vec<u8>,
    pub meta: Vec<RtpMeta>,
}

/// The samples of one payload type and encoding that are ready, in order. An error stands where a
/// sample could not be put together.
#[derive(Debug)]
pub struct DepacketizingBuffer {
    codec: Codec,
    hold_back: usize,
    ready: VecDeque<Result<Depacketized, PacketError>>,
}

/// Model of [`DepacketizingBuffer`].
#[verifier::ext_equal]
pub ghost struct RxBufferModel {
    pub codec: Codec,
    pub hold_back: int,
    pub ready: Seq<Result<Depacketized, PacketError>>,
}

impl View for DepacketizingBuffer {
    type V = RxBufferModel;

    closed spec fn view(&self) -> RxBufferModel {
        RxBufferModel {
            codec: self.codec,
            hold_back: self.hold_back as int,
            ready: self.ready@,
        }
    }
}

impl RxBufferModel {
    /// A buffer without samples.
    pub open spec fn empty(codec: Codec, hold_back: int) -> RxBufferModel {
        RxBufferModel { codec, hold_back, ready: Seq::empty() }
    }
}

impl DepacketizingBuffer {
    /// A buffer for samples of `codec`. `hold_back` is for whoever puts the samples together: for
    /// how many samples an incomplete one may hold back those after it. The buffer only keeps it.
    pub fn new(codec: Codec, hold_back: usize) -> (b: DepacketizingBuffer)
        ensures
            b@ == RxBufferModel::empty(codec, hold_back as int),
    {
        DepacketizingBuffer { codec, hold_back, ready: VecDeque::new() }
    }

    /// The codec of the samples.
    pub fn codec(&self) -> (c: Codec)
        ensures
            c == self@.codec,
    {
        self.codec
    }

    /// For how many samples whoever puts them together may let an incomplete one hold back those
    /// after it.
    pub fn hold_back(&self) -> (n: usize)
        ensures
            n == self@.hold_back,
    {
        self.hold_back
    }

    /// Takes in the next sample, or the error that stands in its place.
    pub fn push(&mut self, sample: Result<Depacketized, PacketError>)
        ensures
            final(self)@ == (RxBufferModel { ready: old(self)@.ready.push(sample), ..old(self)@ }),
    {
        self.ready.push_back(sample);
    }

    /// Hands out the oldest sample.
    pub fn pop(&mut self) -> (r: Option<Result<Depacketized, PacketError>>)
        ensures
            match r {
                Some(sample) => {
                    &&& old(self)@.ready.len() > 0
                    &&& sample == old(self)@.ready[0]
                    &&& final(self)@ == (RxBufferModel {
                        ready: old(self)@.ready.drop_first(),
                        ..old(self)@
                    })
                },
                None => old(self)@.ready.len() == 0 && final(self)@ == old(self)@,
            },
    {
        self.ready.pop_front()
    }
}

/// The models of the buffers of several payload types and encodings.
pub open spec fn buffers_rx_model(
    buffers: Seq<((Pt, Option<Rid>), DepacketizingBuffer)>,
) -> Seq<((Pt, Option<Rid>), RxBufferModel)> {
    Seq::new(buffers.len(), |i: int| (buffers[i].0, buffers[i].1@))
}

} // verus!
