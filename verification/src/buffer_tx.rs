//! Packets on their way out, kept for a while after they were sent to answer requests for resends.

use crate::codec::Codec;
use crate::ids::{MediaTime, Pt, Rid, SeqNo, Ssrc};
use crate::search::{first, first_from};
use vstd::prelude::*;

verus! {

/// The payload of one RTP packet, with what its header needs.
#[derive(Debug)]
pub struct Packetized {
    pub ts: MediaTime,
    pub data: Vec<u8>,
    pub ssrc: Ssrc,
    pub rid: Option<Rid>,
    /// Whether this is the last packet of its sample.
    pub last: bool,
    /// The number that the packet was sent under.
    pub seq_no: Option<SeqNo>,
}

/// Model of [`Packetized`].
#[verifier::ext_equal]
pub ghost struct PacketModel {
    pub ts: MediaTime,
    pub data: Seq<u8>,
    pub ssrc: Ssrc,
    pub rid: Option<Rid>,
    pub last: bool,
    pub seq_no: Option<SeqNo>,
}

impl View for Packetized {
    type V = PacketModel;

    open spec fn view(&self) -> PacketModel {
        PacketModel {
            ts: self.ts,
            data: self.data@,
            ssrc: self.ssrc,
            rid: self.rid,
            last: self.last,
            seq_no: self.seq_no,
        }
    }
}

/// Packets of one payload type, oldest first. Those before `next` have been sent.
#[derive(Debug)]
pub struct PacketizingBuffer {
    codec: Codec,
    packets: Vec<Packetized>,
    next: usize,
    max_retain: usize,
}

/// Model of [`PacketizingBuffer`].
#[verifier::ext_equal]
pub ghost struct TxBufferModel {
    pub codec: Codec,
    pub packets: Seq<PacketModel>,
    pub next: int,
    pub max_retain: int,
}

/// The models of packets.
pub open spec fn packets_model(packets: Seq<Packetized>) -> Seq<PacketModel> {
    Seq::new(packets.len(), |i: int| packets[i]@)
}

impl View for PacketizingBuffer {
    type V = TxBufferModel;

    closed spec fn view(&self) -> TxBufferModel {
        TxBufferModel {
            codec: self.codec,
            packets: packets_model(self.packets@),
            next: self.next as int,
            max_retain: self.max_retain as int,
        }
    }
}

/// Packets that were sent under `seq_no`.
pub open spec fn numbered(seq_no: SeqNo) -> spec_fn(PacketModel) -> bool {
    |p: PacketModel| p.seq_no == Some(seq_no)
}

/// The packets of a sample whose payloads are `chunks`, none of them sent yet.
pub open spec fn sample_packets(
    ts: MediaTime,
    chunks: Seq<Vec<u8>>,
    ssrc: Ssrc,
    rid: Option<Rid>,
) -> Seq<PacketModel> {
    Seq::new(
        chunks.len(),
        |i: int|
            PacketModel {
                ts,
                data: chunks[i]@,
                ssrc,
                rid,
                last: i == chunks.len() - 1,
                seq_no: None,
            },
    )
}

impl TxBufferModel {
    /// A buffer without packets.
    pub open spec fn empty(codec: Codec, max_retain: int) -> TxBufferModel {
        TxBufferModel { codec, packets: Seq::empty(), next: 0, max_retain }
    }

    /// No more packets than are to be retained, and exactly those before `next` have a number.
    pub open spec fn wf(self) -> bool {
        &&& 0 <= self.next <= self.packets.len() <= self.max_retain
        &&& forall|i: int|
            #![trigger self.packets[i]]
            0 <= i < self.packets.len() ==> (self.packets[i].seq_no is Some <==> i < self.next)
    }

    /// Whether a packet of that SSRC is in the buffer.
    pub open spec fn holds(self, ssrc: Ssrc) -> bool {
        exists|i: int| 0 <= i < self.packets.len() && #[trigger] self.packets[i].ssrc == ssrc
    }

    /// Where the packet that was sent under `seq_no` lies, the oldest if there are several.
    pub open spec fn retained(self, seq_no: SeqNo) -> Option<int> {
        first(self.packets, numbered(seq_no))
    }

    /// The number of the oldest packet, if it has been sent.
    pub open spec fn first_number(self) -> Option<SeqNo> {
        if self.packets.len() == 0 {
            None
        } else {
            self.packets[0].seq_no
        }
    }

    /// Whether a packet is waiting to be sent.
    pub open spec fn pending(self) -> bool {
        self.next < self.packets.len()
    }

    /// The packets that wait to be sent, the one in front first.
    pub open spec fn unsent(self) -> Seq<PacketModel> {
        self.packets.skip(self.next)
    }

    /// The buffer after the packet that waits in front was sent under `seq_no`.
    pub open spec fn sent(self, seq_no: SeqNo) -> TxBufferModel {
        TxBufferModel {
            packets: self.packets.update(
                self.next,
                PacketModel { seq_no: Some(seq_no), ..self.packets[self.next] },
            ),
            next: self.next + 1,
            ..self
        }
    }

    /// How many of the oldest packets must go for `extra` more to fit.
    pub open spec fn surplus(self, extra: int) -> int {
        if self.packets.len() + extra > self.max_retain {
            self.packets.len() + extra - self.max_retain
        } else {
            0
        }
    }

    /// The buffer with `new` behind the packets it holds. The oldest packets make room.
    pub open spec fn extended(self, new: Seq<PacketModel>) -> TxBufferModel {
        let gone = self.surplus(new.len() as int);
        TxBufferModel {
            packets: (self.packets + new).skip(gone),
            next: if self.next > gone {
                self.next - gone
            } else {
                0
            },
            ..self
        }
    }
}

impl PacketizingBuffer {
    /// A buffer that retains at most `max_retain` packets.
    pub fn new(codec: Codec, max_retain: usize) -> (b: PacketizingBuffer)
        ensures
            b@ == TxBufferModel::empty(codec, max_retain as int),
    {
        let b = PacketizingBuffer { codec, packets: Vec::new(), next: 0, max_retain };
        assert(b@.packets =~= Seq::empty());
        b
    }

    /// The codec of the packets.
    pub fn codec(&self) -> (c: Codec)
        ensures
            c == self@.codec,
    {
        self.codec
    }

    /// Whether a packet of that SSRC is in the buffer.
    pub fn has_ssrc(&self, ssrc: Ssrc) -> (r: bool)
        ensures
            r == self@.holds(ssrc),
    {
        let mut i: usize = 0;
        while i < self.packets.len()
            invariant
                i <= self.packets@.len(),
                forall|j: int| 0 <= j < i ==> #[trigger] self@.packets[j].ssrc != ssrc,
            decreases self.packets@.len() - i,
        {
            if self.packets[i].ssrc == ssrc {
                assert(self@.packets[i as int].ssrc == ssrc);
                return true;
            }
            i = i + 1;
        }
        false
    }

    /// The packet that was sent under `seq_no`.
    pub fn get(&self, seq_no: SeqNo) -> (r: Option<&Packetized>)
        ensures
            match r {
                Some(p) => self@.retained(seq_no) is Some && p@
                    == self@.packets[self@.retained(seq_no)->0],
                None => self@.retained(seq_no) is None,
            },
    {
        let mut i: usize = 0;
        while i < self.packets.len()
            invariant
                i <= self.packets@.len(),
                self@.retained(seq_no) == first_from(self@.packets, numbered(seq_no), i as int),
            decreases self.packets@.len() - i,
        {
            if self.packets[i].seq_no == Some(seq_no) {
                return Some(&self.packets[i]);
            }
            i = i + 1;
        }
        None
    }

    /// The number of the oldest packet, if it has been sent.
    pub fn first_seq_no(&self) -> (r: Option<SeqNo>)
        ensures
            r == self@.first_number(),
    {
        if self.packets.len() == 0 {
            None
        } else {
            self.packets[0].seq_no
        }
    }

    /// How many more packets fit before the oldest have to go.
    pub fn free(&self) -> (n: usize)
        requires
            self@.wf(),
        ensures
            n == self@.max_retain - self@.packets.len(),
    {
        self.max_retain - self.packets.len()
    }

    /// Takes in a sample that was split into `chunks`. Where that makes too many packets, the
    /// oldest go.
    pub fn push_sample(
        &mut self,
        ts: MediaTime,
        chunks: Vec<Vec<u8>>,
        ssrc: Ssrc,
        rid: Option<Rid>,
    )
        requires
            old(self)@.wf(),
        ensures
            final(self)@ == old(self)@.extended(sample_packets(ts, chunks@, ssrc, rid)),
            final(self)@.wf(),
    {
        let ghost before = self@;
        let ghost new = sample_packets(ts, chunks@, ssrc, rid);
        let len: usize = chunks.len();
        let mut i: usize = 0;
        for data in it: chunks
            invariant
                it.seq() == chunks@,
                i == it.index(),
                len == chunks@.len(),
                new == sample_packets(ts, chunks@, ssrc, rid),
                self@ == (TxBufferModel { packets: before.packets + new.take(i as int), ..before }),
        {
            let p = Packetized { ts, data, ssrc, rid, last: i == len - 1, seq_no: None };
            let ghost packets = self@.packets;
            self.packets.push(p);
            assert(self@.packets =~= packets.push(new[i as int]));
            assert(new.take(i + 1) =~= new.take(i as int).push(new[i as int]));
            assert(self@.packets =~= before.packets + new.take(i + 1));
            i = i + 1;
        }
        assert(new.take(len as int) =~= new);
        let total: usize = self.packets.len();
        if total > self.max_retain {
            let gone: usize = total - self.max_retain;
            let ghost packets = self.packets@;
            self.packets = self.packets.split_off(gone);
            assert(packets_model(self.packets@) =~= packets_model(packets).skip(gone as int));
            self.next = if self.next > gone {
                self.next - gone
            } else {
                0
            };
        } else {
            assert((before.packets + new).skip(0) =~= before.packets + new);
        }
        proof {
            let gone = before.surplus(new.len() as int);
            assert(self@ =~= before.extended(new));
            assert forall|j: int| 0 <= j < self@.packets.len() implies (
            #[trigger] self@.packets[j].seq_no is Some <==> j < self@.next) by {
                assert(self@.packets[j] == (before.packets + new)[j + gone]);
                if j + gone < before.packets.len() {
                    assert(self@.packets[j] == before.packets[j + gone]);
                }
            }
        }
    }

    /// Whether a packet is waiting to be sent.
    pub fn has_next(&self) -> (r: bool)
        ensures
            r == self@.pending(),
    {
        self.next < self.packets.len()
    }

    /// The packet that waits in front. It counts as sent: the caller gives it its number.
    pub fn poll_next(&mut self) -> (r: Option<&mut Packetized>)
        requires
            old(self)@.wf(),
        ensures
            match r {
                Some(p) => {
                    &&& old(self)@.pending()
                    &&& p@ == old(self)@.packets[old(self)@.next]
                    &&& final(self)@ == (TxBufferModel {
                        packets: old(self)@.packets.update(old(self)@.next, final(p)@),
                        next: old(self)@.next + 1,
                        ..old(self)@
                    })
                },
                None => !old(self)@.pending() && final(self)@ == old(self)@,
            },
    {
        if self.next < self.packets.len() {
            let i: usize = self.next;
            self.next = i + 1;
            let ghost packets = self.packets@;
            let p = &mut self.packets[i];
            assert(packets_model(packets.update(i as int, *final(p))) =~= packets_model(
                packets,
            ).update(i as int, final(p)@));
            Some(p)
        } else {
            None
        }
    }
}

/// The models of the buffers of several payload types.
pub open spec fn buffers_tx_model(buffers: Seq<(Pt, PacketizingBuffer)>) -> Seq<
    (Pt, TxBufferModel),
> {
    Seq::new(buffers.len(), |i: int| (buffers[i].0, buffers[i].1@))
}

} // verus!
