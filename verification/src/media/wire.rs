//! Packets on their way to the wire.

use crate::buffer_tx::PacketModel;
use crate::ext::ExtensionValues;
use crate::header::{original_number_bytes, write_original_sequence_number, RtpHeader};
use crate::ids::{Mid, Pt, SeqNo, Ssrc};
use crate::time::Instant;
use vstd::prelude::*;

verus! {

/// Model of [`PolledPacket`].
#[verifier::ext_equal]
pub ghost struct PolledModel {
    pub header: RtpHeader,
    pub seq_no: SeqNo,
    pub orig_seq_no: Option<SeqNo>,
    pub data: Seq<u8>,
}

/// The header of a packet sent at `now`, with the values of all extensions that the library
/// supports. Those that were not negotiated are left out when the header is written.
pub open spec fn packet_header(
    pt: Pt,
    seq_no: SeqNo,
    packet: PacketModel,
    ssrc: Ssrc,
    mid: Mid,
    now: Instant,
    twcc: u64,
) -> RtpHeader {
    RtpHeader {
        marker: packet.last,
        ext_vals: ExtensionValues {
            abs_send_time: Some(now),
            mid: Some(mid),
            transport_cc: Some((twcc % 0x1_0000) as u16),
            rid: None,
            rid_repair: None,
        },
        ..RtpHeader::blank(pt, seq_no, packet.ts, ssrc)
    }
}

/// A packet to send: its header and its payload, yet to be written in wire form.
#[derive(Debug)]
pub struct PolledPacket {
    pub header: RtpHeader,
    pub seq_no: SeqNo,
    /// The number that the packet was sent under before, if it is sent again.
    pub orig_seq_no: Option<SeqNo>,
    pub data: Vec<u8>,
}

impl View for PolledPacket {
    type V = PolledModel;

    open spec fn view(&self) -> PolledModel {
        PolledModel {
            header: self.header,
            seq_no: self.seq_no,
            orig_seq_no: self.orig_seq_no,
            data: self.data@,
        }
    }
}

/// Length of the buffer that a packet is written to.
pub const PACKET_BUFFER_LEN: usize = 2000;

impl PolledModel {
    /// What stands between the header and the payload: the original number of a resend.
    pub open spec fn prefix(self) -> Seq<u8> {
        match self.orig_seq_no {
            Some(n) => original_number_bytes(n),
            None => Seq::empty(),
        }
    }

    /// A buffer that begins with a header of `header_len` bytes, with the body written behind it.
    pub open spec fn with_body(self, buf: Seq<u8>, header_len: int) -> Seq<u8> {
        buf.take(header_len) + self.prefix() + self.data + buf.skip(
            header_len + self.prefix().len() + self.data.len(),
        )
    }

    /// The length of the body: the payload, and the original number of a resend before it.
    pub open spec fn body_len(self) -> int {
        (self.prefix().len() + self.data.len()) as int
    }

    /// The length of the packet: header, body and padding.
    pub open spec fn packet_len(self, header_len: int, pad_len: int) -> int {
        header_len + self.prefix().len() + self.data.len() + pad_len
    }
}

impl PolledPacket {
    /// Writes the body of the packet behind a header of `header_len` bytes, and says how long it
    /// is. For resends, the original number is inserted before the payload and counts.
    pub fn write_body(&self, buf: &mut Vec<u8>, header_len: usize) -> (body_len: usize)
        requires
            header_len % 4 == 0,
            header_len + self@.body_len() <= old(buf).len(),
        ensures
            body_len == self@.prefix().len() + self@.data.len(),
            final(buf)@ == self@.with_body(old(buf)@, header_len as int),
    {
        let ghost before = buf@;
        let mut at: usize = header_len;
        if let Some(n) = self.orig_seq_no {
            at = at + write_original_sequence_number(buf, at, n);
        }
        let ghost written = buf@;
        let len: usize = self.data.len();
        let mut i: usize = 0;
        while i < len
            invariant
                i <= len == self.data@.len(),
                at + len <= buf@.len() == written.len(),
                buf@.len() <= usize::MAX,
                forall|j: int| 0 <= j < i ==> buf@[at + j] == #[trigger] self.data@[j],
                forall|j: int|
                    0 <= j < at || at + i <= j < written.len() ==> buf@[j] == #[trigger] written[j],
            decreases len - i,
        {
            buf.set(at + i, self.data[i]);
            i = i + 1;
        }
        proof {
            let want = self@.with_body(before, header_len as int);
            assert(at == header_len + self@.prefix().len());
            assert(want.len() == buf@.len());
            assert forall|j: int| 0 <= j < want.len() implies buf@[j] == want[j] by {
                if at <= j < at + len {
                    assert(buf@[at + (j - at)] == self.data@[j - at]);
                } else {
                    assert(buf@[j] == written[j]);
                }
            }
            assert(buf@ =~= want);
        }
        at - header_len + len
    }

    /// The finished packet, where `buf` holds header, body and `pad_len` bytes of padding, and
    /// perhaps more. The packet is as long as these three.
    pub fn finish(self, buf: Vec<u8>, header_len: usize, pad_len: usize) -> (r: (
        RtpHeader,
        Vec<u8>,
        SeqNo,
    ))
        requires
            self@.packet_len(header_len as int, pad_len as int) <= usize::MAX,
        ensures
            r.0 == (RtpHeader { header_len, ..self@.header }),
            r.1@ == (if self@.packet_len(header_len as int, pad_len as int) <= buf@.len() {
                buf@.take(self@.packet_len(header_len as int, pad_len as int))
            } else {
                buf@
            }),
            r.2 == self@.seq_no,
    {
        let mut header = self.header;
        header.header_len = header_len;
        let mut buf = buf;
        let prefix_len: usize = if self.orig_seq_no.is_some() {
            2
        } else {
            0
        };
        let len: usize = header_len + prefix_len + self.data.len() + pad_len;
        buf.truncate(len);
        (header, buf, self.seq_no)
    }
}

} // verus!
