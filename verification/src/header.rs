//! RTP packet headers.

use crate::ext::ExtensionValues;
use crate::ids::{MediaTime, Pt, SeqNo, Ssrc};
use vstd::prelude::*;

verus! {

/// The values of an RTP header.
#[derive(Debug, Clone, Copy, PartialEq, Eq, Hash)]
pub struct RtpHeader {
    pub marker: bool,
    pub payload_type: Pt,
    pub sequence_number: SeqNo,
    pub timestamp: MediaTime,
    pub ssrc: Ssrc,
    pub ext_vals: ExtensionValues,
    /// Length of the header in bytes, once it has been written.
    pub header_len: usize,
}

impl RtpHeader {
    /// A header without a marker, without extension values and not yet written.
    pub open spec fn blank(pt: Pt, seq_no: SeqNo, ts: MediaTime, ssrc: Ssrc) -> RtpHeader {
        RtpHeader {
            marker: false,
            payload_type: pt,
            sequence_number: seq_no,
            timestamp: ts,
            ssrc,
            ext_vals: ExtensionValues {
                abs_send_time: None,
                mid: None,
                transport_cc: None,
                rid: None,
                rid_repair: None,
            },
            header_len: 0,
        }
    }

    /// A header without a marker, without extension values and not yet written.
    pub fn new(pt: Pt, seq_no: SeqNo, ts: MediaTime, ssrc: Ssrc) -> (h: RtpHeader)
        ensures
            h == RtpHeader::blank(pt, seq_no, ts, ssrc),
    {
        RtpHeader {
            marker: false,
            payload_type: pt,
            sequence_number: seq_no,
            timestamp: ts,
            ssrc,
            ext_vals: ExtensionValues {
                abs_send_time: None,
                mid: None,
                transport_cc: None,
                rid: None,
                rid_repair: None,
            },
            header_len: 0,
        }
    }
}

/// The two bytes in front of the payload of a resend: the wire form of its original number.
pub open spec fn original_number_bytes(seq_no: SeqNo) -> Seq<u8> {
    let wire = seq_no.0 % 0x1_0000;
    seq![(wire / 0x100) as u8, (wire % 0x100) as u8]
}

/// Writes the original number of a resend at `at`, and says how many bytes that took.
pub fn write_original_sequence_number(buf: &mut Vec<u8>, at: usize, seq_no: SeqNo) -> (n: usize)
    requires
        at + 2 <= old(buf).len(),
    ensures
        n == 2,
        final(buf)@ == old(buf)@.update(at as int, original_number_bytes(seq_no)[0]).update(
            at + 1,
            original_number_bytes(seq_no)[1],
        ),
{
    let wire: u64 = seq_no.0 % 0x1_0000;
    buf.set(at, (wire / 0x100) as u8);
    buf.set(at + 1, (wire % 0x100) as u8);
    2
}

} // verus!
