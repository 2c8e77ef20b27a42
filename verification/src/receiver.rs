//! The receiving side of one stream of packets.

use crate::ids::{Rid, Ssrc};
use crate::rtcp::SenderInfo;
use crate::time::Instant;
use vstd::prelude::*;

verus! {

/// A receiver of packets under one SSRC, which stays the same.
#[derive(Debug)]
pub struct ReceiverSource {
    ssrc: Ssrc,
    /// The encoding that the receiver receives.
    rid: Option<Rid>,
    /// The SSRC whose packets this receiver gets resends of.
    repairs: Option<Ssrc>,
    /// When the receiver was last of use.
    last_used: Instant,
    /// The last information that the other side's sender gave of itself, and when it came.
    sender_info: Option<SenderInfo>,
    sender_info_at: Option<Instant>,
    /// The number of the next full intra request.
    fir_seq_no: u8,
}

/// Model of [`ReceiverSource`].
#[verifier::ext_equal]
pub ghost struct ReceiverModel {
    pub ssrc: Ssrc,
    pub rid: Option<Rid>,
    pub repairs: Option<Ssrc>,
    pub last_used: Instant,
    pub sender_info: Option<SenderInfo>,
    pub sender_info_at: Option<Instant>,
    pub fir_seq_no: u8,
}

impl View for ReceiverSource {
    type V = ReceiverModel;

    closed spec fn view(&self) -> ReceiverModel {
        ReceiverModel {
            ssrc: self.ssrc,
            rid: self.rid,
            repairs: self.repairs,
            last_used: self.last_used,
            sender_info: self.sender_info,
            sender_info_at: self.sender_info_at,
            fir_seq_no: self.fir_seq_no,
        }
    }
}

/// The models of receivers.
pub open spec fn receivers_model(rx: Seq<ReceiverSource>) -> Seq<ReceiverModel> {
    Seq::new(rx.len(), |i: int| rx[i]@)
}

impl ReceiverModel {
    /// A receiver of which nothing but the SSRC is known.
    pub open spec fn fresh(ssrc: Ssrc, now: Instant) -> ReceiverModel {
        ReceiverModel {
            ssrc,
            rid: None,
            repairs: None,
            last_used: now,
            sender_info: None,
            sender_info_at: None,
            fir_seq_no: 0,
        }
    }

    /// Whether the receiver gets resends of another one's packets.
    pub open spec fn rtx(self) -> bool {
        self.repairs is Some
    }

    /// The receiver with `repairs` filled in, where it is known and was not.
    pub open spec fn repairing(self, repairs: Option<Ssrc>) -> ReceiverModel {
        if self.repairs is None {
            ReceiverModel { repairs, ..self }
        } else {
            self
        }
    }

    /// The receiver with `rid` filled in, where it is known and was not.
    pub open spec fn encoding(self, rid: Option<Rid>) -> ReceiverModel {
        if self.rid is None {
            ReceiverModel { rid, ..self }
        } else {
            self
        }
    }

    /// The receiver after one more full intra request. The numbers go round after 255.
    pub open spec fn fir_requested(self) -> ReceiverModel {
        ReceiverModel {
            fir_seq_no: if self.fir_seq_no == 255 {
                0u8
            } else {
                (self.fir_seq_no + 1) as u8
            },
            ..self
        }
    }
}

impl ReceiverSource {
    pub(crate) fn new(ssrc: Ssrc, now: Instant) -> (s: ReceiverSource)
        ensures
            s@ == ReceiverModel::fresh(ssrc, now),
    {
        ReceiverSource {
            ssrc,
            rid: None,
            repairs: None,
            last_used: now,
            sender_info: None,
            sender_info_at: None,
            fir_seq_no: 0,
        }
    }

    pub fn ssrc(&self) -> (r: Ssrc)
        ensures
            r == self@.ssrc,
    {
        self.ssrc
    }

    /// The encoding that the receiver receives, if it is known.
    pub fn rid(&self) -> (r: Option<Rid>)
        ensures
            r == self@.rid,
    {
        self.rid
    }

    pub fn set_rid(&mut self, rid: Rid)
        ensures
            final(self)@ == (ReceiverModel { rid: Some(rid), ..old(self)@ }),
    {
        self.rid = Some(rid);
    }

    /// The SSRC whose packets this receiver gets resends of, if it does and it is known.
    pub fn repairs(&self) -> (r: Option<Ssrc>)
        ensures
            r == self@.repairs,
    {
        self.repairs
    }

    pub fn set_repairs(&mut self, ssrc: Ssrc)
        ensures
            final(self)@ == (ReceiverModel { repairs: Some(ssrc), ..old(self)@ }),
    {
        self.repairs = Some(ssrc);
    }

    pub fn is_rtx(&self) -> (r: bool)
        ensures
            r == self@.rtx(),
    {
        self.repairs.is_some()
    }

    /// When the receiver was last of use.
    pub fn last_used(&self) -> (r: Instant)
        ensures
            r == self@.last_used,
    {
        self.last_used
    }

    /// The number for a full intra request that is sent now.
    pub fn next_fir_seq_no(&mut self) -> (n: u8)
        ensures
            n == old(self)@.fir_seq_no,
            final(self)@ == old(self)@.fir_requested(),
    {
        let n: u8 = self.fir_seq_no;
        self.fir_seq_no = if n == 255 {
            0
        } else {
            n + 1
        };
        n
    }

    /// The last information that the other side's sender gave of itself.
    pub fn sender_info(&self) -> (r: Option<SenderInfo>)
        ensures
            r == self@.sender_info,
    {
        self.sender_info
    }

    /// When the last information of the other side's sender came.
    pub fn sender_info_at(&self) -> (r: Option<Instant>)
        ensures
            r == self@.sender_info_at,
    {
        self.sender_info_at
    }

    /// Takes note of what the other side's sender says of itself.
    pub fn set_sender_info(&mut self, now: Instant, info: SenderInfo)
        ensures
            final(self)@ == (ReceiverModel {
                sender_info: Some(info),
                sender_info_at: Some(now),
                ..old(self)@
            }),
    {
        self.sender_info = Some(info);
        self.sender_info_at = Some(now);
    }
}

} // verus!
