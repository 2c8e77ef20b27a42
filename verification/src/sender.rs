//! The sending side of one stream of packets.

use crate::ids::{Rid, SeqNo, Ssrc};
use crate::rtcp::{Sdes, SdesModel, SdesType};
use crate::time::Instant;
use vstd::prelude::*;

verus! {

/// A sender of packets under one SSRC.
#[derive(Debug, Clone, Copy, PartialEq, Eq)]
pub struct SenderSource {
    pub ssrc: Ssrc,
    /// The encoding that the sender sends.
    pub rid: Option<Rid>,
    /// The SSRC whose packets this sender resends.
    pub repairs: Option<Ssrc>,
    /// The number of the last packet sent.
    pub last_seq_no: Option<SeqNo>,
    /// When the last packet was sent.
    pub last_used: Option<Instant>,
}

impl SenderSource {
    /// A sender that has sent nothing.
    pub open spec fn fresh(ssrc: Ssrc) -> SenderSource {
        SenderSource { ssrc, rid: None, repairs: None, last_seq_no: None, last_used: None }
    }

    /// The number of the next packet: the one after the last, or `start` for the first packet.
    pub open spec fn upcoming(self, start: SeqNo) -> SeqNo {
        match self.last_seq_no {
            Some(n) => n.next_spec(),
            None => start,
        }
    }

    /// The sender after it has sent a packet.
    pub open spec fn sent(self, now: Instant, start: SeqNo) -> SenderSource {
        SenderSource {
            last_seq_no: Some(self.upcoming(start)),
            last_used: Some(now),
            ..self
        }
    }

    /// The sender with `repairs` filled in, where it is known and was not.
    pub open spec fn repairing(self, repairs: Option<Ssrc>) -> SenderSource {
        if self.repairs is None {
            SenderSource { repairs, ..self }
        } else {
            self
        }
    }

    pub fn new(ssrc: Ssrc) -> (s: SenderSource)
        ensures
            s == SenderSource::fresh(ssrc),
    {
        SenderSource { ssrc, rid: None, repairs: None, last_seq_no: None, last_used: None }
    }

    /// The number for a packet that is sent now. The numbers of a sender are contiguous, from
    /// `start` on.
    pub fn next_seq_no(&mut self, now: Instant, start: SeqNo) -> (n: SeqNo)
        ensures
            n == old(self).upcoming(start),
            *final(self) == old(self).sent(now, start),
    {
        let n = match self.last_seq_no {
            Some(last) => last.next(),
            None => start,
        };
        self.last_seq_no = Some(n);
        self.last_used = Some(now);
        n
    }

    /// The description of the sender that tells the other side its CNAME.
    pub fn create_sdes(&self, cname: &String) -> (d: Sdes)
        ensures
            d@ == (SdesModel { ssrc: self.ssrc, values: seq![(SdesType::CNAME, cname@)] }),
    {
        let mut values: Vec<(SdesType, String)> = Vec::new();
        values.push((SdesType::CNAME, cname.clone()));
        let d = Sdes { ssrc: self.ssrc, values };
        assert(d@.values =~= seq![(SdesType::CNAME, cname@)]);
        d
    }
}

} // verus!
